use vstd::prelude::*;

verus! {

/// Command byte of a switch update sent by the control surface.
pub const SWITCH_UPDATE: u8 = 1;

/// Command byte of a chaser start/stop request sent by the control surface.
pub const START_CHASER: u8 = 2;

/// The four bytes of a control message: the command (with the shift flag in
/// the high bit), the address in big-endian order, and the value.
pub open spec fn spec_control_message(command: u8, shift_state: bool, addr: u16, value: u8) -> Seq<u8> {
    seq![
        if shift_state { (command + 128) as u8 } else { command },
        (addr / 256) as u8,
        (addr % 256) as u8,
        value,
    ]
}

fn control_message(command: u8, shift_state: bool, addr: u16, value: u8) -> (r: Vec<u8>)
    requires
        command < 128,
    ensures
        r@ == spec_control_message(command, shift_state, addr, value),
{
    let addr_high = (addr >> 8) as u8;
    let addr_low = addr as u8;
    assert(addr >> 8 == addr / 256 && (addr as u8) == addr % 256) by (bit_vector);
    let first = if shift_state { command + 128 } else { command };
    let mut r: Vec<u8> = Vec::new();
    r.push(first);
    r.push(addr_high);
    r.push(addr_low);
    r.push(value);
    r
}

/// Message that sets the dimmer of switch `addr` to `value`; the shift
/// flag is carried in the high bit of the command byte.
pub fn get_switch_update(shift_state: bool, addr: u16, value: u8) -> (r: Vec<u8>)
    ensures
        r@ == spec_control_message(SWITCH_UPDATE, shift_state, addr, value),
        r@ == seq![if shift_state { 129u8 } else { 1u8 }, (addr / 256) as u8, (addr % 256) as u8, value],
{
    control_message(SWITCH_UPDATE, shift_state, addr, value)
}

/// Message that starts (`value != 0`) or stops the chaser of switch `addr`.
pub fn get_start_chaser(shift_state: bool, addr: u16, value: u8) -> (r: Vec<u8>)
    ensures
        r@ == spec_control_message(START_CHASER, shift_state, addr, value),
        r@ == seq![if shift_state { 130u8 } else { 2u8 }, (addr / 256) as u8, (addr % 256) as u8, value],
{
    control_message(START_CHASER, shift_state, addr, value)
}

/// A control message as read from the network.
#[derive(Debug, Clone, Copy, PartialEq, Eq, Structural)]
pub struct ControlMessage {
    /// Command without the shift flag: 0 channel, 1 switch, 2 chaser.
    pub kind: u8,
    /// Whether the shift flag (high bit of the command byte) was set.
    pub shift: bool,
    pub address: u16,
    pub value: u8,
}

pub open spec fn spec_decode_message(buf: Seq<u8>) -> ControlMessage
    recommends
        buf.len() == 4,
{
    ControlMessage {
        kind: (buf[0] % 128) as u8,
        shift: buf[0] >= 128,
        address: (buf[1] * 256 + buf[2]) as u16,
        value: buf[3],
    }
}

/// Splits a received control message into its fields.
pub fn decode_message(buf: [u8; 4]) -> (m: ControlMessage)
    ensures
        m == spec_decode_message(buf@),
{
    let b0 = buf[0];
    let b1 = buf[1];
    let b2 = buf[2];
    let kind = b0 & 127;
    assert(b0 & 127 == b0 % 128) by (bit_vector);
    assert((b1 as u16) << 8 == b1 * 256) by (bit_vector);
    let address: u16 = ((b1 as u16) << 8) + (b2 as u16);
    ControlMessage { kind, shift: b0 >= 128, address, value: buf[3] }
}

/// Decoding a message built by `get_switch_update` or `get_start_chaser`
/// gives back its command, shift flag, address and value.
pub proof fn lemma_control_message_roundtrip(command: u8, shift_state: bool, addr: u16, value: u8)
    requires
        command < 128,
    ensures
        spec_decode_message(spec_control_message(command, shift_state, addr, value)) == (ControlMessage {
            kind: command,
            shift: shift_state,
            address: addr,
            value,
        }),
{
    let s = spec_control_message(command, shift_state, addr, value);
    assert(((addr / 256) as u8) * 256 + ((addr % 256) as u8) == addr);
}

} // verus!
