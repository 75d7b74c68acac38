use bitdmx::protocol::{decode_message, get_start_chaser, get_switch_update, ControlMessage};

#[test]
fn switch_update_packs_address_big_endian() {
    assert_eq!(get_switch_update(false, 0x0102, 200), vec![1, 1, 2, 200]);
    assert_eq!(get_switch_update(true, 5, 0), vec![129, 0, 5, 0]);
    assert_eq!(get_switch_update(false, 65535, 255), vec![1, 255, 255, 255]);
}

#[test]
fn start_chaser_uses_its_own_command() {
    assert_eq!(get_start_chaser(false, 300, 255), vec![2, 1, 44, 255]);
    assert_eq!(get_start_chaser(true, 300, 0), vec![130, 1, 44, 0]);
}

#[test]
fn decode_splits_fields() {
    let m = decode_message([129, 1, 44, 17]);
    assert_eq!(m, ControlMessage { kind: 1, shift: true, address: 300, value: 17 });
    let m = decode_message([0, 0, 0, 0]);
    assert_eq!(m, ControlMessage { kind: 0, shift: false, address: 0, value: 0 });
}

#[test]
fn decode_roundtrip_of_switch_update() {
    for &(shift, addr, value) in &[(false, 0u16, 0u8), (true, 258, 99), (false, 65535, 255), (true, 1, 1)] {
        let v = get_switch_update(shift, addr, value);
        let m = decode_message([v[0], v[1], v[2], v[3]]);
        assert_eq!(m, ControlMessage { kind: 1, shift, address: addr, value });
        let v = get_start_chaser(shift, addr, value);
        let m = decode_message([v[0], v[1], v[2], v[3]]);
        assert_eq!(m, ControlMessage { kind: 2, shift, address: addr, value });
    }
}
