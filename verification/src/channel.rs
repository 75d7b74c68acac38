use vstd::prelude::*;
use crate::types::{DmxAddress, DmxValue};

verus! {

/// One DMX channel of the stage. `value` is the level that the switches and
/// fades ask for; `current_value`, the level on the bus, is raised to
/// `preheat_value` while preheating is active. Every change of the level on
/// the bus yields a frame `(address, level)` for the interface.
#[derive(Debug, Clone, Copy)]
pub struct Channel {
    pub value: DmxValue,
    pub current_value: DmxValue,
    pub preheat_value: DmxValue,
    pub preheat_state: bool,
    pub preheating: bool,
    pub address: DmxAddress,
}

/// The channel after `set(value)`, and the frame that the call yields.
pub open spec fn spec_set(c: Channel, value: DmxValue) -> (Channel, Option<(DmxAddress, DmxValue)>) {
    if value == c.current_value {
        (c, None)
    } else {
        let requested = if c.preheating { c.value } else { value };
        let sent = if c.preheat_state && c.preheat_value > requested { c.preheat_value } else { value };
        (Channel { value: requested, current_value: sent, ..c }, Some((c.address, sent)))
    }
}

impl Channel {
    pub open spec fn new_spec(address: DmxAddress, old_value: DmxValue, preheat_value: DmxValue) -> Channel {
        Channel {
            value: old_value,
            current_value: old_value,
            preheat_value,
            preheat_state: false,
            preheating: false,
            address,
        }
    }

    /// A channel at `address` that stands at `old_value`; its first frame,
    /// `(address, old_value)`, is `frame()`.
    pub fn new(address: DmxAddress, old_value: DmxValue, preheat_value: DmxValue) -> (c: Channel)
        ensures
            c == Channel::new_spec(address, old_value, preheat_value),
    {
        Channel {
            value: old_value,
            current_value: old_value,
            preheat_value,
            preheat_state: false,
            preheating: false,
            address,
        }
    }

    /// The level on the bus.
    pub fn get(&self) -> (v: DmxValue)
        ensures
            v == self.current_value,
    {
        self.current_value
    }

    /// The frame that puts the current level on the bus.
    pub fn frame(&self) -> (f: (DmxAddress, DmxValue))
        ensures
            f == (self.address, self.current_value),
    {
        (self.address, self.current_value)
    }

    /// Sets the channel to `value`. Nothing changes when `value` is already on
    /// the bus. Otherwise the requested level becomes `value` unless a preheat
    /// fade is running, the bus level becomes `value`, or `preheat_value`
    /// where preheating is active and it exceeds the requested level, and the
    /// frame with the new bus level is returned.
    pub fn set(&mut self, value: DmxValue) -> (frame: Option<(DmxAddress, DmxValue)>)
        ensures
            (*final(self), frame) == spec_set(*old(self), value),
    {
        if value == self.current_value {
            return None;
        }
        if !self.preheating {
            self.value = value;
        }
        if self.preheat_state {
            if self.preheat_value > self.value {
                self.current_value = self.preheat_value;
            } else {
                self.current_value = value;
            }
        } else {
            self.current_value = value;
        }
        Some((self.address, self.current_value))
    }

    pub fn activate_preheat(&mut self)
        ensures
            *final(self) == (Channel { preheat_state: true, ..*old(self) }),
    {
        self.preheat_state = true;
    }

    pub fn deactivate_preheat(&mut self)
        ensures
            *final(self) == (Channel { preheat_state: false, ..*old(self) }),
    {
        self.preheat_state = false;
    }
}

/// Without preheating, the level that is set is the level on the bus, and a
/// frame is sent exactly when the level changes.
pub proof fn lemma_set_then_get(c: Channel, value: DmxValue)
    requires
        !c.preheat_state,
    ensures
        spec_set(c, value).0.current_value == value,
        spec_set(c, value).1 is Some <==> value != c.current_value,
{
}

/// Setting the same level twice sends one frame at most: the second call
/// changes nothing.
pub proof fn lemma_set_idempotent(c: Channel, value: DmxValue)
    requires
        !c.preheat_state || spec_set(c, value).0.current_value == value,
    ensures
        spec_set(spec_set(c, value).0, value) == (spec_set(c, value).0, None::<(DmxAddress, DmxValue)>),
{
}

/// While preheating is active (and no preheat fade runs), a change puts the
/// larger of the new level and the preheat level on the bus.
pub proof fn lemma_preheat_floor(c: Channel, value: DmxValue)
    requires
        c.preheat_state,
        !c.preheating,
        value != c.current_value,
    ensures
        spec_set(c, value).0.current_value == (if c.preheat_value > value { c.preheat_value } else { value }),
{
}

/// With preheat active, a change puts the preheat level on the bus exactly
/// when it exceeds the level the channel asks for after the call (which a
/// preheat fade leaves as it was), and the given level otherwise; the frame
/// carries the level put on the bus.
pub proof fn lemma_preheat_against_requested(c: Channel, value: DmxValue)
    requires
        c.preheat_state,
        value != c.current_value,
    ensures
        ({
            let (c2, frame) = spec_set(c, value);
            &&& c2.value == (if c.preheating { c.value } else { value })
            &&& c2.current_value == (if c.preheat_value > c2.value { c.preheat_value } else { value })
            &&& frame == Some((c.address, c2.current_value))
            &&& c2.preheat_value == c.preheat_value
        }),
{
}

} // verus!
