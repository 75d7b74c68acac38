use vstd::prelude::*;

verus! {

/// Duration of a fade in milliseconds.
pub type FadeTime = usize;

/// Number of a DMX channel as used by the fixture description files.
pub type DmxChannel = u16;

/// Address of a channel on the DMX bus (the first channel is 1).
pub type DmxAddress = u16;

/// Level of a DMX channel.
pub type DmxValue = u8;

/// Number of fade steps per second.
pub const FADE_TICKS: FadeTime = 30;

} // verus!
