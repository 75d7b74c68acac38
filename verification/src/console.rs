//! The single-window mixing console: channels with a merge mode and
//! fixtures made of consecutive channels.
use vstd::prelude::*;
use crate::text::{decimal_string, spec_decimal, push_decimal, string_from_chars};

verus! {

broadcast use vstd::string::group_string_axioms;

/// How a new level is merged into a channel.
#[derive(Clone, Copy, Debug, PartialEq, Eq, Structural)]
pub enum Mode {
    /// Latest takes precedence.
    LTP,
    /// Highest takes precedence.
    HTP,
    /// Saturating addition.
    ADD,
    /// Saturating subtraction.
    SUB,
    /// The channel's own default mode.
    DEFAULT,
}

pub open spec fn spec_mode_name(mode: Mode) -> Seq<char> {
    match mode {
        Mode::LTP => "LTP"@,
        Mode::HTP => "HTP"@,
        Mode::ADD => "ADD"@,
        Mode::SUB => "SUB"@,
        Mode::DEFAULT => "DEFAULT"@,
    }
}

impl Mode {
    /// The name of the mode.
    pub fn string(&self) -> (s: String)
        ensures
            s@ == spec_mode_name(*self),
    {
        match *self {
            Mode::LTP => "LTP".to_string(),
            Mode::HTP => "HTP".to_string(),
            Mode::ADD => "ADD".to_string(),
            Mode::SUB => "SUB".to_string(),
            Mode::DEFAULT => "DEFAULT".to_string(),
        }
    }
}

/// A level together with the mode it is to be merged with.
#[derive(Debug, Clone, Copy, PartialEq, Eq, Structural)]
pub struct Value {
    pub value: u8,
    pub mode: Mode,
}

impl Value {
    pub fn new(mode: Mode, value: u8) -> (v: Value)
        ensures
            v == (Value { value, mode }),
    {
        Value { value, mode }
    }

    /// Full level.
    pub fn on(mode: Mode) -> (v: Value)
        ensures
            v == (Value { value: 255, mode }),
    {
        Value { value: 255, mode }
    }

    /// Zero level.
    pub fn off(mode: Mode) -> (v: Value)
        ensures
            v == (Value { value: 0, mode }),
    {
        Value { value: 0, mode }
    }
}

/// Kinds of fixtures that `Fixture::new_with_type` builds.
#[derive(Clone, Copy, Debug, PartialEq, Eq, Structural)]
pub enum Type {
    Single,
    RGB,
}

/// A console channel; `out_patch` is the bus address it is patched to.
#[derive(Debug)]
pub struct Channel {
    pub out_patch: usize,
    pub value: u8,
    pub name: String,
    pub default_mode: Mode,
    pub mode_selected_idx: Option<usize>,
    pub fader_value: u8,
    pub fader_enabled: bool,
}

/// The level of a channel at `current` after merging `v` into it, where
/// `default_mode` stands in for `Mode::DEFAULT`.
pub open spec fn spec_merge(current: u8, default_mode: Mode, v: Value) -> u8 {
    let mode = if v.mode == Mode::DEFAULT { default_mode } else { v.mode };
    match mode {
        Mode::LTP => v.value,
        Mode::HTP => if current < v.value { v.value } else { current },
        Mode::ADD => if current + v.value > 255 { 255 } else { (current + v.value) as u8 },
        Mode::SUB => if current < v.value { 0 } else { (current - v.value) as u8 },
        Mode::DEFAULT => v.value,
    }
}

impl Channel {
    /// A dark channel patched to `patch`, merging with LTP by default, with
    /// its fader disabled.
    pub fn new(patch: usize, name: String) -> (c: Channel)
        ensures
            c.out_patch == patch,
            c.value == 0,
            c.name == name,
            c.default_mode == Mode::LTP,
            c.mode_selected_idx is None,
            c.fader_value == 0,
            !c.fader_enabled,
    {
        Channel {
            out_patch: patch,
            value: 0,
            name,
            default_mode: Mode::LTP,
            mode_selected_idx: None,
            fader_value: 0,
            fader_enabled: false,
        }
    }

    /// Merges `v` into the channel and returns the frame `(out_patch, level)`
    /// to send to the interface.
    pub fn set(&mut self, v: Value) -> (frame: (usize, u8))
        ensures
            final(self).value == spec_merge(old(self).value, old(self).default_mode, v),
            frame == (old(self).out_patch, final(self).value),
            final(self).out_patch == old(self).out_patch,
            final(self).name == old(self).name,
            final(self).default_mode == old(self).default_mode,
            final(self).mode_selected_idx == old(self).mode_selected_idx,
            final(self).fader_value == old(self).fader_value,
            final(self).fader_enabled == old(self).fader_enabled,
    {
        let value = v.value;
        let mode = if let Mode::DEFAULT = v.mode { self.default_mode } else { v.mode };
        match mode {
            Mode::LTP => self.value = value,
            Mode::HTP => {
                if self.value < value {
                    self.value = value
                }
            },
            Mode::ADD => self.value = self.value.saturating_add(value),
            Mode::SUB => self.value = self.value.saturating_sub(value),
            Mode::DEFAULT => self.value = value,
        }
        (self.out_patch, self.value)
    }

    /// A fader that is not enabled follows the channel's level.
    pub fn sync_fader(&mut self)
        ensures
            old(self).fader_enabled ==> *final(self) == *old(self),
            !old(self).fader_enabled ==> *final(self) == (Channel { fader_value: old(self).value, ..*old(self) }),
    {
        if !self.fader_enabled {
            self.fader_value = self.value;
        }
    }

    /// Moves the fader to `v`. Where that changes the fader, `v` is merged
    /// into the channel with its default mode and the frame to send is
    /// returned; a fader moved to where it stands changes nothing.
    pub fn move_fader(&mut self, v: u8) -> (frame: Option<(usize, u8)>)
        ensures
            v == old(self).fader_value ==> frame is None && *final(self) == *old(self),
            v != old(self).fader_value ==> {
                &&& final(self).value == spec_merge(old(self).value, old(self).default_mode, Value { value: v, mode: Mode::DEFAULT })
                &&& *final(self) == (Channel { fader_value: v, value: final(self).value, ..*old(self) })
                &&& frame == Some((old(self).out_patch, final(self).value))
            },
    {
        if v != self.fader_value {
            self.fader_value = v;
            Some(self.set(Value::new(Mode::DEFAULT, v)))
        } else {
            None
        }
    }

    /// Picks entry `index` of the mode list (see `mode_choices`): a mode
    /// enables the fader and becomes the default mode; the automatic entry
    /// disables the fader and keeps the default mode.
    pub fn select_mode(&mut self, index: usize)
        ensures
            final(self).mode_selected_idx == Some(index),
            final(self).fader_enabled == spec_mode_choice(index) is Some,
            final(self).default_mode == match spec_mode_choice(index) {
                Some(m) => m,
                None => old(self).default_mode,
            },
            final(self).out_patch == old(self).out_patch,
            final(self).value == old(self).value,
            final(self).name == old(self).name,
            final(self).fader_value == old(self).fader_value,
    {
        self.mode_selected_idx = Some(index);
        match mode_choice(index) {
            Some(m) => {
                self.fader_enabled = true;
                self.default_mode = m;
            },
            None => {
                self.fader_enabled = false;
            },
        }
    }

    /// The label of the mode list: `A` while the fader is automatic, else
    /// the name of the default mode.
    pub fn mode_label(&self) -> (s: String)
        ensures
            !self.fader_enabled ==> s@ == "A"@,
            self.fader_enabled ==> s@ == spec_mode_name(self.default_mode),
    {
        if !self.fader_enabled {
            "A".to_string()
        } else {
            self.default_mode.string()
        }
    }
}

/// The mode of entry `index` of the mode list `A, LTP, HTP, ADD, SUB`; the
/// first entry, automatic, stands for no mode.
pub open spec fn spec_mode_choice(index: usize) -> Option<Mode> {
    if index == 1 {
        Some(Mode::LTP)
    } else if index == 2 {
        Some(Mode::HTP)
    } else if index == 3 {
        Some(Mode::ADD)
    } else if index == 4 {
        Some(Mode::SUB)
    } else {
        None
    }
}

/// See `spec_mode_choice`.
pub fn mode_choice(index: usize) -> (m: Option<Mode>)
    ensures
        m == spec_mode_choice(index),
{
    if index == 1 {
        Some(Mode::LTP)
    } else if index == 2 {
        Some(Mode::HTP)
    } else if index == 3 {
        Some(Mode::ADD)
    } else if index == 4 {
        Some(Mode::SUB)
    } else {
        None
    }
}

/// The entries of the mode list, in order.
pub fn mode_choices() -> (v: Vec<String>)
    ensures
        v@.len() == 5,
        v@[0]@ == "A"@,
        forall|i: int| 1 <= i < 5 ==> #[trigger] v@[i]@ == spec_mode_name(spec_mode_choice(i as usize).unwrap()),
{
    let mut v: Vec<String> = Vec::new();
    v.push("A".to_string());
    v.push("LTP".to_string());
    v.push("HTP".to_string());
    v.push("ADD".to_string());
    v.push("SUB".to_string());
    v
}

/// The label of a fader: its level, or nothing at zero.
pub fn fader_label(value: u8) -> (s: String)
    ensures
        value > 0 ==> s@ == spec_decimal(value as nat),
        value == 0 ==> s@.len() == 0,
{
    if value > 0 {
        decimal_string(value as usize)
    } else {
        String::new()
    }
}

/// A named group of console channels.
#[derive(Debug)]
pub struct Fixture {
    pub channels: Vec<Channel>,
    pub name: String,
}

/// The number of channels beyond the first that `Fixture::new` creates: the
/// distance of the two bounds, taken as `i16`.
pub open spec fn spec_channel_span(start_channel: usize, end_channel: usize) -> int {
    let d = (end_channel as i16) - (start_channel as i16);
    if d < 0 { -d } else { d }
}

/// Whether channel `c` of a fixture is patched to `patch` and named `name`,
/// dark, and merging with LTP.
pub open spec fn fresh_channel(c: Channel, patch: int, name: Seq<char>) -> bool {
    &&& c.out_patch == patch
    &&& c.name@ == name
    &&& c.value == 0
    &&& c.default_mode == Mode::LTP
    &&& c.mode_selected_idx is None
    &&& c.fader_value == 0
    &&& !c.fader_enabled
}

impl Fixture {
    /// A single-channel fixture at `start_channel`, or an RGB fixture with
    /// channels R, G and B at `start_channel` and the two after it.
    pub fn new_with_type(t: Type, name: String, start_channel: usize) -> (f: Fixture)
        requires
            t == Type::RGB ==> start_channel + 2 <= usize::MAX,
        ensures
            f.name == name,
            t == Type::Single ==> f.channels.len() == 1 && fresh_channel(f.channels[0], start_channel as int, ""@),
            t == Type::RGB ==> {
                &&& f.channels.len() == 3
                &&& fresh_channel(f.channels[0], start_channel as int, "R"@)
                &&& fresh_channel(f.channels[1], start_channel + 1, "G"@)
                &&& fresh_channel(f.channels[2], start_channel + 2, "B"@)
            },
    {
        match t {
            Type::Single => {
                let mut channels: Vec<Channel> = Vec::new();
                channels.push(Channel::new(start_channel, "".to_string()));
                Fixture { channels, name }
            },
            Type::RGB => {
                let mut channels: Vec<Channel> = Vec::new();
                channels.push(Channel::new(start_channel, "R".to_string()));
                channels.push(Channel::new(start_channel + 1, "G".to_string()));
                channels.push(Channel::new(start_channel + 2, "B".to_string()));
                Fixture { channels, name }
            },
        }
    }

    /// A fixture with one channel for every address from `start_channel` on,
    /// `span + 1` channels in all where `span` is the distance of the bounds,
    /// each named after its position.
    pub fn new(start_channel: usize, end_channel: usize, name: String) -> (f: Fixture)
        requires
            -32767 <= (end_channel as i16) - (start_channel as i16) <= 32767,
            start_channel + spec_channel_span(start_channel, end_channel) <= usize::MAX,
        ensures
            f.name == name,
            f.channels.len() == spec_channel_span(start_channel, end_channel) + 1,
            forall|i: int|
                0 <= i < f.channels.len() ==> fresh_channel(
                    #[trigger] f.channels[i],
                    start_channel + i,
                    spec_decimal(i as nat),
                ),
    {
        #[verifier::truncate]
        let e: i16 = end_channel as i16;
        #[verifier::truncate]
        let s: i16 = start_channel as i16;
        let d: i16 = e - s;
        let delta: usize = if d < 0 { (-d) as usize } else { d as usize };
        let mut channels: Vec<Channel> = Vec::new();
        let mut channel: usize = 0;
        while channel <= delta
            invariant
                delta == spec_channel_span(start_channel, end_channel),
                start_channel + delta <= usize::MAX,
                channel <= delta + 1,
                channels.len() == channel,
                forall|i: int|
                    0 <= i < channels.len() ==> fresh_channel(
                        #[trigger] channels[i],
                        start_channel + i,
                        spec_decimal(i as nat),
                    ),
            decreases delta + 1 - channel,
        {
            channels.push(Channel::new(start_channel + channel, decimal_string(channel)));
            channel = channel + 1;
        }
        Fixture { channels, name }
    }
}

/// Merging with HTP never lowers a channel, and raises it to the new level
/// exactly when that level is higher.
pub proof fn lemma_htp_never_lowers(current: u8, default_mode: Mode, value: u8)
    ensures
        spec_merge(current, default_mode, Value { value, mode: Mode::HTP }) >= current,
        spec_merge(current, default_mode, Value { value, mode: Mode::HTP }) >= value,
        spec_merge(current, default_mode, Value { value, mode: Mode::HTP }) == current
            || spec_merge(current, default_mode, Value { value, mode: Mode::HTP }) == value,
{
}

/// LTP sets the level given, whatever the channel stood at.
pub proof fn lemma_ltp_sets(current: u8, default_mode: Mode, value: u8)
    ensures
        spec_merge(current, default_mode, Value { value, mode: Mode::LTP }) == value,
{
}

/// ADD and SUB saturate at the ends of the level range, and undo each other
/// where neither saturates.
pub proof fn lemma_add_sub(current: u8, default_mode: Mode, value: u8)
    ensures
        current + value <= 255 ==> spec_merge(
            spec_merge(current, default_mode, Value { value, mode: Mode::ADD }),
            default_mode,
            Value { value, mode: Mode::SUB },
        ) == current,
        current + value > 255 ==> spec_merge(current, default_mode, Value { value, mode: Mode::ADD }) == 255,
        current < value ==> spec_merge(current, default_mode, Value { value, mode: Mode::SUB }) == 0,
{
}

/// A value in the DEFAULT mode is merged as the channel's default mode says.
pub proof fn lemma_default_mode(current: u8, default_mode: Mode, value: u8)
    requires
        default_mode != Mode::DEFAULT,
    ensures
        spec_merge(current, default_mode, Value { value, mode: Mode::DEFAULT }) == spec_merge(
            current,
            default_mode,
            Value { value, mode: default_mode },
        ),
{
}

/// The text sent to the interface bridge for a frame: the channel, `c`,
/// the level, `w`.
pub open spec fn spec_interface_message(channel: usize, value: u8) -> Seq<char> {
    spec_decimal(channel as nat) + "c"@ + spec_decimal(value as nat) + "w"@
}

/// Frame text for the interface bridge (see `spec_interface_message`).
pub fn interface_message(channel: usize, value: u8) -> (s: String)
    ensures
        s@ == spec_interface_message(channel, value),
{
    let mut v: Vec<char> = Vec::new();
    push_decimal(channel, &mut v);
    v.push('c');
    push_decimal(value as usize, &mut v);
    v.push('w');
    proof {
        reveal_strlit("c");
        reveal_strlit("w");
        assert(v@ =~= spec_interface_message(channel, value));
    }
    string_from_chars(&v)
}

} // verus!
