//! Groups of channels that are faded together. A fade is not run here: the
//! group describes it as a `FadeCommand`, which the caller carries out step
//! by step on the stage's channels.
use vstd::prelude::*;
use crate::types::{DmxAddress, DmxValue, FadeTime, FADE_TICKS};
use crate::fade_curve::FadeCurve;

verus! {

/// The levels a switch asks of a channel group, with the curve and time of
/// the fade in and of the fade out.
pub type ChannelGroupValue = (Vec<DmxValue>, (FadeCurve, FadeTime), (FadeCurve, FadeTime));

/// Copy of a `ChannelGroupValue`.
pub fn clone_group_value(v: &ChannelGroupValue) -> (r: ChannelGroupValue)
    ensures
        r.0@ == v.0@,
        r.1 == v.1,
        r.2 == v.2,
{
    let mut values: Vec<DmxValue> = Vec::new();
    let mut i: usize = 0;
    while i < v.0.len()
        invariant
            i <= v.0@.len(),
            values@ == v.0@.subrange(0, i as int),
        decreases v.0@.len() - i,
    {
        values.push(v.0[i]);
        i = i + 1;
        assert(values@ =~= v.0@.subrange(0, i as int));
    }
    assert(values@ =~= v.0@);
    (values, ((v.1).0.clone(), (v.1).1), ((v.2).0.clone(), (v.2).1))
}

/// A switch that holds a channel group, with the levels it asks for.
pub struct ActiveSwitchView {
    pub switch_id: usize,
    pub values: Seq<DmxValue>,
    pub fade_in: (FadeCurve, FadeTime),
    pub fade_out: (FadeCurve, FadeTime),
}

pub open spec fn view_active(e: (usize, ChannelGroupValue)) -> ActiveSwitchView {
    ActiveSwitchView { switch_id: e.0, values: e.1.0@, fade_in: e.1.1, fade_out: e.1.2 }
}

pub open spec fn view_active_list(s: Seq<(usize, ChannelGroupValue)>) -> Seq<ActiveSwitchView> {
    s.map_values(|e: (usize, ChannelGroupValue)| view_active(e))
}

/// Where a fade starts from.
#[derive(Debug, Clone, Copy, PartialEq, Eq, Structural)]
pub enum FadeStart {
    /// The level last requested of each channel.
    RequestedLevel,
    /// The level each channel has on the bus.
    BusLevel,
    /// The given level.
    Level(DmxValue),
}

/// A fade of the channels at `addresses` to `targets` (one level per
/// address), along `curve` within `time` milliseconds. A preheat fade moves
/// only the bus level and leaves the requested level alone.
#[derive(Debug)]
pub struct FadeCommand {
    pub addresses: Vec<DmxAddress>,
    pub targets: Vec<DmxValue>,
    pub start: FadeStart,
    pub curve: FadeCurve,
    pub time: FadeTime,
    pub preheat: bool,
}

pub struct FadeView {
    pub addresses: Seq<DmxAddress>,
    pub targets: Seq<DmxValue>,
    pub start: FadeStart,
    pub curve: FadeCurve,
    pub time: FadeTime,
    pub preheat: bool,
}

impl FadeCommand {
    pub open spec fn view(&self) -> FadeView {
        FadeView {
            addresses: self.addresses@,
            targets: self.targets@,
            start: self.start,
            curve: self.curve,
            time: self.time,
            preheat: self.preheat,
        }
    }
}

/// Number of steps of a fade that lasts `time` milliseconds.
pub open spec fn spec_fade_steps(time: FadeTime) -> nat {
    (time * FADE_TICKS / 1000) as nat
}

/// The number of steps of a fade of `time` milliseconds and the pause
/// between two steps; a fade too short for one step has no steps.
pub fn fade_plan(time: FadeTime) -> (plan: (usize, u64))
    requires
        time * FADE_TICKS <= usize::MAX,
    ensures
        plan.0 == spec_fade_steps(time),
        plan.0 > 0 ==> plan.1 == time / plan.0,
        plan.0 == 0 ==> plan.1 == 0,
{
    let steps = time * FADE_TICKS / 1000;
    if steps > 0 {
        (steps, (time / steps) as u64)
    } else {
        (0, 0)
    }
}

fn one_address(a: DmxAddress) -> (v: Vec<DmxAddress>)
    ensures
        v@ == seq![a],
{
    let mut v: Vec<DmxAddress> = Vec::new();
    v.push(a);
    v
}

fn levels1(a: DmxValue) -> (v: Vec<DmxValue>)
    ensures
        v@ == seq![a],
{
    let mut v: Vec<DmxValue> = Vec::new();
    v.push(a);
    v
}

/// A group of one channel.
#[derive(Debug)]
pub struct Single {
    pub channel1: DmxAddress,
    pub active_switches: Vec<(usize, ChannelGroupValue)>,
}

impl Single {
    pub fn new(channel1: DmxAddress) -> (s: Single)
        ensures
            s.channel1 == channel1,
            s.active_switches@.len() == 0,
    {
        Single { channel1, active_switches: Vec::new() }
    }

    /// Fade of the channel from its requested level to `end_value`.
    pub fn fade_simple(&self, curve: FadeCurve, time: FadeTime, end_value: DmxValue) -> (f: FadeCommand)
        ensures
            f.view() == (FadeView {
                addresses: seq![self.channel1],
                targets: seq![end_value],
                start: FadeStart::RequestedLevel,
                curve,
                time,
                preheat: false,
            }),
    {
        FadeCommand {
            addresses: one_address(self.channel1),
            targets: levels1(end_value),
            start: FadeStart::RequestedLevel,
            curve,
            time,
            preheat: false,
        }
    }

    /// Fade of the channel from `start_value` to `end_value`; a preheat fade
    /// moves the bus level only.
    pub fn fade(&self, curve: FadeCurve, time: FadeTime, start_value: DmxValue, end_value: DmxValue, preheat: bool) -> (f: FadeCommand)
        ensures
            f.view() == (FadeView {
                addresses: seq![self.channel1],
                targets: seq![end_value],
                start: FadeStart::Level(start_value),
                curve,
                time,
                preheat,
            }),
    {
        FadeCommand {
            addresses: one_address(self.channel1),
            targets: levels1(end_value),
            start: FadeStart::Level(start_value),
            curve,
            time,
            preheat,
        }
    }

    pub fn get_addresses(&self) -> (a: Vec<DmxAddress>)
        ensures
            a@ == seq![self.channel1],
    {
        one_address(self.channel1)
    }
}

/// A group of a red, a green and a blue channel.
#[derive(Debug)]
pub struct RGB {
    pub channel_r: DmxAddress,
    pub channel_g: DmxAddress,
    pub channel_b: DmxAddress,
    pub active_switches: Vec<(usize, ChannelGroupValue)>,
}

impl RGB {
    pub fn new(channel_r: DmxAddress, channel_g: DmxAddress, channel_b: DmxAddress) -> (s: RGB)
        ensures
            s.channel_r == channel_r,
            s.channel_g == channel_g,
            s.channel_b == channel_b,
            s.active_switches@.len() == 0,
    {
        RGB { channel_r, channel_g, channel_b, active_switches: Vec::new() }
    }

    /// Fade of the three channels, each from its bus level to its target.
    pub fn fade_simple(&self, curve: FadeCurve, time: FadeTime, end_r: DmxValue, end_g: DmxValue, end_b: DmxValue) -> (f: FadeCommand)
        ensures
            f.view() == (FadeView {
                addresses: seq![self.channel_r, self.channel_g, self.channel_b],
                targets: seq![end_r, end_g, end_b],
                start: FadeStart::BusLevel,
                curve,
                time,
                preheat: false,
            }),
    {
        let mut targets: Vec<DmxValue> = Vec::new();
        targets.push(end_r);
        targets.push(end_g);
        targets.push(end_b);
        assert(targets@ =~= seq![end_r, end_g, end_b]);
        FadeCommand { addresses: self.get_addresses(), targets, start: FadeStart::BusLevel, curve, time, preheat: false }
    }

    pub fn get_addresses(&self) -> (a: Vec<DmxAddress>)
        ensures
            a@ == seq![self.channel_r, self.channel_g, self.channel_b],
    {
        let mut a: Vec<DmxAddress> = Vec::new();
        a.push(self.channel_r);
        a.push(self.channel_g);
        a.push(self.channel_b);
        a
    }
}

/// A group of four consecutive channels (red, green, blue, amber) that
/// starts at `channel`.
#[derive(Debug)]
pub struct RGBA {
    pub channel: DmxAddress,
    pub active_switches: Vec<(usize, ChannelGroupValue)>,
}

impl RGBA {
    /// The group at `channel` .. `channel + 3`.
    pub fn new(channel: DmxAddress) -> (s: RGBA)
        requires
            channel + 3 <= u16::MAX,
        ensures
            s.channel == channel,
            s.active_switches@.len() == 0,
    {
        RGBA { channel, active_switches: Vec::new() }
    }

    /// Fade of the four channels, each from its bus level to its target.
    pub fn fade_simple(&self, curve: FadeCurve, time: FadeTime, end_r: DmxValue, end_g: DmxValue, end_b: DmxValue, end_a: DmxValue) -> (f: FadeCommand)
        requires
            self.channel + 3 <= u16::MAX,
        ensures
            f.view() == (FadeView {
                addresses: seq![self.channel, (self.channel + 1) as u16, (self.channel + 2) as u16, (self.channel + 3) as u16],
                targets: seq![end_r, end_g, end_b, end_a],
                start: FadeStart::BusLevel,
                curve,
                time,
                preheat: false,
            }),
    {
        let mut targets: Vec<DmxValue> = Vec::new();
        targets.push(end_r);
        targets.push(end_g);
        targets.push(end_b);
        targets.push(end_a);
        assert(targets@ =~= seq![end_r, end_g, end_b, end_a]);
        FadeCommand { addresses: self.get_addresses(), targets, start: FadeStart::BusLevel, curve, time, preheat: false }
    }

    pub fn get_addresses(&self) -> (a: Vec<DmxAddress>)
        requires
            self.channel + 3 <= u16::MAX,
        ensures
            a@ == seq![self.channel, (self.channel + 1) as u16, (self.channel + 2) as u16, (self.channel + 3) as u16],
    {
        let mut a: Vec<DmxAddress> = Vec::new();
        a.push(self.channel);
        a.push(self.channel + 1);
        a.push(self.channel + 2);
        a.push(self.channel + 3);
        a
    }
}

/// A moving head with a pan (x) and a tilt (y) channel.
#[derive(Debug)]
pub struct Moving2D {
    pub channel_x: DmxAddress,
    pub channel_y: DmxAddress,
    pub active_switches: Vec<(usize, ChannelGroupValue)>,
}

impl Moving2D {
    pub fn new(channel_x: DmxAddress, channel_y: DmxAddress) -> (s: Moving2D)
        ensures
            s.channel_x == channel_x,
            s.channel_y == channel_y,
            s.active_switches@.len() == 0,
    {
        Moving2D { channel_x, channel_y, active_switches: Vec::new() }
    }

    /// Fade of both axes, each from its bus level to its target.
    pub fn fade_simple(&self, curve: FadeCurve, time: FadeTime, end_x: DmxValue, end_y: DmxValue) -> (f: FadeCommand)
        ensures
            f.view() == (FadeView {
                addresses: seq![self.channel_x, self.channel_y],
                targets: seq![end_x, end_y],
                start: FadeStart::BusLevel,
                curve,
                time,
                preheat: false,
            }),
    {
        let mut targets: Vec<DmxValue> = Vec::new();
        targets.push(end_x);
        targets.push(end_y);
        assert(targets@ =~= seq![end_x, end_y]);
        FadeCommand { addresses: self.get_addresses(), targets, start: FadeStart::BusLevel, curve, time, preheat: false }
    }

    pub fn get_addresses(&self) -> (a: Vec<DmxAddress>)
        ensures
            a@ == seq![self.channel_x, self.channel_y],
    {
        let mut a: Vec<DmxAddress> = Vec::new();
        a.push(self.channel_x);
        a.push(self.channel_y);
        a
    }
}

/// The switches holding a group once switch `switch_id` lets go of it.
pub open spec fn spec_without_switch(active: Seq<ActiveSwitchView>, switch_id: usize) -> Seq<ActiveSwitchView>
    decreases active.len(),
{
    if active.len() == 0 {
        Seq::empty()
    } else {
        let rest = spec_without_switch(active.drop_last(), switch_id);
        if active.last().switch_id == switch_id {
            rest
        } else {
            rest.push(active.last())
        }
    }
}

/// Whether switch `switch_id` is the one that last took hold of the group.
pub open spec fn spec_holds_top(active: Seq<ActiveSwitchView>, switch_id: usize) -> bool {
    active.len() > 0 && active.last().switch_id == switch_id
}

proof fn lemma_view_push(s: Seq<(usize, ChannelGroupValue)>, e: (usize, ChannelGroupValue))
    ensures
        view_active_list(s.push(e)) == view_active_list(s).push(view_active(e)),
{
    assert(view_active_list(s.push(e)) =~= view_active_list(s).push(view_active(e)));
}

/// Every switch left holding the group asks as many levels as before.
pub proof fn lemma_without_keeps_lengths(active: Seq<ActiveSwitchView>, switch_id: usize, n: nat)
    requires
        forall|i: int| 0 <= i < active.len() ==> #[trigger] active[i].values.len() >= n,
    ensures
        forall|i: int|
            0 <= i < spec_without_switch(active, switch_id).len() ==> #[trigger] spec_without_switch(
                active,
                switch_id,
            )[i].values.len() >= n,
        spec_without_switch(active, switch_id).len() <= active.len(),
    decreases active.len(),
{
    if active.len() > 0 {
        lemma_without_keeps_lengths(active.drop_last(), switch_id, n);
    }
}

/// Drops every entry of switch `switch_id` from the switches holding a group;
/// true where it was the one that last took hold of the group.
pub fn remove_from_active_switches(active_switches: &mut Vec<(usize, ChannelGroupValue)>, switch_id: usize) -> (was_top: bool)
    ensures
        was_top == spec_holds_top(view_active_list(old(active_switches)@), switch_id),
        view_active_list(final(active_switches)@) == spec_without_switch(view_active_list(old(active_switches)@), switch_id),
{
    let ghost old_view = view_active_list(active_switches@);
    if active_switches.len() > 0 {
        let last_index = active_switches.len() - 1;
        let last_id = active_switches[last_index].0;
        let mut kept: Vec<(usize, ChannelGroupValue)> = Vec::new();
        let mut old_list: Vec<(usize, ChannelGroupValue)> = Vec::new();
        std::mem::swap(&mut old_list, active_switches);
        let n = old_list.len();
        let mut i: usize = 0;
        while i < n
            invariant
                n == old_list@.len(),
                i <= n,
                old_view == view_active_list(old_list@),
                view_active_list(kept@) == spec_without_switch(view_active_list(old_list@.subrange(0, i as int)), switch_id),
            decreases n - i,
        {
            let e = &old_list[i];
            proof {
                assert(old_list@.subrange(0, i + 1) =~= old_list@.subrange(0, i as int).push(old_list@[i as int]));
                lemma_view_push(old_list@.subrange(0, i as int), old_list@[i as int]);
                let vs = view_active_list(old_list@.subrange(0, i + 1));
                assert(vs.drop_last() =~= view_active_list(old_list@.subrange(0, i as int)));
                assert(vs.last() == view_active(old_list@[i as int]));
            }
            if e.0 != switch_id {
                let c = clone_group_value(&e.1);
                proof {
                    lemma_view_push(kept@, (e.0, c));
                    assert(view_active((e.0, c)) == view_active(old_list@[i as int]));
                }
                kept.push((e.0, c));
            }
            i = i + 1;
        }
        assert(old_list@.subrange(0, n as int) =~= old_list@);
        *active_switches = kept;
        last_id == switch_id
    } else {
        assert(view_active_list(active_switches@) =~= Seq::<ActiveSwitchView>::empty());
        false
    }
}

/// What a group falls back to once a switch lets go of it: the levels and
/// fade-out of the switch that now holds it last, or `default_values` with
/// the given fade where none holds it.
pub open spec fn spec_fallback(
    active: Seq<ActiveSwitchView>,
    default_values: Seq<DmxValue>,
    old_curve: FadeCurve,
    old_time: FadeTime,
) -> (Seq<DmxValue>, FadeCurve, FadeTime) {
    if active.len() == 0 {
        (default_values, old_curve, old_time)
    } else {
        (active.last().values, active.last().fade_out.0, active.last().fade_out.1)
    }
}

/// The levels, curve and time a group fades to once a switch lets go of it.
pub fn extract_new_values(
    active_switches: &Vec<(usize, ChannelGroupValue)>,
    default_values: Vec<DmxValue>,
    old_curve: FadeCurve,
    old_time: FadeTime,
) -> (r: (Vec<DmxValue>, FadeCurve, FadeTime))
    ensures
        (r.0@, r.1, r.2) == spec_fallback(view_active_list(active_switches@), default_values@, old_curve, old_time),
{
    if active_switches.len() == 0 {
        (default_values, old_curve, old_time)
    } else {
        let last_index = active_switches.len() - 1;
        let v = clone_group_value(&active_switches[last_index].1);
        (v.0, (v.2).0, (v.2).1)
    }
}

} // verus!
