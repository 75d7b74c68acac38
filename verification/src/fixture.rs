use vstd::prelude::*;
use crate::types::{DmxAddress, DmxValue, FadeTime};
use crate::fade_curve::FadeCurve;
use crate::channel_groups::{
    ActiveSwitchView, ChannelGroupValue, FadeCommand, FadeStart, FadeView, Moving2D, Single, RGB, RGBA,
    extract_new_values, remove_from_active_switches, spec_fallback, spec_holds_top, spec_without_switch,
    view_active, view_active_list, lemma_without_keeps_lengths,
};

verus! {

/// A channel group of a fixture.
#[derive(Debug)]
pub enum ChannelGroup {
    Single(Single),
    RGB(RGB),
    RGBA(RGBA),
    Moving2D(Moving2D),
}

/// A channel group as the contracts see it: its kind (0 single, 1 RGB,
/// 2 RGBA, 3 moving head), its channel addresses in order, and the switches
/// that hold it, the most recent last.
#[verifier::ext_equal]
pub struct GroupView {
    pub kind: u8,
    pub addresses: Seq<DmxAddress>,
    pub active: Seq<ActiveSwitchView>,
}

impl ChannelGroup {
    pub open spec fn view(&self) -> GroupView {
        match self {
            ChannelGroup::Single(g) => GroupView {
                kind: 0,
                addresses: seq![g.channel1],
                active: view_active_list(g.active_switches@),
            },
            ChannelGroup::RGB(g) => GroupView {
                kind: 1,
                addresses: seq![g.channel_r, g.channel_g, g.channel_b],
                active: view_active_list(g.active_switches@),
            },
            ChannelGroup::RGBA(g) => GroupView {
                kind: 2,
                addresses: seq![g.channel, (g.channel + 1) as u16, (g.channel + 2) as u16, (g.channel + 3) as u16],
                active: view_active_list(g.active_switches@),
            },
            ChannelGroup::Moving2D(g) => GroupView {
                kind: 3,
                addresses: seq![g.channel_x, g.channel_y],
                active: view_active_list(g.active_switches@),
            },
        }
    }

    /// The addresses of an RGBA group stay on the bus, and every switch that
    /// holds the group asks a level of each of its channels.
    pub open spec fn wf(&self) -> bool {
        &&& (self matches ChannelGroup::RGBA(g) ==> g.channel + 3 <= u16::MAX)
        &&& forall|i: int|
            0 <= i < self.view().active.len() ==> #[trigger] self.view().active[i].values.len()
                >= self.view().addresses.len()
    }

    pub fn get_addresses(&self) -> (a: Vec<DmxAddress>)
        requires
            self.wf(),
        ensures
            a@ == self.view().addresses,
    {
        match self {
            ChannelGroup::Single(g) => g.get_addresses(),
            ChannelGroup::RGB(g) => g.get_addresses(),
            ChannelGroup::RGBA(g) => g.get_addresses(),
            ChannelGroup::Moving2D(g) => g.get_addresses(),
        }
    }
}

/// The fade that a group makes to `values` (one level per channel taken
/// from the front): single channels start from their requested level, the
/// other groups from the bus level.
pub open spec fn spec_group_fade(g: GroupView, values: Seq<DmxValue>, curve: FadeCurve, time: FadeTime) -> FadeView {
    FadeView {
        addresses: g.addresses,
        targets: values.subrange(0, g.addresses.len() as int),
        start: if g.kind == 0 { FadeStart::RequestedLevel } else { FadeStart::BusLevel },
        curve,
        time,
        preheat: false,
    }
}

impl ChannelGroup {
    /// Records that switch `entry.0` now holds the group, asking `entry.1`.
    pub fn push_active(&mut self, entry: (usize, ChannelGroupValue))
        requires
            old(self).wf(),
            entry.1.0@.len() >= old(self).view().addresses.len(),
        ensures
            final(self).wf(),
            final(self).view() == (GroupView { active: old(self).view().active.push(view_active(entry)), ..old(self).view() }),
    {
        match self {
            ChannelGroup::Single(g) => g.active_switches.push(entry),
            ChannelGroup::RGB(g) => g.active_switches.push(entry),
            ChannelGroup::RGBA(g) => g.active_switches.push(entry),
            ChannelGroup::Moving2D(g) => g.active_switches.push(entry),
        }
        assert(self.view().active =~= old(self).view().active.push(view_active(entry)));
    }

    /// Lets switch `switch_id` go of the group; true where it was the switch
    /// that last took hold of it.
    pub fn release_switch(&mut self, switch_id: usize) -> (was_top: bool)
        requires
            old(self).wf(),
        ensures
            final(self).wf(),
            was_top == spec_holds_top(old(self).view().active, switch_id),
            final(self).view() == (GroupView {
                active: spec_without_switch(old(self).view().active, switch_id),
                ..old(self).view()
            }),
    {
        proof {
            lemma_without_keeps_lengths(self.view().active, switch_id, self.view().addresses.len());
        }
        match self {
            ChannelGroup::Single(g) => remove_from_active_switches(&mut g.active_switches, switch_id),
            ChannelGroup::RGB(g) => remove_from_active_switches(&mut g.active_switches, switch_id),
            ChannelGroup::RGBA(g) => remove_from_active_switches(&mut g.active_switches, switch_id),
            ChannelGroup::Moving2D(g) => remove_from_active_switches(&mut g.active_switches, switch_id),
        }
    }

    /// The levels, curve and time the group falls back to (see
    /// `extract_new_values`).
    pub fn fallback(&self, default_values: Vec<DmxValue>, old_curve: FadeCurve, old_time: FadeTime) -> (r: (Vec<DmxValue>, FadeCurve, FadeTime))
        ensures
            (r.0@, r.1, r.2) == spec_fallback(self.view().active, default_values@, old_curve, old_time),
    {
        match self {
            ChannelGroup::Single(g) => extract_new_values(&g.active_switches, default_values, old_curve, old_time),
            ChannelGroup::RGB(g) => extract_new_values(&g.active_switches, default_values, old_curve, old_time),
            ChannelGroup::RGBA(g) => extract_new_values(&g.active_switches, default_values, old_curve, old_time),
            ChannelGroup::Moving2D(g) => extract_new_values(&g.active_switches, default_values, old_curve, old_time),
        }
    }

    /// The fade of the group to `values`.
    pub fn fade_to(&self, values: &Vec<DmxValue>, curve: FadeCurve, time: FadeTime) -> (f: FadeCommand)
        requires
            self.wf(),
            values@.len() >= self.view().addresses.len(),
        ensures
            f.view() == spec_group_fade(self.view(), values@, curve, time),
    {
        let f = match self {
            ChannelGroup::Single(g) => g.fade_simple(curve, time, values[0]),
            ChannelGroup::RGB(g) => g.fade_simple(curve, time, values[0], values[1], values[2]),
            ChannelGroup::RGBA(g) => g.fade_simple(curve, time, values[0], values[1], values[2], values[3]),
            ChannelGroup::Moving2D(g) => g.fade_simple(curve, time, values[0], values[1]),
        };
        assert(f.view().targets =~= values@.subrange(0, self.view().addresses.len() as int));
        f
    }

    /// A zero level for each channel of the group.
    pub fn zero_levels(&self) -> (z: Vec<DmxValue>)
        ensures
            z@.len() == self.view().addresses.len(),
            forall|i: int| 0 <= i < z@.len() ==> z@[i] == 0,
    {
        let n: usize = match self {
            ChannelGroup::Single(_) => 1,
            ChannelGroup::RGB(_) => 3,
            ChannelGroup::RGBA(_) => 4,
            ChannelGroup::Moving2D(_) => 2,
        };
        let mut z: Vec<DmxValue> = Vec::new();
        let mut i: usize = 0;
        while i < n
            invariant
                i <= n,
                z@.len() == i,
                forall|k: int| 0 <= k < i ==> z@[k] == 0,
            decreases n - i,
        {
            z.push(0);
            i = i + 1;
        }
        z
    }
}

pub open spec fn view_groups(s: Seq<ChannelGroup>) -> Seq<GroupView> {
    s.map_values(|g: ChannelGroup| g.view())
}

/// The kind number and the addresses of a channel group.
pub fn channel_group_to_id(c: &ChannelGroup) -> (r: (u8, Vec<DmxAddress>))
    requires
        c.wf(),
    ensures
        r.0 == c.view().kind,
        r.1@ == c.view().addresses,
{
    match c {
        ChannelGroup::Single(group) => (0, group.get_addresses()),
        ChannelGroup::RGB(group) => (1, group.get_addresses()),
        ChannelGroup::RGBA(group) => (2, group.get_addresses()),
        ChannelGroup::Moving2D(group) => (3, group.get_addresses()),
    }
}

/// A fixture as the control surfaces see it: each channel group by kind and
/// addresses.
#[derive(Debug)]
pub struct EmptyFixture {
    pub channel_groups: Vec<(u8, Vec<DmxAddress>)>,
    pub name: String,
}

/// A named set of channel groups.
#[derive(Debug)]
pub struct Fixture {
    pub channel_groups: Vec<ChannelGroup>,
    pub name: String,
}

impl Fixture {
    pub open spec fn wf(&self) -> bool {
        forall|i: int| 0 <= i < self.channel_groups@.len() ==> #[trigger] self.channel_groups@[i].wf()
    }

    pub fn new(name: String, channel_groups: Vec<ChannelGroup>) -> (f: Fixture)
        ensures
            f.name == name,
            f.channel_groups == channel_groups,
    {
        Fixture { channel_groups, name }
    }

    /// Kind and addresses of each channel group, in order.
    pub fn channel_groups_as_id(&self) -> (r: Vec<(u8, Vec<DmxAddress>)>)
        requires
            self.wf(),
        ensures
            r@.len() == self.channel_groups@.len(),
            forall|i: int|
                0 <= i < r@.len() ==> (#[trigger] r@[i]).0 == self.channel_groups@[i].view().kind
                    && r@[i].1@ == self.channel_groups@[i].view().addresses,
    {
        let mut r: Vec<(u8, Vec<DmxAddress>)> = Vec::new();
        let mut i: usize = 0;
        while i < self.channel_groups.len()
            invariant
                self.wf(),
                i <= self.channel_groups@.len(),
                r@.len() == i,
                forall|j: int|
                    0 <= j < i ==> (#[trigger] r@[j]).0 == self.channel_groups@[j].view().kind
                        && r@[j].1@ == self.channel_groups@[j].view().addresses,
            decreases self.channel_groups@.len() - i,
        {
            r.push(channel_group_to_id(&self.channel_groups[i]));
            i = i + 1;
        }
        r
    }

    /// The fixture as the control surfaces see it.
    pub fn to_empty_fixture(&self) -> (e: EmptyFixture)
        requires
            self.wf(),
        ensures
            e.name == self.name,
            e.channel_groups@.len() == self.channel_groups@.len(),
            forall|i: int|
                0 <= i < e.channel_groups@.len() ==> (#[trigger] e.channel_groups@[i]).0
                    == self.channel_groups@[i].view().kind && e.channel_groups@[i].1@
                    == self.channel_groups@[i].view().addresses,
    {
        EmptyFixture { channel_groups: self.channel_groups_as_id(), name: self.name.clone() }
    }
}

} // verus!
