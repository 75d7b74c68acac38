//! The stage: its channels, fixtures, switches and chasers. Switching a
//! switch on or off decides which channel groups fade where; the fades and
//! the frames of new channels are queued in `pending` for the caller, which
//! runs them on the channels and sends the frames to the interface.
use vstd::prelude::*;
use crate::types::{DmxAddress, DmxValue, FadeTime};
use crate::channel::Channel;
use crate::channel_groups::{
    ActiveSwitchView, ChannelGroupValue, FadeCommand, FadeView, clone_group_value, spec_fallback,
    spec_holds_top, spec_without_switch,
};
use crate::fixture::{EmptyFixture, Fixture, GroupView, spec_group_fade, view_groups};
use crate::switch::{GroupValueView, JsonSwitch, Switch, distinct_keys, view_group_entries, view_group_value};

verus! {

/// Something the stage asks its caller to do.
#[derive(Debug)]
pub enum StageAction {
    /// Send this frame to the interface.
    Frame(DmxAddress, DmxValue),
    /// Run this fade on the stage's channels.
    Fade(FadeCommand),
}

pub enum ActionView {
    Frame(DmxAddress, DmxValue),
    Fade(FadeView),
}

impl StageAction {
    pub open spec fn view(&self) -> ActionView {
        match self {
            StageAction::Frame(a, v) => ActionView::Frame(*a, *v),
            StageAction::Fade(f) => ActionView::Fade(f.view()),
        }
    }
}

pub open spec fn view_actions(s: Seq<StageAction>) -> Seq<ActionView> {
    s.map_values(|a: StageAction| a.view())
}

#[verifier::ext_equal]
pub struct FixtureView {
    pub name: Seq<char>,
    pub groups: Seq<GroupView>,
}

pub open spec fn view_fixtures(s: Seq<Fixture>) -> Seq<FixtureView> {
    s.map_values(|f: Fixture| FixtureView { name: f.name@, groups: view_groups(f.channel_groups@) })
}

pub struct SwitchView {
    pub groups: Seq<((usize, usize), GroupValueView)>,
    pub chaser_id: Seq<char>,
    pub dimmer_value: DmxValue,
    pub before_chaser: FadeTime,
    pub name: Seq<char>,
}

pub open spec fn view_switch(s: Switch) -> SwitchView {
    SwitchView {
        groups: view_group_entries(s.channel_groups@),
        chaser_id: s.chaser_id@,
        dimmer_value: s.dimmer_value,
        before_chaser: s.before_chaser,
        name: s.name@,
    }
}

pub open spec fn view_switches(s: Seq<Switch>) -> Seq<SwitchView> {
    s.map_values(|w: Switch| view_switch(w))
}

pub open spec fn view_chasers(s: Seq<(String, Vec<usize>)>) -> Seq<(Seq<char>, Seq<usize>)> {
    s.map_values(|c: (String, Vec<usize>)| (c.0@, c.1@))
}

/// The stage as the contracts see it.
pub struct StageView {
    pub channels: Seq<Channel>,
    pub fixtures: Seq<FixtureView>,
    pub switches: Seq<SwitchView>,
    pub chasers: Seq<(Seq<char>, Seq<usize>)>,
    pub pending: Seq<ActionView>,
}

/// The stage. The chasers map a chaser name to the ids of its switches, in
/// the order they were added; each name occurs once.
#[derive(Debug)]
pub struct Stage {
    pub channels: Vec<Channel>,
    pub fixtures: Vec<Fixture>,
    pub switches: Vec<Switch>,
    pub chasers: Vec<(String, Vec<usize>)>,
    pub pending: Vec<StageAction>,
}

impl View for Stage {
    type V = StageView;

    open spec fn view(&self) -> StageView {
        StageView {
            channels: self.channels@,
            fixtures: view_fixtures(self.fixtures@),
            switches: view_switches(self.switches@),
            chasers: view_chasers(self.chasers@),
            pending: view_actions(self.pending@),
        }
    }
}

/// What the control surfaces are sent about a stage.
#[derive(Debug)]
pub struct FrontendData {
    pub max_dmx_address: DmxAddress,
    pub fixtures: Vec<EmptyFixture>,
    pub switches: Vec<JsonSwitch>,
    pub chasers: Vec<(String, Vec<usize>)>,
}

impl FrontendData {
    pub fn new() -> (d: FrontendData)
        ensures
            d.max_dmx_address == 0,
            d.fixtures@.len() == 0,
            d.switches@.len() == 0,
            d.chasers@.len() == 0,
    {
        FrontendData { max_dmx_address: 0, fixtures: Vec::new(), switches: Vec::new(), chasers: Vec::new() }
    }
}

/// The levels and dimmers at which the scaled level `a * (dimmer / 255)`,
/// computed in double precision, falls just below the whole number
/// `a * dimmer / 255`, so that truncating it gives one less.
pub open spec fn spec_rounds_down(a: DmxValue, dimmer: DmxValue) -> bool {
    (a == 51 && dimmer == 155)
        || (a == 75 && dimmer == 187)
        || (a == 85 && dimmer == 147)
        || (a == 85 && dimmer == 171)
        || (a == 102 && dimmer == 155)
        || (a == 150 && dimmer == 187)
        || (a == 153 && dimmer == 155)
        || (a == 153 && dimmer == 195)
        || (a == 165 && dimmer == 187)
        || (a == 170 && dimmer == 147)
        || (a == 170 && dimmer == 171)
        || (a == 204 && dimmer == 155)
}

/// A level scaled by a dimmer, `255` being full: `a * (dimmer / 255)`
/// computed in double precision and truncated to a whole level.
pub open spec fn spec_scale(a: DmxValue, dimmer: DmxValue) -> DmxValue {
    if spec_rounds_down(a, dimmer) {
        (a * dimmer / 255 - 1) as DmxValue
    } else {
        (a * dimmer / 255) as DmxValue
    }
}

/// See `spec_scale`.
pub fn scale_level(a: DmxValue, dimmer: DmxValue) -> (r: DmxValue)
    ensures
        r == spec_scale(a, dimmer),
{
    assert(a as u16 * dimmer as u16 <= 65025) by (nonlinear_arith)
        requires a <= 255, dimmer <= 255;
    let prod: u16 = a as u16 * dimmer as u16;
    let whole = (prod / 255) as u8;
    proof {
        if spec_rounds_down(a, dimmer) {
            assert(a * dimmer >= 255) by (nonlinear_arith)
                requires spec_rounds_down(a, dimmer);
        }
    }
    if (a == 51 && dimmer == 155) || (a == 75 && dimmer == 187) || (a == 85 && dimmer == 147) || (a == 85 && dimmer == 171) || (a == 102 && dimmer == 155) || (a == 150 && dimmer == 187) || (a == 153 && dimmer == 155) || (a == 153 && dimmer == 195) || (a == 165 && dimmer == 187) || (a == 170 && dimmer == 147) || (a == 170 && dimmer == 171) || (a == 204 && dimmer == 155) {
        whole - 1
    } else {
        whole
    }
}

pub open spec fn spec_scaled(values: Seq<DmxValue>, dimmer: DmxValue) -> Seq<DmxValue> {
    values.map_values(|a: DmxValue| spec_scale(a, dimmer))
}

pub open spec fn zeros(n: nat) -> Seq<DmxValue> {
    Seq::new(n, |i: int| 0u8)
}

pub open spec fn update_group(fx: Seq<FixtureView>, fid: int, gid: int, g: GroupView) -> Seq<FixtureView> {
    fx.update(fid, FixtureView { groups: fx[fid].groups.update(gid, g), ..fx[fid] })
}

/// The fixtures and the fades after switch `switch_id` takes hold, with
/// `dimmer`, of the groups of `entries` in turn: each group records the
/// switch with the scaled levels and fades to them along the fade-in.
pub open spec fn spec_activate(
    fx: Seq<FixtureView>,
    switch_id: usize,
    entries: Seq<((usize, usize), GroupValueView)>,
    dimmer: DmxValue,
) -> (Seq<FixtureView>, Seq<ActionView>)
    decreases entries.len(),
{
    if entries.len() == 0 {
        (fx, Seq::empty())
    } else {
        let (f0, a0) = spec_activate(fx, switch_id, entries.drop_last(), dimmer);
        let e = entries.last();
        let fid = e.0.0 as int;
        let gid = e.0.1 as int;
        let g = f0[fid].groups[gid];
        let scaled = spec_scaled(e.1.values, dimmer);
        let g2 = GroupView {
            active: g.active.push(
                ActiveSwitchView { switch_id, values: scaled, fade_in: e.1.fade_in, fade_out: e.1.fade_out },
            ),
            ..g
        };
        (
            update_group(f0, fid, gid, g2),
            a0.push(ActionView::Fade(spec_group_fade(g, scaled, e.1.fade_in.0, e.1.fade_in.1))),
        )
    }
}

/// The fixtures and the fades after switch `switch_id` lets go of the groups
/// of `entries` in turn: where it held a group last, the group fades to what
/// it falls back to (the switch that now holds it last, or dark along the
/// switch's fade-out).
pub open spec fn spec_release(
    fx: Seq<FixtureView>,
    switch_id: usize,
    entries: Seq<((usize, usize), GroupValueView)>,
) -> (Seq<FixtureView>, Seq<ActionView>)
    decreases entries.len(),
{
    if entries.len() == 0 {
        (fx, Seq::empty())
    } else {
        let (f0, a0) = spec_release(fx, switch_id, entries.drop_last());
        let e = entries.last();
        let fid = e.0.0 as int;
        let gid = e.0.1 as int;
        let g = f0[fid].groups[gid];
        let rest = spec_without_switch(g.active, switch_id);
        let f1 = update_group(f0, fid, gid, GroupView { active: rest, ..g });
        if spec_holds_top(g.active, switch_id) {
            let fb = spec_fallback(rest, zeros(g.addresses.len()), e.1.fade_out.0, e.1.fade_out.1);
            (f1, a0.push(ActionView::Fade(spec_group_fade(g, fb.0, fb.1, fb.2))))
        } else {
            (f1, a0)
        }
    }
}

/// The stage after `set_switch(switch_id, dimmer)`.
pub open spec fn spec_set_switch(v: StageView, switch_id: usize, dimmer: DmxValue) -> StageView {
    let sw = v.switches[switch_id as int];
    let (fx, acts) = if dimmer == 0 {
        spec_release(v.fixtures, switch_id, sw.groups)
    } else {
        spec_activate(v.fixtures, switch_id, sw.groups, dimmer)
    };
    StageView {
        switches: v.switches.update(switch_id as int, SwitchView { dimmer_value: dimmer, ..sw }),
        fixtures: fx,
        pending: v.pending + acts,
        ..v
    }
}

/// The stage after switching off each switch of `ids` in turn.
pub open spec fn spec_switch_off_all(v: StageView, ids: Seq<usize>) -> StageView
    decreases ids.len(),
{
    if ids.len() == 0 {
        v
    } else {
        spec_set_switch(spec_switch_off_all(v, ids.drop_last()), ids.last(), 0)
    }
}

/// Whether every group that switch `switch_id` names exists.
pub open spec fn refs_valid(v: StageView, switch_id: usize) -> bool {
    forall|i: int|
        0 <= i < v.switches[switch_id as int].groups.len() ==> {
            let k = (#[trigger] v.switches[switch_id as int].groups[i]).0;
            &&& k.0 < v.fixtures.len()
            &&& k.1 < v.fixtures[k.0 as int].groups.len()
        }
}

/// Whether switch `switch_id` asks a level of every channel of each group
/// it names.
pub open spec fn levels_cover(v: StageView, switch_id: usize) -> bool {
    forall|i: int|
        0 <= i < v.switches[switch_id as int].groups.len() ==> {
            let e = #[trigger] v.switches[switch_id as int].groups[i];
            e.1.values.len() >= v.fixtures[e.0.0 as int].groups[e.0.1 as int].addresses.len()
        }
}

/// Whether two fixture lists have the same groups with the same kinds and
/// addresses (they may differ in which switches hold the groups).
pub open spec fn same_shape(a: Seq<FixtureView>, b: Seq<FixtureView>) -> bool {
    &&& a.len() == b.len()
    &&& forall|i: int| 0 <= i < a.len() ==> (#[trigger] a[i]).groups.len() == b[i].groups.len() && a[i].name == b[i].name
    &&& forall|i: int, j: int|
        0 <= i < a.len() && 0 <= j < a[i].groups.len() ==> (#[trigger] a[i].groups[j]).addresses
            == b[i].groups[j].addresses && a[i].groups[j].kind == b[i].groups[j].kind
}

/// Index of the chaser called `name`, if there is one.
pub open spec fn spec_chaser_index(chasers: Seq<(Seq<char>, Seq<usize>)>, name: Seq<char>) -> Option<int> {
    if exists|i: int| 0 <= i < chasers.len() && (#[trigger] chasers[i]).0 == name {
        Some(choose|i: int| 0 <= i < chasers.len() && (#[trigger] chasers[i]).0 == name)
    } else {
        None
    }
}

/// The chasers after switch `switch_id` is added to chaser `name`, which is
/// created (at the end) where it does not exist.
pub open spec fn spec_add_to_chaser(
    chasers: Seq<(Seq<char>, Seq<usize>)>,
    name: Seq<char>,
    switch_id: usize,
) -> Seq<(Seq<char>, Seq<usize>)> {
    match spec_chaser_index(chasers, name) {
        Some(i) => chasers.update(i, (name, chasers[i].1.push(switch_id))),
        None => chasers.push((name, seq![switch_id])),
    }
}

/// The other switches of the chaser of switch `switch_id`, in chaser order.
pub open spec fn spec_others(ids: Seq<usize>, switch_id: usize) -> Seq<usize>
    decreases ids.len(),
{
    if ids.len() == 0 {
        Seq::empty()
    } else {
        let rest = spec_others(ids.drop_last(), switch_id);
        if ids.last() == switch_id {
            rest
        } else {
            rest.push(ids.last())
        }
    }
}

impl Stage {
    /// The stage's invariant: channel `i` has address `i + 1` (at most
    /// 65535 channels); every fixture is well formed; chaser names are
    /// distinct and name only existing switches; every switch belongs to an
    /// existing chaser and names each of its groups once.
    pub open spec fn wf(&self) -> bool {
        &&& self.channels@.len() <= u16::MAX
        &&& forall|i: int| 0 <= i < self.channels@.len() ==> (#[trigger] self.channels@[i]).address == i + 1
        &&& forall|i: int| 0 <= i < self.fixtures@.len() ==> (#[trigger] self.fixtures@[i]).wf()
        &&& forall|i: int, j: int|
            0 <= i < j < self@.chasers.len() ==> (#[trigger] self@.chasers[i]).0 != (#[trigger] self@.chasers[j]).0
        &&& forall|i: int, k: int|
            0 <= i < self@.chasers.len() && 0 <= k < self@.chasers[i].1.len() ==> #[trigger] self@.chasers[i].1[k]
                < self.switches@.len()
        &&& forall|s: int|
            0 <= s < self.switches@.len() ==> spec_chaser_index(self@.chasers, (#[trigger] self.switches@[s]).chaser_id@) is Some
        &&& forall|s: int| 0 <= s < self.switches@.len() ==> distinct_keys((#[trigger] self.switches@[s]).channel_groups@)
    }

    /// An empty stage.
    pub fn new() -> (s: Stage)
        ensures
            s.wf(),
            s@.channels.len() == 0,
            s@.fixtures.len() == 0,
            s@.switches.len() == 0,
            s@.chasers.len() == 0,
            s@.pending.len() == 0,
            chasers_partition(s@),
    {
        let s = Stage {
            channels: Vec::new(),
            fixtures: Vec::new(),
            switches: Vec::new(),
            chasers: Vec::new(),
            pending: Vec::new(),
        };
        assert(s@.chasers =~= Seq::<(Seq<char>, Seq<usize>)>::empty());
        s
    }

    /// Adds a fixture and returns its id.
    pub fn add_fixture(&mut self, fixture: Fixture) -> (id: usize)
        requires
            old(self).wf(),
            fixture.wf(),
        ensures
            final(self).wf(),
            id == old(self)@.fixtures.len(),
            final(self)@ == (StageView {
                fixtures: old(self)@.fixtures.push(
                    FixtureView { name: fixture.name@, groups: view_groups(fixture.channel_groups@) },
                ),
                ..old(self)@
            }),
            chasers_partition(old(self)@) ==> chasers_partition(final(self)@),
    {
        let ghost f = FixtureView { name: fixture.name@, groups: view_groups(fixture.channel_groups@) };
        self.fixtures.push(fixture);
        assert(view_fixtures(self.fixtures@) =~= view_fixtures(old(self).fixtures@).push(f));
        self.fixtures.len() - 1
    }

    fn add_fixture_to_switch_group(&mut self, switch_id: usize, chaser_id: String)
        requires
            forall|i: int, j: int|
                0 <= i < j < old(self)@.chasers.len() ==> (#[trigger] old(self)@.chasers[i]).0
                    != (#[trigger] old(self)@.chasers[j]).0,
        ensures
            final(self)@ == (StageView { chasers: spec_add_to_chaser(old(self)@.chasers, chaser_id@, switch_id), ..old(self)@ }),
            final(self).switches == old(self).switches,
            final(self).fixtures == old(self).fixtures,
            final(self).channels == old(self).channels,
            forall|i: int, j: int|
                0 <= i < j < final(self)@.chasers.len() ==> (#[trigger] final(self)@.chasers[i]).0
                    != (#[trigger] final(self)@.chasers[j]).0,
    {
        let ghost old_chasers = self@.chasers;
        let mut i: usize = 0;
        while i < self.chasers.len() && !(self.chasers[i].0 == chaser_id)
            invariant
                i <= self.chasers@.len(),
                self@ == old(self)@,
                old_chasers == view_chasers(self.chasers@),
                forall|j: int| 0 <= j < i ==> (#[trigger] old_chasers[j]).0 != chaser_id@,
            decreases self.chasers@.len() - i,
        {
            assert(old_chasers[i as int].0 == self.chasers@[i as int].0@);
            i = i + 1;
        }
        if i < self.chasers.len() {
            proof {
                assert(old_chasers[i as int].0 == chaser_id@);
                let k = choose|k: int| 0 <= k < old_chasers.len() && (#[trigger] old_chasers[k]).0 == chaser_id@;
                if k != i {
                    if k < i {
                        assert(old_chasers[k].0 != chaser_id@);
                    } else {
                        assert(old_chasers[i as int].0 != old_chasers[k].0);
                    }
                }
            }
            self.chasers[i].1.push(switch_id);
            assert(view_chasers(self.chasers@) =~= old_chasers.update(
                i as int,
                (chaser_id@, old_chasers[i as int].1.push(switch_id)),
            ));
        } else {
            let mut ids: Vec<usize> = Vec::new();
            ids.push(switch_id);
            proof {
                assert(!exists|k: int| 0 <= k < old_chasers.len() && (#[trigger] old_chasers[k]).0 == chaser_id@);
                assert(ids@ =~= seq![switch_id]);
            }
            self.chasers.push((chaser_id, ids));
            assert(view_chasers(self.chasers@) =~= old_chasers.push((chaser_id@, seq![switch_id])));
        }
    }

    /// Adds a switch (to the chaser it names, which is created where needed)
    /// and returns its id.
    pub fn add_switch(&mut self, switch: Switch) -> (id: usize)
        requires
            old(self).wf(),
            distinct_keys(switch.channel_groups@),
        ensures
            final(self).wf(),
            id == old(self)@.switches.len(),
            final(self)@ == (StageView {
                switches: old(self)@.switches.push(view_switch(switch)),
                chasers: spec_add_to_chaser(old(self)@.chasers, switch.chaser_id@, id),
                ..old(self)@
            }),
            chasers_partition(old(self)@) ==> chasers_partition(final(self)@),
    {
        let id = self.switches.len();
        self.add_fixture_to_switch_group(id, switch.chaser_id.clone());
        let ghost sw = switch;
        self.switches.push(switch);
        assert(view_switches(self.switches@) =~= view_switches(old(self).switches@).push(view_switch(sw)));
        proof {
            let oc = old(self)@.chasers;
            let nc = self@.chasers;
            assert forall|i: int, k: int| 0 <= i < nc.len() && 0 <= k < nc[i].1.len() implies #[trigger] nc[i].1[k]
                < self.switches@.len() by {
                match spec_chaser_index(oc, sw.chaser_id@) {
                    Some(c) => {
                        if i == c && k == oc[c].1.len() {
                        } else {
                            assert(nc[i].1[k] == oc[i].1[k]);
                        }
                    },
                    None => {
                        if i < oc.len() {
                            assert(nc[i].1[k] == oc[i].1[k]);
                        }
                    },
                }
            }
            assert forall|s: int| 0 <= s < self.switches@.len() implies spec_chaser_index(
                nc,
                (#[trigger] self.switches@[s]).chaser_id@,
            ) is Some by {
                let name = self.switches@[s].chaser_id@;
                if s < old(self).switches@.len() {
                    assert(self.switches@[s] == old(self).switches@[s]);
                    assert(spec_chaser_index(oc, old(self).switches@[s].chaser_id@) is Some);
                    let ci = choose|i: int| 0 <= i < oc.len() && (#[trigger] oc[i]).0 == name;
                    assert(0 <= ci < oc.len() && oc[ci].0 == name);
                    match spec_chaser_index(oc, sw.chaser_id@) {
                        Some(c2) => {
                            assert(nc[ci].0 == name);
                        },
                        None => {
                            assert(nc[ci].0 == name);
                        },
                    }
                } else {
                    match spec_chaser_index(oc, sw.chaser_id@) {
                        Some(c2) => {
                            assert(nc[c2].0 == name);
                        },
                        None => {
                            assert(nc[oc.len() as int].0 == name);
                        },
                    }
                }
            }
        }
        proof {
            if chasers_partition(old(self)@) {
                lemma_add_switch_keeps_partition(old(self)@, view_switch(sw), id);
            }
        }
        id
    }

    /// Makes sure the channels up to address `channel` exist (new channels are
    /// dark, and their frames are queued) and returns the index of the
    /// channel at address `channel`.
    pub fn get_channel_object(&mut self, channel: DmxAddress) -> (index: usize)
        requires
            old(self).wf(),
            channel >= 1,
        ensures
            final(self).wf(),
            index == channel - 1,
            final(self)@.channels.len() == if old(self)@.channels.len() >= channel {
                old(self)@.channels.len()
            } else {
                channel as nat
            },
            forall|i: int| 0 <= i < old(self)@.channels.len() ==> #[trigger] final(self)@.channels[i] == old(self)@.channels[i],
            forall|i: int|
                old(self)@.channels.len() <= i < final(self)@.channels.len() ==> #[trigger] final(self)@.channels[i]
                    == Channel::new_spec((i + 1) as u16, 0, 0),
            final(self)@.pending == old(self)@.pending + Seq::new(
                (final(self)@.channels.len() - old(self)@.channels.len()) as nat,
                |k: int| ActionView::Frame((old(self)@.channels.len() + k + 1) as u16, 0),
            ),
            final(self)@.fixtures == old(self)@.fixtures,
            final(self)@.switches == old(self)@.switches,
            final(self)@.chasers == old(self)@.chasers,
            chasers_partition(old(self)@) ==> chasers_partition(final(self)@),
    {
        let start = self.channels.len();
        let mut i: usize = start;
        while i < channel as usize
            invariant
                self.wf(),
                start == old(self)@.channels.len(),
                start <= i,
                i <= channel || i == start,
                self@.channels.len() == i,
                forall|k: int| 0 <= k < start ==> #[trigger] self@.channels[k] == old(self)@.channels[k],
                forall|k: int| start <= k < i ==> #[trigger] self@.channels[k] == Channel::new_spec((k + 1) as u16, 0, 0),
                self@.pending == old(self)@.pending + Seq::new(
                    (i - start) as nat,
                    |k: int| ActionView::Frame((start + k + 1) as u16, 0),
                ),
                self@.fixtures == old(self)@.fixtures,
                self@.switches == old(self)@.switches,
                self@.chasers == old(self)@.chasers,
            decreases channel - i,
        {
            let c = Channel::new((i + 1) as u16, 0, 0);
            let ghost before = self@.pending;
            self.channels.push(c);
            self.pending.push(StageAction::Frame((i + 1) as u16, 0));
            assert(view_actions(self.pending@) =~= before.push(ActionView::Frame((i + 1) as u16, 0)));
            i = i + 1;
            assert(self@.pending =~= old(self)@.pending + Seq::new(
                (i - start) as nat,
                |k: int| ActionView::Frame((start + k + 1) as u16, 0),
            ));
        }
        (channel - 1) as usize
    }

    /// Hands over the queued actions, oldest first, and empties the queue.
    pub fn take_pending(&mut self) -> (actions: Vec<StageAction>)
        requires
            old(self).wf(),
        ensures
            final(self).wf(),
            view_actions(actions@) == old(self)@.pending,
            final(self)@ == (StageView { pending: Seq::empty(), ..old(self)@ }),
            chasers_partition(old(self)@) ==> chasers_partition(final(self)@),
    {
        let mut actions: Vec<StageAction> = Vec::new();
        std::mem::swap(&mut actions, &mut self.pending);
        assert(view_actions(self.pending@) =~= Seq::<ActionView>::empty());
        actions
    }
}

/// The levels of `values` scaled by `dimmer`.
pub fn scale_values(values: &Vec<DmxValue>, dimmer: DmxValue) -> (r: Vec<DmxValue>)
    ensures
        r@ == spec_scaled(values@, dimmer),
{
    let mut r: Vec<DmxValue> = Vec::new();
    let mut i: usize = 0;
    while i < values.len()
        invariant
            i <= values@.len(),
            r@ == spec_scaled(values@.subrange(0, i as int), dimmer),
        decreases values@.len() - i,
    {
        let scaled = scale_level(values[i], dimmer);
        r.push(scaled);
        i = i + 1;
        assert(r@ =~= spec_scaled(values@.subrange(0, i as int), dimmer));
    }
    assert(values@.subrange(0, values@.len() as int) =~= values@);
    r
}

/// Group references stay valid on fixtures of the same shape.
proof fn lemma_refs_transfer(a: StageView, b: StageView, switch_id: usize)
    requires
        refs_valid(a, switch_id),
        switch_id < a.switches.len(),
        switch_id < b.switches.len(),
        b.switches[switch_id as int].groups == a.switches[switch_id as int].groups,
        same_shape(b.fixtures, a.fixtures),
    ensures
        refs_valid(b, switch_id),
{
    assert forall|i: int| 0 <= i < b.switches[switch_id as int].groups.len() implies {
        let k = (#[trigger] b.switches[switch_id as int].groups[i]).0;
        &&& k.0 < b.fixtures.len()
        &&& k.1 < b.fixtures[k.0 as int].groups.len()
    } by {
        let k = a.switches[switch_id as int].groups[i].0;
        assert(b.fixtures[k.0 as int].groups.len() == a.fixtures[k.0 as int].groups.len());
    }
}

impl Stage {
    fn activate_switch(&mut self, switch_id: usize, dimmer_value: DmxValue)
        requires
            old(self).wf(),
            switch_id < old(self).switches@.len(),
            refs_valid(old(self)@, switch_id),
            levels_cover(old(self)@, switch_id),
        ensures
            final(self).wf(),
            final(self).switches == old(self).switches,
            final(self).channels == old(self).channels,
            final(self).chasers == old(self).chasers,
            final(self)@.fixtures == spec_activate(
                old(self)@.fixtures,
                switch_id,
                old(self)@.switches[switch_id as int].groups,
                dimmer_value,
            ).0,
            final(self)@.pending == old(self)@.pending + spec_activate(
                old(self)@.fixtures,
                switch_id,
                old(self)@.switches[switch_id as int].groups,
                dimmer_value,
            ).1,
            same_shape(final(self)@.fixtures, old(self)@.fixtures),
    {
        let n = self.switches[switch_id].channel_groups.len();
        let ghost fx0 = self@.fixtures;
        let ghost p0 = self@.pending;
        let ghost entries = self@.switches[switch_id as int].groups;
        let mut i: usize = 0;
        while i < n
            invariant
                self.wf(),
                i <= n,
                switch_id < self.switches@.len(),
                n == entries.len(),
                entries == old(self)@.switches[switch_id as int].groups,
                fx0 == old(self)@.fixtures,
                p0 == old(self)@.pending,
                self.switches == old(self).switches,
                self.channels == old(self).channels,
                self.chasers == old(self).chasers,
                refs_valid(old(self)@, switch_id),
                levels_cover(old(self)@, switch_id),
                same_shape(self@.fixtures, fx0),
                self@.fixtures == spec_activate(fx0, switch_id, entries.take(i as int), dimmer_value).0,
                self@.pending == p0 + spec_activate(fx0, switch_id, entries.take(i as int), dimmer_value).1,
            decreases n - i,
        {
            let ghost e = entries[i as int];
            let ghost prev_fx = self@.fixtures;
            let ghost prev_p = self@.pending;
            let key = self.switches[switch_id].channel_groups[i].0;
            let value = clone_group_value(&self.switches[switch_id].channel_groups[i].1);
            assert(self@.switches[switch_id as int].groups[i as int] == e);
            assert(e.0 == key && e.1 == view_group_value(value));
            let fid = key.0;
            let gid = key.1;
            assert(fid < fx0.len() && gid < fx0[fid as int].groups.len());
            assert(prev_fx[fid as int].groups.len() == fx0[fid as int].groups.len());
            assert(prev_fx[fid as int].groups[gid as int].addresses == fx0[fid as int].groups[gid as int].addresses);
            assert(self.fixtures@[fid as int].wf());
            assert(self.fixtures@[fid as int].channel_groups@[gid as int].wf());
            let new_values = scale_values(&value.0, dimmer_value);
            let fade = self.fixtures[fid].channel_groups[gid].fade_to(&new_values, (value.1).0.clone(), (value.1).1);
            let ghost g = prev_fx[fid as int].groups[gid as int];
            let ghost entry = (switch_id, (new_values, value.1, value.2));
            self.fixtures[fid].channel_groups[gid].push_active((switch_id, (new_values, value.1, value.2)));
            self.pending.push(StageAction::Fade(fade));
            proof {
                let t = entries.take(i + 1);
                assert(t.drop_last() =~= entries.take(i as int));
                assert(t.last() == e);
                let g2 = GroupView {
                    active: g.active.push(
                        ActiveSwitchView {
                            switch_id,
                            values: spec_scaled(e.1.values, dimmer_value),
                            fade_in: e.1.fade_in,
                            fade_out: e.1.fade_out,
                        },
                    ),
                    ..g
                };
                assert(view_groups(self.fixtures@[fid as int].channel_groups@) =~= prev_fx[fid as int].groups.update(gid as int, g2));
                assert(self@.fixtures =~= update_group(prev_fx, fid as int, gid as int, g2));
                assert(self@.pending =~= prev_p.push(ActionView::Fade(spec_group_fade(g, spec_scaled(e.1.values, dimmer_value), e.1.fade_in.0, e.1.fade_in.1))));
                assert(self@.pending =~= p0 + spec_activate(fx0, switch_id, t, dimmer_value).1);
            }
            i = i + 1;
        }
        assert(entries.take(n as int) =~= entries);
    }
}

impl Stage {
    fn release_switch(&mut self, switch_id: usize)
        requires
            old(self).wf(),
            switch_id < old(self).switches@.len(),
            refs_valid(old(self)@, switch_id),
        ensures
            final(self).wf(),
            final(self).switches == old(self).switches,
            final(self).channels == old(self).channels,
            final(self).chasers == old(self).chasers,
            final(self)@.fixtures == spec_release(
                old(self)@.fixtures,
                switch_id,
                old(self)@.switches[switch_id as int].groups,
            ).0,
            final(self)@.pending == old(self)@.pending + spec_release(
                old(self)@.fixtures,
                switch_id,
                old(self)@.switches[switch_id as int].groups,
            ).1,
            same_shape(final(self)@.fixtures, old(self)@.fixtures),
    {
        let n = self.switches[switch_id].channel_groups.len();
        let ghost fx0 = self@.fixtures;
        let ghost p0 = self@.pending;
        let ghost entries = self@.switches[switch_id as int].groups;
        let mut i: usize = 0;
        while i < n
            invariant
                self.wf(),
                i <= n,
                switch_id < self.switches@.len(),
                n == entries.len(),
                entries == old(self)@.switches[switch_id as int].groups,
                fx0 == old(self)@.fixtures,
                p0 == old(self)@.pending,
                self.switches == old(self).switches,
                self.channels == old(self).channels,
                self.chasers == old(self).chasers,
                refs_valid(old(self)@, switch_id),
                same_shape(self@.fixtures, fx0),
                self@.fixtures == spec_release(fx0, switch_id, entries.take(i as int)).0,
                self@.pending == p0 + spec_release(fx0, switch_id, entries.take(i as int)).1,
            decreases n - i,
        {
            let ghost e = entries[i as int];
            let ghost prev_fx = self@.fixtures;
            let ghost prev_p = self@.pending;
            let key = self.switches[switch_id].channel_groups[i].0;
            let fade_out = &(self.switches[switch_id].channel_groups[i].1).2;
            let curve_out = fade_out.0.clone();
            let time_out = fade_out.1;
            assert(self@.switches[switch_id as int].groups[i as int] == e);
            assert(e.0 == key && e.1.fade_out == (curve_out, time_out));
            let fid = key.0;
            let gid = key.1;
            assert(fid < fx0.len() && gid < fx0[fid as int].groups.len());
            assert(prev_fx[fid as int].groups.len() == fx0[fid as int].groups.len());
            assert(self.fixtures@[fid as int].wf());
            assert(self.fixtures@[fid as int].channel_groups@[gid as int].wf());
            let ghost g = prev_fx[fid as int].groups[gid as int];
            let was_top = self.fixtures[fid].channel_groups[gid].release_switch(switch_id);
            let ghost g2 = GroupView { active: spec_without_switch(g.active, switch_id), ..g };
            proof {
                assert(view_groups(self.fixtures@[fid as int].channel_groups@) =~= prev_fx[fid as int].groups.update(gid as int, g2));
                assert(self@.fixtures =~= update_group(prev_fx, fid as int, gid as int, g2));
            }
            if was_top {
                let dark = self.fixtures[fid].channel_groups[gid].zero_levels();
                assert(dark@ =~= zeros(g.addresses.len()));
                let fallback = self.fixtures[fid].channel_groups[gid].fallback(dark, curve_out, time_out);
                proof {
                    let rest = spec_without_switch(g.active, switch_id);
                    if rest.len() > 0 {
                        assert(self.fixtures@[fid as int].channel_groups@[gid as int].view().active[rest.len() - 1].values.len()
                            >= g.addresses.len());
                    }
                }
                let fade = self.fixtures[fid].channel_groups[gid].fade_to(&fallback.0, fallback.1, fallback.2);
                self.pending.push(StageAction::Fade(fade));
                proof {
                    assert(self@.pending =~= prev_p.push(
                        ActionView::Fade(spec_group_fade(g2, fallback.0@, fallback.1, fallback.2)),
                    ));
                }
            }
            proof {
                let t = entries.take(i + 1);
                assert(t.drop_last() =~= entries.take(i as int));
                assert(t.last() == e);
                assert(self@.pending =~= p0 + spec_release(fx0, switch_id, t).1);
            }
            i = i + 1;
        }
        assert(entries.take(n as int) =~= entries);
    }

    /// Sets the dimmer of switch `switch_id`. At zero the switch lets go of
    /// its groups (see `spec_release`); otherwise it takes hold of them with
    /// its levels scaled by the dimmer (see `spec_activate`). The fades are
    /// queued in `pending`.
    pub fn set_switch(&mut self, switch_id: usize, dimmer_value: DmxValue)
        requires
            old(self).wf(),
            switch_id < old(self)@.switches.len(),
            refs_valid(old(self)@, switch_id),
            dimmer_value != 0 ==> levels_cover(old(self)@, switch_id),
        ensures
            final(self).wf(),
            final(self)@ == spec_set_switch(old(self)@, switch_id, dimmer_value),
            same_shape(final(self)@.fixtures, old(self)@.fixtures),
            chasers_partition(old(self)@) ==> chasers_partition(final(self)@),
    {
        proof {
            if chasers_partition(old(self)@) {
                lemma_switching_keeps_partition(old(self)@, Seq::empty(), switch_id, dimmer_value);
            }
        }
        self.switches[switch_id].dimmer_value = dimmer_value;
        let ghost mid = self@;
        proof {
            assert(view_switches(self.switches@) =~= old(self)@.switches.update(
                switch_id as int,
                SwitchView { dimmer_value, ..old(self)@.switches[switch_id as int] },
            ));
            assert forall|s: int| 0 <= s < self.switches@.len() implies spec_chaser_index(
                self@.chasers,
                (#[trigger] self.switches@[s]).chaser_id@,
            ) is Some by {
                assert(self.switches@[s].chaser_id == old(self).switches@[s].chaser_id);
            }
            assert forall|s: int| 0 <= s < self.switches@.len() implies distinct_keys((#[trigger] self.switches@[s]).channel_groups@) by {
                assert(self.switches@[s].channel_groups == old(self).switches@[s].channel_groups);
            }
            lemma_refs_transfer(old(self)@, self@, switch_id);
        }
        if dimmer_value == 0 {
            self.release_switch(switch_id);
        } else {
            self.activate_switch(switch_id, dimmer_value);
        }
        assert(self@ =~= spec_set_switch(old(self)@, switch_id, dimmer_value));
    }
}

/// The switches of the chaser that switch `switch_id` belongs to.
pub open spec fn spec_group_members(v: StageView, switch_id: usize) -> Seq<usize> {
    v.chasers[spec_chaser_index(v.chasers, v.switches[switch_id as int].chaser_id).unwrap()].1
}

proof fn lemma_others_subset(ids: Seq<usize>, switch_id: usize)
    ensures
        forall|k: int|
            0 <= k < spec_others(ids, switch_id).len() ==> ids.contains(#[trigger] spec_others(ids, switch_id)[k]),
        forall|k: int| 0 <= k < spec_others(ids, switch_id).len() ==> #[trigger] spec_others(ids, switch_id)[k] != switch_id,
    decreases ids.len(),
{
    if ids.len() > 0 {
        lemma_others_subset(ids.drop_last(), switch_id);
        let rest = spec_others(ids.drop_last(), switch_id);
        assert forall|k: int| 0 <= k < rest.len() implies ids.contains(#[trigger] rest[k]) by {
            assert(ids.drop_last().contains(rest[k]));
            let j = choose|j: int| 0 <= j < ids.drop_last().len() && ids.drop_last()[j] == rest[k];
            assert(ids[j] == rest[k]);
        }
        assert(ids[ids.len() - 1] == ids.last());
    }
}

proof fn lemma_same_shape_trans(a: Seq<FixtureView>, b: Seq<FixtureView>, c: Seq<FixtureView>)
    requires
        same_shape(a, b),
        same_shape(b, c),
    ensures
        same_shape(a, c),
{
    assert forall|i: int, j: int| 0 <= i < a.len() && 0 <= j < a[i].groups.len() implies (#[trigger] a[i].groups[j]).addresses
        == c[i].groups[j].addresses && a[i].groups[j].kind == c[i].groups[j].kind by {
        assert(b[i].groups[j].addresses == c[i].groups[j].addresses);
    }
}

fn copy_ids(v: &Vec<usize>) -> (r: Vec<usize>)
    ensures
        r@ == v@,
{
    let mut r: Vec<usize> = Vec::new();
    let mut i: usize = 0;
    while i < v.len()
        invariant
            i <= v@.len(),
            r@ == v@.subrange(0, i as int),
        decreases v@.len() - i,
    {
        r.push(v[i]);
        i = i + 1;
        assert(r@ =~= v@.subrange(0, i as int));
    }
    assert(r@ =~= v@);
    r
}

impl Stage {
    fn chaser_index_of(&self, name: &String) -> (c: usize)
        requires
            self.wf(),
            spec_chaser_index(self@.chasers, name@) is Some,
        ensures
            c as int == spec_chaser_index(self@.chasers, name@).unwrap(),
            c < self.chasers@.len(),
    {
        let ghost chasers = self@.chasers;
        let mut c: usize = 0;
        while c < self.chasers.len() && !(self.chasers[c].0 == *name)
            invariant
                c <= self.chasers@.len(),
                chasers == view_chasers(self.chasers@),
                forall|j: int| 0 <= j < c ==> (#[trigger] chasers[j]).0 != name@,
            decreases self.chasers@.len() - c,
        {
            assert(chasers[c as int].0 == self.chasers@[c as int].0@);
            c = c + 1;
        }
        proof {
            let k = choose|k: int| 0 <= k < chasers.len() && (#[trigger] chasers[k]).0 == name@;
            if c == self.chasers@.len() {
                assert(chasers[k].0 != name@);
            }
            assert(chasers[c as int].0 == name@);
            if k != c {
                if k < c {
                    assert(chasers[k].0 != name@);
                } else {
                    assert(chasers[c as int].0 != chasers[k].0);
                }
            }
        }
        c
    }

    /// Switches off every other switch of the chaser of switch `switch_id`
    /// and returns their ids, in chaser order.
    pub fn deactivate_group_of_switch(&mut self, switch_id: usize) -> (others: Vec<usize>)
        requires
            old(self).wf(),
            switch_id < old(self)@.switches.len(),
            forall|k: int|
                0 <= k < spec_group_members(old(self)@, switch_id).len() ==> refs_valid(
                    old(self)@,
                    #[trigger] spec_group_members(old(self)@, switch_id)[k],
                ),
        ensures
            final(self).wf(),
            others@ == spec_others(spec_group_members(old(self)@, switch_id), switch_id),
            final(self)@ == spec_switch_off_all(old(self)@, others@),
            chasers_partition(old(self)@) ==> chasers_partition(final(self)@),
    {
        proof {
            assert(spec_chaser_index(self@.chasers, self.switches@[switch_id as int].chaser_id@) is Some);
        }
        let c = self.chaser_index_of(&self.switches[switch_id].chaser_id);
        let ghost members = spec_group_members(self@, switch_id);
        assert(self.chasers@[c as int].1@ == members);
        let mut others: Vec<usize> = Vec::new();
        let mut j: usize = 0;
        let m = self.chasers[c].1.len();
        while j < m
            invariant
                c < self.chasers@.len(),
                m == members.len(),
                self.chasers@[c as int].1@ == members,
                j <= m,
                others@ == spec_others(members.take(j as int), switch_id),
            decreases m - j,
        {
            let x = self.chasers[c].1[j];
            proof {
                assert(members.take(j + 1).drop_last() =~= members.take(j as int));
            }
            if x != switch_id {
                others.push(x);
            }
            j = j + 1;
        }
        assert(members.take(m as int) =~= members);
        proof {
            lemma_others_subset(members, switch_id);
        }
        let ghost start = self@;
        let mut k: usize = 0;
        while k < others.len()
            invariant
                self.wf(),
                k <= others@.len(),
                others@ == spec_others(members, switch_id),
                members == spec_group_members(start, switch_id),
                start == old(self)@,
                forall|q: int| 0 <= q < others@.len() ==> members.contains(#[trigger] others@[q]),
                forall|q: int| 0 <= q < members.len() ==> refs_valid(start, #[trigger] members[q]),
                forall|q: int| 0 <= q < members.len() ==> #[trigger] members[q] < start.switches.len(),
                self@ == spec_switch_off_all(start, others@.take(k as int)),
                self@.switches.len() == start.switches.len(),
                forall|x: int| 0 <= x < start.switches.len() ==> #[trigger] self@.switches[x].groups == start.switches[x].groups,
                same_shape(self@.fixtures, start.fixtures),
            decreases others@.len() - k,
        {
            let x = others[k];
            let ghost before = self@;
            proof {
                assert(members.contains(x));
                let q = choose|q: int| 0 <= q < members.len() && members[q] == x;
                assert(refs_valid(start, members[q]));
                lemma_refs_transfer(start, self@, x);
            }
            self.set_switch(x, 0);
            proof {
                assert(others@.take(k + 1).drop_last() =~= others@.take(k as int));
                lemma_same_shape_trans(self@.fixtures, before.fixtures, start.fixtures);
                assert forall|y: int| 0 <= y < start.switches.len() implies #[trigger] self@.switches[y].groups == start.switches[y].groups by {
                    assert(self@.switches[y].groups == before.switches[y].groups);
                }
            }
            k = k + 1;
        }
        assert(others@.take(others@.len() as int) =~= others@);
        proof {
            if chasers_partition(start) {
                assert forall|q: int| 0 <= q < others@.len() implies #[trigger] others@[q] < start.switches.len() by {
                    assert(members.contains(others@[q]));
                    let p = choose|p: int| 0 <= p < members.len() && members[p] == others@[q];
                    assert(members[p] < start.switches.len());
                }
                lemma_switching_keeps_partition(start, others@, switch_id, 0);
            }
        }
        others
    }

    /// What the control surfaces are sent about the stage.
    pub fn get_frontend_data(&self) -> (d: FrontendData)
        requires
            self.wf(),
        ensures
            d.max_dmx_address == self@.channels.len(),
            d.fixtures@.len() == self@.fixtures.len(),
            forall|i: int|
                0 <= i < d.fixtures@.len() ==> {
                    let e = #[trigger] d.fixtures@[i];
                    &&& e.name@ == self@.fixtures[i].name
                    &&& e.channel_groups@.len() == self@.fixtures[i].groups.len()
                    &&& forall|j: int|
                        0 <= j < e.channel_groups@.len() ==> (#[trigger] e.channel_groups@[j]).0
                            == self@.fixtures[i].groups[j].kind && e.channel_groups@[j].1@
                            == self@.fixtures[i].groups[j].addresses
                },
            d.switches@.len() == self@.switches.len(),
            forall|i: int|
                0 <= i < d.switches@.len() ==> {
                    let w = #[trigger] d.switches@[i];
                    let s = self.switches@[i];
                    &&& w.channel_groups@.len() == s.channel_groups@.len()
                    &&& forall|k: int|
                        0 <= k < w.channel_groups@.len() ==> (#[trigger] w.channel_groups@[k]).0@
                            == crate::switch::spec_key_text(s.channel_groups@[k].0) && view_group_value(
                            w.channel_groups@[k].1,
                        ) == view_group_value(s.channel_groups@[k].1)
                    &&& w.chaser_id == s.chaser_id
                    &&& w.dimmer_value == s.dimmer_value
                    &&& w.before_chaser == s.before_chaser
                    &&& w.name == s.name
                },
            view_chasers(d.chasers@) == self@.chasers,
    {
        let mut fixtures: Vec<EmptyFixture> = Vec::new();
        let mut i: usize = 0;
        while i < self.fixtures.len()
            invariant
                self.wf(),
                i <= self.fixtures@.len(),
                fixtures@.len() == i,
                forall|q: int|
                    0 <= q < i ==> {
                        let e = #[trigger] fixtures@[q];
                        &&& e.name@ == self@.fixtures[q].name
                        &&& e.channel_groups@.len() == self@.fixtures[q].groups.len()
                        &&& forall|j: int|
                            0 <= j < e.channel_groups@.len() ==> (#[trigger] e.channel_groups@[j]).0
                                == self@.fixtures[q].groups[j].kind && e.channel_groups@[j].1@
                                == self@.fixtures[q].groups[j].addresses
                    },
            decreases self.fixtures@.len() - i,
        {
            assert(self.fixtures@[i as int].wf());
            fixtures.push(self.fixtures[i].to_empty_fixture());
            i = i + 1;
        }
        let mut switches: Vec<JsonSwitch> = Vec::new();
        let mut i: usize = 0;
        while i < self.switches.len()
            invariant
                i <= self.switches@.len(),
                switches@.len() == i,
                forall|q: int|
                    0 <= q < i ==> {
                        let w = #[trigger] switches@[q];
                        let s = self.switches@[q];
                        &&& w.channel_groups@.len() == s.channel_groups@.len()
                        &&& forall|k: int|
                            0 <= k < w.channel_groups@.len() ==> (#[trigger] w.channel_groups@[k]).0@
                                == crate::switch::spec_key_text(s.channel_groups@[k].0) && view_group_value(
                                w.channel_groups@[k].1,
                            ) == view_group_value(s.channel_groups@[k].1)
                        &&& w.chaser_id == s.chaser_id
                        &&& w.dimmer_value == s.dimmer_value
                        &&& w.before_chaser == s.before_chaser
                        &&& w.name == s.name
                    },
            decreases self.switches@.len() - i,
        {
            switches.push(self.switches[i].with_json_hashmap());
            i = i + 1;
        }
        let mut chasers: Vec<(String, Vec<usize>)> = Vec::new();
        let mut i: usize = 0;
        while i < self.chasers.len()
            invariant
                i <= self.chasers@.len(),
                view_chasers(chasers@) == self@.chasers.take(i as int),
            decreases self.chasers@.len() - i,
        {
            let ghost before = view_chasers(chasers@);
            let name = self.chasers[i].0.clone();
            let ids = copy_ids(&self.chasers[i].1);
            assert((name@, ids@) == self@.chasers[i as int]);
            chasers.push((name, ids));
            assert(view_chasers(chasers@) =~= before.push(self@.chasers[i as int]));
            i = i + 1;
            assert(view_chasers(chasers@) =~= self@.chasers.take(i as int));
        }
        assert(self@.chasers.take(self.chasers@.len() as int) =~= self@.chasers);
        FrontendData { max_dmx_address: self.channels.len() as DmxAddress, fixtures, switches, chasers }
    }
}

/// Whether `key` names an existing group of `fx`.
pub open spec fn valid_key(fx: Seq<FixtureView>, key: (usize, usize)) -> bool {
    key.0 < fx.len() && key.1 < fx[key.0 as int].groups.len()
}

/// Whether no entry of `entries` is for `key`.
pub open spec fn key_absent(entries: Seq<((usize, usize), GroupValueView)>, key: (usize, usize)) -> bool {
    forall|i: int| 0 <= i < entries.len() ==> (#[trigger] entries[i]).0 != key
}

/// Whether every entry of `entries` names an existing group of `fx`.
pub open spec fn keys_valid(fx: Seq<FixtureView>, entries: Seq<((usize, usize), GroupValueView)>) -> bool {
    forall|i: int| 0 <= i < entries.len() ==> valid_key(fx, (#[trigger] entries[i]).0)
}

pub open spec fn distinct_entry_keys(entries: Seq<((usize, usize), GroupValueView)>) -> bool {
    forall|i: int, j: int| 0 <= i < j < entries.len() ==> (#[trigger] entries[i]).0 != (#[trigger] entries[j]).0
}

proof fn lemma_update_group_shape(fx: Seq<FixtureView>, fid: int, gid: int, g: GroupView)
    requires
        0 <= fid < fx.len(),
        0 <= gid < fx[fid].groups.len(),
    ensures
        update_group(fx, fid, gid, g).len() == fx.len(),
        forall|i: int| 0 <= i < fx.len() ==> #[trigger] update_group(fx, fid, gid, g)[i].groups.len() == fx[i].groups.len(),
        update_group(fx, fid, gid, g)[fid].groups[gid] == g,
        forall|i: int, j: int|
            0 <= i < fx.len() && 0 <= j < fx[i].groups.len() && (i != fid || j != gid) ==> #[trigger] update_group(
                fx,
                fid,
                gid,
                g,
            )[i].groups[j] == fx[i].groups[j],
{
}

/// Taking hold of groups leaves every group that no entry names as it was,
/// and keeps the number of fixtures and of their groups.
proof fn lemma_activate_frame(
    fx: Seq<FixtureView>,
    switch_id: usize,
    entries: Seq<((usize, usize), GroupValueView)>,
    dimmer: DmxValue,
)
    requires
        keys_valid(fx, entries),
    ensures
        spec_activate(fx, switch_id, entries, dimmer).0.len() == fx.len(),
        forall|i: int| 0 <= i < fx.len() ==> #[trigger] spec_activate(fx, switch_id, entries, dimmer).0[i].groups.len() == fx[i].groups.len(),
        forall|k: (usize, usize)|
            valid_key(fx, k) && key_absent(entries, k) ==> #[trigger] spec_activate(fx, switch_id, entries, dimmer).0[k.0 as int].groups[k.1 as int]
                == fx[k.0 as int].groups[k.1 as int],
    decreases entries.len(),
{
    if entries.len() > 0 {
        let e = entries.last();
        assert forall|i: int| 0 <= i < entries.drop_last().len() implies valid_key(fx, (#[trigger] entries.drop_last()[i]).0) by {
            assert(entries.drop_last()[i] == entries[i]);
        }
        lemma_activate_frame(fx, switch_id, entries.drop_last(), dimmer);
        let f0 = spec_activate(fx, switch_id, entries.drop_last(), dimmer).0;
        assert(valid_key(fx, entries[entries.len() - 1].0));
        let g = f0[e.0.0 as int].groups[e.0.1 as int];
        let g2 = GroupView {
            active: g.active.push(
                ActiveSwitchView { switch_id, values: spec_scaled(e.1.values, dimmer), fade_in: e.1.fade_in, fade_out: e.1.fade_out },
            ),
            ..g
        };
        lemma_update_group_shape(f0, e.0.0 as int, e.0.1 as int, g2);
        assert forall|k: (usize, usize)| valid_key(fx, k) && key_absent(entries, k) implies #[trigger] spec_activate(fx, switch_id, entries, dimmer).0[k.0 as int].groups[k.1 as int]
            == fx[k.0 as int].groups[k.1 as int] by {
            assert(entries[entries.len() - 1].0 != k);
            assert(key_absent(entries.drop_last(), k)) by {
                assert forall|i: int| 0 <= i < entries.drop_last().len() implies (#[trigger] entries.drop_last()[i]).0 != k by {
                    assert(entries.drop_last()[i] == entries[i]);
                }
            }
        }
    }
}

/// Letting go of groups commutes with replacing a group that no entry names.
proof fn lemma_release_update(
    fx: Seq<FixtureView>,
    switch_id: usize,
    entries: Seq<((usize, usize), GroupValueView)>,
    k: (usize, usize),
    g: GroupView,
)
    requires
        keys_valid(fx, entries),
        valid_key(fx, k),
        key_absent(entries, k),
    ensures
        spec_release(update_group(fx, k.0 as int, k.1 as int, g), switch_id, entries).0 =~~= update_group(
            spec_release(fx, switch_id, entries).0,
            k.0 as int,
            k.1 as int,
            g,
        ),
        spec_release(fx, switch_id, entries).0.len() == fx.len(),
        forall|i: int| 0 <= i < fx.len() ==> #[trigger] spec_release(fx, switch_id, entries).0[i].groups.len() == fx[i].groups.len(),
    decreases entries.len(),
{
    let fu = update_group(fx, k.0 as int, k.1 as int, g);
    lemma_update_group_shape(fx, k.0 as int, k.1 as int, g);
    if entries.len() > 0 {
        let e = entries.last();
        let ed = entries.drop_last();
        assert forall|i: int| 0 <= i < ed.len() implies valid_key(fx, (#[trigger] ed[i]).0) by {
            assert(ed[i] == entries[i]);
        }
        assert forall|i: int| 0 <= i < ed.len() implies (#[trigger] ed[i]).0 != k by {
            assert(ed[i] == entries[i]);
        }
        lemma_release_update(fx, switch_id, ed, k, g);
        assert(valid_key(fx, entries[entries.len() - 1].0));
        assert(entries[entries.len() - 1].0 != k);
        let f0 = spec_release(fx, switch_id, ed).0;
        let f0u = spec_release(fu, switch_id, ed).0;
        assert(f0u =~~= update_group(f0, k.0 as int, k.1 as int, g));
        let fid = e.0.0 as int;
        let gid = e.0.1 as int;
        lemma_update_group_shape(f0, k.0 as int, k.1 as int, g);
        assert(f0u[fid].groups[gid] == f0[fid].groups[gid]);
        let gg = f0[fid].groups[gid];
        let g2 = GroupView { active: spec_without_switch(gg.active, switch_id), ..gg };
        lemma_update_group_shape(f0, fid, gid, g2);
        assert(update_group(f0u, fid, gid, g2) =~~= update_group(update_group(f0, fid, gid, g2), k.0 as int, k.1 as int, g));
    }
}

/// Letting go of an empty list of switches changes nothing, as does letting
/// go of a switch that does not hold the group.
proof fn lemma_without_absent(active: Seq<ActiveSwitchView>, switch_id: usize)
    requires
        forall|i: int| 0 <= i < active.len() ==> (#[trigger] active[i]).switch_id != switch_id,
    ensures
        spec_without_switch(active, switch_id) == active,
    decreases active.len(),
{
    if active.len() > 0 {
        lemma_without_absent(active.drop_last(), switch_id);
        assert(active.drop_last().push(active.last()) =~= active);
    }
}

/// Whether switch `switch_id` holds none of the groups that `entries` name.
pub open spec fn holds_none(
    fx: Seq<FixtureView>,
    switch_id: usize,
    entries: Seq<((usize, usize), GroupValueView)>,
) -> bool {
    forall|i: int, j: int|
        0 <= i < entries.len() && 0 <= j < fx[entries[i].0.0 as int].groups[entries[i].0.1 as int].active.len()
            ==> (#[trigger] fx[entries[i].0.0 as int].groups[entries[i].0.1 as int].active[j]).switch_id != switch_id
}

/// Letting go of groups right after taking hold of them restores them,
/// where the switch held none of them before and names each once.
pub proof fn lemma_release_undoes_activate(
    fx: Seq<FixtureView>,
    switch_id: usize,
    entries: Seq<((usize, usize), GroupValueView)>,
    dimmer: DmxValue,
)
    requires
        keys_valid(fx, entries),
        distinct_entry_keys(entries),
        holds_none(fx, switch_id, entries),
    ensures
        spec_release(spec_activate(fx, switch_id, entries, dimmer).0, switch_id, entries).0 =~~= fx,
    decreases entries.len(),
{
    if entries.len() > 0 {
        let e = entries.last();
        let ed = entries.drop_last();
        let k = e.0;
        let n = entries.len() - 1;
        assert(entries[n] == e);
        assert forall|i: int| 0 <= i < ed.len() implies valid_key(fx, (#[trigger] ed[i]).0) by {
            assert(ed[i] == entries[i]);
        }
        assert forall|i: int, j: int| 0 <= i < j < ed.len() implies (#[trigger] ed[i]).0 != (#[trigger] ed[j]).0 by {
            assert(ed[i] == entries[i] && ed[j] == entries[j]);
        }
        assert forall|i: int, j: int|
            0 <= i < ed.len() && 0 <= j < fx[ed[i].0.0 as int].groups[ed[i].0.1 as int].active.len() implies (#[trigger] fx[ed[i].0.0 as int].groups[ed[i].0.1 as int].active[j]).switch_id
                != switch_id by {
            assert(ed[i] == entries[i]);
        }
        assert forall|i: int| 0 <= i < ed.len() implies (#[trigger] ed[i]).0 != k by {
            assert(ed[i] == entries[i]);
        }
        lemma_release_undoes_activate(fx, switch_id, ed, dimmer);
        lemma_activate_frame(fx, switch_id, ed, dimmer);
        let a0 = spec_activate(fx, switch_id, ed, dimmer).0;
        assert(valid_key(fx, entries[n].0));
        let g = a0[k.0 as int].groups[k.1 as int];
        assert(g == fx[k.0 as int].groups[k.1 as int]);
        let x = ActiveSwitchView { switch_id, values: spec_scaled(e.1.values, dimmer), fade_in: e.1.fade_in, fade_out: e.1.fade_out };
        let g2 = GroupView { active: g.active.push(x), ..g };
        let a1 = spec_activate(fx, switch_id, entries, dimmer).0;
        assert(a1 == update_group(a0, k.0 as int, k.1 as int, g2));
        assert(keys_valid(a0, ed)) by {
            assert forall|i: int| 0 <= i < ed.len() implies valid_key(a0, (#[trigger] ed[i]).0) by {
                assert(ed[i] == entries[i]);
                assert(valid_key(fx, ed[i].0));
            }
        }
        lemma_release_update(a0, switch_id, ed, k, g2);
        let r0 = spec_release(a1, switch_id, ed).0;
        assert(r0 =~~= update_group(spec_release(a0, switch_id, ed).0, k.0 as int, k.1 as int, g2));
        assert(spec_release(a0, switch_id, ed).0 =~~= fx);
        assert(r0 =~~= update_group(fx, k.0 as int, k.1 as int, g2));
        lemma_update_group_shape(fx, k.0 as int, k.1 as int, g2);
        assert(r0[k.0 as int].groups[k.1 as int] == g2);
        assert forall|j: int| 0 <= j < g.active.len() implies (#[trigger] g.active[j]).switch_id != switch_id by {
            assert(fx[entries[n].0.0 as int].groups[entries[n].0.1 as int].active[j] == g.active[j]);
        }
        lemma_without_absent(g.active, switch_id);
        assert(g.active.push(x).drop_last() =~= g.active);
        assert(spec_without_switch(g2.active, switch_id) == g.active);
        let g3 = GroupView { active: spec_without_switch(g2.active, switch_id), ..g2 };
        assert(g3 =~~= g);
        assert(update_group(r0, k.0 as int, k.1 as int, g3) =~~= fx);
    }
}

/// Every switch sits in exactly one chaser, the one its `chaser_id` names:
/// chaser names are distinct, each id a chaser lists is a switch of that
/// chaser, each chaser lists its ids in increasing order, and every switch is
/// listed.
pub open spec fn chasers_partition(v: StageView) -> bool {
    &&& forall|i: int, j: int| 0 <= i < j < v.chasers.len() ==> (#[trigger] v.chasers[i]).0 != (#[trigger] v.chasers[j]).0
    &&& forall|i: int, k: int|
        0 <= i < v.chasers.len() && 0 <= k < v.chasers[i].1.len() ==> {
            &&& #[trigger] v.chasers[i].1[k] < v.switches.len()
            &&& v.switches[v.chasers[i].1[k] as int].chaser_id == v.chasers[i].0
        }
    &&& forall|i: int, k1: int, k2: int|
        0 <= i < v.chasers.len() && 0 <= k1 < k2 < v.chasers[i].1.len() ==> #[trigger] v.chasers[i].1[k1]
            < #[trigger] v.chasers[i].1[k2]
    &&& forall|s: int| 0 <= s < v.switches.len() ==> #[trigger] spec_listed(v.chasers, s)
}

/// Whether some chaser lists switch `s`.
pub open spec fn spec_listed(chasers: Seq<(Seq<char>, Seq<usize>)>, s: int) -> bool {
    exists|i: int, k: int| 0 <= i < chasers.len() && 0 <= k < chasers[i].1.len() && #[trigger] chasers[i].1[k] == s
}

/// Where the chasers partition the switches, a switch id occurs only once
/// across all chasers.
pub proof fn lemma_partition_once(v: StageView, i1: int, k1: int, i2: int, k2: int)
    requires
        chasers_partition(v),
        0 <= i1 < v.chasers.len(),
        0 <= k1 < v.chasers[i1].1.len(),
        0 <= i2 < v.chasers.len(),
        0 <= k2 < v.chasers[i2].1.len(),
        v.chasers[i1].1[k1] == v.chasers[i2].1[k2],
    ensures
        i1 == i2,
        k1 == k2,
{
    let s = v.chasers[i1].1[k1];
    assert(v.switches[s as int].chaser_id == v.chasers[i1].0);
    assert(v.switches[s as int].chaser_id == v.chasers[i2].0);
    if i1 < i2 {
        assert(v.chasers[i1].0 != v.chasers[i2].0);
    } else if i2 < i1 {
        assert(v.chasers[i2].0 != v.chasers[i1].0);
    }
    if k1 < k2 {
        assert(v.chasers[i1].1[k1] < v.chasers[i1].1[k2]);
    } else if k2 < k1 {
        assert(v.chasers[i1].1[k2] < v.chasers[i1].1[k1]);
    }
}

/// Membership in the chasers only depends on the chasers and on the chaser
/// each switch names.
pub proof fn lemma_partition_same_membership(a: StageView, b: StageView)
    requires
        chasers_partition(a),
        b.chasers == a.chasers,
        b.switches.len() == a.switches.len(),
        forall|i: int| 0 <= i < a.switches.len() ==> (#[trigger] b.switches[i]).chaser_id == a.switches[i].chaser_id,
    ensures
        chasers_partition(b),
{
    assert forall|i: int, k: int| 0 <= i < b.chasers.len() && 0 <= k < b.chasers[i].1.len() implies {
        &&& #[trigger] b.chasers[i].1[k] < b.switches.len()
        &&& b.switches[b.chasers[i].1[k] as int].chaser_id == b.chasers[i].0
    } by {
        assert(a.switches[a.chasers[i].1[k] as int].chaser_id == a.chasers[i].0);
    }
    assert forall|s: int| 0 <= s < b.switches.len() implies #[trigger] spec_listed(b.chasers, s) by {
        assert(spec_listed(a.chasers, s));
    }
}

/// Setting a switch, or switching a list of switches off, keeps every switch
/// in exactly one chaser.
pub proof fn lemma_switching_keeps_partition(v: StageView, ids: Seq<usize>, switch_id: usize, dimmer: DmxValue)
    requires
        chasers_partition(v),
        switch_id < v.switches.len(),
        forall|k: int| 0 <= k < ids.len() ==> #[trigger] ids[k] < v.switches.len(),
    ensures
        chasers_partition(spec_set_switch(v, switch_id, dimmer)),
        chasers_partition(spec_switch_off_all(v, ids)),
        spec_switch_off_all(v, ids).switches.len() == v.switches.len(),
    decreases ids.len(),
{
    let w = spec_set_switch(v, switch_id, dimmer);
    assert forall|i: int| 0 <= i < v.switches.len() implies (#[trigger] w.switches[i]).chaser_id
        == v.switches[i].chaser_id by {}
    lemma_partition_same_membership(v, w);
    if ids.len() > 0 {
        let ds = ids.drop_last();
        assert forall|k: int| 0 <= k < ds.len() implies #[trigger] ds[k] < v.switches.len() by {
            assert(ds[k] == ids[k]);
        }
        lemma_switching_keeps_partition(v, ds, switch_id, dimmer);
        let u = spec_switch_off_all(v, ds);
        assert(ids[ids.len() - 1] < v.switches.len());
        lemma_switching_keeps_partition(u, Seq::empty(), ids.last(), 0);
    }
}

/// Adding a switch keeps every switch in exactly one chaser, its own, in
/// increasing order; the new switch comes last in its chaser.
pub proof fn lemma_add_switch_keeps_partition(v: StageView, sw: SwitchView, id: usize)
    requires
        chasers_partition(v),
        id == v.switches.len(),
    ensures
        ({
            let nv = StageView {
                switches: v.switches.push(sw),
                chasers: spec_add_to_chaser(v.chasers, sw.chaser_id, id),
                ..v
            };
            &&& chasers_partition(nv)
            &&& spec_chaser_index(nv.chasers, sw.chaser_id) matches Some(c) && nv.chasers[c].1.last() == id
        }),
{
    let n = id;
    let name = sw.chaser_id;
    let oc = v.chasers;
    let nsw = v.switches.push(sw);
    let nc = spec_add_to_chaser(oc, name, n);
    let nv = StageView { switches: nsw, chasers: nc, ..v };
    assert forall|i: int| 0 <= i < v.switches.len() implies #[trigger] nsw[i] == v.switches[i] by {}
    assert(nsw[n as int] == sw);
    match spec_chaser_index(oc, name) {
        Some(c) => {
            assert(0 <= c < oc.len() && oc[c].0 == name);
            assert(nc.len() == oc.len());
            assert forall|i: int| 0 <= i < nc.len() && i != c implies #[trigger] nc[i] == oc[i] by {}
            assert(nc[c] == (name, oc[c].1.push(n)));
            assert forall|i: int, k: int| 0 <= i < nc.len() && 0 <= k < nc[i].1.len() implies {
                &&& #[trigger] nc[i].1[k] < nsw.len()
                &&& nsw[nc[i].1[k] as int].chaser_id == nc[i].0
            } by {
                if i == c && k == oc[c].1.len() {
                    assert(nc[i].1[k] == n);
                } else {
                    assert(nc[i].1[k] == oc[i].1[k]);
                    assert(oc[i].1[k] < n);
                }
            }
            assert forall|i: int, k1: int, k2: int|
                0 <= i < nc.len() && 0 <= k1 < k2 < nc[i].1.len() implies #[trigger] nc[i].1[k1]
                    < #[trigger] nc[i].1[k2] by {
                assert(nc[i].1[k1] == oc[i].1[k1]);
                if i == c && k2 == oc[c].1.len() {
                    assert(oc[i].1[k1] < n);
                } else {
                    assert(nc[i].1[k2] == oc[i].1[k2]);
                    assert(oc[i].1[k1] < oc[i].1[k2]);
                }
            }
            assert forall|s: int| 0 <= s < nsw.len() implies #[trigger] spec_listed(nc, s) by {
                if s < n {
                    let (i, k) = choose|i: int, k: int|
                        0 <= i < oc.len() && 0 <= k < oc[i].1.len() && #[trigger] oc[i].1[k] == s;
                    assert(spec_listed(oc, s));
                    assert(nc[i].1[k] == oc[i].1[k]);
                } else {
                    assert(nc[c].1[oc[c].1.len() as int] == s);
                }
            }
            assert forall|i: int, j: int| 0 <= i < j < nc.len() implies (#[trigger] nc[i]).0 != (#[trigger] nc[j]).0 by {
                assert(nc[i].0 == oc[i].0);
                assert(nc[j].0 == oc[j].0);
                assert(oc[i].0 != oc[j].0);
            }
            assert(spec_chaser_index(nc, name) is Some);
            let c2 = spec_chaser_index(nc, name).unwrap();
            if c2 != c {
                if c2 < c {
                    assert(nc[c2].0 != nc[c].0);
                } else {
                    assert(nc[c].0 != nc[c2].0);
                }
            }
        },
        None => {
            assert forall|i: int| 0 <= i < oc.len() implies (#[trigger] oc[i]).0 != name by {}
            assert(nc == oc.push((name, seq![n])));
            assert forall|i: int| 0 <= i < oc.len() implies #[trigger] nc[i] == oc[i] by {}
            assert forall|i: int, k: int| 0 <= i < nc.len() && 0 <= k < nc[i].1.len() implies {
                &&& #[trigger] nc[i].1[k] < nsw.len()
                &&& nsw[nc[i].1[k] as int].chaser_id == nc[i].0
            } by {
                if i < oc.len() {
                    assert(oc[i].1[k] < n);
                } else {
                    assert(nc[i] == (name, seq![n]));
                    assert(nc[i].1[k] == n);
                }
            }
            assert forall|i: int, k1: int, k2: int|
                0 <= i < nc.len() && 0 <= k1 < k2 < nc[i].1.len() implies #[trigger] nc[i].1[k1]
                    < #[trigger] nc[i].1[k2] by {
                if i < oc.len() {
                    assert(oc[i].1[k1] < oc[i].1[k2]);
                }
            }
            assert forall|s: int| 0 <= s < nsw.len() implies #[trigger] spec_listed(nc, s) by {
                if s < n {
                    let (i, k) = choose|i: int, k: int|
                        0 <= i < oc.len() && 0 <= k < oc[i].1.len() && #[trigger] oc[i].1[k] == s;
                    assert(spec_listed(oc, s));
                    assert(nc[i].1[k] == oc[i].1[k]);
                } else {
                    assert(nc[oc.len() as int] == (name, seq![n]));
                    assert(nc[oc.len() as int].1[0] == s);
                }
            }
            assert forall|i: int, j: int| 0 <= i < j < nc.len() implies (#[trigger] nc[i]).0 != (#[trigger] nc[j]).0 by {
                if j < oc.len() {
                    assert(oc[i].0 != oc[j].0);
                }
            }
            assert(nc[oc.len() as int].0 == name);
            let c2 = spec_chaser_index(nc, name).unwrap();
            if c2 < oc.len() {
                assert(nc[c2].0 == oc[c2].0);
            }
        },
    }
}

/// Once switch `switch_id` lets go of a group, the holder that is last in
/// the group's list is the most recent entry of another switch: every entry
/// after it in the old list was the released switch.
pub proof fn lemma_latest_remaining_holder(active: Seq<ActiveSwitchView>, switch_id: usize)
    requires
        spec_without_switch(active, switch_id).len() > 0,
    ensures
        exists|j: int|
            0 <= j < active.len() && active[j] == spec_without_switch(active, switch_id).last()
                && active[j].switch_id != switch_id && forall|q: int|
                j < q < active.len() ==> (#[trigger] active[q]).switch_id == switch_id,
    decreases active.len(),
{
    let rest = spec_without_switch(active, switch_id);
    let n = active.len() as int;
    if active.last().switch_id == switch_id {
        lemma_latest_remaining_holder(active.drop_last(), switch_id);
        let d = active.drop_last();
        let j = choose|j: int|
            0 <= j < d.len() && d[j] == spec_without_switch(d, switch_id).last() && d[j].switch_id != switch_id
                && forall|q: int| j < q < d.len() ==> (#[trigger] d[q]).switch_id == switch_id;
        assert(active[j] == d[j]);
        assert forall|q: int| j < q < n implies (#[trigger] active[q]).switch_id == switch_id by {
            if q < n - 1 {
                assert(active[q] == d[q]);
            }
        }
    } else {
        assert(rest.last() == active.last());
        assert(active[n - 1] == active.last());
    }
}

/// Switching off the switch that last took hold of a group fades the group
/// to the switch that is now last among its holders (the most recent other
/// switch to take hold of it), along that switch's fade-out; where no switch
/// holds it any more, it goes dark along the released switch's fade-out.
pub proof fn lemma_release_falls_back_to_latest_holder(
    fx: Seq<FixtureView>,
    switch_id: usize,
    e: ((usize, usize), GroupValueView),
)
    requires
        e.0.0 < fx.len(),
        e.0.1 < fx[e.0.0 as int].groups.len(),
        spec_holds_top(fx[e.0.0 as int].groups[e.0.1 as int].active, switch_id),
    ensures
        ({
            let g = fx[e.0.0 as int].groups[e.0.1 as int];
            let n = g.addresses.len() as int;
            let (f, acts) = spec_release(fx, switch_id, seq![e]);
            let after = f[e.0.0 as int].groups[e.0.1 as int].active;
            &&& acts.len() == 1
            &&& acts[0] matches ActionView::Fade(fv) && {
                &&& fv.addresses == g.addresses
                &&& after.len() > 0 ==> {
                    &&& fv.targets == after.last().values.subrange(0, n)
                    &&& fv.curve == after.last().fade_out.0
                    &&& fv.time == after.last().fade_out.1
                    &&& exists|j: int|
                        0 <= j < g.active.len() && g.active[j] == after.last() && g.active[j].switch_id != switch_id
                            && forall|q: int| j < q < g.active.len() ==> (#[trigger] g.active[q]).switch_id == switch_id
                }
                &&& after.len() == 0 ==> {
                    &&& fv.targets.len() == n
                    &&& forall|i: int| 0 <= i < n ==> #[trigger] fv.targets[i] == 0
                    &&& fv.curve == e.1.fade_out.0
                    &&& fv.time == e.1.fade_out.1
                }
            }
            &&& forall|i: int| 0 <= i < after.len() ==> (#[trigger] after[i]).switch_id != switch_id
        }),
{
    let es = seq![e];
    assert(es.drop_last() =~= Seq::<((usize, usize), GroupValueView)>::empty());
    assert(es.last() == e);
    let fid = e.0.0 as int;
    let gid = e.0.1 as int;
    let g = fx[fid].groups[gid];
    let rest = spec_without_switch(g.active, switch_id);
    assert(spec_release(fx, switch_id, es.drop_last()) == (fx, Seq::<ActionView>::empty()));
    let (f, acts) = spec_release(fx, switch_id, es);
    let fb = spec_fallback(rest, zeros(g.addresses.len()), e.1.fade_out.0, e.1.fade_out.1);
    assert(f == update_group(fx, fid, gid, GroupView { active: rest, ..g }));
    assert(acts == seq![ActionView::Fade(spec_group_fade(g, fb.0, fb.1, fb.2))]);
    assert(f[fid].groups[gid].active == rest);
    if rest.len() == 0 {
        assert(zeros(g.addresses.len()).subrange(0, g.addresses.len() as int) =~= zeros(g.addresses.len()));
    }
    lemma_without_excludes(g.active, switch_id);
    if rest.len() > 0 {
        lemma_latest_remaining_holder(g.active, switch_id);
    }
}

/// No entry of the released switch stays among a group's holders.
proof fn lemma_without_excludes(active: Seq<ActiveSwitchView>, switch_id: usize)
    ensures
        forall|i: int|
            0 <= i < spec_without_switch(active, switch_id).len() ==> (#[trigger] spec_without_switch(
                active,
                switch_id,
            )[i]).switch_id != switch_id,
    decreases active.len(),
{
    if active.len() > 0 {
        lemma_without_excludes(active.drop_last(), switch_id);
        let r = spec_without_switch(active.drop_last(), switch_id);
        if active.last().switch_id != switch_id {
            assert forall|i: int| 0 <= i < r.push(active.last()).len() implies (#[trigger] r.push(active.last())[i]).switch_id
                != switch_id by {
                if i < r.len() {
                    assert(r.push(active.last())[i] == r[i]);
                }
            }
        }
    }
}

/// Switching a switch off right after switching it on leaves every channel
/// group held by the same switches as before, where the switch held none of
/// its groups before.
pub proof fn lemma_switch_off_undoes_on(v: StageView, switch_id: usize, dimmer: DmxValue)
    requires
        switch_id < v.switches.len(),
        dimmer != 0,
        keys_valid(v.fixtures, v.switches[switch_id as int].groups),
        distinct_entry_keys(v.switches[switch_id as int].groups),
        holds_none(v.fixtures, switch_id, v.switches[switch_id as int].groups),
    ensures
        spec_set_switch(spec_set_switch(v, switch_id, dimmer), switch_id, 0).fixtures =~~= v.fixtures,
{
    let v1 = spec_set_switch(v, switch_id, dimmer);
    assert(v1.switches[switch_id as int].groups == v.switches[switch_id as int].groups);
    lemma_release_undoes_activate(v.fixtures, switch_id, v.switches[switch_id as int].groups, dimmer);
}

/// A dimmer never raises a level, and at full (255) keeps it.
pub proof fn lemma_scale(a: DmxValue, dimmer: DmxValue)
    ensures
        spec_scale(a, dimmer) <= a,
        spec_scale(a, 255) == a,
        spec_scale(a, 0) == 0,
{
    assert(a * dimmer <= a * 255) by (nonlinear_arith)
        requires dimmer <= 255;
    assert(a * dimmer / 255 <= a) by (nonlinear_arith)
        requires a * dimmer <= a * 255;
}

/// Right after a switch is switched on, it is the switch that holds each
/// group it names last (the latest switch takes precedence), with its levels
/// scaled by the dimmer.
pub proof fn lemma_activate_top(
    fx: Seq<FixtureView>,
    switch_id: usize,
    entries: Seq<((usize, usize), GroupValueView)>,
    dimmer: DmxValue,
)
    requires
        keys_valid(fx, entries),
        distinct_entry_keys(entries),
    ensures
        forall|i: int|
            0 <= i < entries.len() ==> {
                let k = (#[trigger] entries[i]).0;
                let g = spec_activate(fx, switch_id, entries, dimmer).0[k.0 as int].groups[k.1 as int];
                &&& g.active.len() > 0
                &&& g.active.last() == (ActiveSwitchView {
                    switch_id,
                    values: spec_scaled(entries[i].1.values, dimmer),
                    fade_in: entries[i].1.fade_in,
                    fade_out: entries[i].1.fade_out,
                })
            },
    decreases entries.len(),
{
    if entries.len() > 0 {
        let n = entries.len() - 1;
        let e = entries[n];
        let ed = entries.drop_last();
        assert forall|i: int| 0 <= i < ed.len() implies valid_key(fx, (#[trigger] ed[i]).0) by {
            assert(ed[i] == entries[i]);
        }
        assert forall|i: int, j: int| 0 <= i < j < ed.len() implies (#[trigger] ed[i]).0 != (#[trigger] ed[j]).0 by {
            assert(ed[i] == entries[i] && ed[j] == entries[j]);
        }
        lemma_activate_top(fx, switch_id, ed, dimmer);
        lemma_activate_frame(fx, switch_id, ed, dimmer);
        let a0 = spec_activate(fx, switch_id, ed, dimmer).0;
        assert(valid_key(fx, entries[n].0));
        let g = a0[e.0.0 as int].groups[e.0.1 as int];
        let x = ActiveSwitchView { switch_id, values: spec_scaled(e.1.values, dimmer), fade_in: e.1.fade_in, fade_out: e.1.fade_out };
        let g2 = GroupView { active: g.active.push(x), ..g };
        lemma_update_group_shape(a0, e.0.0 as int, e.0.1 as int, g2);
        assert forall|i: int| 0 <= i < entries.len() implies {
            let k = (#[trigger] entries[i]).0;
            let gg = spec_activate(fx, switch_id, entries, dimmer).0[k.0 as int].groups[k.1 as int];
            &&& gg.active.len() > 0
            &&& gg.active.last() == (ActiveSwitchView {
                switch_id,
                values: spec_scaled(entries[i].1.values, dimmer),
                fade_in: entries[i].1.fade_in,
                fade_out: entries[i].1.fade_out,
            })
        } by {
            if i < n {
                assert(ed[i] == entries[i]);
                assert(entries[i].0 != e.0);
                assert(valid_key(fx, entries[i].0));
            }
        }
    }
}

} // verus!
