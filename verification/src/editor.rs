//! Decisions of the control surface: which switch a chaser button goes to,
//! how the keyboard rearranges switches and chasers in edit mode, and the
//! channel groups offered when a switch is edited.
use vstd::prelude::*;
use crate::fixture::EmptyFixture;
use crate::switch::{JsonSwitch, view_group_value};
use crate::channel_groups::{ChannelGroupValue, clone_group_value};
use crate::stage::{FrontendData, view_chasers};
use crate::dmx_parser::view_strings;
use crate::protocol::{ControlMessage, START_CHASER, SWITCH_UPDATE};
use crate::text::{decimal_string, spec_decimal};

verus! {

broadcast use vstd::string::group_string_axioms;

/// The level a switch button sends: full where the switch is off, zero
/// where it is on.
pub fn toggled_level(dimmer_value: u8) -> (level: u8)
    ensures
        level == if dimmer_value == 0 { 255u8 } else { 0u8 },
{
    if dimmer_value == 0 { 255 } else { 0 }
}

pub open spec fn spec_previous_index(len: nat, last_active: Option<usize>) -> nat {
    match last_active {
        Some(i) => if i == 0 { (len - 1) as nat } else { (i - 1) as nat },
        None => 0,
    }
}

pub open spec fn spec_next_index(len: nat, last_active: Option<usize>) -> nat {
    match last_active {
        Some(i) => if i + 1 == len { 0 } else { (i + 1) as nat },
        None => 0,
    }
}

/// Position in a chaser of `len` switches that the `<<` button (and the
/// start/stop button) goes to: the one before the last switch that is on,
/// wrapping around, or the first where none is on.
pub fn previous_switch_index(len: usize, last_active: Option<usize>) -> (i: usize)
    requires
        len > 0,
        last_active matches Some(a) ==> a < len,
    ensures
        i == spec_previous_index(len as nat, last_active),
        i < len,
{
    match last_active {
        Some(i) => if i == 0 { len - 1 } else { i - 1 },
        None => 0,
    }
}

/// Position in a chaser of `len` switches that the `>>` button goes to: the
/// one after the last switch that is on, wrapping around, or the first.
pub fn next_switch_index(len: usize, last_active: Option<usize>) -> (i: usize)
    requires
        len > 0,
        last_active matches Some(a) ==> a < len,
    ensures
        i == spec_next_index(len as nat, last_active),
        i < len,
{
    match last_active {
        Some(i) => if i + 1 == len { 0 } else { i + 1 },
        None => 0,
    }
}

/// Stepping back and then forward (or forward and then back) in a chaser
/// returns to the same switch.
pub proof fn lemma_previous_next(len: nat, i: usize)
    requires
        i < len,
        len <= usize::MAX,
    ensures
        spec_next_index(len, Some(spec_previous_index(len, Some(i)) as usize)) == i,
        spec_previous_index(len, Some(spec_next_index(len, Some(i)) as usize)) == i,
{
}

/// Position of the first `id` in `list`.
pub open spec fn spec_position(list: Seq<usize>, id: usize) -> Option<nat>
    decreases list.len(),
{
    if list.len() == 0 {
        None
    } else if list[0] == id {
        Some(0)
    } else {
        match spec_position(list.drop_first(), id) {
            Some(p) => Some(p + 1),
            None => None,
        }
    }
}

proof fn lemma_position(list: Seq<usize>, id: usize, i: int)
    requires
        0 <= i <= list.len(),
        forall|j: int| 0 <= j < i ==> list[j] != id,
        i < list.len() ==> list[i] == id,
    ensures
        i < list.len() ==> spec_position(list, id) == Some(i as nat),
        i == list.len() ==> spec_position(list, id) is None,
    decreases list.len(),
{
    if list.len() > 0 && list[0] != id {
        lemma_position(list.drop_first(), id, i - 1);
    }
}

/// Position of the first `id` in `list`.
pub fn position_of(list: &Vec<usize>, id: usize) -> (p: Option<usize>)
    ensures
        p matches Some(i) ==> spec_position(list@, id) == Some(i as nat) && i < list@.len() && list@[i as int] == id,
        p is None ==> spec_position(list@, id) is None && !list@.contains(id),
{
    let mut i: usize = 0;
    while i < list.len() && list[i] != id
        invariant
            i <= list@.len(),
            forall|j: int| 0 <= j < i ==> list@[j] != id,
        decreases list@.len() - i,
    {
        i = i + 1;
    }
    proof {
        lemma_position(list@, id, i as int);
    }
    if i < list.len() {
        Some(i)
    } else {
        None
    }
}

/// The list with the entries at `i` and `j` exchanged.
pub open spec fn spec_swap<T>(s: Seq<T>, i: int, j: int) -> Seq<T> {
    s.update(i, s[j]).update(j, s[i])
}

/// Ctrl+Up / Ctrl+Down: moves the switch at `index` of a chaser one place
/// earlier (`earlier`) or later, where there is a place to move to.
pub fn move_switch_in_chaser(list: &mut Vec<usize>, index: usize, earlier: bool)
    requires
        index < old(list)@.len(),
    ensures
        earlier && index > 0 ==> final(list)@ == spec_swap(old(list)@, index - 1, index as int),
        !earlier && index + 1 < old(list)@.len() ==> final(list)@ == spec_swap(old(list)@, index as int, index + 1),
        (earlier && index == 0) || (!earlier && index + 1 == old(list)@.len()) ==> final(list)@ == old(list)@,
{
    if earlier {
        if index > 0 {
            let tmp = list[index - 1];
            let cur = list[index];
            list.set(index - 1, cur);
            list.set(index, tmp);
            assert(list@ =~= spec_swap(old(list)@, index - 1, index as int));
        }
    } else if index < list.len() - 1 {
        let tmp = list[index + 1];
        let cur = list[index];
        list.set(index + 1, cur);
        list.set(index, tmp);
        assert(list@ =~= spec_swap(old(list)@, index as int, index + 1));
    }
}

/// Alt+Left / Alt+Right: moves the chaser at `index` of the display order
/// one place to the left (`left`) or right, where there is a place to move to.
pub fn move_chaser_in_order(order: &mut Vec<String>, index: usize, left: bool)
    requires
        index < old(order)@.len(),
    ensures
        left && index > 0 ==> final(order)@ == spec_swap(old(order)@, index - 1, index as int),
        !left && index + 1 < old(order)@.len() ==> final(order)@ == spec_swap(old(order)@, index as int, index + 1),
        (left && index == 0) || (!left && index + 1 == old(order)@.len()) ==> final(order)@ == old(order)@,
{
    if left {
        if index > 0 {
            let tmp = order[index - 1].clone();
            let cur = order[index].clone();
            order.set(index - 1, cur);
            order.set(index, tmp);
            assert(order@ =~= spec_swap(old(order)@, index - 1, index as int));
        }
    } else if index < order.len() - 1 {
        let tmp = order[index + 1].clone();
        let cur = order[index].clone();
        order.set(index + 1, cur);
        order.set(index, tmp);
        assert(order@ =~= spec_swap(old(order)@, index as int, index + 1));
    }
}

/// Moving a switch earlier and then later again puts it back.
pub proof fn lemma_move_back(list: Seq<usize>, index: int)
    requires
        0 < index < list.len(),
    ensures
        spec_swap(spec_swap(list, index - 1, index), index - 1, index) == list,
{
    assert(spec_swap(spec_swap(list, index - 1, index), index - 1, index) =~= list);
}

/// Ctrl+Shift+Up / Ctrl+Shift+Down: the chaser list once the clone
/// `new_id` of the switch at `index` is placed before it (`earlier`) or
/// after it.
pub fn insert_clone(list: &mut Vec<usize>, index: usize, new_id: usize, earlier: bool)
    requires
        index < old(list)@.len(),
    ensures
        earlier ==> final(list)@ == old(list)@.insert(index as int, new_id),
        !earlier ==> final(list)@ == old(list)@.insert(index + 1, new_id),
{
    let n = list.len();
    if earlier {
        list.insert(index, new_id);
    } else {
        list.insert(index + 1, new_id);
    }
}

/// Ctrl+Left / Ctrl+Right without Shift: takes the switch at `index` out of
/// its chaser and appends it to the neighbouring chaser.
pub fn move_switch_to_chaser(from: &mut Vec<usize>, to: &mut Vec<usize>, index: usize) -> (moved: usize)
    requires
        index < old(from)@.len(),
    ensures
        moved == old(from)@[index as int],
        final(from)@ == old(from)@.remove(index as int),
        final(to)@ == old(to)@.push(moved),
{
    let moved = from.remove(index);
    to.push(moved);
    moved
}

/// One entry of the channel-group menu of the switch editor.
#[derive(Debug)]
pub struct ChannelGroupChoice {
    pub label: String,
    pub fixture: usize,
    pub group: usize,
}

pub struct ChoiceView {
    pub label: Seq<char>,
    pub fixture: usize,
    pub group: usize,
}

pub open spec fn view_choices(s: Seq<ChannelGroupChoice>) -> Seq<ChoiceView> {
    s.map_values(|c: ChannelGroupChoice| ChoiceView { label: c.label@, fixture: c.fixture, group: c.group })
}

/// The menu entries of one fixture: its name alone where it has one channel
/// group, else `name:index` for each group.
pub open spec fn spec_fixture_choices(name: Seq<char>, fixture: usize, groups: nat) -> Seq<ChoiceView> {
    if groups == 1 {
        seq![ChoiceView { label: name, fixture, group: 0 }]
    } else {
        Seq::new(groups, |g: int| ChoiceView { label: name + ":"@ + spec_decimal(g as nat), fixture, group: g as usize })
    }
}

pub open spec fn spec_choices(fixtures: Seq<EmptyFixture>) -> Seq<ChoiceView>
    decreases fixtures.len(),
{
    if fixtures.len() == 0 {
        Seq::empty()
    } else {
        spec_choices(fixtures.drop_last()) + spec_fixture_choices(
            fixtures.last().name@,
            (fixtures.len() - 1) as usize,
            fixtures.last().channel_groups@.len(),
        )
    }
}

/// The channel groups a switch can be given, fixture by fixture.
pub fn channel_group_choices(fixtures: &Vec<EmptyFixture>) -> (r: Vec<ChannelGroupChoice>)
    ensures
        view_choices(r@) == spec_choices(fixtures@),
{
    let mut r: Vec<ChannelGroupChoice> = Vec::new();
    let mut f: usize = 0;
    while f < fixtures.len()
        invariant
            f <= fixtures@.len(),
            view_choices(r@) == spec_choices(fixtures@.take(f as int)),
        decreases fixtures@.len() - f,
    {
        let fixture = &fixtures[f];
        let n = fixture.channel_groups.len();
        let ghost base = view_choices(r@);
        let ghost fname = fixture.name@;
        if n == 1 {
            r.push(ChannelGroupChoice { label: fixture.name.clone(), fixture: f, group: 0 });
            assert(view_choices(r@) =~= base + spec_fixture_choices(fname, f, 1));
        } else {
            let mut g: usize = 0;
            while g < n
                invariant
                    g <= n,
                    n == fixture.channel_groups@.len(),
                    fname == fixture.name@,
                    n != 1,
                    view_choices(r@) == base + spec_fixture_choices(fname, f, n as nat).take(g as int),
                decreases n - g,
            {
                let mut label = fixture.name.clone();
                label.append(":");
                let d = decimal_string(g);
                label.append(d.as_str());
                let ghost before = view_choices(r@);
                r.push(ChannelGroupChoice { label, fixture: f, group: g });
                assert(view_choices(r@) =~= before.push(spec_fixture_choices(fname, f, n as nat)[g as int]));
                g = g + 1;
                assert(view_choices(r@) =~= base + spec_fixture_choices(fname, f, n as nat).take(g as int));
            }
            assert(spec_fixture_choices(fname, f, n as nat).take(n as int) =~= spec_fixture_choices(fname, f, n as nat));
        }
        assert(fixtures@.take(f + 1).drop_last() =~= fixtures@.take(f as int));
        f = f + 1;
    }
    assert(fixtures@.take(fixtures@.len() as int) =~= fixtures@);
    r
}

/// Index of the last menu entry for `(fixture, group)`, or 0.
pub open spec fn spec_choice_index(choices: Seq<ChoiceView>, fixture: usize, group: usize) -> nat
    decreases choices.len(),
{
    if choices.len() == 0 {
        0
    } else if choices.last().fixture == fixture && choices.last().group == group {
        (choices.len() - 1) as nat
    } else {
        spec_choice_index(choices.drop_last(), fixture, group)
    }
}

/// The menu entry that shows a switch's `(fixture, group)` key.
pub fn choice_index(choices: &Vec<ChannelGroupChoice>, fixture: usize, group: usize) -> (i: usize)
    ensures
        i == spec_choice_index(view_choices(choices@), fixture, group),
{
    let ghost v = view_choices(choices@);
    let mut found: usize = 0;
    let mut k: usize = 0;
    while k < choices.len()
        invariant
            k <= choices@.len(),
            v == view_choices(choices@),
            found == spec_choice_index(v.take(k as int), fixture, group),
        decreases choices@.len() - k,
    {
        assert(v.take(k + 1).drop_last() =~= v.take(k as int));
        if choices[k].fixture == fixture && choices[k].group == group {
            found = k;
        }
        k = k + 1;
    }
    assert(v.take(choices@.len() as int) =~= v);
    found
}

/// Ctrl+Shift+arrow: appends a copy of switch `switch_id`, named with
/// ` Cloned` added and placed in chaser `chaser_id` where one is given, and
/// returns the copy's id.
pub fn clone_switch(switches: &mut Vec<JsonSwitch>, switch_id: usize, chaser_id: Option<String>) -> (new_id: usize)
    requires
        switch_id < old(switches)@.len(),
    ensures
        new_id == old(switches)@.len(),
        final(switches)@.len() == old(switches)@.len() + 1,
        forall|i: int| 0 <= i < old(switches)@.len() ==> #[trigger] final(switches)@[i] == old(switches)@[i],
        ({
            let c = final(switches)@[new_id as int];
            let o = old(switches)@[switch_id as int];
            &&& c.name@ == o.name@ + " Cloned"@
            &&& c.chaser_id@ == match chaser_id { Some(id) => id@, None => o.chaser_id@ }
            &&& c.dimmer_value == o.dimmer_value
            &&& c.before_chaser == o.before_chaser
            &&& c.channel_groups@.len() == o.channel_groups@.len()
            &&& forall|k: int|
                0 <= k < c.channel_groups@.len() ==> (#[trigger] c.channel_groups@[k]).0 == o.channel_groups@[k].0
                    && view_group_value(c.channel_groups@[k].1) == view_group_value(o.channel_groups@[k].1)
        }),
{
    let o = &switches[switch_id];
    let mut groups: Vec<(String, ChannelGroupValue)> = Vec::new();
    let mut k: usize = 0;
    while k < o.channel_groups.len()
        invariant
            k <= o.channel_groups@.len(),
            groups@.len() == k,
            forall|q: int|
                0 <= q < k ==> (#[trigger] groups@[q]).0 == o.channel_groups@[q].0 && view_group_value(groups@[q].1)
                    == view_group_value(o.channel_groups@[q].1),
        decreases o.channel_groups@.len() - k,
    {
        groups.push((o.channel_groups[k].0.clone(), clone_group_value(&o.channel_groups[k].1)));
        k = k + 1;
    }
    let mut name = o.name.clone();
    name.append(" Cloned");
    let chaser = match chaser_id {
        Some(id) => id,
        None => o.chaser_id.clone(),
    };
    let copy = JsonSwitch {
        channel_groups: groups,
        chaser_id: chaser,
        dimmer_value: o.dimmer_value,
        before_chaser: o.before_chaser,
        name,
    };
    let new_id = switches.len();
    switches.push(copy);
    new_id
}

/// Whether there is a chaser called `name`.
pub open spec fn spec_has_chaser(chasers: Seq<(Seq<char>, Seq<usize>)>, name: Seq<char>) -> bool {
    exists|j: int| 0 <= j < chasers.len() && (#[trigger] chasers[j]).0 == name
}

fn has_chaser(chasers: &Vec<(String, Vec<usize>)>, name: &String) -> (b: bool)
    ensures
        b == spec_has_chaser(view_chasers(chasers@), name@),
{
    let ghost v = view_chasers(chasers@);
    let mut j: usize = 0;
    while j < chasers.len()
        invariant
            j <= chasers@.len(),
            v == view_chasers(chasers@),
            forall|k: int| 0 <= k < j ==> (#[trigger] v[k]).0 != name@,
        decreases chasers@.len() - j,
    {
        assert(v[j as int].0 == chasers@[j as int].0@);
        if chasers[j].0 == *name {
            return true;
        }
        j = j + 1;
    }
    false
}

/// The names of the local chaser order that the data has, in that order.
pub open spec fn spec_visible_chasers(order: Seq<Seq<char>>, chasers: Seq<(Seq<char>, Seq<usize>)>) -> Seq<Seq<char>>
    decreases order.len(),
{
    if order.len() == 0 {
        Seq::empty()
    } else {
        let rest = spec_visible_chasers(order.drop_last(), chasers);
        if spec_has_chaser(chasers, order.last()) {
            rest.push(order.last())
        } else {
            rest
        }
    }
}

/// The chasers that the control surface shows: those of its local order
/// that the data has (see `spec_visible_chasers`).
pub fn visible_chasers(order: &Vec<String>, chasers: &Vec<(String, Vec<usize>)>) -> (v: Vec<String>)
    ensures
        view_strings(v@) == spec_visible_chasers(view_strings(order@), view_chasers(chasers@)),
{
    let ghost names = view_strings(order@);
    let mut v: Vec<String> = Vec::new();
    let mut i: usize = 0;
    while i < order.len()
        invariant
            i <= order@.len(),
            names == view_strings(order@),
            view_strings(v@) == spec_visible_chasers(names.take(i as int), view_chasers(chasers@)),
        decreases order@.len() - i,
    {
        assert(names.take(i + 1).drop_last() =~= names.take(i as int));
        assert(names.take(i + 1).last() == order@[i as int]@);
        let ghost before = v@;
        if has_chaser(chasers, &order[i]) {
            v.push(order[i].clone());
            assert(view_strings(v@) =~= view_strings(before).push(order@[i as int]@));
        }
        i = i + 1;
    }
    assert(names.take(order@.len() as int) =~= names);
    v
}

/// The local chaser order once chaser `old_name` is called `new_name`.
pub fn rename_in_order(order: &mut Vec<String>, old_name: &String, new_name: &String)
    ensures
        view_strings(final(order)@) == view_strings(old(order)@).map_values(
            |x: Seq<char>| if x == old_name@ { new_name@ } else { x },
        ),
{
    let ghost target = view_strings(old(order)@).map_values(
        |x: Seq<char>| if x == old_name@ { new_name@ } else { x },
    );
    let n = order.len();
    let mut i: usize = 0;
    while i < n
        invariant
            n == order@.len(),
            n == old(order)@.len(),
            i <= n,
            target == view_strings(old(order)@).map_values(
                |x: Seq<char>| if x == old_name@ { new_name@ } else { x },
            ),
            forall|k: int| 0 <= k < i ==> #[trigger] order@[k]@ == target[k],
            forall|k: int| i <= k < n ==> #[trigger] order@[k] == old(order)@[k],
        decreases n - i,
    {
        if order[i] == *old_name {
            order.set(i, new_name.clone());
        }
        i = i + 1;
    }
    assert(view_strings(order@) =~= target);
}

/// The names of `order` other than `name`, in order.
pub open spec fn spec_without_name(order: Seq<Seq<char>>, name: Seq<char>) -> Seq<Seq<char>>
    decreases order.len(),
{
    if order.len() == 0 {
        Seq::empty()
    } else {
        let rest = spec_without_name(order.drop_last(), name);
        if order.last() == name {
            rest
        } else {
            rest.push(order.last())
        }
    }
}

/// Drops chaser `name` from the local chaser order.
pub fn remove_from_order(order: &mut Vec<String>, name: &String)
    ensures
        view_strings(final(order)@) == spec_without_name(view_strings(old(order)@), name@),
{
    let ghost names = view_strings(old(order)@);
    let mut kept: Vec<String> = Vec::new();
    let mut i: usize = 0;
    while i < order.len()
        invariant
            i <= order@.len(),
            order@ == old(order)@,
            names == view_strings(order@),
            view_strings(kept@) == spec_without_name(names.take(i as int), name@),
        decreases order@.len() - i,
    {
        assert(names.take(i + 1).drop_last() =~= names.take(i as int));
        assert(names.take(i + 1).last() == order@[i as int]@);
        let ghost before = kept@;
        if !(order[i] == *name) {
            kept.push(order[i].clone());
            assert(view_strings(kept@) =~= view_strings(before).push(order@[i as int]@));
        }
        i = i + 1;
    }
    assert(names.take(order@.len() as int) =~= names);
    *order = kept;
}

/// Position in a chaser of the last switch that is on, if any is.
pub fn last_active_position(switches: &Vec<JsonSwitch>, chaser: &Vec<usize>) -> (r: Option<usize>)
    requires
        forall|k: int| 0 <= k < chaser@.len() ==> #[trigger] chaser@[k] < switches@.len(),
    ensures
        r matches Some(p) ==> {
            &&& p < chaser@.len()
            &&& switches@[chaser@[p as int] as int].dimmer_value != 0
            &&& forall|q: int| p < q < chaser@.len() ==> #[trigger] switches@[chaser@[q] as int].dimmer_value == 0
        },
        r is None ==> forall|q: int| 0 <= q < chaser@.len() ==> #[trigger] switches@[chaser@[q] as int].dimmer_value == 0,
{
    let mut r: Option<usize> = None;
    let mut i: usize = 0;
    while i < chaser.len()
        invariant
            i <= chaser@.len(),
            forall|k: int| 0 <= k < chaser@.len() ==> #[trigger] chaser@[k] < switches@.len(),
            r matches Some(p) ==> {
                &&& p < i
                &&& switches@[chaser@[p as int] as int].dimmer_value != 0
                &&& forall|q: int| p < q < i ==> #[trigger] switches@[chaser@[q] as int].dimmer_value == 0
            },
            r is None ==> forall|q: int| 0 <= q < i ==> #[trigger] switches@[chaser@[q] as int].dimmer_value == 0,
        decreases chaser@.len() - i,
    {
        if switches[chaser[i]].dimmer_value != 0 {
            r = Some(i);
        }
        i = i + 1;
    }
    r
}

/// What pressing the edit mode button does: the edited switch is always
/// let go; leaving edit mode sends the data to the backend, entering it
/// takes the chaser names for editing.
#[derive(Debug, Clone, Copy, PartialEq, Eq, Structural)]
pub struct EditToggle {
    pub edit_state: bool,
    /// Let go of the switch being edited (no switch, empty name).
    pub release_edited_switch: bool,
    pub send_data: bool,
    pub take_chaser_names: bool,
}

/// See `EditToggle`.
pub fn toggle_edit_mode(edit_state: bool) -> (t: EditToggle)
    ensures
        t == (EditToggle {
            edit_state: !edit_state,
            release_edited_switch: true,
            send_data: edit_state,
            take_chaser_names: !edit_state,
        }),
{
    EditToggle { edit_state: !edit_state, release_edited_switch: true, send_data: edit_state, take_chaser_names: !edit_state }
}

/// The label of the connection indicator.
pub fn connection_label(connected: bool) -> (s: String)
    ensures
        connected ==> s@ == "Connected"@,
        !connected ==> s@ == "Disconnected"@,
{
    if connected {
        "Connected".to_string()
    } else {
        "Disconnected".to_string()
    }
}

/// The running flags of the chasers as the control surface keeps them, by
/// chaser name.
pub open spec fn view_flags(flags: Seq<(String, bool)>) -> Seq<(Seq<char>, bool)> {
    flags.map_values(|f: (String, bool)| (f.0@, f.1))
}

/// Position of the first flag of chaser `name`.
pub open spec fn spec_flag_index(flags: Seq<(Seq<char>, bool)>, name: Seq<char>) -> Option<int>
    decreases flags.len(),
{
    if flags.len() == 0 {
        None
    } else if flags[0].0 == name {
        Some(0)
    } else {
        match spec_flag_index(flags.drop_first(), name) {
            Some(i) => Some(i + 1),
            None => None,
        }
    }
}

pub open spec fn shift_flag_index(o: Option<int>, k: int) -> Option<int> {
    match o {
        Some(i) => Some(i + k),
        None => None,
    }
}

/// See `spec_flag_index`.
pub fn flag_index(flags: &Vec<(String, bool)>, name: &String) -> (r: Option<usize>)
    ensures
        match spec_flag_index(view_flags(flags@), name@) {
            Some(i) => r matches Some(x) && x as int == i,
            None => r is None,
        },
{
    let ghost v = view_flags(flags@);
    let n = flags.len();
    let mut i: usize = 0;
    assert(v.subrange(0, n as int) =~= v);
    while i < n
        invariant
            n == flags@.len(),
            v == view_flags(flags@),
            i <= n,
            spec_flag_index(v, name@) == shift_flag_index(spec_flag_index(v.subrange(i as int, n as int), name@), i as int),
        decreases n - i,
    {
        let ghost t = v.subrange(i as int, n as int);
        assert(t[0] == v[i as int]);
        assert(v[i as int].0 == flags@[i as int].0@);
        if flags[i].0 == *name {
            return Some(i);
        }
        assert(t.drop_first() =~= v.subrange(i + 1, n as int));
        i = i + 1;
    }
    None
}

/// Where a spec index of a flag is found, it lies in the list and names the
/// chaser.
proof fn lemma_flag_index(flags: Seq<(Seq<char>, bool)>, name: Seq<char>)
    ensures
        spec_flag_index(flags, name) matches Some(i) ==> 0 <= i < flags.len() && flags[i].0 == name,
    decreases flags.len(),
{
    if flags.len() > 0 && flags[0].0 != name {
        lemma_flag_index(flags.drop_first(), name);
    }
}

/// Applies a control message received from the network to the control
/// surface: a switch update sets the dimmer of the switch it addresses; a
/// chaser message sets the running flag of the chaser of the switch it
/// addresses, running where its value is not zero; other messages change
/// nothing.
pub fn apply_control_message(data: &mut FrontendData, running: &mut Vec<(String, bool)>, message: ControlMessage)
    requires
        message.kind == SWITCH_UPDATE ==> message.address < old(data).switches@.len(),
        message.kind == START_CHASER ==> {
            &&& message.address < old(data).switches@.len()
            &&& spec_flag_index(
                view_flags(old(running)@),
                old(data).switches@[message.address as int].chaser_id@,
            ) is Some
        },
    ensures
        message.kind == SWITCH_UPDATE ==> {
            &&& final(data).switches@.len() == old(data).switches@.len()
            &&& final(data).switches@[message.address as int].dimmer_value == message.value
            &&& final(data).switches@[message.address as int].name == old(data).switches@[message.address as int].name
            &&& final(data).switches@[message.address as int].chaser_id == old(data).switches@[message.address as int].chaser_id
            &&& final(data).switches@[message.address as int].before_chaser == old(data).switches@[message.address as int].before_chaser
            &&& final(data).switches@[message.address as int].channel_groups == old(data).switches@[message.address as int].channel_groups
            &&& forall|i: int| 0 <= i < old(data).switches@.len() && i != message.address ==> #[trigger] final(data).switches@[i] == old(data).switches@[i]
            &&& final(running)@ == old(running)@
        },
        message.kind == START_CHASER ==> {
            let name = old(data).switches@[message.address as int].chaser_id@;
            let i = spec_flag_index(view_flags(old(running)@), name).unwrap();
            &&& *final(data) == *old(data)
            &&& view_flags(final(running)@) == view_flags(old(running)@).update(i, (name, message.value != 0))
        },
        message.kind != SWITCH_UPDATE && message.kind != START_CHASER ==> {
            &&& *final(data) == *old(data)
            &&& final(running)@ == old(running)@
        },
        final(data).max_dmx_address == old(data).max_dmx_address,
        final(data).fixtures == old(data).fixtures,
        final(data).chasers == old(data).chasers,
{
    if message.kind == SWITCH_UPDATE {
        let a = message.address as usize;
        data.switches[a].dimmer_value = message.value;
    } else if message.kind == START_CHASER {
        let a = message.address as usize;
        let ghost old_flags = view_flags(running@);
        proof {
            lemma_flag_index(old_flags, data.switches@[a as int].chaser_id@);
        }
        match flag_index(running, &data.switches[a].chaser_id) {
            Some(i) => {
                let name = running[i].0.clone();
                running.set(i, (name, message.value != 0));
                assert(view_flags(running@) =~= old_flags.update(i as int, (data.switches@[a as int].chaser_id@, message.value != 0)));
            },
            None => {},
        }
    }
}

} // verus!
