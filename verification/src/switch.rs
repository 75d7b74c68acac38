use vstd::prelude::*;
use crate::types::{DmxValue, FadeTime};
use crate::fade_curve::FadeCurve;
use crate::channel_groups::{ChannelGroupValue, clone_group_value};
use crate::text::{spec_decimal, spec_parse_usize, parse_usize, chars_of, lemma_parse_decimal, lemma_decimal_digits};

verus! {

broadcast use vstd::string::group_string_axioms;

/// What a switch asks of one channel group.
pub struct GroupValueView {
    pub values: Seq<DmxValue>,
    pub fade_in: (FadeCurve, FadeTime),
    pub fade_out: (FadeCurve, FadeTime),
}

pub open spec fn view_group_value(v: ChannelGroupValue) -> GroupValueView {
    GroupValueView { values: v.0@, fade_in: v.1, fade_out: v.2 }
}

/// The JSON text of a `(fixture, channel group)` key: `[fixture,group]`.
pub open spec fn spec_key_text(key: (usize, usize)) -> Seq<char> {
    "["@ + spec_decimal(key.0 as nat) + ","@ + spec_decimal(key.1 as nat) + "]"@
}

/// rustc_serialize's `json::encode` of a `(usize, usize)` key: a JSON array
/// of the two numbers, written compactly in decimal. Encoding a pair of
/// integers cannot fail, so the `Ok` is unwrapped.
#[verifier::external_body]
fn encode_switch_key(key: (usize, usize)) -> (s: String)
    ensures
        s@ == spec_key_text(key),
{
    rustc_serialize::json::encode(&key).unwrap()
}

/// Index of the first `c` in `s`, or `s.len()` where there is none.
pub open spec fn spec_index_of(s: Seq<char>, c: char) -> nat
    decreases s.len(),
{
    if s.len() == 0 {
        0
    } else if s[0] == c {
        0
    } else {
        1 + spec_index_of(s.drop_first(), c)
    }
}

proof fn lemma_index_of(s: Seq<char>, c: char, i: int)
    requires
        0 <= i <= s.len(),
        forall|j: int| 0 <= j < i ==> s[j] != c,
        i == s.len() || s[i] == c,
    ensures
        spec_index_of(s, c) == i,
    decreases s.len(),
{
    if s.len() > 0 && s[0] != c {
        lemma_index_of(s.drop_first(), c, i - 1);
    }
}

/// `s` up to its first `c`, and what follows that `c` (None where there is no `c`).
pub open spec fn spec_split_first(s: Seq<char>, c: char) -> (Seq<char>, Option<Seq<char>>) {
    let i = spec_index_of(s, c);
    if i < s.len() {
        (s.subrange(0, i as int), Some(s.subrange((i + 1) as int, s.len() as int)))
    } else {
        (s, None)
    }
}

/// The key that a JSON key text of a switch stands for: the text is split
/// at commas; the first piece loses its first character and the second its
/// last one, and both must then read as `usize` numbers.
pub open spec fn spec_parse_key(s: Seq<char>) -> Option<(usize, usize)> {
    let (first, rest) = spec_split_first(s, ',');
    match rest {
        None => None,
        Some(rest) => {
            let second = spec_split_first(rest, ',').0;
            if first.len() == 0 {
                None
            } else {
                let a = spec_parse_usize(first.drop_first());
                let b = spec_parse_usize(if second.len() > 0 { second.drop_last() } else { second });
                if a is Some && b is Some {
                    Some((a.unwrap(), b.unwrap()))
                } else {
                    None
                }
            }
        },
    }
}

fn find_char(v: &Vec<char>, start: usize, c: char) -> (i: usize)
    requires
        start <= v@.len(),
    ensures
        start <= i <= v@.len(),
        i == start + spec_index_of(v@.subrange(start as int, v@.len() as int), c),
        i < v@.len() ==> v@[i as int] == c,
{
    let mut i = start;
    while i < v.len() && v[i] != c
        invariant
            start <= i <= v@.len(),
            forall|j: int| start <= j < i ==> v@[j] != c,
        decreases v@.len() - i,
    {
        i = i + 1;
    }
    proof {
        let s = v@.subrange(start as int, v@.len() as int);
        lemma_index_of(s, c, i - start);
    }
    i
}

fn copy_range(v: &Vec<char>, from: usize, to: usize) -> (r: Vec<char>)
    requires
        from <= to <= v@.len(),
    ensures
        r@ == v@.subrange(from as int, to as int),
{
    let mut r: Vec<char> = Vec::new();
    let mut i = from;
    while i < to
        invariant
            from <= i <= to <= v@.len(),
            r@ == v@.subrange(from as int, i as int),
        decreases to - i,
    {
        r.push(v[i]);
        i = i + 1;
        assert(r@ =~= v@.subrange(from as int, i as int));
    }
    r
}

/// Reads the `(fixture, channel group)` key back from its JSON text.
pub fn parse_switch_key(key: &str) -> (r: Option<(usize, usize)>)
    ensures
        r == spec_parse_key(key@),
{
    let v = chars_of(key);
    let n = v.len();
    let i = find_char(&v, 0, ',');
    assert(v@.subrange(0, n as int) =~= v@);
    if i >= n {
        return None;
    }
    let j = find_char(&v, i + 1, ',');
    let ghost rest = v@.subrange(i + 1, n as int);
    if i == 0 {
        return None;
    }
    let first = copy_range(&v, 1, i);
    assert(first@ =~= v@.subrange(0, i as int).drop_first());
    let second_end = if j > i + 1 { j - 1 } else { j };
    let second = copy_range(&v, i + 1, second_end);
    proof {
        let sec = spec_split_first(rest, ',').0;
        if j < n {
            assert(sec =~= v@.subrange(i + 1, j as int));
        } else {
            assert(sec =~= v@.subrange(i + 1, j as int));
        }
        if sec.len() > 0 {
            assert(second@ =~= sec.drop_last());
        } else {
            assert(second@ =~= sec);
        }
    }
    let a = parse_usize(&first);
    let b = parse_usize(&second);
    match (a, b) {
        (Some(a), Some(b)) => Some((a, b)),
        _ => None,
    }
}

/// Reading the JSON text of a key gives the key back.
pub proof fn lemma_key_roundtrip(key: (usize, usize))
    ensures
        spec_parse_key(spec_key_text(key)) == Some(key),
{
    let da = spec_decimal(key.0 as nat);
    let db = spec_decimal(key.1 as nat);
    let s = spec_key_text(key);
    lemma_parse_decimal(key.0);
    lemma_parse_decimal(key.1);
    lemma_decimal_digits(key.0 as nat);
    lemma_decimal_digits(key.1 as nat);
    reveal_strlit("[");
    reveal_strlit(",");
    reveal_strlit("]");
    let i: int = da.len() as int + 1;
    assert(s[i] == ',');
    assert forall|j: int| 0 <= j < i implies s[j] != ',' by {
        if j > 0 {
            assert(s[j] == da[j - 1]);
        }
    }
    lemma_index_of(s, ',', i);
    let rest = s.subrange(i + 1, s.len() as int);
    assert(rest =~= db + "]"@);
    lemma_index_of(rest, ',', rest.len() as int);
    assert(s.subrange(0, i).drop_first() =~= da);
    assert(rest.drop_last() =~= db);
}

/// Two keys with the same JSON text are the same key.
pub proof fn lemma_key_text_injective(k1: (usize, usize), k2: (usize, usize))
    requires
        spec_key_text(k1) == spec_key_text(k2),
    ensures
        k1 == k2,
{
    lemma_key_roundtrip(k1);
    lemma_key_roundtrip(k2);
}

/// A switch as it is stored and sent to the control surfaces: the channel
/// groups are keyed by the JSON text of their `(fixture, group)` key.
#[derive(Debug)]
pub struct JsonSwitch {
    pub channel_groups: Vec<(String, ChannelGroupValue)>,
    pub chaser_id: String,
    pub dimmer_value: DmxValue,
    pub before_chaser: FadeTime,
    pub name: String,
}

impl JsonSwitch {
    /// An empty switch at full dimmer in chaser `chaser_id`.
    pub fn new(name: String, chaser_id: String) -> (s: JsonSwitch)
        ensures
            s.channel_groups@.len() == 0,
            s.chaser_id == chaser_id,
            s.dimmer_value == 255,
            s.before_chaser == 0,
            s.name == name,
    {
        JsonSwitch { channel_groups: Vec::new(), chaser_id, dimmer_value: 255, before_chaser: 0, name }
    }
}

/// A switch: the levels it asks of channel groups, keyed by
/// `(fixture id, channel group id)`, each key once; the chaser it belongs to;
/// its dimmer; and the time it stays on when its chaser runs.
#[derive(Debug)]
pub struct Switch {
    pub channel_groups: Vec<((usize, usize), ChannelGroupValue)>,
    pub chaser_id: String,
    pub dimmer_value: DmxValue,
    pub before_chaser: FadeTime,
    pub name: String,
}

/// Whether no key occurs twice.
pub open spec fn distinct_keys(s: Seq<((usize, usize), ChannelGroupValue)>) -> bool {
    forall|i: int, j: int| 0 <= i < j < s.len() ==> (#[trigger] s[i]).0 != (#[trigger] s[j]).0
}

/// The entries with the value of `key` set to `value`: replaced in place
/// where the key is present, added at the end where it is not.
pub open spec fn spec_insert_group(
    s: Seq<((usize, usize), GroupValueView)>,
    key: (usize, usize),
    value: GroupValueView,
) -> Seq<((usize, usize), GroupValueView)> {
    if exists|i: int| 0 <= i < s.len() && (#[trigger] s[i]).0 == key {
        let i = choose|i: int| 0 <= i < s.len() && (#[trigger] s[i]).0 == key;
        s.update(i, (key, value))
    } else {
        s.push((key, value))
    }
}

pub open spec fn view_group_entries(s: Seq<((usize, usize), ChannelGroupValue)>) -> Seq<((usize, usize), GroupValueView)> {
    s.map_values(|e: ((usize, usize), ChannelGroupValue)| (e.0, view_group_value(e.1)))
}

/// The channel groups of a switch read from JSON entries, in order, a later
/// entry for the same key replacing an earlier one.
pub open spec fn spec_load_groups(s: Seq<(String, ChannelGroupValue)>) -> Seq<((usize, usize), GroupValueView)>
    decreases s.len(),
{
    if s.len() == 0 {
        Seq::empty()
    } else {
        spec_insert_group(
            spec_load_groups(s.drop_last()),
            spec_parse_key(s.last().0@).unwrap(),
            view_group_value(s.last().1),
        )
    }
}

fn insert_group(groups: &mut Vec<((usize, usize), ChannelGroupValue)>, key: (usize, usize), value: ChannelGroupValue)
    requires
        distinct_keys(old(groups)@),
    ensures
        distinct_keys(final(groups)@),
        view_group_entries(final(groups)@) == spec_insert_group(view_group_entries(old(groups)@), key, view_group_value(value)),
{
    let ghost old_view = view_group_entries(groups@);
    let mut i: usize = 0;
    while i < groups.len() && !((groups[i].0).0 == key.0 && (groups[i].0).1 == key.1)
        invariant
            i <= groups@.len(),
            old_view == view_group_entries(groups@),
            forall|j: int| 0 <= j < i ==> (#[trigger] groups@[j]).0 != key,
        decreases groups@.len() - i,
    {
        i = i + 1;
    }
    if i < groups.len() {
        assert(old_view[i as int].0 == groups@[i as int].0);
        assert(old_view[i as int].0 == key);
        proof {
            let k = choose|k: int| 0 <= k < old_view.len() && (#[trigger] old_view[k]).0 == key;
            assert(k == i) by {
                if k < i {
                    assert(groups@[k].0 == old_view[k].0);
                }
                if k > i {
                    assert(groups@[k].0 == old_view[k].0);
                }
            }
        }
        groups.set(i, (key, value));
        assert(view_group_entries(groups@) =~= old_view.update(i as int, (key, view_group_value(value))));
    } else {
        assert(!exists|k: int| 0 <= k < old_view.len() && (#[trigger] old_view[k]).0 == key) by {
            assert forall|k: int| 0 <= k < old_view.len() implies (#[trigger] old_view[k]).0 != key by {
                assert(groups@[k].0 == old_view[k].0);
            }
        }
        groups.push((key, value));
        assert(view_group_entries(groups@) =~= old_view.push((key, view_group_value(value))));
    }
}

impl Switch {
    /// A switch that is off.
    pub fn new(
        name: String,
        channel_groups: Vec<((usize, usize), ChannelGroupValue)>,
        chaser_id: String,
        before_chaser: FadeTime,
    ) -> (s: Switch)
        requires
            distinct_keys(channel_groups@),
        ensures
            s.channel_groups == channel_groups,
            s.chaser_id == chaser_id,
            s.dimmer_value == 0,
            s.before_chaser == before_chaser,
            s.name == name,
    {
        Switch { channel_groups, chaser_id, dimmer_value: 0, before_chaser, name }
    }

    /// The switch with its keys written as JSON text.
    pub fn with_json_hashmap(&self) -> (j: JsonSwitch)
        ensures
            j.channel_groups@.len() == self.channel_groups@.len(),
            forall|i: int|
                0 <= i < j.channel_groups@.len() ==> (#[trigger] j.channel_groups@[i]).0@ == spec_key_text(
                    self.channel_groups@[i].0,
                ) && view_group_value(j.channel_groups@[i].1) == view_group_value(self.channel_groups@[i].1),
            j.chaser_id == self.chaser_id,
            j.dimmer_value == self.dimmer_value,
            j.before_chaser == self.before_chaser,
            j.name == self.name,
    {
        let mut groups: Vec<(String, ChannelGroupValue)> = Vec::new();
        let mut i: usize = 0;
        while i < self.channel_groups.len()
            invariant
                i <= self.channel_groups@.len(),
                groups@.len() == i,
                forall|k: int|
                    0 <= k < i ==> (#[trigger] groups@[k]).0@ == spec_key_text(self.channel_groups@[k].0)
                        && view_group_value(groups@[k].1) == view_group_value(self.channel_groups@[k].1),
            decreases self.channel_groups@.len() - i,
        {
            let entry = &self.channel_groups[i];
            groups.push((encode_switch_key(entry.0), clone_group_value(&entry.1)));
            i = i + 1;
        }
        JsonSwitch {
            channel_groups: groups,
            chaser_id: self.chaser_id.clone(),
            dimmer_value: self.dimmer_value,
            before_chaser: self.before_chaser,
            name: self.name.clone(),
        }
    }

    /// The switch that a JSON switch describes; every key must read back.
    pub fn load_from_json_switch(json_switch: JsonSwitch) -> (s: Switch)
        requires
            forall|i: int|
                0 <= i < json_switch.channel_groups@.len() ==> spec_parse_key(
                    (#[trigger] json_switch.channel_groups@[i]).0@,
                ) is Some,
        ensures
            distinct_keys(s.channel_groups@),
            view_group_entries(s.channel_groups@) == spec_load_groups(json_switch.channel_groups@),
            s.chaser_id == json_switch.chaser_id,
            s.dimmer_value == json_switch.dimmer_value,
            s.before_chaser == json_switch.before_chaser,
            s.name == json_switch.name,
    {
        let mut groups: Vec<((usize, usize), ChannelGroupValue)> = Vec::new();
        let mut i: usize = 0;
        let n = json_switch.channel_groups.len();
        while i < n
            invariant
                n == json_switch.channel_groups@.len(),
                i <= n,
                forall|k: int|
                    0 <= k < n ==> spec_parse_key((#[trigger] json_switch.channel_groups@[k]).0@) is Some,
                distinct_keys(groups@),
                view_group_entries(groups@) == spec_load_groups(json_switch.channel_groups@.subrange(0, i as int)),
            decreases n - i,
        {
            let entry = &json_switch.channel_groups[i];
            let key = parse_switch_key(entry.0.as_str());
            assert(json_switch.channel_groups@.subrange(0, i + 1).drop_last() =~= json_switch.channel_groups@.subrange(0, i as int));
            match key {
                Some(key) => {
                    insert_group(&mut groups, key, clone_group_value(&entry.1));
                },
                None => {
                    assert(false);
                },
            }
            i = i + 1;
        }
        assert(json_switch.channel_groups@.subrange(0, n as int) =~= json_switch.channel_groups@);
        Switch {
            channel_groups: groups,
            chaser_id: json_switch.chaser_id,
            dimmer_value: json_switch.dimmer_value,
            before_chaser: json_switch.before_chaser,
            name: json_switch.name,
        }
    }
}

/// Levels for channel groups, keyed by `(fixture id, channel group id)`,
/// each key once.
#[derive(Debug)]
pub struct ValueCollection {
    pub channel_groups: Vec<((usize, usize), ChannelGroupValue)>,
}

impl ValueCollection {
    pub fn new(channel_groups: Vec<((usize, usize), ChannelGroupValue)>) -> (v: ValueCollection)
        requires
            distinct_keys(channel_groups@),
        ensures
            v.channel_groups == channel_groups,
    {
        ValueCollection { channel_groups }
    }
}

} // verus!
