//! The fixture description format (`fixtures.dmx`): `Fixture { ... }`
//! blocks that name a fixture and list its channel groups, and `Stage { ... }`
//! blocks that place fixtures on channels. Commands end with `;`; blanks and
//! line breaks are insignificant.
use vstd::prelude::*;
use crate::types::DmxChannel;
use crate::text::{
    string_from_chars, chars_of, is_digit_char, spec_digit_value, spec_utf8_len, utf8_width, lemma_utf8_len_push,
    lemma_utf8_len_prefix, lemma_utf8_len_encoded, spec_char_at_byte, char_at_byte, lemma_char_at_byte,
};

verus! {

broadcast use vstd::string::group_string_axioms;

/// `s` without blanks and line breaks.
pub open spec fn spec_strip_blank(s: Seq<char>) -> Seq<char>
    decreases s.len(),
{
    if s.len() == 0 {
        s
    } else {
        let rest = spec_strip_blank(s.drop_last());
        if s.last() == '\n' || s.last() == ' ' {
            rest
        } else {
            rest.push(s.last())
        }
    }
}

/// `s` without double quotes.
pub open spec fn spec_strip_quotes(s: Seq<char>) -> Seq<char>
    decreases s.len(),
{
    if s.len() == 0 {
        s
    } else {
        let rest = spec_strip_quotes(s.drop_last());
        if s.last() == '"' {
            rest
        } else {
            rest.push(s.last())
        }
    }
}

/// Removes blanks and line breaks.
pub fn strip_unneccessary_symbols(vector: &mut Vec<char>)
    ensures
        final(vector)@ == spec_strip_blank(old(vector)@),
{
    let mut kept: Vec<char> = Vec::new();
    let n = vector.len();
    let mut i: usize = 0;
    while i < n
        invariant
            n == vector@.len(),
            vector@ == old(vector)@,
            i <= n,
            kept@ == spec_strip_blank(vector@.subrange(0, i as int)),
        decreases n - i,
    {
        let x = vector[i];
        assert(vector@.subrange(0, i + 1).drop_last() =~= vector@.subrange(0, i as int));
        if !(x == '\n' || x == ' ') {
            kept.push(x);
        }
        i = i + 1;
    }
    assert(vector@.subrange(0, n as int) =~= vector@);
    *vector = kept;
}

/// Removes double quotes.
pub fn strip_parentheses(vector: &mut Vec<char>)
    ensures
        final(vector)@ == spec_strip_quotes(old(vector)@),
{
    let mut kept: Vec<char> = Vec::new();
    let n = vector.len();
    let mut i: usize = 0;
    while i < n
        invariant
            n == vector@.len(),
            vector@ == old(vector)@,
            i <= n,
            kept@ == spec_strip_quotes(vector@.subrange(0, i as int)),
        decreases n - i,
    {
        let x = vector[i];
        assert(vector@.subrange(0, i + 1).drop_last() =~= vector@.subrange(0, i as int));
        if x != '"' {
            kept.push(x);
        }
        i = i + 1;
    }
    assert(vector@.subrange(0, n as int) =~= vector@);
    *vector = kept;
}

/// The characters, without blanks and line breaks, as a `String`.
pub fn vec_as_str(vector: Vec<char>) -> (s: String)
    ensures
        s@ == spec_strip_blank(vector@),
{
    let mut vector = vector;
    strip_unneccessary_symbols(&mut vector);
    string_from_chars(&vector)
}

/// The commands of `s` (taken without blanks and line breaks): the pieces
/// that end with `;`, without it, paired with what follows the last `;`.
pub open spec fn spec_split_commands(s: Seq<char>) -> (Seq<Seq<char>>, Seq<char>)
    decreases s.len(),
{
    if s.len() == 0 {
        (Seq::empty(), Seq::empty())
    } else {
        let (done, cur) = spec_split_commands(s.drop_last());
        if s.last() == ';' {
            (done.push(cur), Seq::empty())
        } else {
            (done, cur.push(s.last()))
        }
    }
}

/// The `;`-terminated commands of a block; what follows the last `;` is
/// dropped.
pub open spec fn spec_block_commands(block: Seq<char>) -> Seq<Seq<char>> {
    spec_split_commands(spec_strip_blank(block)).0
}

pub open spec fn view_strings(v: Seq<String>) -> Seq<Seq<char>> {
    v.map_values(|s: String| s@)
}

/// Splits a block into its commands (see `spec_block_commands`).
pub fn block_to_commands(block: Vec<char>) -> (commands: Vec<String>)
    ensures
        view_strings(commands@) == spec_block_commands(block@),
{
    let mut block = block;
    strip_unneccessary_symbols(&mut block);
    let mut commands: Vec<String> = Vec::new();
    let mut command: Vec<char> = Vec::new();
    let n = block.len();
    let mut i: usize = 0;
    while i < n
        invariant
            n == block@.len(),
            i <= n,
            (view_strings(commands@), command@) == spec_split_commands(block@.subrange(0, i as int)),
        decreases n - i,
    {
        let x = block[i];
        assert(block@.subrange(0, i + 1).drop_last() =~= block@.subrange(0, i as int));
        if x == ';' {
            let s = string_from_chars(&command);
            let ghost before = view_strings(commands@);
            commands.push(s);
            assert(view_strings(commands@) =~= before.push(s@));
            command = Vec::new();
            assert(command@ =~= Seq::<char>::empty());
        } else {
            command.push(x);
        }
        i = i + 1;
    }
    assert(block@.subrange(0, n as int) =~= block@);
    commands
}

/// The first character of a non-empty string.
pub fn as_char(string: &str) -> (c: char)
    requires
        string@.len() > 0,
    ensures
        c == string@[0],
{
    string.get_char(0)
}

/// Whether `c` is white space in the sense of `char::is_whitespace` (the
/// Unicode `White_Space` property).
pub open spec fn is_whitespace(c: char) -> bool {
    let u = c as u32;
    (0x9 <= u <= 0xd) || u == 0x20 || u == 0x85 || u == 0xa0 || u == 0x1680 || (0x2000 <= u <= 0x200a)
        || u == 0x2028 || u == 0x2029 || u == 0x202f || u == 0x205f || u == 0x3000
}

pub fn char_is_whitespace(c: char) -> (r: bool)
    ensures
        r == is_whitespace(c),
{
    let u = c as u32;
    (0x9 <= u && u <= 0xd) || u == 0x20 || u == 0x85 || u == 0xa0 || u == 0x1680 || (0x2000 <= u && u <= 0x200a)
        || u == 0x2028 || u == 0x2029 || u == 0x202f || u == 0x205f || u == 0x3000
}

/// Number of white-space characters at the front of `s`.
pub open spec fn spec_leading_ws(s: Seq<char>) -> nat
    decreases s.len(),
{
    if s.len() > 0 && is_whitespace(s[0]) {
        1 + spec_leading_ws(s.drop_first())
    } else {
        0
    }
}

/// Number of white-space characters at the end of `s`.
pub open spec fn spec_trailing_ws(s: Seq<char>) -> nat
    decreases s.len(),
{
    if s.len() > 0 && is_whitespace(s.last()) {
        1 + spec_trailing_ws(s.drop_last())
    } else {
        0
    }
}

/// `s` without leading and trailing white space (as `str::trim`).
pub open spec fn spec_trim(s: Seq<char>) -> Seq<char> {
    let a = spec_leading_ws(s);
    if a == s.len() {
        Seq::empty()
    } else {
        s.subrange(a as int, s.len() - spec_trailing_ws(s))
    }
}

proof fn lemma_leading_ws(s: Seq<char>, i: int)
    requires
        0 <= i <= s.len(),
        forall|j: int| 0 <= j < i ==> is_whitespace(#[trigger] s[j]),
    ensures
        spec_leading_ws(s) == i + spec_leading_ws(s.subrange(i, s.len() as int)),
    decreases i,
{
    if i > 0 {
        lemma_leading_ws(s.drop_first(), i - 1);
        assert(s.drop_first().subrange(i - 1, s.drop_first().len() as int) =~= s.subrange(i, s.len() as int));
    } else {
        assert(s.subrange(0, s.len() as int) =~= s);
    }
}

proof fn lemma_trailing_ws(s: Seq<char>, k: int)
    requires
        0 <= k <= s.len(),
        forall|j: int| s.len() - k <= j < s.len() ==> is_whitespace(#[trigger] s[j]),
    ensures
        spec_trailing_ws(s) == k + spec_trailing_ws(s.subrange(0, s.len() - k)),
    decreases k,
{
    if k > 0 {
        lemma_trailing_ws(s.drop_last(), k - 1);
        assert(s.drop_last().subrange(0, s.drop_last().len() - (k - 1)) =~= s.subrange(0, s.len() - k));
    } else {
        assert(s.subrange(0, s.len() as int) =~= s);
    }
}

/// `v` without leading and trailing white space.
pub fn trim_chars(v: &Vec<char>) -> (r: Vec<char>)
    ensures
        r@ == spec_trim(v@),
{
    let n = v.len();
    let mut a: usize = 0;
    while a < n && char_is_whitespace(v[a])
        invariant
            n == v@.len(),
            a <= n,
            forall|j: int| 0 <= j < a ==> is_whitespace(#[trigger] v@[j]),
        decreases n - a,
    {
        a = a + 1;
    }
    proof {
        lemma_leading_ws(v@, a as int);
        if a < n {
            let t = v@.subrange(a as int, n as int);
            assert(t[0] == v@[a as int]);
        }
    }
    if a == n {
        assert(spec_leading_ws(v@.subrange(n as int, n as int)) == 0);
        return Vec::new();
    }
    let mut b: usize = n;
    while b > a && char_is_whitespace(v[b - 1])
        invariant
            n == v@.len(),
            a < n,
            a <= b <= n,
            !is_whitespace(v@[a as int]),
            forall|j: int| b <= j < n ==> is_whitespace(#[trigger] v@[j]),
        decreases b,
    {
        b = b - 1;
    }
    proof {
        lemma_trailing_ws(v@, (n - b) as int);
        let t = v@.subrange(0, b as int);
        assert(t.len() > 0 && t.last() == v@[b - 1]);
        assert(spec_leading_ws(v@) == a);
    }
    let mut r: Vec<char> = Vec::new();
    let mut i = a;
    while i < b
        invariant
            a <= i <= b <= n,
            n == v@.len(),
            r@ == v@.subrange(a as int, i as int),
        decreases b - i,
    {
        r.push(v[i]);
        i = i + 1;
        assert(r@ =~= v@.subrange(a as int, i as int));
    }
    r
}

/// Channel groups that the description format creates.
#[derive(Debug, Clone, Copy, PartialEq, Eq, Structural)]
pub enum ParsedGroup {
    /// A single channel at this channel number.
    Single(DmxChannel),
}

/// Why a description cannot be read.
#[derive(Debug)]
pub enum DmxParseError {
    /// A `}` outside any block, at this byte offset.
    UnexpectedClosingBracket(usize),
    /// A block is not closed at the end of the text.
    UnclosedBlock,
    /// A block whose tag is neither `Fixture` nor `Stage`.
    UnknownTag(String),
    /// A fixture block without a `name("...")` first command.
    MissingFixtureName,
    /// A stage command without a channel.
    MissingChannelId,
    /// A stage command whose channel does not start with a digit; the
    /// characters read as its channel.
    InvalidChannelId(String),
    /// A stage command names a fixture that is not defined before it.
    UndefinedFixture(String),
    /// A `)` without a matching `(` in a fixture command.
    UnclosedDelimiter,
    /// `preheat(...)` before any channel group.
    PreheatWithoutGroup,
    /// `single(...)` whose channel does not start with a digit.
    InvalidGroupChannel,
    /// A channel number beyond the bus.
    ChannelOutOfRange,
}

pub enum ParseErrorView {
    UnexpectedClosingBracket(usize),
    UnclosedBlock,
    UnknownTag(Seq<char>),
    MissingFixtureName,
    MissingChannelId,
    InvalidChannelId(Seq<char>),
    UndefinedFixture(Seq<char>),
    UnclosedDelimiter,
    PreheatWithoutGroup,
    InvalidGroupChannel,
    ChannelOutOfRange,
}

impl DmxParseError {
    pub open spec fn view(&self) -> ParseErrorView {
        match self {
            DmxParseError::UnexpectedClosingBracket(i) => ParseErrorView::UnexpectedClosingBracket(*i),
            DmxParseError::UnclosedBlock => ParseErrorView::UnclosedBlock,
            DmxParseError::UnknownTag(t) => ParseErrorView::UnknownTag(t@),
            DmxParseError::MissingFixtureName => ParseErrorView::MissingFixtureName,
            DmxParseError::MissingChannelId => ParseErrorView::MissingChannelId,
            DmxParseError::InvalidChannelId(t) => ParseErrorView::InvalidChannelId(t@),
            DmxParseError::UndefinedFixture(t) => ParseErrorView::UndefinedFixture(t@),
            DmxParseError::UnclosedDelimiter => ParseErrorView::UnclosedDelimiter,
            DmxParseError::PreheatWithoutGroup => ParseErrorView::PreheatWithoutGroup,
            DmxParseError::InvalidGroupChannel => ParseErrorView::InvalidGroupChannel,
            DmxParseError::ChannelOutOfRange => ParseErrorView::ChannelOutOfRange,
        }
    }
}

/// Where the reading of one fixture command stands: the text before the
/// open parenthesis, the text inside, the nesting depth, and the groups so far.
pub struct FixtureScan {
    pub ty: Seq<char>,
    pub co: Seq<char>,
    pub open: nat,
    pub groups: Seq<ParsedGroup>,
}

/// The groups once a `type(content)` is closed: `preheat` keeps them (and
/// needs one before it), `single` adds a channel at `start` plus the first
/// digit of the content, anything else adds nothing.
pub open spec fn spec_close_group(
    ty: Seq<char>,
    co: Seq<char>,
    groups: Seq<ParsedGroup>,
    start: DmxChannel,
) -> Result<Seq<ParsedGroup>, ParseErrorView> {
    let co2 = spec_strip_quotes(co.drop_last());
    let tstr = spec_strip_blank(ty.drop_last());
    if tstr == "preheat"@ {
        if groups.len() == 0 {
            Err(ParseErrorView::PreheatWithoutGroup)
        } else {
            Ok(groups)
        }
    } else if spec_trim(tstr) == "single"@ {
        if co2.len() == 0 || !is_digit_char(co2[0]) {
            Err(ParseErrorView::InvalidGroupChannel)
        } else if start + spec_digit_value(co2[0]) > u16::MAX {
            Err(ParseErrorView::ChannelOutOfRange)
        } else {
            Ok(groups.push(ParsedGroup::Single((start + spec_digit_value(co2[0])) as u16)))
        }
    } else {
        Ok(groups)
    }
}

pub open spec fn spec_fixture_step(st: FixtureScan, c: char, start: DmxChannel) -> Result<FixtureScan, ParseErrorView> {
    let ty = if st.open > 0 { st.ty } else { st.ty.push(c) };
    let co = if st.open > 0 { st.co.push(c) } else { st.co };
    if c == '(' {
        Ok(FixtureScan { ty, co, open: st.open + 1, groups: st.groups })
    } else if c == ')' {
        if st.open > 1 {
            Ok(FixtureScan { ty, co, open: (st.open - 1) as nat, groups: st.groups })
        } else if st.open == 1 {
            match spec_close_group(ty, co, st.groups, start) {
                Ok(g) => Ok(FixtureScan { ty: Seq::empty(), co: Seq::empty(), open: 0, groups: g }),
                Err(e) => Err(e),
            }
        } else {
            Err(ParseErrorView::UnclosedDelimiter)
        }
    } else {
        Ok(FixtureScan { ty, co, open: st.open, groups: st.groups })
    }
}

/// Reads the characters of one command, starting with `groups`.
pub open spec fn spec_fixture_run(groups: Seq<ParsedGroup>, cmd: Seq<char>, start: DmxChannel) -> Result<FixtureScan, ParseErrorView>
    decreases cmd.len(),
{
    if cmd.len() == 0 {
        Ok(FixtureScan { ty: Seq::empty(), co: Seq::empty(), open: 0, groups })
    } else {
        match spec_fixture_run(groups, cmd.drop_last(), start) {
            Ok(st) => spec_fixture_step(st, cmd.last(), start),
            Err(e) => Err(e),
        }
    }
}

/// The channel groups that the commands of a fixture create at `start`.
pub open spec fn spec_parse_fixture(commands: Seq<Seq<char>>, start: DmxChannel) -> Result<Seq<ParsedGroup>, ParseErrorView>
    decreases commands.len(),
{
    if commands.len() == 0 {
        Ok(Seq::empty())
    } else {
        match spec_parse_fixture(commands.drop_last(), start) {
            Ok(g) => match spec_fixture_run(g, commands.last(), start) {
                Ok(st) => Ok(st.groups),
                Err(e) => Err(e),
            },
            Err(e) => Err(e),
        }
    }
}

/// Once a command fails to read, reading more of it fails the same way.
proof fn lemma_fixture_run_err(g: Seq<ParsedGroup>, s: Seq<char>, k: int, start: DmxChannel)
    requires
        0 <= k <= s.len(),
        spec_fixture_run(g, s.subrange(0, k), start) is Err,
    ensures
        spec_fixture_run(g, s, start) == spec_fixture_run(g, s.subrange(0, k), start),
    decreases s.len(),
{
    if k == s.len() {
        assert(s.subrange(0, k) =~= s);
    } else {
        assert(s.drop_last().subrange(0, k) =~= s.subrange(0, k));
        lemma_fixture_run_err(g, s.drop_last(), k, start);
    }
}

proof fn lemma_parse_fixture_err(s: Seq<Seq<char>>, k: int, start: DmxChannel)
    requires
        0 <= k <= s.len(),
        spec_parse_fixture(s.take(k), start) is Err,
    ensures
        spec_parse_fixture(s, start) == spec_parse_fixture(s.take(k), start),
    decreases s.len(),
{
    if k == s.len() {
        assert(s.take(k) =~= s);
    } else {
        assert(s.drop_last().take(k) =~= s.take(k));
        lemma_parse_fixture_err(s.drop_last(), k, start);
    }
}

fn chars_equal(v: &Vec<char>, s: &str) -> (r: bool)
    ensures
        r == (v@ == s@),
{
    let w = chars_of(s);
    if v.len() != w.len() {
        return false;
    }
    let mut i: usize = 0;
    while i < v.len()
        invariant
            v@.len() == w@.len(),
            w@ == s@,
            i <= v@.len(),
            forall|j: int| 0 <= j < i ==> v@[j] == w@[j],
        decreases v@.len() - i,
    {
        if v[i] != w[i] {
            return false;
        }
        i = i + 1;
    }
    assert(v@ =~= w@);
    true
}

fn close_group(ty: &Vec<char>, co: &Vec<char>, groups: &mut Vec<ParsedGroup>, start: DmxChannel) -> (r: Result<(), DmxParseError>)
    requires
        ty@.len() > 0,
        co@.len() > 0,
    ensures
        match spec_close_group(ty@, co@, old(groups)@, start) {
            Ok(g) => r is Ok && final(groups)@ == g,
            Err(e) => r matches Err(e2) && e2.view() == e,
        },
{
    let mut co2: Vec<char> = co.clone();
    assert(co2@ == co@);
    co2.pop();
    assert(co2@ =~= co@.drop_last());
    strip_parentheses(&mut co2);
    let mut ty2: Vec<char> = ty.clone();
    ty2.pop();
    assert(ty2@ =~= ty@.drop_last());
    strip_unneccessary_symbols(&mut ty2);
    if chars_equal(&ty2, "preheat") {
        if groups.len() == 0 {
            return Err(DmxParseError::PreheatWithoutGroup);
        }
        return Ok(());
    }
    let trimmed = trim_chars(&ty2);
    if chars_equal(&trimmed, "single") {
        if co2.len() == 0 || !('0' <= co2[0] && co2[0] <= '9') {
            return Err(DmxParseError::InvalidGroupChannel);
        }
        let d = (co2[0] as u32 - 48) as u16;
        if start > u16::MAX - d {
            return Err(DmxParseError::ChannelOutOfRange);
        }
        groups.push(ParsedGroup::Single(start + d));
    }
    Ok(())
}

/// Reads one fixture command, adding the groups it creates.
fn parse_fixture_command(command: &String, groups: &mut Vec<ParsedGroup>, start: DmxChannel) -> (r: Result<(), DmxParseError>)
    ensures
        match spec_fixture_run(old(groups)@, command@, start) {
            Ok(st) => r is Ok && final(groups)@ == st.groups,
            Err(e) => r matches Err(e2) && e2.view() == e,
        },
{
    let cs = chars_of(command.as_str());
    let n = cs.len();
    let mut ty: Vec<char> = Vec::new();
    let mut co: Vec<char> = Vec::new();
    let mut open: usize = 0;
    let ghost g0 = groups@;
    let mut i: usize = 0;
    while i < n
        invariant
            n == cs@.len(),
            cs@ == command@,
            i <= n,
            open <= i,
            open > 0 ==> ty@.len() > 0,
            g0 == old(groups)@,
            spec_fixture_run(g0, cs@.subrange(0, i as int), start) == Ok::<FixtureScan, ParseErrorView>(
                FixtureScan { ty: ty@, co: co@, open: open as nat, groups: groups@ },
            ),
        decreases n - i,
    {
        let c = cs[i];
        assert(cs@.subrange(0, i + 1).drop_last() =~= cs@.subrange(0, i as int));
        let ghost st = FixtureScan { ty: ty@, co: co@, open: open as nat, groups: groups@ };
        assert(spec_fixture_run(g0, cs@.subrange(0, i + 1), start) == spec_fixture_step(st, c, start));
        if open > 0 {
            co.push(c);
        } else {
            ty.push(c);
        }
        if c == '(' {
            open = open + 1;
        } else if c == ')' {
            if open > 1 {
                open = open - 1;
            } else if open == 1 {
                let r = close_group(&ty, &co, groups, start);
                match r {
                    Ok(()) => {},
                    Err(e) => {
                        proof {
                            lemma_fixture_run_err(g0, cs@, (i + 1) as int, start);
                        }
                        return Err(e);
                    },
                }
                open = 0;
                ty = Vec::new();
                co = Vec::new();
                assert(ty@ =~= Seq::<char>::empty());
                assert(co@ =~= Seq::<char>::empty());
            } else {
                proof {
                    assert(spec_fixture_step(st, c, start) == Err::<FixtureScan, ParseErrorView>(ParseErrorView::UnclosedDelimiter));
                    lemma_fixture_run_err(g0, cs@, (i + 1) as int, start);
                    assert(spec_fixture_run(g0, command@, start) == Err::<FixtureScan, ParseErrorView>(ParseErrorView::UnclosedDelimiter));

                }
                return Err(DmxParseError::UnclosedDelimiter);
            }
        }
        i = i + 1;
    }
    assert(cs@.subrange(0, n as int) =~= cs@);
    Ok(())
}

/// The channel groups that the commands of a fixture create when it is
/// placed at `start_channel` (see `spec_parse_fixture`).
pub fn parse_fixture(commands: &Vec<String>, start_channel: DmxChannel) -> (r: Result<Vec<ParsedGroup>, DmxParseError>)
    ensures
        match spec_parse_fixture(view_strings(commands@), start_channel) {
            Ok(g) => r matches Ok(v) && v@ == g,
            Err(e) => r matches Err(e2) && e2.view() == e,
        },
{
    let mut channel_groups: Vec<ParsedGroup> = Vec::new();
    let n = commands.len();
    let mut i: usize = 0;
    while i < n
        invariant
            n == commands@.len(),
            i <= n,
            spec_parse_fixture(view_strings(commands@).take(i as int), start_channel) == Ok::<
                Seq<ParsedGroup>,
                ParseErrorView,
            >(channel_groups@),
        decreases n - i,
    {
        let ghost vs = view_strings(commands@);
        assert(vs.take(i + 1).drop_last() =~= vs.take(i as int));
        assert(vs.take(i + 1).last() == commands@[i as int]@);
        let r = parse_fixture_command(&commands[i], &mut channel_groups, start_channel);
        match r {
            Ok(()) => {},
            Err(e) => {
                proof {
                    lemma_parse_fixture_err(view_strings(commands@), (i + 1) as int, start_channel);
                }
                return Err(e);
            },
        }
        i = i + 1;
    }
    assert(view_strings(commands@).take(n as int) =~= view_strings(commands@));
    Ok(channel_groups)
}

/// Where the reading of a stage command stands: `channel->"type"("name")`.
pub struct SceneScan {
    pub name_open: bool,
    pub name: Seq<char>,
    pub type_open: bool,
    pub ftype: Seq<char>,
    pub target: Seq<char>,
}

pub open spec fn spec_scene_step(st: SceneScan, c: char) -> SceneScan {
    if c == '-' && !st.type_open {
        SceneScan { type_open: true, ..st }
    } else if c == '>' && !st.name_open {
        st
    } else if c == '(' && !st.name_open {
        SceneScan { name_open: true, ..st }
    } else if st.name_open {
        SceneScan { name: st.name.push(c), ..st }
    } else if st.type_open {
        SceneScan { ftype: st.ftype.push(c), ..st }
    } else {
        SceneScan { target: st.target.push(c), ..st }
    }
}

pub open spec fn spec_scene_run(cmd: Seq<char>) -> SceneScan
    decreases cmd.len(),
{
    if cmd.len() == 0 {
        SceneScan { name_open: false, name: Seq::empty(), type_open: false, ftype: Seq::empty(), target: Seq::empty() }
    } else {
        spec_scene_step(spec_scene_run(cmd.drop_last()), cmd.last())
    }
}

pub open spec fn view_fixture_defs(s: Seq<(String, Vec<String>)>) -> Seq<(Seq<char>, Seq<Seq<char>>)> {
    s.map_values(|d: (String, Vec<String>)| (d.0@, view_strings(d.1@)))
}

/// Index of the last fixture definition called `name`, or -1.
pub open spec fn spec_last_index(fx: Seq<(Seq<char>, Seq<Seq<char>>)>, name: Seq<char>) -> int
    decreases fx.len(),
{
    if fx.len() == 0 {
        -1
    } else if fx.last().0 == name {
        fx.len() - 1
    } else {
        spec_last_index(fx.drop_last(), name)
    }
}

/// The commands of fixture `name`, if it is defined.
pub open spec fn spec_lookup_fixture(fx: Seq<(Seq<char>, Seq<Seq<char>>)>, name: Seq<char>) -> Option<Seq<Seq<char>>> {
    let i = spec_last_index(fx, name);
    if i >= 0 {
        Some(fx[i].1)
    } else {
        None
    }
}

/// The definitions once fixture `name` is (re)defined with `cmds`.
pub open spec fn spec_insert_fixture(
    fx: Seq<(Seq<char>, Seq<Seq<char>>)>,
    name: Seq<char>,
    cmds: Seq<Seq<char>>,
) -> Seq<(Seq<char>, Seq<Seq<char>>)> {
    let i = spec_last_index(fx, name);
    if i >= 0 {
        fx.update(i, (name, cmds))
    } else {
        fx.push((name, cmds))
    }
}

proof fn lemma_last_index(fx: Seq<(Seq<char>, Seq<Seq<char>>)>, name: Seq<char>, k: int)
    requires
        0 <= k <= fx.len(),
        forall|j: int| k <= j < fx.len() ==> (#[trigger] fx[j]).0 != name,
    ensures
        spec_last_index(fx, name) == spec_last_index(fx.take(k), name),
        -1 <= spec_last_index(fx, name) < k,
        spec_last_index(fx, name) >= 0 ==> fx[spec_last_index(fx, name)].0 == name,
    decreases fx.len(),
{
    if k == fx.len() {
        assert(fx.take(k) =~= fx);
        lemma_last_index_range(fx, name);
    } else {
        assert(fx.drop_last().take(k) =~= fx.take(k));
        lemma_last_index(fx.drop_last(), name, k);
    }
}

proof fn lemma_last_index_range(fx: Seq<(Seq<char>, Seq<Seq<char>>)>, name: Seq<char>)
    ensures
        -1 <= spec_last_index(fx, name) < fx.len(),
        spec_last_index(fx, name) >= 0 ==> fx[spec_last_index(fx, name)].0 == name,
    decreases fx.len(),
{
    if fx.len() > 0 && fx.last().0 != name {
        lemma_last_index_range(fx.drop_last(), name);
    }
}

fn last_index(fx: &Vec<(String, Vec<String>)>, name: &String) -> (r: Option<usize>)
    ensures
        match r {
            Some(i) => i as int == spec_last_index(view_fixture_defs(fx@), name@) && i < fx@.len(),
            None => spec_last_index(view_fixture_defs(fx@), name@) == -1,
        },
{
    let ghost v = view_fixture_defs(fx@);
    let mut k = fx.len();
    while k > 0 && !(fx[k - 1].0 == *name)
        invariant
            k <= fx@.len(),
            v == view_fixture_defs(fx@),
            forall|j: int| k <= j < v.len() ==> (#[trigger] v[j]).0 != name@,
        decreases k,
    {
        assert(v[k - 1].0 == fx@[k - 1].0@);
        k = k - 1;
    }
    proof {
        lemma_last_index(v, name@, k as int);
    }
    if k == 0 {
        assert(v.take(0) =~= Seq::<(Seq<char>, Seq<Seq<char>>)>::empty());
        None
    } else {
        assert(v[k - 1].0 == name@);
        assert(v.take(k as int).drop_last() =~= v.take(k - 1));
        Some(k - 1)
    }
}

/// A fixture placed on the stage.
#[derive(Debug)]
pub struct SceneEntry {
    pub target_channel: u32,
    pub fixture_type: String,
    pub name: String,
    pub channel_groups: Vec<ParsedGroup>,
}

pub struct SceneEntryView {
    pub target_channel: u32,
    pub fixture_type: Seq<char>,
    pub name: Seq<char>,
    pub channel_groups: Seq<ParsedGroup>,
}

impl SceneEntry {
    pub open spec fn view(&self) -> SceneEntryView {
        SceneEntryView {
            target_channel: self.target_channel,
            fixture_type: self.fixture_type@,
            name: self.name@,
            channel_groups: self.channel_groups@,
        }
    }
}

pub open spec fn view_scene(s: Seq<SceneEntry>) -> Seq<SceneEntryView> {
    s.map_values(|e: SceneEntry| e.view())
}

/// What one stage command places: the first character of the channel must
/// be a digit (the channel), the fixture type must be defined, and the
/// fixture's commands are read at that channel.
pub open spec fn spec_scene_command(cmd: Seq<char>, fixtures: Seq<(Seq<char>, Seq<Seq<char>>)>) -> Result<SceneEntryView, ParseErrorView> {
    let st = spec_scene_run(cmd);
    if st.target.len() == 0 {
        Err(ParseErrorView::MissingChannelId)
    } else if !is_digit_char(st.target[0]) {
        Err(ParseErrorView::InvalidChannelId(st.target))
    } else {
        let ch = spec_digit_value(st.target[0]);
        let ftype = spec_strip_blank(spec_strip_quotes(st.ftype));
        let nq = spec_strip_quotes(st.name);
        let name = spec_strip_blank(if nq.len() > 0 { nq.drop_last() } else { nq });
        match spec_lookup_fixture(fixtures, ftype) {
            None => Err(ParseErrorView::UndefinedFixture(ftype)),
            Some(cmds) => match spec_parse_fixture(cmds, ch as u16) {
                Ok(g) => Ok(SceneEntryView { target_channel: ch as u32, fixture_type: ftype, name, channel_groups: g }),
                Err(e) => Err(e),
            },
        }
    }
}

pub open spec fn spec_scene_commands(cmds: Seq<Seq<char>>, fixtures: Seq<(Seq<char>, Seq<Seq<char>>)>) -> Result<Seq<SceneEntryView>, ParseErrorView>
    decreases cmds.len(),
{
    if cmds.len() == 0 {
        Ok(Seq::empty())
    } else {
        match spec_scene_commands(cmds.drop_last(), fixtures) {
            Ok(es) => match spec_scene_command(cmds.last(), fixtures) {
                Ok(e) => Ok(es.push(e)),
                Err(e) => Err(e),
            },
            Err(e) => Err(e),
        }
    }
}

/// What a stage block places, command by command; the first command that
/// cannot be read decides the error.
pub open spec fn spec_parse_scene(block: Seq<char>, fixtures: Seq<(Seq<char>, Seq<Seq<char>>)>) -> Result<Seq<SceneEntryView>, ParseErrorView> {
    spec_scene_commands(spec_block_commands(block), fixtures)
}

proof fn lemma_scene_commands_err(s: Seq<Seq<char>>, k: int, fixtures: Seq<(Seq<char>, Seq<Seq<char>>)>)
    requires
        0 <= k <= s.len(),
        spec_scene_commands(s.take(k), fixtures) is Err,
    ensures
        spec_scene_commands(s, fixtures) == spec_scene_commands(s.take(k), fixtures),
    decreases s.len(),
{
    if k == s.len() {
        assert(s.take(k) =~= s);
    } else {
        assert(s.drop_last().take(k) =~= s.take(k));
        lemma_scene_commands_err(s.drop_last(), k, fixtures);
    }
}

fn parse_scene_command(command: &String, fixtures: &Vec<(String, Vec<String>)>) -> (r: Result<SceneEntry, DmxParseError>)
    ensures
        match spec_scene_command(command@, view_fixture_defs(fixtures@)) {
            Ok(e) => r matches Ok(v) && v.view() == e,
            Err(e) => r matches Err(e2) && e2.view() == e,
        },
{
    let cs = chars_of(command.as_str());
    let n = cs.len();
    let mut name_open = false;
    let mut name: Vec<char> = Vec::new();
    let mut type_open = false;
    let mut ftype: Vec<char> = Vec::new();
    let mut target: Vec<char> = Vec::new();
    let mut i: usize = 0;
    while i < n
        invariant
            n == cs@.len(),
            i <= n,
            spec_scene_run(cs@.subrange(0, i as int)) == (SceneScan {
                name_open,
                name: name@,
                type_open,
                ftype: ftype@,
                target: target@,
            }),
        decreases n - i,
    {
        let c = cs[i];
        assert(cs@.subrange(0, i + 1).drop_last() =~= cs@.subrange(0, i as int));
        if c == '-' && !type_open {
            type_open = true;
        } else if c == '>' && !name_open {
        } else if c == '(' && !name_open {
            name_open = true;
        } else if name_open {
            name.push(c);
        } else if type_open {
            ftype.push(c);
        } else {
            target.push(c);
        }
        i = i + 1;
    }
    assert(cs@.subrange(0, n as int) =~= cs@);
    if target.len() == 0 {
        return Err(DmxParseError::MissingChannelId);
    }
    if !('0' <= target[0] && target[0] <= '9') {
        return Err(DmxParseError::InvalidChannelId(string_from_chars(&target)));
    }
    let ch = target[0] as u32 - 48;
    strip_parentheses(&mut ftype);
    strip_parentheses(&mut name);
    let ghost nq = name@;
    name.pop();
    assert(name@ =~= if nq.len() > 0 { nq.drop_last() } else { nq });
    let fixture_type = vec_as_str(ftype);
    let name_str = vec_as_str(name);
    match last_index(fixtures, &fixture_type) {
        None => Err(DmxParseError::UndefinedFixture(fixture_type)),
        Some(k) => {
            assert(view_fixture_defs(fixtures@)[k as int].1 == view_strings(fixtures@[k as int].1@));
            match parse_fixture(&fixtures[k].1, ch as u16) {
                Ok(g) => Ok(SceneEntry { target_channel: ch, fixture_type, name: name_str, channel_groups: g }),
                Err(e) => Err(e),
            }
        },
    }
}

/// Reads a stage block against the fixtures defined so far (see
/// `spec_parse_scene`).
pub fn parse_scene(block: Vec<char>, fixtures: &Vec<(String, Vec<String>)>) -> (r: Result<Vec<SceneEntry>, DmxParseError>)
    ensures
        match spec_parse_scene(block@, view_fixture_defs(fixtures@)) {
            Ok(es) => r matches Ok(v) && view_scene(v@) == es,
            Err(e) => r matches Err(e2) && e2.view() == e,
        },
{
    let ghost b = block@;
    let commands = block_to_commands(block);
    let ghost cmds = view_strings(commands@);
    let mut entries: Vec<SceneEntry> = Vec::new();
    let n = commands.len();
    let mut i: usize = 0;
    assert(cmds.take(0) =~= Seq::<Seq<char>>::empty());
    assert(view_scene(entries@) =~= Seq::<SceneEntryView>::empty());
    while i < n
        invariant
            n == commands@.len(),
            cmds == view_strings(commands@),
            cmds == spec_block_commands(b),
            b == block@,
            i <= n,
            spec_scene_commands(cmds.take(i as int), view_fixture_defs(fixtures@)) == Ok::<
                Seq<SceneEntryView>,
                ParseErrorView,
            >(view_scene(entries@)),
        decreases n - i,
    {
        assert(cmds.take(i + 1).drop_last() =~= cmds.take(i as int));
        assert(cmds.take(i + 1).last() == commands@[i as int]@);
        match parse_scene_command(&commands[i], fixtures) {
            Ok(e) => {
                let ghost before = view_scene(entries@);
                entries.push(e);
                assert(view_scene(entries@) =~= before.push(e.view()));
            },
            Err(e) => {
                proof {
                    assert(spec_scene_command(commands@[i as int]@, view_fixture_defs(fixtures@)) is Err);
                    assert(spec_scene_commands(cmds.take(i + 1), view_fixture_defs(fixtures@)) == Err::<
                        Seq<SceneEntryView>,
                        ParseErrorView,
                    >(e.view()));
                    lemma_scene_commands_err(cmds, (i + 1) as int, view_fixture_defs(fixtures@));
                }
                return Err(e);
            },
        }
        i = i + 1;
    }
    assert(cmds.take(n as int) =~= cmds);
    Ok(entries)
}

/// The fixture definitions (name, commands after the name) and the stage
/// blocks of a description, in order.
#[derive(Debug)]
pub struct DmxFile {
    pub fixtures: Vec<(String, Vec<String>)>,
    pub scenes: Vec<Vec<SceneEntry>>,
}

pub open spec fn view_scenes(s: Seq<Vec<SceneEntry>>) -> Seq<Seq<SceneEntryView>> {
    s.map_values(|v: Vec<SceneEntry>| view_scene(v@))
}

/// Where the reading of a description stands: the block nesting depth, the
/// text of the open block and of the tag before it, and what was read.
pub struct FileScan {
    pub open: nat,
    pub block: Seq<char>,
    pub btype: Seq<char>,
    pub fixtures: Seq<(Seq<char>, Seq<Seq<char>>)>,
    pub scenes: Seq<Seq<SceneEntryView>>,
}

/// The name that the first command of a fixture block, `name("...")`,
/// gives: its text from byte 6 to two bytes before its end. None where the
/// command is shorter than 8 bytes or either end falls inside a character.
pub open spec fn spec_fixture_name(cmd: Seq<char>) -> Option<Seq<char>> {
    let len = spec_utf8_len(cmd);
    if len < 8 {
        None
    } else {
        match (spec_char_at_byte(cmd, 6), spec_char_at_byte(cmd, (len - 2) as nat)) {
            (Some(a), Some(b)) => Some(cmd.subrange(a as int, b as int)),
            _ => None,
        }
    }
}

/// What a closed block adds: a `Fixture` block is named by its first
/// command (see `spec_fixture_name`) and keeps the rest; a `Stage` block is
/// read against the fixtures defined before it.
pub open spec fn spec_close_block(st: FileScan, block: Seq<char>, tag: Seq<char>) -> Result<FileScan, ParseErrorView> {
    if tag == "Fixture"@ {
        let cmds = spec_block_commands(block);
        if cmds.len() == 0 || spec_fixture_name(cmds[0]) is None {
            Err(ParseErrorView::MissingFixtureName)
        } else {
            let name = spec_fixture_name(cmds[0]).unwrap();
            Ok(FileScan {
                open: 0,
                block: Seq::empty(),
                btype: Seq::empty(),
                fixtures: spec_insert_fixture(st.fixtures, name, cmds.drop_first()),
                scenes: st.scenes,
            })
        }
    } else if tag == "Stage"@ {
        match spec_parse_scene(block, st.fixtures) {
            Ok(sc) => Ok(FileScan { open: 0, block: Seq::empty(), btype: Seq::empty(), fixtures: st.fixtures, scenes: st.scenes.push(sc) }),
            Err(e) => Err(e),
        }
    } else {
        Err(ParseErrorView::UnknownTag(tag))
    }
}

pub open spec fn spec_file_step(st: FileScan, c: char, index: int) -> Result<FileScan, ParseErrorView> {
    let block = if st.open > 0 { st.block.push(c) } else { st.block };
    let btype = if st.open > 0 { st.btype } else { st.btype.push(c) };
    if c == '{' {
        Ok(FileScan { open: st.open + 1, block, btype, ..st })
    } else if c == '}' {
        if st.open > 1 {
            Ok(FileScan { open: (st.open - 1) as nat, block, btype, ..st })
        } else if st.open == 1 {
            spec_close_block(st, block.drop_last(), spec_strip_blank(btype.drop_last()))
        } else {
            Err(ParseErrorView::UnexpectedClosingBracket(index as usize))
        }
    } else {
        Ok(FileScan { block, btype, ..st })
    }
}

pub open spec fn spec_file_run(s: Seq<char>) -> Result<FileScan, ParseErrorView>
    decreases s.len(),
{
    if s.len() == 0 {
        Ok(FileScan { open: 0, block: Seq::empty(), btype: Seq::empty(), fixtures: Seq::empty(), scenes: Seq::empty() })
    } else {
        match spec_file_run(s.drop_last()) {
            Ok(st) => spec_file_step(st, s.last(), spec_utf8_len(s.drop_last()) as int),
            Err(e) => Err(e),
        }
    }
}

/// A description read whole: every block closed, every block read.
pub open spec fn spec_parse_dmx(s: Seq<char>) -> Result<(Seq<(Seq<char>, Seq<Seq<char>>)>, Seq<Seq<SceneEntryView>>), ParseErrorView> {
    match spec_file_run(s) {
        Ok(st) => if st.open > 0 {
            Err(ParseErrorView::UnclosedBlock)
        } else {
            Ok((st.fixtures, st.scenes))
        },
        Err(e) => Err(e),
    }
}

proof fn lemma_file_run_err(s: Seq<char>, k: int)
    requires
        0 <= k <= s.len(),
        spec_file_run(s.subrange(0, k)) is Err,
    ensures
        spec_file_run(s) == spec_file_run(s.subrange(0, k)),
    decreases s.len(),
{
    if k == s.len() {
        assert(s.subrange(0, k) =~= s);
    } else {
        assert(s.drop_last().subrange(0, k) =~= s.subrange(0, k));
        lemma_file_run_err(s.drop_last(), k);
    }
}

fn copy_chars(v: &Vec<char>, from: usize, to: usize) -> (r: Vec<char>)
    requires
        from <= to <= v@.len(),
    ensures
        r@ == v@.subrange(from as int, to as int),
{
    let mut r: Vec<char> = Vec::new();
    let mut i = from;
    while i < to
        invariant
            from <= i <= to <= v@.len(),
            r@ == v@.subrange(from as int, i as int),
        decreases to - i,
    {
        r.push(v[i]);
        i = i + 1;
        assert(r@ =~= v@.subrange(from as int, i as int));
    }
    r
}

fn close_block(
    block: Vec<char>,
    tag: &Vec<char>,
    fixtures: &mut Vec<(String, Vec<String>)>,
    scenes: &mut Vec<Vec<SceneEntry>>,
) -> (r: Result<(), DmxParseError>)
    ensures
        match spec_close_block(
            FileScan { open: 1, block: Seq::empty(), btype: Seq::empty(), fixtures: view_fixture_defs(old(fixtures)@), scenes: view_scenes(old(scenes)@) },
            block@,
            tag@,
        ) {
            Ok(st) => r is Ok && view_fixture_defs(final(fixtures)@) == st.fixtures && view_scenes(final(scenes)@) == st.scenes,
            Err(e) => r matches Err(e2) && e2.view() == e,
        },
{
    if chars_equal(tag, "Fixture") {
        let mut commands = block_to_commands(block);
        if commands.len() == 0 {
            return Err(DmxParseError::MissingFixtureName);
        }
        let first = chars_of(commands[0].as_str());
        let cmd0 = commands[0].as_str();
        let bytes = cmd0.as_bytes();
        let len = bytes.len();
        proof {
            lemma_utf8_len_encoded(first@);
            assert(cmd0@ == first@);
            assert(len == spec_utf8_len(first@));
            assert(first@ == spec_block_commands(block@)[0]);
        }
        if len < 8 {
            return Err(DmxParseError::MissingFixtureName);
        }
        let oa = char_at_byte(&first, 6);
        let ob = char_at_byte(&first, len - 2);
        if oa.is_none() || ob.is_none() {
            return Err(DmxParseError::MissingFixtureName);
        }
        let a = oa.unwrap();
        let b = ob.unwrap();
        proof {
            let end = (len - 2) as nat;
            assert(spec_char_at_byte(first@, 6) is Some);
            assert(spec_char_at_byte(first@, end) is Some);
            lemma_char_at_byte(first@, 6, end);
            let ka = spec_char_at_byte(first@, 6).unwrap();
            let kb = spec_char_at_byte(first@, end).unwrap();
            assert(ka <= kb <= first@.len());
            assert(a == ka && b == kb);
            assert(spec_fixture_name(first@) == Some(first@.subrange(a as int, b as int)));
        }
        let name = string_from_chars(&copy_chars(&first, a, b));
        let ghost all = view_strings(commands@);
        let _ = commands.remove(0);
        assert(view_strings(commands@) =~= all.drop_first());
        let ghost old_fx = view_fixture_defs(fixtures@);
        match last_index(fixtures, &name) {
            Some(k) => {
                fixtures.set(k, (name, commands));
                assert(view_fixture_defs(fixtures@) =~= old_fx.update(k as int, (name@, all.drop_first())));
            },
            None => {
                fixtures.push((name, commands));
                assert(view_fixture_defs(fixtures@) =~= old_fx.push((name@, all.drop_first())));
            },
        }
        Ok(())
    } else if chars_equal(tag, "Stage") {
        match parse_scene(block, fixtures) {
            Ok(sc) => {
                let ghost before = view_scenes(scenes@);
                scenes.push(sc);
                assert(view_scenes(scenes@) =~= before.push(view_scene(sc@)));
                Ok(())
            },
            Err(e) => Err(e),
        }
    } else {
        Err(DmxParseError::UnknownTag(string_from_chars(tag)))
    }
}

/// Reads a description (see `spec_parse_dmx`). Error positions are byte
/// offsets in the UTF-8 text.
pub fn parse_dmx_text(text: &str) -> (r: Result<DmxFile, DmxParseError>)
    ensures
        match spec_parse_dmx(text@) {
            Ok((fx, sc)) => r matches Ok(f) && view_fixture_defs(f.fixtures@) == fx && view_scenes(f.scenes@) == sc,
            Err(e) => r matches Err(e2) && e2.view() == e,
        },
{
    let cs = chars_of(text);
    let n = cs.len();
    let total = text.as_bytes().len();
    proof {
        lemma_utf8_len_encoded(text@);
    }
    let mut byte: usize = 0;
    let mut open: usize = 0;
    let mut block: Vec<char> = Vec::new();
    let mut block_type: Vec<char> = Vec::new();
    let mut fixtures: Vec<(String, Vec<String>)> = Vec::new();
    let mut scenes: Vec<Vec<SceneEntry>> = Vec::new();
    let mut i: usize = 0;
    assert(view_fixture_defs(fixtures@) =~= Seq::<(Seq<char>, Seq<Seq<char>>)>::empty());
    assert(view_scenes(scenes@) =~= Seq::<Seq<SceneEntryView>>::empty());
    while i < n
        invariant
            n == cs@.len(),
            cs@ == text@,
            i <= n,
            total == spec_utf8_len(cs@),
            byte == spec_utf8_len(cs@.subrange(0, i as int)),
            open <= i,
            open > 0 ==> block_type@.len() > 0,
            spec_file_run(cs@.subrange(0, i as int)) == Ok::<FileScan, ParseErrorView>(
                FileScan {
                    open: open as nat,
                    block: block@,
                    btype: block_type@,
                    fixtures: view_fixture_defs(fixtures@),
                    scenes: view_scenes(scenes@),
                },
            ),
        decreases n - i,
    {
        let c = cs[i];
        let ghost st = FileScan {
            open: open as nat,
            block: block@,
            btype: block_type@,
            fixtures: view_fixture_defs(fixtures@),
            scenes: view_scenes(scenes@),
        };
        assert(cs@.subrange(0, i + 1).drop_last() =~= cs@.subrange(0, i as int));
        assert(spec_file_run(cs@.subrange(0, i + 1)) == spec_file_step(st, c, byte as int));
        if open > 0 {
            block.push(c);
        } else {
            block_type.push(c);
        }
        if c == '{' {
            open = open + 1;
        } else if c == '}' {
            if open > 1 {
                open = open - 1;
            } else if open == 1 {
                open = 0;
                let mut b = Vec::new();
                std::mem::swap(&mut b, &mut block);
                b.pop();
                block_type.pop();
                strip_unneccessary_symbols(&mut block_type);
                let r = close_block(b, &block_type, &mut fixtures, &mut scenes);
                match r {
                    Ok(()) => {},
                    Err(e) => {
                        proof {
                            lemma_file_run_err(cs@, (i + 1) as int);
                        }
                        return Err(e);
                    },
                }
                block_type = Vec::new();
                assert(block@ =~= Seq::<char>::empty());
                assert(block_type@ =~= Seq::<char>::empty());
            } else {
                proof {
                    lemma_file_run_err(cs@, (i + 1) as int);
                }
                return Err(DmxParseError::UnexpectedClosingBracket(byte));
            }
        }
        proof {
            assert(cs@.subrange(0, i + 1) =~= cs@.subrange(0, i as int).push(c));
            lemma_utf8_len_push(cs@.subrange(0, i as int), c);
            lemma_utf8_len_prefix(cs@, i + 1);
        }
        byte = byte + utf8_width(c);
        i = i + 1;
    }
    assert(cs@.subrange(0, n as int) =~= cs@);
    if open > 0 {
        return Err(DmxParseError::UnclosedBlock);
    }
    Ok(DmxFile { fixtures, scenes })
}

proof fn lemma_strip_blank_clean(s: Seq<char>)
    ensures
        forall|i: int|
            0 <= i < spec_strip_blank(s).len() ==> #[trigger] spec_strip_blank(s)[i] != ' '
                && spec_strip_blank(s)[i] != '\n',
    decreases s.len(),
{
    if s.len() > 0 {
        let rest = spec_strip_blank(s.drop_last());
        lemma_strip_blank_clean(s.drop_last());
        if !(s.last() == '\n' || s.last() == ' ') {
            assert forall|i: int| 0 <= i < rest.push(s.last()).len() implies #[trigger] rest.push(
                s.last(),
            )[i] != ' ' && rest.push(s.last())[i] != '\n' by {
                if i < rest.len() {
                    assert(rest.push(s.last())[i] == rest[i]);
                }
            }
        }
    }
}

proof fn lemma_split_clean(s: Seq<char>)
    requires
        forall|i: int| 0 <= i < s.len() ==> #[trigger] s[i] != ' ' && s[i] != '\n',
    ensures
        forall|k: int, i: int|
            0 <= k < spec_split_commands(s).0.len() && 0 <= i < spec_split_commands(s).0[k].len()
                ==> #[trigger] spec_split_commands(s).0[k][i] != ';' && spec_split_commands(s).0[k][i]
                != ' ' && spec_split_commands(s).0[k][i] != '\n',
        forall|i: int|
            0 <= i < spec_split_commands(s).1.len() ==> #[trigger] spec_split_commands(s).1[i] != ';'
                && spec_split_commands(s).1[i] != ' ' && spec_split_commands(s).1[i] != '\n',
    decreases s.len(),
{
    if s.len() > 0 {
        let t = s.drop_last();
        assert forall|i: int| 0 <= i < t.len() implies #[trigger] t[i] != ' ' && t[i] != '\n' by {
            assert(t[i] == s[i]);
        }
        lemma_split_clean(t);
        let done = spec_split_commands(t).0;
        let cur = spec_split_commands(t).1;
        let last = s.last();
        assert(last == s[s.len() - 1]);
        if last == ';' {
            assert forall|k: int, i: int|
                0 <= k < done.push(cur).len() && 0 <= i < done.push(cur)[k].len() implies #[trigger] done.push(
                cur,
            )[k][i] != ';' && done.push(cur)[k][i] != ' ' && done.push(cur)[k][i] != '\n' by {
                if k < done.len() {
                    assert(done.push(cur)[k] == done[k]);
                } else {
                    assert(done.push(cur)[k] == cur);
                }
            }
        } else {
            assert forall|i: int| 0 <= i < cur.push(last).len() implies #[trigger] cur.push(last)[i] != ';'
                && cur.push(last)[i] != ' ' && cur.push(last)[i] != '\n' by {
                if i < cur.len() {
                    assert(cur.push(last)[i] == cur[i]);
                }
            }
        }
    }
}

/// The commands of a block hold no `;`, blanks or line breaks.
pub proof fn lemma_commands_clean(block: Seq<char>)
    ensures
        forall|k: int, i: int|
            0 <= k < spec_block_commands(block).len() && 0 <= i < spec_block_commands(block)[k].len()
                ==> #[trigger] spec_block_commands(block)[k][i] != ';' && spec_block_commands(block)[k][i]
                != ' ' && spec_block_commands(block)[k][i] != '\n',
{
    lemma_strip_blank_clean(block);
    lemma_split_clean(spec_strip_blank(block));
}

} // verus!
