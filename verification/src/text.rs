use vstd::prelude::*;

verus! {

/// The character of a decimal digit.
pub open spec fn spec_digit_char(d: nat) -> char
    recommends
        d < 10,
{
    (d + 48) as char
}

/// Whether `c` is one of `0`..`9`.
pub open spec fn is_digit_char(c: char) -> bool {
    '0' <= c && c <= '9'
}

/// The value of a decimal digit character.
pub open spec fn spec_digit_value(c: char) -> nat {
    (c as int - 48) as nat
}

/// Decimal rendering of `n`, without sign or leading zeros (as `Display` prints it).
pub open spec fn spec_decimal(n: nat) -> Seq<char>
    decreases n,
{
    if n < 10 {
        seq![spec_digit_char(n)]
    } else {
        spec_decimal(n / 10).push(spec_digit_char(n % 10))
    }
}

/// Whether every character of `s` is a decimal digit.
pub open spec fn all_digits(s: Seq<char>) -> bool {
    forall|i: int| 0 <= i < s.len() ==> is_digit_char(#[trigger] s[i])
}

/// The number that a string of decimal digits denotes.
pub open spec fn spec_digits_value(s: Seq<char>) -> nat
    decreases s.len(),
{
    if s.len() == 0 {
        0
    } else {
        spec_digits_value(s.drop_last()) * 10 + spec_digit_value(s.last())
    }
}

/// `s` with one leading `+` removed, as `usize::from_str` accepts it.
pub open spec fn strip_plus(s: Seq<char>) -> Seq<char> {
    if s.len() > 0 && s[0] == '+' {
        s.drop_first()
    } else {
        s
    }
}

/// What `usize::from_str` gives for `s`: an optional `+`, then at least one
/// decimal digit and nothing else, denoting a number that fits in `usize`.
pub open spec fn spec_parse_usize(s: Seq<char>) -> Option<usize> {
    let t = strip_plus(s);
    if t.len() > 0 && all_digits(t) && spec_digits_value(t) <= usize::MAX {
        Some(spec_digits_value(t) as usize)
    } else {
        None
    }
}

/// The decimal rendering of a number is a non-empty string of digits that
/// denotes the number.
pub proof fn lemma_decimal_digits(n: nat)
    ensures
        all_digits(spec_decimal(n)),
        spec_decimal(n).len() > 0,
        spec_digits_value(spec_decimal(n)) == n,
        spec_decimal(n)[0] != '+',
    decreases n,
{
    let s = spec_decimal(n);
    if n < 10 {
        assert(s.drop_last() =~= Seq::<char>::empty());
        assert(spec_digits_value(Seq::<char>::empty()) == 0);
    } else {
        lemma_decimal_digits(n / 10);
        assert(s.drop_last() =~= spec_decimal(n / 10));
        assert(s[0] == spec_decimal(n / 10)[0]);
        assert(spec_digit_value(spec_digit_char(n % 10)) == n % 10);
        assert((n / 10) * 10 + n % 10 == n);
    }
}

/// Parsing the decimal rendering of a number gives the number back.
pub proof fn lemma_parse_decimal(n: usize)
    ensures
        spec_parse_usize(spec_decimal(n as nat)) == Some(n),
{
    lemma_decimal_digits(n as nat);
}

/// The decimal rendering of a number determines the number.
pub proof fn lemma_decimal_injective(a: nat, b: nat)
    requires
        spec_decimal(a) == spec_decimal(b),
    ensures
        a == b,
{
    lemma_decimal_digits(a);
    lemma_decimal_digits(b);
}

/// The character of the digit `d`.
pub fn digit_char(d: u8) -> (c: char)
    requires
        d < 10,
    ensures
        c == spec_digit_char(d as nat),
        is_digit_char(c),
{
    (d + 48) as char
}

/// Appends the decimal rendering of `n` to `out`.
pub fn push_decimal(n: usize, out: &mut Vec<char>)
    ensures
        final(out)@ == old(out)@ + spec_decimal(n as nat),
    decreases n,
{
    if n >= 10 {
        push_decimal(n / 10, out);
    }
    let d = (n % 10) as u8;
    out.push(digit_char(d));
    proof {
        if n >= 10 {
            assert(final(out)@ =~= old(out)@ + spec_decimal(n as nat));
        } else {
            assert(final(out)@ =~= old(out)@ + spec_decimal(n as nat));
        }
    }
}

/// The characters of `s`.
pub fn chars_of(s: &str) -> (v: Vec<char>)
    ensures
        v@ == s@,
{
    let n = s.unicode_len();
    let mut v: Vec<char> = Vec::new();
    let mut i: usize = 0;
    while i < n
        invariant
            n == s@.len(),
            i <= n,
            v@ == s@.subrange(0, i as int),
        decreases n - i,
    {
        v.push(s.get_char(i));
        i = i + 1;
        assert(v@ =~= s@.subrange(0, i as int));
    }
    assert(v@ =~= s@);
    v
}

/// `String` made of the characters of `v` (std's `FromIterator<&char>`).
#[verifier::external_body]
pub(crate) fn string_from_chars(v: &Vec<char>) -> (s: String)
    ensures
        s@ == v@,
{
    v.iter().collect()
}

/// Decimal rendering of `n` as a `String`.
pub fn decimal_string(n: usize) -> (s: String)
    ensures
        s@ == spec_decimal(n as nat),
{
    let mut v: Vec<char> = Vec::new();
    push_decimal(n, &mut v);
    assert(v@ =~= spec_decimal(n as nat));
    string_from_chars(&v)
}

proof fn lemma_digits_value_push(s: Seq<char>, c: char)
    ensures
        spec_digits_value(s.push(c)) == spec_digits_value(s) * 10 + spec_digit_value(c),
{
    assert(s.push(c).drop_last() =~= s);
}

/// Parses `s` as `usize::from_str` does.
pub fn parse_usize(s: &Vec<char>) -> (r: Option<usize>)
    ensures
        r == spec_parse_usize(s@),
{
    let n = s.len();
    let mut start: usize = 0;
    if n > 0 && s[0] == '+' {
        start = 1;
    }
    let ghost t = strip_plus(s@);
    assert(t =~= s@.subrange(start as int, n as int));
    if start >= n {
        return None;
    }
    let mut acc: usize = 0;
    let mut i: usize = start;
    while i < n
        invariant
            start <= i <= n,
            n == s@.len(),
            t == s@.subrange(start as int, n as int),
            t == strip_plus(s@),
            all_digits(s@.subrange(start as int, i as int)),
            acc as nat == spec_digits_value(s@.subrange(start as int, i as int)),
        decreases n - i,
    {
        let c = s[i];
        let ghost prefix = s@.subrange(start as int, i as int);
        assert(s@.subrange(start as int, i + 1) =~= prefix.push(c));
        proof {
            lemma_digits_value_push(prefix, c);
        }
        if !('0' <= c && c <= '9') {
            assert(t[i - start] == c);
            assert(!is_digit_char(t[i - start]));
            return None;
        }
        let d = (c as u32 - 48) as usize;
        if acc > (usize::MAX - d) / 10 {
            // the digits read so far, with this one, already exceed usize::MAX
            proof {
                lemma_digits_value_monotone(t, (i + 1 - start) as nat);
                assert(t.subrange(0, (i + 1 - start) as int) =~= prefix.push(c));
                assert(acc * 10 + d > usize::MAX) by (nonlinear_arith)
                    requires acc > (usize::MAX - d) / 10, d <= 9;
                assert(spec_digit_value(c) == d);
                assert(spec_digits_value(t) > usize::MAX);
            }
            return None;
        }
        acc = acc * 10 + d;
        i = i + 1;
    }
    assert(s@.subrange(start as int, n as int) =~= t);
    Some(acc)
}

/// A longer string of digits denotes at least as large a number as its prefix.
proof fn lemma_digits_value_monotone(t: Seq<char>, k: nat)
    requires
        k <= t.len(),
    ensures
        spec_digits_value(t.subrange(0, k as int)) <= spec_digits_value(t),
    decreases t.len() - k,
{
    if k < t.len() {
        lemma_digits_value_monotone(t, k + 1);
        let p = t.subrange(0, k as int);
        assert(t.subrange(0, (k + 1) as int) =~= p.push(t[k as int]));
        lemma_digits_value_push(p, t[k as int]);
    } else {
        assert(t.subrange(0, k as int) =~= t);
    }
}

/// Number of bytes of `c` in UTF-8.
pub open spec fn spec_utf8_width(c: char) -> nat {
    if (c as u32) <= 0x7F {
        1
    } else if (c as u32) <= 0x7FF {
        2
    } else if (c as u32) <= 0xFFFF {
        3
    } else {
        4
    }
}

/// Number of bytes of `s` in UTF-8.
pub open spec fn spec_utf8_len(s: Seq<char>) -> nat
    decreases s.len(),
{
    if s.len() == 0 {
        0
    } else {
        spec_utf8_width(s[0]) + spec_utf8_len(s.drop_first())
    }
}

/// See `spec_utf8_width`.
pub fn utf8_width(c: char) -> (w: usize)
    ensures
        w == spec_utf8_width(c),
{
    let u = c as u32;
    if u <= 0x7F {
        1
    } else if u <= 0x7FF {
        2
    } else if u <= 0xFFFF {
        3
    } else {
        4
    }
}

pub proof fn lemma_utf8_len_push(s: Seq<char>, c: char)
    ensures
        spec_utf8_len(s.push(c)) == spec_utf8_len(s) + spec_utf8_width(c),
    decreases s.len(),
{
    if s.len() > 0 {
        assert(s.push(c).drop_first() =~= s.drop_first().push(c));
        assert(s.push(c)[0] == s[0]);
        lemma_utf8_len_push(s.drop_first(), c);
    } else {
        assert(s.push(c).drop_first() =~= Seq::<char>::empty());
        assert(s.push(c)[0] == c);
        assert(spec_utf8_len(Seq::<char>::empty()) == 0);
    }
}

/// A prefix takes no more bytes than the whole.
pub proof fn lemma_utf8_len_prefix(s: Seq<char>, i: int)
    requires
        0 <= i <= s.len(),
    ensures
        spec_utf8_len(s.subrange(0, i)) <= spec_utf8_len(s),
    decreases s.len() - i,
{
    if i < s.len() {
        assert(s.subrange(0, i + 1) =~= s.subrange(0, i).push(s[i]));
        lemma_utf8_len_push(s.subrange(0, i), s[i]);
        lemma_utf8_len_prefix(s, i + 1);
    } else {
        assert(s.subrange(0, i) =~= s);
    }
}

/// `spec_utf8_len` is the length of vstd's UTF-8 encoding.
pub proof fn lemma_utf8_len_encoded(s: Seq<char>)
    ensures
        vstd::utf8::encode_utf8(s).len() == spec_utf8_len(s),
    decreases s.len(),
{
    if s.len() > 0 {
        vstd::utf8::char_is_scalar(s[0]);
        lemma_utf8_len_encoded(s.drop_first());
    }
}

/// The index of the character of `s` at which its UTF-8 encoding reaches
/// byte `b`, where `b` falls on a character boundary.
pub open spec fn spec_char_at_byte(s: Seq<char>, b: nat) -> Option<nat>
    decreases s.len(),
{
    if b == 0 {
        Some(0)
    } else if s.len() == 0 {
        None
    } else if spec_utf8_width(s[0]) > b {
        None
    } else {
        match spec_char_at_byte(s.drop_first(), (b - spec_utf8_width(s[0])) as nat) {
            Some(k) => Some(k + 1),
            None => None,
        }
    }
}

pub open spec fn shift_index(o: Option<nat>, i: nat) -> Option<nat> {
    match o {
        Some(k) => Some(k + i),
        None => None,
    }
}

/// See `spec_char_at_byte`.
pub fn char_at_byte(v: &Vec<char>, b: usize) -> (r: Option<usize>)
    ensures
        match spec_char_at_byte(v@, b as nat) {
            Some(k) => r matches Some(x) && x as nat == k,
            None => r is None,
        },
{
    let n = v.len();
    let mut i: usize = 0;
    let mut acc: usize = 0;
    assert(v@.subrange(0, n as int) =~= v@);
    while acc < b && i < n
        invariant
            n == v@.len(),
            i <= n,
            acc <= b,
            spec_char_at_byte(v@, b as nat) == shift_index(
                spec_char_at_byte(v@.subrange(i as int, n as int), (b - acc) as nat),
                i as nat,
            ),
        decreases n - i,
    {
        let w = utf8_width(v[i]);
        let ghost t = v@.subrange(i as int, n as int);
        assert(t[0] == v@[i as int]);
        if w > b - acc {
            return None;
        }
        assert(t.drop_first() =~= v@.subrange(i + 1, n as int));
        acc = acc + w;
        i = i + 1;
    }
    if acc == b {
        Some(i)
    } else {
        None
    }
}

/// The character index of a byte offset lies within the text, and a later
/// offset gives no earlier index.
pub proof fn lemma_char_at_byte(s: Seq<char>, b1: nat, b2: nat)
    requires
        b1 <= b2,
        spec_char_at_byte(s, b1) is Some,
        spec_char_at_byte(s, b2) is Some,
    ensures
        spec_char_at_byte(s, b1).unwrap() <= spec_char_at_byte(s, b2).unwrap(),
        spec_char_at_byte(s, b2).unwrap() <= s.len(),
    decreases s.len(),
{
    if b2 > 0 && s.len() > 0 {
        let w = spec_utf8_width(s[0]);
        if b1 > 0 {
            lemma_char_at_byte(s.drop_first(), (b1 - w) as nat, (b2 - w) as nat);
        } else {
            lemma_char_at_byte(s.drop_first(), (b2 - w) as nat, (b2 - w) as nat);
        }
    }
}

} // verus!
