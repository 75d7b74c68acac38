//! The bundled assets: a zlib-compressed JSON object that maps file paths to
//! file contents (arrays of bytes).
use vstd::prelude::*;
use crate::text::{
    chars_of, spec_utf8_width, utf8_width, is_digit_char, spec_digit_value, spec_utf8_len, lemma_utf8_len_push,
    lemma_utf8_len_prefix,
};

verus! {

/// What zlib decompression of `data` yields, or None where `data` is not a
/// valid zlib stream.
pub uninterp spec fn zlib_inflated(data: Seq<u8>) -> Option<Seq<u8>>;

/// The text that `String::from_utf8_lossy` makes of `bytes`.
pub uninterp spec fn utf8_lossy(bytes: Seq<u8>) -> Seq<char>;

/// The `(path, contents)` entries, sorted by path, that rustc_serialize's
/// JSON decoder reads from `text` as a map of strings to byte arrays, or None
/// where `text` is not such a JSON object.
pub uninterp spec fn json_asset_table(text: Seq<char>) -> Option<Seq<(Seq<char>, Seq<u8>)>>;

/// flate2's `ZlibDecoder`, read to the end: the decompressed bytes, or None
/// where the stream is not valid zlib.
#[verifier::external_body]
fn inflate_zlib(data: &[u8]) -> (r: Option<Vec<u8>>)
    ensures
        r is Some <==> zlib_inflated(data@) is Some,
        r matches Some(v) ==> v@ == zlib_inflated(data@).unwrap(),
{
    let mut out: Vec<u8> = Vec::new();
    let mut decoder = flate2::read::ZlibDecoder::new(data);
    match std::io::Read::read_to_end(&mut decoder, &mut out) {
        Ok(_) => Some(out),
        Err(_) => None,
    }
}

/// std's `String::from_utf8_lossy`.
#[verifier::external_body]
fn lossy_text(bytes: &[u8]) -> (s: String)
    ensures
        s@ == utf8_lossy(bytes@),
{
    String::from_utf8_lossy(bytes).into_owned()
}

/// Deepest nesting of arrays and objects that the JSON text may have.
pub const MAX_JSON_DEPTH: usize = 64;

/// Most bytes that a string of the JSON text may take between its quotes.
pub const MAX_JSON_STRING_BYTES: usize = 1023;

/// Where a scan of JSON text stands: inside a string or not, right after a
/// backslash in a string, how deep arrays and objects are nested, how many
/// bytes the current string has taken so far, and where in a number's
/// exponent it is (0 outside one, 1 right after its `e`, 2 after its sign or
/// digits) with the value of the exponent's digits so far.
pub struct JsonScan {
    pub in_string: bool,
    pub escaped: bool,
    pub depth: nat,
    pub run: nat,
    pub exp_mode: u8,
    pub exp_value: nat,
}

/// The exponent part of a step of the scan (see `JsonScan`).
pub open spec fn spec_exp_step(st: JsonScan, c: char) -> (u8, nat) {
    if st.in_string || c == '"' {
        (0, 0)
    } else if c == 'e' || c == 'E' {
        (1, 0)
    } else if st.exp_mode == 1 && (c == '+' || c == '-') {
        (2, st.exp_value)
    } else if st.exp_mode > 0 && is_digit_char(c) {
        (2, st.exp_value * 10 + spec_digit_value(c))
    } else {
        (0, 0)
    }
}

pub open spec fn spec_json_step(st: JsonScan, c: char) -> JsonScan {
    let b = spec_json_base_step(st, c);
    let (m, v) = spec_exp_step(st, c);
    JsonScan { exp_mode: m, exp_value: v, ..b }
}

pub open spec fn spec_json_base_step(st: JsonScan, c: char) -> JsonScan {
    if st.in_string {
        if st.escaped {
            JsonScan { escaped: false, run: st.run + spec_utf8_width(c), ..st }
        } else if c == '\\' {
            JsonScan { escaped: true, run: st.run + spec_utf8_width(c), ..st }
        } else if c == '"' {
            JsonScan { in_string: false, run: 0, ..st }
        } else {
            JsonScan { run: st.run + spec_utf8_width(c), ..st }
        }
    } else if c == '"' {
        JsonScan { in_string: true, escaped: false, run: 0, ..st }
    } else if c == '[' || c == '{' {
        JsonScan { depth: st.depth + 1, ..st }
    } else if c == ']' || c == '}' {
        JsonScan { depth: if st.depth > 0 { (st.depth - 1) as nat } else { 0 }, ..st }
    } else {
        st
    }
}

/// The scan of `s`, or None where some prefix of it nests deeper than
/// `MAX_JSON_DEPTH`, has a string longer than `MAX_JSON_STRING_BYTES`, or has
/// an exponent whose digits, accumulated as the parser does, exceed
/// `usize::MAX`.
pub open spec fn spec_json_scan(s: Seq<char>) -> Option<JsonScan>
    decreases s.len(),
{
    if s.len() == 0 {
        Some(JsonScan { in_string: false, escaped: false, depth: 0, run: 0, exp_mode: 0, exp_value: 0 })
    } else {
        match spec_json_scan(s.drop_last()) {
            Some(st) => {
                let n = spec_json_step(st, s.last());
                if n.depth <= MAX_JSON_DEPTH && n.run <= MAX_JSON_STRING_BYTES && n.exp_value <= usize::MAX {
                    Some(n)
                } else {
                    None
                }
            },
            None => None,
        }
    }
}

/// Whether JSON text stays within the nesting depth and string length that
/// rustc_serialize's parser handles: it records the keys on the path to the
/// current value with 16-bit offsets and lengths (at most
/// `MAX_JSON_DEPTH * MAX_JSON_STRING_BYTES` bytes in all here), builds
/// nested values recursively, and accumulates a number's exponent in a
/// `usize` without overflow check.
pub open spec fn json_within_limits(s: Seq<char>) -> bool {
    spec_json_scan(s) is Some
}

proof fn lemma_json_scan_none(s: Seq<char>, k: int)
    requires
        0 <= k <= s.len(),
        spec_json_scan(s.subrange(0, k)) is None,
    ensures
        spec_json_scan(s) is None,
    decreases s.len(),
{
    if k == s.len() {
        assert(s.subrange(0, k) =~= s);
    } else {
        assert(s.drop_last().subrange(0, k) =~= s.subrange(0, k));
        lemma_json_scan_none(s.drop_last(), k);
    }
}

/// A scan that is not cut off stays within the limits.
proof fn lemma_json_scan_bounds(s: Seq<char>)
    ensures
        spec_json_scan(s) matches Some(st) ==> st.depth <= MAX_JSON_DEPTH && st.run <= MAX_JSON_STRING_BYTES
            && st.exp_value <= usize::MAX,
{
}

proof fn lemma_json_string_prefix(t: Seq<char>, s: Seq<char>, i: int)
    requires
        spec_json_scan(t) matches Some(st) && !st.in_string,
        forall|k: int| 0 <= k < s.len() ==> #[trigger] s[k] != '"' && s[k] != '\\',
        spec_utf8_len(s) <= MAX_JSON_STRING_BYTES,
        0 <= i <= s.len(),
    ensures
        spec_json_scan(t.push('"') + s.subrange(0, i)) == Some(
            JsonScan {
                in_string: true,
                escaped: false,
                depth: spec_json_scan(t).unwrap().depth,
                run: spec_utf8_len(s.subrange(0, i)),
                exp_mode: 0,
                exp_value: 0,
            },
        ),
    decreases i,
{
    let st = spec_json_scan(t).unwrap();
    lemma_json_scan_bounds(t);
    let u = t.push('"') + s.subrange(0, i);
    if i == 0 {
        assert(u =~= t.push('"'));
        assert(u.drop_last() =~= t);
        assert(s.subrange(0, 0) =~= Seq::<char>::empty());
        assert(spec_utf8_len(Seq::<char>::empty()) == 0);
    } else {
        lemma_json_string_prefix(t, s, i - 1);
        assert(u.drop_last() =~= t.push('"') + s.subrange(0, i - 1));
        assert(u.last() == s[i - 1]);
        assert(s.subrange(0, i) =~= s.subrange(0, i - 1).push(s[i - 1]));
        lemma_utf8_len_push(s.subrange(0, i - 1), s[i - 1]);
        lemma_utf8_len_prefix(s, i);
    }
}

/// Each string is bounded on its own: after any text that is within the
/// limits and outside a string, a quoted string of at most
/// `MAX_JSON_STRING_BYTES` bytes (without quotes or backslashes) keeps the
/// text within the limits, at the same depth and outside a string, so a text
/// may hold any number of such strings.
pub proof fn lemma_json_string_appended(t: Seq<char>, s: Seq<char>)
    requires
        spec_json_scan(t) matches Some(st) && !st.in_string,
        forall|k: int| 0 <= k < s.len() ==> #[trigger] s[k] != '"' && s[k] != '\\',
        spec_utf8_len(s) <= MAX_JSON_STRING_BYTES,
    ensures
        json_within_limits(t + seq!['"'] + s + seq!['"']),
        spec_json_scan(t + seq!['"'] + s + seq!['"']) matches Some(st2) && !st2.in_string
            && st2.depth == spec_json_scan(t).unwrap().depth,
{
    lemma_json_string_prefix(t, s, s.len() as int);
    let u = t.push('"') + s.subrange(0, s.len() as int);
    let v = t + seq!['"'] + s + seq!['"'];
    assert(s.subrange(0, s.len() as int) =~= s);
    assert(v =~= u.push('"'));
    assert(v.drop_last() =~= u);
}

/// See `json_within_limits`.
pub fn check_json_limits(text: &str) -> (ok: bool)
    ensures
        ok == json_within_limits(text@),
{
    let cs = chars_of(text);
    let n = cs.len();
    let mut in_string = false;
    let mut escaped = false;
    let mut depth: usize = 0;
    let mut run: usize = 0;
    let mut exp_mode: u8 = 0;
    let mut exp_value: usize = 0;
    let mut i: usize = 0;
    while i < n
        invariant
            n == cs@.len(),
            cs@ == text@,
            i <= n,
            spec_json_scan(cs@.subrange(0, i as int)) == Some(
                JsonScan {
                    in_string,
                    escaped,
                    depth: depth as nat,
                    run: run as nat,
                    exp_mode,
                    exp_value: exp_value as nat,
                },
            ),
            depth <= MAX_JSON_DEPTH,
            run <= MAX_JSON_STRING_BYTES,
        decreases n - i,
    {
        let c = cs[i];
        assert(cs@.subrange(0, i + 1).drop_last() =~= cs@.subrange(0, i as int));
        let mut exp_ok = true;
        if in_string || c == '"' {
            exp_mode = 0;
            exp_value = 0;
        } else if c == 'e' || c == 'E' {
            exp_mode = 1;
            exp_value = 0;
        } else if exp_mode == 1 && (c == '+' || c == '-') {
            exp_mode = 2;
        } else if exp_mode > 0 && '0' <= c && c <= '9' {
            exp_mode = 2;
            let d = (c as u32 - 48) as usize;
            match exp_value.checked_mul(10) {
                Some(m) => match m.checked_add(d) {
                    Some(v) => {
                        exp_value = v;
                    },
                    None => {
                        exp_ok = false;
                    },
                },
                None => {
                    exp_ok = false;
                },
            }
        } else {
            exp_mode = 0;
            exp_value = 0;
        }
        if !exp_ok {
            proof {
                lemma_json_scan_none(cs@, i + 1);
            }
            return false;
        }
        if in_string {
            if escaped {
                escaped = false;
                run = run + utf8_width(c);
            } else if c == '\\' {
                escaped = true;
                run = run + utf8_width(c);
            } else if c == '"' {
                in_string = false;
                run = 0;
            } else {
                run = run + utf8_width(c);
            }
        } else if c == '"' {
            in_string = true;
            escaped = false;
            run = 0;
        } else if c == '[' || c == '{' {
            depth = depth + 1;
        } else if c == ']' || c == '}' {
            if depth > 0 {
                depth = depth - 1;
            }
        }
        if depth > MAX_JSON_DEPTH || run > MAX_JSON_STRING_BYTES {
            proof {
                lemma_json_scan_none(cs@, i + 1);
            }
            return false;
        }
        i = i + 1;
    }
    assert(cs@.subrange(0, n as int) =~= cs@);
    true
}

/// rustc_serialize's `json::decode` of a map from paths to byte arrays,
/// listed in path order. The text must stay within `json_within_limits`:
/// beyond it the parser's 16-bit key bookkeeping can panic and its recursion
/// can exhaust the stack.
#[verifier::external_body]
fn decode_asset_table(text: &str) -> (r: Option<Vec<(String, Vec<u8>)>>)
    requires
        json_within_limits(text@),
    ensures
        r is Some <==> json_asset_table(text@) is Some,
        r matches Some(v) ==> view_asset_table(v@) == json_asset_table(text@).unwrap(),
{
    let decoded: Result<std::collections::BTreeMap<String, Vec<u8>>, _> = rustc_serialize::json::decode(text);
    match decoded {
        Ok(map) => Some(map.into_iter().collect()),
        Err(_) => None,
    }
}

pub open spec fn view_asset_table(v: Seq<(String, Vec<u8>)>) -> Seq<(Seq<char>, Seq<u8>)> {
    v.map_values(|e: (String, Vec<u8>)| (e.0@, e.1@))
}

/// The files of the bundled asset archive: the archive is decompressed, read
/// as text and decoded. None where it is not a zlib stream, where the text
/// goes beyond `json_within_limits`, or where it does not hold such a table.
pub fn unpack_assets(archive: &[u8]) -> (r: Option<Vec<(String, Vec<u8>)>>)
    ensures
        zlib_inflated(archive@) is None ==> r is None,
        zlib_inflated(archive@) matches Some(raw) ==> {
            &&& !json_within_limits(utf8_lossy(raw)) ==> r is None
            &&& json_within_limits(utf8_lossy(raw)) ==> {
                &&& (r is Some <==> json_asset_table(utf8_lossy(raw)) is Some)
                &&& (r matches Some(v) ==> view_asset_table(v@) == json_asset_table(utf8_lossy(raw)).unwrap())
            }
        },
{
    match inflate_zlib(archive) {
        None => None,
        Some(raw) => {
            let text = lossy_text(raw.as_slice());
            if check_json_limits(text.as_str()) {
                decode_asset_table(text.as_str())
            } else {
                None
            }
        },
    }
}

} // verus!
