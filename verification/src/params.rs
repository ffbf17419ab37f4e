use vstd::prelude::*;
use crate::text::{
    dequote_str, lower_str, seq_lower, spec_dequote, spec_trim, trim_str,
};

verus! {

/// The first index at or after `from` holding `c`, or the length if none.
pub open spec fn first_idx_from(s: Seq<char>, c: char, from: int) -> int
    recommends
        0 <= from,
    decreases s.len() - from,
{
    if from >= s.len() {
        s.len() as int
    } else if s[from] == c {
        from
    } else {
        first_idx_from(s, c, from + 1)
    }
}

fn find_eq(s: &str, from: usize) -> (r: usize)
    requires
        from <= s@.len(),
    ensures
        r == first_idx_from(s@, '=', from as int),
        from <= r <= s@.len(),
{
    let len = s.unicode_len();
    let mut i = from;
    while i < len
        invariant
            from <= i <= len,
            len == s@.len(),
            first_idx_from(s@, '=', from as int) == first_idx_from(s@, '=', i as int),
        decreases len - i,
    {
        if s.get_char(i) == '=' {
            return i;
        }
        i = i + 1;
    }
    len
}

/// Splits one construction argument into its key and unquoted value:
/// the argument is whitespace-trimmed, the key is everything before the
/// first `=` (trimmed again), and the value is everything after the first
/// `=`, with one pair of surrounding quotes stripped. No `=` at all means
/// the argument is malformed.
pub open spec fn spec_split_param(s: Seq<char>) -> Option<(Seq<char>, Seq<char>)> {
    let t = spec_trim(s);
    let e = first_idx_from(t, '=', 0);
    if e == t.len() {
        None
    } else {
        let k = spec_trim(t.subrange(0, e));
        let v = spec_dequote(t.subrange(e + 1, t.len() as int));
        Some((k, v))
    }
}

/// Splits `key=value`; `None` means no `=` separator was present.
pub fn split_param(arg: &str) -> (r: Option<(String, String)>)
    ensures
        match r {
            Some(kv) => spec_split_param(arg@) == Some((kv.0@, kv.1@)),
            None => spec_split_param(arg@) is None,
        },
{
    let t = trim_str(arg);
    let ts = t.as_str();
    let len = ts.unicode_len();
    let e = find_eq(ts, 0);
    if e == len {
        return None;
    }
    let key = trim_str(ts.substring_char(0, e));
    let val = dequote_str(ts.substring_char(e + 1, len));
    Some((key, val))
}

/// The boolean-like tokens the `header` option accepts, compared without
/// regard to ASCII case.
pub open spec fn spec_parse_bool(s: Seq<char>) -> Option<bool> {
    let l = seq_lower(s);
    if l == "yes"@ || l == "true"@ || l == "on"@ || l == "1"@ {
        Some(true)
    } else if l == "no"@ || l == "false"@ || l == "off"@ || l == "0"@ {
        Some(false)
    } else {
        None
    }
}

pub fn parse_bool_str(s: &str) -> (r: Option<bool>)
    ensures
        r == spec_parse_bool(s@),
{
    let l = lower_str(s);
    if l == String::from_str("yes") || l == String::from_str("true") || l == String::from_str(
        "on",
    ) || l == String::from_str("1") {
        Some(true)
    } else if l == String::from_str("no") || l == String::from_str("false") || l
        == String::from_str("off") || l == String::from_str("0") {
        Some(false)
    } else {
        None
    }
}

/// A value naming a single byte: exactly one character, in the ASCII range.
pub open spec fn spec_parse_byte(s: Seq<char>) -> Option<u8> {
    if s.len() == 1 && (s[0] as u32) < 128 {
        Some(s[0] as u8)
    } else {
        None
    }
}

pub fn parse_byte_str(s: &str) -> (r: Option<u8>)
    ensures
        r == spec_parse_byte(s@),
{
    if s.unicode_len() == 1 {
        let c = s.get_char(0);
        if (c as u32) < 128 {
            return Some(c as u8);
        }
    }
    None
}

} // verus!
