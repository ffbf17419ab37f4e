use vstd::prelude::*;

verus! {

// ---------------------------------------------------------------------------
// Whitespace trimming
// ---------------------------------------------------------------------------

/// ASCII whitespace, the class trimmed from construction arguments.
pub open spec fn spec_is_space(c: char) -> bool {
    c == ' ' || c == '\t' || c == '\n' || c == '\r' || c == '\u{b}' || c == '\u{c}'
}

pub fn is_space(c: char) -> (r: bool)
    ensures
        r == spec_is_space(c),
{
    c == ' ' || c == '\t' || c == '\n' || c == '\r' || c == '\u{b}' || c == '\u{c}'
}

pub open spec fn trim_start(s: Seq<char>) -> Seq<char>
    decreases s.len(),
{
    if s.len() > 0 && spec_is_space(s[0]) {
        trim_start(s.subrange(1, s.len() as int))
    } else {
        s
    }
}

pub open spec fn trim_end(s: Seq<char>) -> Seq<char>
    decreases s.len(),
{
    if s.len() > 0 && spec_is_space(s[s.len() - 1]) {
        trim_end(s.subrange(0, s.len() - 1))
    } else {
        s
    }
}

/// The sequence with leading and trailing ASCII whitespace removed.
pub open spec fn spec_trim(s: Seq<char>) -> Seq<char> {
    trim_end(trim_start(s))
}

proof fn lemma_trim_start_at(s: Seq<char>, i: int)
    requires
        0 <= i <= s.len(),
        forall|k: int| 0 <= k < i ==> spec_is_space(s[k]),
        i == s.len() || !spec_is_space(s[i]),
    ensures
        trim_start(s) == s.subrange(i, s.len() as int),
    decreases i,
{
    if i == 0 {
        assert(s.subrange(0, s.len() as int) =~= s);
    } else {
        let t = s.subrange(1, s.len() as int);
        lemma_trim_start_at(t, i - 1);
        assert(t.subrange(i - 1, t.len() as int) =~= s.subrange(i, s.len() as int));
    }
}

proof fn lemma_trim_end_at(s: Seq<char>, j: int)
    requires
        0 <= j <= s.len(),
        forall|k: int| j <= k < s.len() ==> spec_is_space(s[k]),
        j == 0 || !spec_is_space(s[j - 1]),
    ensures
        trim_end(s) == s.subrange(0, j),
    decreases s.len() - j,
{
    if j == s.len() {
        assert(s.subrange(0, s.len() as int) =~= s);
    } else {
        let t = s.subrange(0, s.len() - 1);
        lemma_trim_end_at(t, j);
        assert(t.subrange(0, j) =~= s.subrange(0, j));
    }
}

/// Returns the argument with surrounding ASCII whitespace removed.
pub fn trim_str(s: &str) -> (t: String)
    ensures
        t@ == spec_trim(s@),
{
    let len = s.unicode_len();
    let mut i: usize = 0;
    while i < len && is_space(s.get_char(i))
        invariant
            0 <= i <= len,
            len == s@.len(),
            forall|k: int| 0 <= k < i ==> spec_is_space(s@[k]),
        decreases len - i,
    {
        i = i + 1;
    }
    let mut j: usize = len;
    while j > i && is_space(s.get_char(j - 1))
        invariant
            i <= j <= len,
            len == s@.len(),
            forall|k: int| j <= k < len ==> spec_is_space(s@[k]),
        decreases j,
    {
        j = j - 1;
    }
    proof {
        lemma_trim_start_at(s@, i as int);
        let t = s@.subrange(i as int, len as int);
        lemma_trim_end_at(t, j - i);
        assert(t.subrange(0, j - i) =~= s@.subrange(i as int, j as int));
    }
    s.substring_char(i, j).to_owned()
}

// ---------------------------------------------------------------------------
// Dequoting
// ---------------------------------------------------------------------------

/// Strips one pair of matching surrounding quotes (single or double), if any.
pub open spec fn spec_dequote(s: Seq<char>) -> Seq<char> {
    if s.len() >= 2 && (s[0] == '"' || s[0] == '\'') && s[s.len() - 1] == s[0] {
        s.subrange(1, s.len() - 1)
    } else {
        s
    }
}

pub fn dequote_str(s: &str) -> (t: String)
    ensures
        t@ == spec_dequote(s@),
{
    let len = s.unicode_len();
    if len >= 2 {
        let f = s.get_char(0);
        let l = s.get_char(len - 1);
        if (f == '"' || f == '\'') && l == f {
            return s.substring_char(1, len - 1).to_owned();
        }
    }
    s.to_owned()
}

// ---------------------------------------------------------------------------
// ASCII case folding
// ---------------------------------------------------------------------------

pub open spec fn spec_lower(c: char) -> char {
    if 65 <= (c as u32) && (c as u32) <= 90 {
        (((c as u32) as u8) + 32) as char
    } else {
        c
    }
}

pub open spec fn seq_lower(s: Seq<char>) -> Seq<char> {
    s.map_values(|c: char| spec_lower(c))
}

fn lower_char(c: char) -> (r: char)
    ensures
        r == spec_lower(c),
{
    let u = c as u32;
    if 65 <= u && u <= 90 {
        ((u as u8) + 32) as char
    } else {
        c
    }
}

/// The ASCII-lowercased copy of the argument.
pub fn lower_str(s: &str) -> (t: String)
    ensures
        t@ == seq_lower(s@),
{
    let len = s.unicode_len();
    let mut out = String::new();
    let mut i: usize = 0;
    while i < len
        invariant
            0 <= i <= len,
            len == s@.len(),
            out@ == seq_lower(s@.subrange(0, i as int)),
        decreases len - i,
    {
        let c = lower_char(s.get_char(i));
        push_char(&mut out, c);
        i = i + 1;
        proof {
            assert(seq_lower(s@.subrange(0, i as int)) =~= seq_lower(
                s@.subrange(0, i - 1),
            ).push(spec_lower(s@[i - 1])));
        }
    }
    proof {
        assert(s@.subrange(0, len as int) =~= s@);
    }
    out
}

// ---------------------------------------------------------------------------
// Decimal digits
// ---------------------------------------------------------------------------

pub open spec fn spec_is_digit(c: char) -> bool {
    48 <= (c as u32) && (c as u32) <= 57
}

pub open spec fn digit_val(c: char) -> int {
    (c as u32) - 48
}

pub open spec fn all_digits(s: Seq<char>) -> bool {
    forall|k: int| 0 <= k < s.len() ==> spec_is_digit(s[k])
}

/// The numeric value of a digit string, most significant digit first.
pub open spec fn digits_val(s: Seq<char>) -> int
    decreases s.len(),
{
    if s.len() == 0 {
        0
    } else {
        digits_val(s.subrange(0, s.len() - 1)) * 10 + digit_val(s[s.len() - 1])
    }
}

proof fn lemma_digits_val_nonneg(s: Seq<char>)
    requires
        all_digits(s),
    ensures
        digits_val(s) >= 0,
    decreases s.len(),
{
    if s.len() > 0 {
        let p = s.subrange(0, s.len() - 1);
        assert(all_digits(p));
        lemma_digits_val_nonneg(p);
    }
}

proof fn lemma_digits_val_prefix_le(s: Seq<char>, i: int)
    requires
        all_digits(s),
        0 <= i <= s.len(),
    ensures
        digits_val(s.subrange(0, i)) <= digits_val(s),
    decreases s.len() - i,
{
    if i == s.len() {
        assert(s.subrange(0, i) =~= s);
    } else {
        let p = s.subrange(0, s.len() - 1);
        assert(all_digits(p));
        if i == s.len() - 1 {
            lemma_digits_val_nonneg(p);
            assert(s.subrange(0, i) =~= p);
        } else {
            lemma_digits_val_prefix_le(p, i);
            assert(p.subrange(0, i) =~= s.subrange(0, i));
            lemma_digits_val_nonneg(p);
        }
    }
}

pub open spec fn strip_plus(s: Seq<char>) -> Seq<char> {
    if s.len() > 0 && s[0] == '+' {
        s.subrange(1, s.len() as int)
    } else {
        s
    }
}

pub open spec fn parse_digits_u16(d: Seq<char>) -> Option<u16> {
    if d.len() > 0 && all_digits(d) && digits_val(d) <= 65535 {
        Some(digits_val(d) as u16)
    } else {
        None
    }
}

/// Parses an unsigned decimal integer with an optional leading `+`,
/// as the standard library's `u16` parser accepts it.
pub open spec fn spec_parse_u16(s: Seq<char>) -> Option<u16> {
    parse_digits_u16(strip_plus(s))
}

pub fn parse_u16_str(s: &str) -> (r: Option<u16>)
    ensures
        r == spec_parse_u16(s@),
{
    let len = s.unicode_len();
    let start: usize = if len > 0 && s.get_char(0) == '+' {
        1
    } else {
        0
    };
    let ghost d = strip_plus(s@);
    proof {
        assert(d =~= s@.subrange(start as int, len as int));
    }
    if start == len {
        return None;
    }
    let mut acc: u32 = 0;
    let mut i: usize = start;
    while i < len
        invariant
            start <= i <= len,
            len == s@.len(),
            d == strip_plus(s@),
            d == s@.subrange(start as int, len as int),
            acc <= 65535,
            acc == digits_val(d.subrange(0, i - start)),
            all_digits(d.subrange(0, i - start)),
        decreases len - i,
    {
        let c = s.get_char(i);
        let u = c as u32;
        if u < 48 || u > 57 {
            proof {
                assert(d[i - start] == s@[i as int]);
                assert(!spec_is_digit(d[i - start]));
                assert(!all_digits(d));
            }
            return None;
        }
        acc = acc * 10 + (u - 48);
        i = i + 1;
        proof {
            let p = d.subrange(0, i - start);
            assert(p.subrange(0, p.len() - 1) =~= d.subrange(0, i - 1 - start));
            assert(p[p.len() - 1] == s@[i - 1]);
            assert(digits_val(p) == digits_val(p.subrange(0, p.len() - 1)) * 10 + digit_val(
                p[p.len() - 1],
            ));
            assert(digits_val(p) == acc);
        }
        if acc > 65535 {
            proof {
                if all_digits(d) {
                    lemma_digits_val_prefix_le(d, i - start);
                    assert(digits_val(d) > 65535);
                }
            }
            return None;
        }
    }
    proof {
        assert(d.subrange(0, len - start) =~= d);
    }
    Some(acc as u16)
}

/// The decimal rendering of a non-negative integer, no sign, no leading zeros
/// (a single `0` for zero).
pub open spec fn spec_dec(n: int) -> Seq<char>
    decreases n,
{
    if n < 10 {
        seq![((48 + n) as u8) as char]
    } else {
        spec_dec(n / 10) + seq![((48 + (n % 10)) as u8) as char]
    }
}

/// Appends the decimal rendering of `n`.
pub fn push_dec(out: &mut String, n: u64)
    ensures
        final(out)@ == old(out)@ + spec_dec(n as int),
    decreases n,
{
    if n < 10 {
        push_char(out, (48 + n as u8) as char);
        proof {
            assert(seq![((48 + (n as int)) as u8) as char] =~= spec_dec(n as int));
        }
    } else {
        push_dec(out, n / 10);
        push_char(out, (48 + (n % 10) as u8) as char);
        proof {
            assert(old(out)@ + spec_dec((n / 10) as int) + seq![
                ((48 + ((n as int) % 10)) as u8) as char,
            ] =~= old(out)@ + spec_dec(n as int));
        }
    }
}

// ---------------------------------------------------------------------------
// Double-quote escaping
// ---------------------------------------------------------------------------

/// Doubles every `"` in the sequence; all other characters pass through.
pub open spec fn spec_escape_dq(s: Seq<char>) -> Seq<char>
    decreases s.len(),
{
    if s.len() == 0 {
        Seq::empty()
    } else {
        (if s[0] == '"' {
            seq!['"', '"']
        } else {
            seq![s[0]]
        }) + spec_escape_dq(s.subrange(1, s.len() as int))
    }
}

pub fn escape_dq_str(s: &str) -> (r: String)
    ensures
        r@ == spec_escape_dq(s@),
{
    let len = s.unicode_len();
    let mut out = String::new();
    proof {
        assert(s@.subrange(0, len as int) =~= s@);
        assert(Seq::<char>::empty() + spec_escape_dq(s@) =~= spec_escape_dq(s@));
    }
    let mut i: usize = 0;
    while i < len
        invariant
            0 <= i <= len,
            len == s@.len(),
            spec_escape_dq(s@) == out@ + spec_escape_dq(s@.subrange(i as int, len as int)),
        decreases len - i,
    {
        let ghost pre = out@;
        let ghost tail = s@.subrange(i as int, len as int);
        let c = s.get_char(i);
        if c == '"' {
            push_char(&mut out, '"');
            push_char(&mut out, '"');
        } else {
            push_char(&mut out, c);
        }
        i = i + 1;
        proof {
            assert(tail[0] == s@[i - 1]);
            assert(tail.subrange(1, tail.len() as int) =~= s@.subrange(i as int, len as int));
            if s@[i - 1] == '"' {
                assert(out@ =~= pre + seq!['"', '"']);
            } else {
                assert(out@ =~= pre + seq![s@[i - 1]]);
            }
        }
    }
    proof {
        assert(s@.subrange(len as int, len as int) =~= Seq::<char>::empty());
    }
    out
}

// ---------------------------------------------------------------------------
// Escaped-newline normalization
// ---------------------------------------------------------------------------

/// Replaces each (leftmost, non-overlapping) `\n` two-character escape with a
/// real newline, as the table payload is normalized before parsing.
pub open spec fn spec_normalize(s: Seq<char>) -> Seq<char>
    decreases s.len(),
{
    if s.len() == 0 {
        Seq::empty()
    } else if s.len() >= 2 && s[0] == '\\' && s[1] == 'n' {
        seq!['\n'] + spec_normalize(s.subrange(2, s.len() as int))
    } else {
        seq![s[0]] + spec_normalize(s.subrange(1, s.len() as int))
    }
}

pub fn normalize_str(s: &str) -> (r: String)
    ensures
        r@ == spec_normalize(s@),
{
    let len = s.unicode_len();
    let mut out = String::new();
    proof {
        assert(s@.subrange(0, len as int) =~= s@);
        assert(Seq::<char>::empty() + spec_normalize(s@) =~= spec_normalize(s@));
    }
    let mut i: usize = 0;
    while i < len
        invariant
            0 <= i <= len,
            len == s@.len(),
            spec_normalize(s@) == out@ + spec_normalize(s@.subrange(i as int, len as int)),
        decreases len - i,
    {
        let ghost pre = out@;
        let ghost tail = s@.subrange(i as int, len as int);
        let c = s.get_char(i);
        if c == '\\' && i + 1 < len && s.get_char(i + 1) == 'n' {
            push_char(&mut out, '\n');
            i = i + 2;
            proof {
                assert(tail[0] == '\\' && tail[1] == 'n');
                assert(tail.subrange(2, tail.len() as int) =~= s@.subrange(
                    i as int,
                    len as int,
                ));
                assert(out@ =~= pre + seq!['\n']);
            }
        } else {
            push_char(&mut out, c);
            i = i + 1;
            proof {
                assert(tail[0] == s@[i - 1]);
                assert(!(tail.len() >= 2 && tail[0] == '\\' && tail[1] == 'n'));
                assert(tail.subrange(1, tail.len() as int) =~= s@.subrange(
                    i as int,
                    len as int,
                ));
                assert(out@ =~= pre + seq![s@[i - 1]]);
            }
        }
    }
    proof {
        assert(s@.subrange(len as int, len as int) =~= Seq::<char>::empty());
    }
    out
}

// ---------------------------------------------------------------------------
// Character append (std)
// ---------------------------------------------------------------------------

/// Relies on String::push: appends the given character to the end of the
/// string.
#[verifier::external_body]
pub(crate) fn push_char(s: &mut String, c: char)
    ensures
        final(s)@ == old(s)@ + seq![c],
{
    s.push(c);
}

} // verus!
