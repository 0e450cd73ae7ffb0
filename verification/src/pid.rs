//! Reading a process id back from its pid file.
//!
//! The file holds the decimal number that the daemon's starter wrote,
//! possibly followed by a newline. It is read as `str::trim` followed by
//! `u32::from_str` would read it: surrounding white space is ignored, a
//! leading `+` is allowed, and anything else that is not a decimal digit,
//! an empty number, or a number above `u32::MAX` makes it unreadable.

use vstd::prelude::*;

verus! {

/// The characters with the Unicode White_Space property.
pub open spec fn is_white_space(c: char) -> bool {
    ||| c == '\t' || c == '\n' || c == '\u{0B}' || c == '\u{0C}' || c == '\r' || c == ' '
    ||| c == '\u{85}' || c == '\u{A0}' || c == '\u{1680}'
    ||| '\u{2000}' <= c <= '\u{200A}'
    ||| c == '\u{2028}' || c == '\u{2029}' || c == '\u{202F}' || c == '\u{205F}'
    ||| c == '\u{3000}'
}

/// `s` without its leading white space.
pub open spec fn trim_start(s: Seq<char>) -> Seq<char>
    decreases s.len(),
{
    if s.len() > 0 && is_white_space(s[0]) {
        trim_start(s.drop_first())
    } else {
        s
    }
}

/// `s` without its trailing white space.
pub open spec fn trim_end(s: Seq<char>) -> Seq<char>
    decreases s.len(),
{
    if s.len() > 0 && is_white_space(s.last()) {
        trim_end(s.drop_last())
    } else {
        s
    }
}

/// `s` without the white space around it.
pub open spec fn trimmed(s: Seq<char>) -> Seq<char> {
    trim_end(trim_start(s))
}

pub open spec fn is_digit(c: char) -> bool {
    '0' <= c <= '9'
}

/// The number that a string of decimal digits denotes.
pub open spec fn digits_value(s: Seq<char>) -> nat
    decreases s.len(),
{
    if s.len() == 0 {
        0
    } else {
        digits_value(s.drop_last()) * 10 + ((s.last() as int - '0' as int) as nat)
    }
}

/// `s` without a leading `+`.
pub open spec fn unsigned_part(s: Seq<char>) -> Seq<char> {
    if s.len() > 0 && s[0] == '+' {
        s.drop_first()
    } else {
        s
    }
}

/// What `u32::from_str` gives for `s`: an optional `+` followed by at least
/// one decimal digit and nothing else, denoting a number that fits in a u32.
pub open spec fn parse_u32_spec(s: Seq<char>) -> Option<u32> {
    let digits = unsigned_part(s);
    if digits.len() > 0 && (forall|i: int| 0 <= i < digits.len() ==> is_digit(#[trigger] digits[i]))
        && digits_value(digits) <= u32::MAX {
        Some(digits_value(digits) as u32)
    } else {
        None
    }
}

fn white_space(c: char) -> (r: bool)
    ensures
        r == is_white_space(c),
{
    c == '\t' || c == '\n' || c == '\u{0B}' || c == '\u{0C}' || c == '\r' || c == ' ' || c
        == '\u{85}' || c == '\u{A0}' || c == '\u{1680}' || ('\u{2000}' <= c && c <= '\u{200A}')
        || c == '\u{2028}' || c == '\u{2029}' || c == '\u{202F}' || c == '\u{205F}' || c
        == '\u{3000}'
}

fn collect_chars(text: &str) -> (r: Vec<char>)
    ensures
        r@ == text@,
{
    let mut cs: Vec<char> = Vec::new();
    for c in it: text.chars()
        invariant
            cs@ == it.seq().take(it.index() as int),
    {
        cs.push(c);
    }
    cs
}

proof fn lemma_trim_start_skips(s: Seq<char>, k: int)
    requires
        0 <= k <= s.len(),
        forall|i: int| 0 <= i < k ==> is_white_space(#[trigger] s[i]),
    ensures
        trim_start(s) == trim_start(s.subrange(k, s.len() as int)),
    decreases k,
{
    if k > 0 {
        lemma_trim_start_skips(s.drop_first(), k - 1);
        assert(s.drop_first().subrange(k - 1, s.len() - 1) =~= s.subrange(k, s.len() as int));
    } else {
        assert(s.subrange(0, s.len() as int) =~= s);
    }
}

proof fn lemma_trim_end_skips(s: Seq<char>, k: int)
    requires
        0 <= k <= s.len(),
        forall|i: int| k <= i < s.len() ==> is_white_space(#[trigger] s[i]),
    ensures
        trim_end(s) == trim_end(s.subrange(0, k)),
    decreases s.len() - k,
{
    if k < s.len() {
        lemma_trim_end_skips(s.drop_last(), k);
        assert(s.drop_last().subrange(0, k) =~= s.subrange(0, k));
    } else {
        assert(s.subrange(0, s.len() as int) =~= s);
    }
}

/// Reads a process id as `text.trim().parse::<u32>()` would.
pub fn parse_pid(text: &str) -> (r: Option<u32>)
    ensures
        r == parse_u32_spec(trimmed(text@)),
{
    let cs = collect_chars(text);
    let ghost s = cs@;
    let n: usize = cs.len();
    // Leading white space.
    let mut start: usize = 0;
    while start < n && white_space(cs[start])
        invariant
            s == cs@,
            n == s.len(),
            0 <= start <= n,
            forall|i: int| 0 <= i < start ==> is_white_space(#[trigger] s[i]),
        decreases n - start,
    {
        start = start + 1;
    }
    proof {
        lemma_trim_start_skips(s, start as int);
    }
    let ghost rest = s.subrange(start as int, n as int);
    assert(trim_start(s) == rest);
    // Trailing white space.
    let mut end: usize = n;
    while end > start && white_space(cs[end - 1])
        invariant
            s == cs@,
            n == s.len(),
            0 <= start <= end <= n,
            forall|i: int| end <= i < n ==> is_white_space(#[trigger] s[i]),
        decreases end - start,
    {
        end = end - 1;
    }
    proof {
        lemma_trim_end_skips(rest, end - start);
        assert(rest.subrange(0, end - start) =~= s.subrange(start as int, end as int));
    }
    let ghost t = s.subrange(start as int, end as int);
    assert(trimmed(s) == t);
    // An optional sign, then the digits.
    let mut i: usize = start;
    if i < end && cs[i] == '+' {
        i = i + 1;
    }
    let ghost digits = s.subrange(i as int, end as int);
    assert(digits =~= unsigned_part(t));
    if i == end {
        return None;
    }
    let first: usize = i;
    let mut value: u64 = 0;
    while i < end
        invariant
            s == cs@,
            n == s.len(),
            start <= first < end <= n,
            first <= i <= end,
            digits == s.subrange(first as int, end as int),
            trimmed(text@) == t,
            digits == unsigned_part(t),
            forall|j: int| first <= j < i ==> is_digit(#[trigger] s[j]),
            value == digits_value(s.subrange(first as int, i as int)),
            value <= u32::MAX,
        decreases end - i,
    {
        let c = cs[i];
        if !('0' <= c && c <= '9') {
            assert(digits[i - first] == c);
            assert(!is_digit(digits[i - first]));
            assert(parse_u32_spec(t) is None);
            return None;
        }
        let d: u64 = (c as u32 - '0' as u32) as u64;
        assert(s.subrange(first as int, i + 1).drop_last() =~= s.subrange(first as int, i as int));
        let next: u64 = value * 10 + d;
        if next > 4294967295 {
            proof {
                if forall|j: int| 0 <= j < digits.len() ==> is_digit(#[trigger] digits[j]) {
                    lemma_digits_value_prefix(digits, (i + 1 - first) as int);
                    assert(digits.subrange(0, (i + 1 - first) as int) =~= s.subrange(
                        first as int,
                        i + 1,
                    ));
                }
            }
            assert(parse_u32_spec(t) is None);
            return None;
        }
        value = next;
        i = i + 1;
    }
    assert(s.subrange(first as int, end as int) =~= digits);
    Some(value as u32)
}

/// A longer string of digits denotes at least as large a number.
proof fn lemma_digits_value_prefix(s: Seq<char>, k: int)
    requires
        0 <= k <= s.len(),
        forall|i: int| 0 <= i < s.len() ==> is_digit(#[trigger] s[i]),
    ensures
        digits_value(s.subrange(0, k)) <= digits_value(s),
    decreases s.len() - k,
{
    if k < s.len() {
        lemma_digits_value_prefix(s.drop_last(), k);
        assert(s.drop_last().subrange(0, k) =~= s.subrange(0, k));
    } else {
        assert(s.subrange(0, k) =~= s);
    }
}

} // verus!
