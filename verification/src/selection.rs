//! Reading the line that picks one of several numbered candidates.

use vstd::prelude::*;
use vstd::string::StrSliceExecFns;
use crate::text::chars_of;

verus! {

/// White space: the characters that are trimmed from both ends of the line
/// (the code points with the Unicode property `White_Space`).
pub open spec fn is_space(c: char) -> bool {
    let u = c as u32;
    (0x09 <= u <= 0x0D) || u == 0x20 || u == 0x85 || u == 0xA0 || u == 0x1680 || (0x2000 <= u
        <= 0x200A) || u == 0x2028 || u == 0x2029 || u == 0x202F || u == 0x205F || u == 0x3000
}

/// The text without the white space at its two ends.
pub open spec fn trimmed(s: Seq<char>) -> Seq<char>
    decreases s.len(),
{
    if s.len() == 0 {
        s
    } else if is_space(s[0]) {
        trimmed(s.drop_first())
    } else if is_space(s.last()) {
        trimmed(s.drop_last())
    } else {
        s
    }
}

/// The value of a decimal digit, `None` for any other character.
pub open spec fn digit_value(c: char) -> Option<nat> {
    let u = c as u32;
    if 0x30 <= u <= 0x39 {
        Some((u - 0x30) as nat)
    } else {
        None
    }
}

/// The number that a run of decimal digits writes; `None` where a
/// character is no digit. The empty run writes zero.
pub open spec fn number(s: Seq<char>) -> Option<nat>
    decreases s.len(),
{
    if s.len() == 0 {
        Some(0)
    } else {
        match (number(s.drop_last()), digit_value(s.last())) {
            (Some(high), Some(low)) => Some(10 * high + low),
            _ => None,
        }
    }
}

/// The text without one leading plus sign.
pub open spec fn unsigned_part(t: Seq<char>) -> Seq<char> {
    if t.len() > 0 && t[0] == '+' {
        t.drop_first()
    } else {
        t
    }
}

/// The candidate that a line of input picks among `count` candidates
/// numbered from 1, as a place counted from 0. The line picks one when,
/// trimmed and without a leading plus sign, it is a non-empty run of
/// decimal digits that writes a number from 1 to `count`.
pub open spec fn selection(input: Seq<char>, count: nat) -> Option<nat> {
    let body = unsigned_part(trimmed(input));
    if body.len() == 0 {
        None
    } else {
        match number(body) {
            Some(v) => if 1 <= v <= count {
                Some((v - 1) as nat)
            } else {
                None
            },
            None => None,
        }
    }
}

/// Every prefix of a run of digits is a run of digits, and writes no
/// greater a number.
pub proof fn lemma_number_prefix(s: Seq<char>, k: int)
    requires
        0 <= k <= s.len(),
        number(s) is Some,
    ensures
        number(s.take(k)) is Some,
        number(s.take(k))->0 <= number(s)->0,
    decreases s.len() - k,
{
    if k == s.len() {
        assert(s.take(k) =~= s);
    } else {
        lemma_number_prefix(s.drop_last(), k);
        assert(s.drop_last().take(k) =~= s.take(k));
    }
}

/// Whether `c` is white space.
pub fn is_space_char(c: char) -> (r: bool)
    ensures
        r == is_space(c),
{
    let u: u32 = c as u32;
    (0x09 <= u && u <= 0x0D) || u == 0x20 || u == 0x85 || u == 0xA0 || u == 0x1680 || (0x2000 <= u
        && u <= 0x200A) || u == 0x2028 || u == 0x2029 || u == 0x202F || u == 0x205F || u == 0x3000
}

/// The bounds of the text that is left of `chars` without the white space
/// at its two ends.
pub fn trim_bounds(chars: &Vec<char>) -> (r: (usize, usize))
    ensures
        r.0 <= r.1 <= chars.len(),
        trimmed(chars@) == chars@.subrange(r.0 as int, r.1 as int),
{
    let ghost s = chars@;
    let n = chars.len();
    let mut start: usize = 0;
    assert(s.subrange(0, n as int) =~= s);
    while start < n && is_space_char(chars[start])
        invariant
            chars@ == s,
            n == chars.len(),
            start <= n,
            trimmed(s) == trimmed(s.subrange(start as int, n as int)),
        decreases n - start,
    {
        assert(s.subrange(start as int, n as int).drop_first() =~= s.subrange(
            start + 1,
            n as int,
        ));
        start += 1;
    }
    let mut end: usize = n;
    while end > start && is_space_char(chars[end - 1])
        invariant
            chars@ == s,
            n == chars.len(),
            start <= end <= n,
            start == n || !is_space(s[start as int]),
            trimmed(s) == trimmed(s.subrange(start as int, end as int)),
        decreases end,
    {
        assert(s.subrange(start as int, end as int).drop_last() =~= s.subrange(
            start as int,
            end - 1,
        ));
        end -= 1;
    }
    (start, end)
}

/// The text without the white space at its two ends.
pub fn trim(s: &str) -> (r: &str)
    ensures
        r@ == trimmed(s@),
{
    let chars = chars_of(s);
    let (start, end) = trim_bounds(&chars);
    s.substring_char(start, end)
}

/// Reads the line that picks one of `count` candidates.
pub fn parse_selection(input: &str, count: usize) -> (r: Option<usize>)
    ensures
        match r {
            Some(i) => selection(input@, count as nat) == Some(i as nat),
            None => selection(input@, count as nat) is None,
        },
{
    let chars = chars_of(input);
    let ghost s = input@;
    let (start, end) = trim_bounds(&chars);
    let ghost line = s.subrange(start as int, end as int);
    assert(trimmed(s) == line);
    let mut first: usize = start;
    if first < end && chars[first] == '+' {
        first += 1;
    }
    let ghost body = s.subrange(first as int, end as int);
    assert(body =~= unsigned_part(line));
    if first == end {
        return None;
    }
    let mut i: usize = first;
    let mut value: usize = 0;
    assert(body.take(0) =~= Seq::<char>::empty());
    while i < end
        invariant
            chars@ == s,
            s == input@,
            first <= i <= end <= chars.len(),
            first < end,
            body == s.subrange(first as int, end as int),
            body == unsigned_part(trimmed(s)),
            number(body.take(i - first)) == Some(value as nat),
            value <= count,
        decreases end - i,
    {
        let u: u32 = chars[i] as u32;
        let ghost prefix = body.take(i - first + 1);
        assert(prefix.drop_last() =~= body.take(i - first));
        assert(prefix.last() == s[i as int]);
        if !(0x30 <= u && u <= 0x39) {
            proof {
                if number(body) is Some {
                    lemma_number_prefix(body, i - first + 1);
                }
            }
            return None;
        }
        let next: u128 = (value as u128) * 10 + ((u - 0x30) as u128);
        assert(number(prefix) == Some(next as nat));
        if next > count as u128 {
            proof {
                if number(body) is Some {
                    lemma_number_prefix(body, i - first + 1);
                }
            }
            return None;
        }
        value = next as usize;
        i += 1;
    }
    assert(body.take(end - first) =~= body);
    if value >= 1 {
        Some(value - 1)
    } else {
        None
    }
}

} // verus!
