//! Decimal integer text, as the standard library reads it.
use vstd::prelude::*;

use crate::text::chars_of;

verus! {

pub open spec fn is_digit(c: char) -> bool {
    '0' <= c && c <= '9'
}

/// A non-empty run of decimal digits.
pub open spec fn all_digits(s: Seq<char>) -> bool {
    s.len() > 0 && forall|i: int| 0 <= i < s.len() ==> is_digit(#[trigger] s[i])
}

/// The number that a run of decimal digits writes.
pub open spec fn digits_value(s: Seq<char>) -> int
    decreases s.len(),
{
    if s.len() == 0 {
        0
    } else {
        digits_value(s.drop_last()) * 10 + ((s.last() as u32) - ('0' as u32))
    }
}

/// An optional `+` or `-` sign followed by decimal digits, and nothing else.
pub open spec fn signed_decimal(s: Seq<char>) -> Option<int> {
    if s.len() > 0 && s[0] == '-' && all_digits(s.drop_first()) {
        Some(-digits_value(s.drop_first()))
    } else if s.len() > 0 && s[0] == '+' && all_digits(s.drop_first()) {
        Some(digits_value(s.drop_first()))
    } else if all_digits(s) {
        Some(digits_value(s))
    } else {
        None
    }
}

/// An optional `+` sign followed by decimal digits, and nothing else.
pub open spec fn unsigned_decimal(s: Seq<char>) -> Option<int> {
    if s.len() > 0 && s[0] == '+' && all_digits(s.drop_first()) {
        Some(digits_value(s.drop_first()))
    } else if all_digits(s) {
        Some(digits_value(s))
    } else {
        None
    }
}

pub open spec fn i64_of_text(s: Seq<char>) -> Option<i64> {
    match signed_decimal(s) {
        Some(v) => if i64::MIN <= v <= i64::MAX {
            Some(v as i64)
        } else {
            None
        },
        None => None,
    }
}

pub open spec fn usize_of_text(s: Seq<char>) -> Option<usize> {
    match unsigned_decimal(s) {
        Some(v) => if v <= usize::MAX {
            Some(v as usize)
        } else {
            None
        },
        None => None,
    }
}

/// A prefix of a digit run is worth no more than the run.
proof fn lemma_digits_grow(s: Seq<char>, k: int)
    requires
        0 <= k <= s.len(),
        forall|i: int| 0 <= i < s.len() ==> is_digit(#[trigger] s[i]),
    ensures
        0 <= digits_value(s.take(k)) <= digits_value(s),
    decreases s.len(),
{
    if s.len() > 0 {
        if k == s.len() {
            assert(s.take(k) =~= s);
            lemma_digits_grow(s.drop_last(), k - 1);
        } else {
            assert(s.drop_last().take(k) =~= s.take(k));
            lemma_digits_grow(s.drop_last(), k);
        }
    } else {
        assert(s.take(k) =~= s);
    }
}

/// The value of the digit run `c[start..]`, when it is one and is at most
/// `limit`.
fn digit_run_value(c: &Vec<char>, start: usize, limit: u64) -> (r: Option<u64>)
    requires
        start <= c@.len(),
    ensures
        r == if all_digits(c@.skip(start as int)) && digits_value(c@.skip(start as int)) <= limit {
            Some(digits_value(c@.skip(start as int)) as u64)
        } else {
            None::<u64>
        },
        r matches Some(v) ==> v as int == digits_value(c@.skip(start as int)) && v <= limit,
{
    let ghost run = c@.skip(start as int);
    if start == c.len() {
        return None;
    }
    let mut acc: u64 = 0;
    let mut i: usize = start;
    assert(run.take(0) =~= Seq::<char>::empty());
    while i < c.len()
        invariant
            start < c@.len(),
            run == c@.skip(start as int),
            start <= i <= c@.len(),
            forall|j: int| 0 <= j < i - start ==> is_digit(#[trigger] run[j]),
            acc == digits_value(run.take(i - start)),
            acc <= limit,
        decreases c@.len() - i,
    {
        let ch = c[i];
        assert(run[i - start] == ch);
        if !('0' <= ch && ch <= '9') {
            assert(!all_digits(run));
            return None;
        }
        let d: u64 = ((ch as u32) - ('0' as u32)) as u64;
        assert(run.take(i - start + 1).drop_last() =~= run.take(i - start));
        assert(run.take(i - start + 1).last() == ch);
        let next: u128 = acc as u128 * 10 + d as u128;
        if next > limit as u128 {
            proof {
                if all_digits(run) {
                    lemma_digits_grow(run, i - start + 1);
                }
            }
            return None;
        }
        acc = next as u64;
        i = i + 1;
    }
    assert(run.take(i - start) =~= run);
    proof {
        lemma_digits_grow(run, 0);
    }
    Some(acc)
}

/// Reads an optional sign and decimal digits, with no other characters,
/// as an `i64`; anything else, or a value out of range, gives `None`.
pub fn parse_i64(s: &str) -> (r: Option<i64>)
    ensures
        r == i64_of_text(s@),
{
    let c = chars_of(s);
    if c.len() > 0 && c[0] == '-' {
        assert(c@.skip(1) =~= s@.drop_first());
        assert(!is_digit(s@[0]));
        assert(!all_digits(s@));
        match digit_run_value(&c, 1, 9_223_372_036_854_775_808) {
            Some(v) => {
                if v == 9_223_372_036_854_775_808 {
                    Some(i64::MIN)
                } else {
                    Some(-(v as i64))
                }
            },
            None => None,
        }
    } else if c.len() > 0 && c[0] == '+' {
        assert(c@.skip(1) =~= s@.drop_first());
        assert(!is_digit(s@[0]));
        assert(!all_digits(s@));
        match digit_run_value(&c, 1, 9_223_372_036_854_775_807) {
            Some(v) => Some(v as i64),
            None => None,
        }
    } else {
        assert(c@.skip(0) =~= s@);
        match digit_run_value(&c, 0, 9_223_372_036_854_775_807) {
            Some(v) => Some(v as i64),
            None => None,
        }
    }
}

/// Reads an optional `+` and decimal digits, with no other characters, as a
/// `usize`; anything else, or a value out of range, gives `None`.
pub fn parse_usize(s: &str) -> (r: Option<usize>)
    ensures
        r == usize_of_text(s@),
{
    let c = chars_of(s);
    let start: usize = if c.len() > 0 && c[0] == '+' {
        1
    } else {
        0
    };
    assert(start == 1 ==> c@.skip(1) =~= s@.drop_first());
    assert(c@.skip(0) =~= s@);
    proof {
        if start == 1 {
            assert(!is_digit(s@[0]));
            assert(!all_digits(s@));
        }
    }
    match digit_run_value(&c, start, usize::MAX as u64) {
        Some(v) => Some(v as usize),
        None => None,
    }
}

} // verus!
