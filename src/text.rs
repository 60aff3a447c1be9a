//! Character-level operations on text: equality, lexicographic order and
//! the `%` wildcard patterns used by `LIKE`.
use vstd::prelude::*;
use vstd::std_specs::iter::IteratorSpec;
use vstd::string::StrSliceExecFns;

verus! {

broadcast use vstd::string::group_string_axioms;

/// Strict lexicographic order on character sequences, comparing code points.
pub open spec fn seq_lt(a: Seq<char>, b: Seq<char>) -> bool
    decreases a.len(),
{
    if a.len() == 0 {
        b.len() > 0
    } else if b.len() == 0 {
        false
    } else if a[0] != b[0] {
        a[0] < b[0]
    } else {
        seq_lt(a.drop_first(), b.drop_first())
    }
}

/// `t` holds `s` as a contiguous run of characters.
pub open spec fn seq_contains(t: Seq<char>, s: Seq<char>) -> bool {
    exists|i: int| 0 <= i && i + s.len() <= t.len() && #[trigger] t.subrange(i, i + s.len()) == s
}

pub open spec fn seq_starts_with(t: Seq<char>, s: Seq<char>) -> bool {
    s.len() <= t.len() && t.subrange(0, s.len() as int) == s
}

pub open spec fn seq_ends_with(t: Seq<char>, s: Seq<char>) -> bool {
    s.len() <= t.len() && t.subrange(t.len() - s.len(), t.len() as int) == s
}

/// What a `LIKE` pattern accepts: `%x%` accepts texts holding `x`, `%x`
/// texts ending in `x`, `x%` texts starting with `x`, and a pattern with
/// neither wildcard only itself.
pub open spec fn like_matches(text: Seq<char>, pattern: Seq<char>) -> bool {
    let n = pattern.len();
    if n >= 2 && pattern[0] == '%' && pattern[n - 1] == '%' {
        seq_contains(text, pattern.subrange(1, n - 1))
    } else if n >= 1 && pattern[0] == '%' {
        seq_ends_with(text, pattern.subrange(1, n as int))
    } else if n >= 1 && pattern[n - 1] == '%' {
        seq_starts_with(text, pattern.subrange(0, n - 1))
    } else {
        text == pattern
    }
}

/// The characters of `s`, in order.
pub fn chars_of(s: &str) -> (v: Vec<char>)
    ensures
        v@ == s@,
{
    let n = s.unicode_len();
    let mut it = s.chars();
    let mut v: Vec<char> = Vec::new();
    let mut i: usize = 0;
    while i < n
        invariant
            n == s@.len(),
            i <= n,
            v@.len() == i,
            v@ + it.remaining() == s@,
        decreases n - i,
    {
        assert(it.remaining().len() == n - i);
        match it.next() {
            Some(c) => {
                assert(v@.push(c) + it.remaining() =~= s@);
                v.push(c);
            },
            None => {},
        }
        i = i + 1;
    }
    assert(v@ =~= s@);
    v
}

/// Whether `a` comes strictly before `b` in lexicographic order.
pub fn chars_lt(a: &Vec<char>, b: &Vec<char>) -> (r: bool)
    ensures
        r == seq_lt(a@, b@),
{
    let mut i: usize = 0;
    assert(a@.skip(0) =~= a@);
    assert(b@.skip(0) =~= b@);
    while i < a.len() && i < b.len()
        invariant
            i <= a@.len(),
            i <= b@.len(),
            seq_lt(a@, b@) == seq_lt(a@.skip(i as int), b@.skip(i as int)),
        decreases a@.len() - i,
    {
        if a[i] != b[i] {
            assert(a@.skip(i as int)[0] == a@[i as int]);
            assert(b@.skip(i as int)[0] == b@[i as int]);
            return a[i] < b[i];
        }
        assert(a@.skip(i as int).drop_first() =~= a@.skip(i + 1));
        assert(b@.skip(i as int).drop_first() =~= b@.skip(i + 1));
        i = i + 1;
    }
    i < b.len()
}

/// Whether `a` and `b` hold the same characters.
pub fn str_eq(a: &str, b: &str) -> (r: bool)
    ensures
        r == (a@ == b@),
{
    let x = chars_of(a);
    let y = chars_of(b);
    if x.len() != y.len() {
        return false;
    }
    assert(x@.subrange(0, x@.len() as int) =~= x@);
    assert(y@.subrange(0, y@.len() as int) =~= y@);
    segment_eq(&x, 0, &y, 0, y.len())
}

/// Whether `t[off .. off + (hi - lo)]` equals `s[lo .. hi]`.
pub fn segment_eq(t: &Vec<char>, off: usize, s: &Vec<char>, lo: usize, hi: usize) -> (r: bool)
    requires
        lo <= hi <= s@.len(),
        off + (hi - lo) <= t@.len(),
    ensures
        r == (t@.subrange(off as int, off + (hi - lo)) == s@.subrange(lo as int, hi as int)),
{
    let mut k: usize = 0;
    while k < hi - lo
        invariant
            lo <= hi <= s@.len(),
            off + (hi - lo) <= t@.len(),
            k <= hi - lo,
            off + (hi - lo) <= t.len(),
            t@.subrange(off as int, off + k) == s@.subrange(lo as int, lo + k),
        decreases hi - lo - k,
    {
        if t[off + k] != s[lo + k] {
            assert(t@.subrange(off as int, off + (hi - lo))[k as int] != s@.subrange(
                lo as int,
                hi as int,
            )[k as int]);
            return false;
        }
        assert(t@.subrange(off as int, off + k + 1) =~= t@.subrange(off as int, off + k).push(
            t@[off + k],
        ));
        assert(s@.subrange(lo as int, lo + k + 1) =~= s@.subrange(lo as int, lo + k).push(
            s@[lo + k],
        ));
        k = k + 1;
    }
    true
}

/// Whether `text` matches the `LIKE` pattern `pattern`.
pub fn like_match(text: &str, pattern: &str) -> (r: bool)
    ensures
        r == like_matches(text@, pattern@),
{
    let t = chars_of(text);
    let p = chars_of(pattern);
    let n = p.len();
    if n >= 2 && p[0] == '%' && p[n - 1] == '%' {
        let m = n - 2;
        if m > t.len() {
            return false;
        }
        let last = t.len() - m;
        let ghost needle = p@.subrange(1, n - 1);
        let mut i: usize = 0;
        loop
            invariant
                t@ == text@,
                p@ == pattern@,
                n == p@.len(),
                n >= 2,
                p@[0] == '%',
                p@[n - 1] == '%',
                m == n - 2,
                needle == p@.subrange(1, n - 1),
                needle.len() == m,
                last == t@.len() - m,
                i <= last,
                forall|j: int| 0 <= j < i ==> #[trigger] t@.subrange(j, j + m) != needle,
            decreases last - i,
        {
            if segment_eq(&t, i, &p, 1, n - 1) {
                assert(t@.subrange(i as int, i + needle.len()) == needle);
                assert(seq_contains(t@, needle));
                return true;
            }
            if i == last {
                assert forall|j: int|
                    0 <= j && j + needle.len() <= t@.len() implies #[trigger] t@.subrange(
                    j,
                    j + needle.len(),
                ) != needle by {
                    assert(j <= i);
                }
                return false;
            }
            i = i + 1;
        }
    } else if n >= 1 && p[0] == '%' {
        if n - 1 > t.len() {
            return false;
        }
        let r = segment_eq(&t, t.len() - (n - 1), &p, 1, n);
        assert(p@.subrange(1, n as int).len() == n - 1);
        r
    } else if n >= 1 && p[n - 1] == '%' {
        if n - 1 > t.len() {
            return false;
        }
        segment_eq(&t, 0, &p, 0, n - 1)
    } else {
        if t.len() != n {
            assert(t@ != p@);
            return false;
        }
        let r = segment_eq(&t, 0, &p, 0, n);
        assert(t@.subrange(0, n as int) =~= t@);
        assert(p@.subrange(0, n as int) =~= p@);
        r
    }
}

} // verus!
