//! Trimming of text runs.
use vstd::prelude::*;

verus! {

/// Unicode `White_Space`: what is removed from both ends of a text run.
pub open spec fn is_white(c: char) -> bool {
    let u = c as u32;
    (0x9 <= u <= 0xd) || u == 0x20 || u == 0x85 || u == 0xa0 || u == 0x1680 || (0x2000 <= u
        <= 0x200a) || u == 0x2028 || u == 0x2029 || u == 0x202f || u == 0x205f || u == 0x3000
}

/// First position at or after `k` that holds no whitespace.
pub open spec fn lead(t: Seq<char>, k: int) -> int
    decreases t.len() - k,
{
    if 0 <= k < t.len() && is_white(t[k]) {
        lead(t, k + 1)
    } else {
        k
    }
}

/// End of `t[a..k]` once trailing whitespace is dropped.
pub open spec fn trail(t: Seq<char>, a: int, k: int) -> int
    decreases k - a,
{
    if a < k <= t.len() && is_white(t[k - 1]) {
        trail(t, a, k - 1)
    } else {
        k
    }
}

/// `t` without leading and trailing whitespace.
pub open spec fn trim(t: Seq<char>) -> Seq<char> {
    let a = lead(t, 0);
    t.subrange(a, trail(t, a, t.len() as int))
}

pub(crate) fn is_white_char(c: char) -> (r: bool)
    ensures
        r == is_white(c),
{
    let u = c as u32;
    (0x9 <= u && u <= 0xd) || u == 0x20 || u == 0x85 || u == 0xa0 || u == 0x1680 || (0x2000 <= u
        && u <= 0x200a) || u == 0x2028 || u == 0x2029 || u == 0x202f || u == 0x205f || u == 0x3000
}

proof fn lemma_lead_bounds(t: Seq<char>, k: int)
    requires
        0 <= k <= t.len(),
    ensures
        k <= lead(t, k) <= t.len(),
    decreases t.len() - k,
{
    if k < t.len() && is_white(t[k]) {
        lemma_lead_bounds(t, k + 1);
    }
}

proof fn lemma_trail_bounds(t: Seq<char>, a: int, k: int)
    requires
        0 <= a <= k <= t.len(),
    ensures
        a <= trail(t, a, k) <= k,
    decreases k - a,
{
    if a < k && is_white(t[k - 1]) {
        lemma_trail_bounds(t, a, k - 1);
    }
}

/// Appends `s[lo..hi]`, trimmed, to `out`.
pub(crate) fn push_trimmed(out: &mut String, s: &Vec<char>, lo: usize, hi: usize)
    requires
        lo <= hi <= s.len(),
    ensures
        final(out)@ == old(out)@ + trim(s@.subrange(lo as int, hi as int)),
{
    let ghost t = s@.subrange(lo as int, hi as int);
    let mut a: usize = lo;
    while a < hi && is_white_char(s[a])
        invariant
            lo <= a <= hi <= s.len(),
            t == s@.subrange(lo as int, hi as int),
            lead(t, 0) == lead(t, a - lo),
        decreases hi - a,
    {
        a = a + 1;
    }
    proof {
        lemma_lead_bounds(t, a - lo);
    }
    let mut b: usize = hi;
    while b > a && is_white_char(s[b - 1])
        invariant
            lo <= a <= b <= hi <= s.len(),
            t == s@.subrange(lo as int, hi as int),
            lead(t, 0) == a - lo,
            trail(t, a - lo, t.len() as int) == trail(t, a - lo, b - lo),
        decreases b - a,
    {
        b = b - 1;
    }
    proof {
        lemma_trail_bounds(t, a - lo, b - lo);
    }
    let mut m: usize = a;
    assert(old(out)@ + s@.subrange(a as int, a as int) =~= old(out)@);
    while m < b
        invariant
            lo <= a <= m <= b <= hi <= s.len(),
            out@ == old(out)@ + s@.subrange(a as int, m as int),
        decreases b - m,
    {
        push_char(out, s[m]);
        proof {
            assert(old(out)@ + s@.subrange(a as int, m + 1) =~= old(out)@ + s@.subrange(
                a as int,
                m as int,
            ).push(s@[m as int]));
        }
        m = m + 1;
    }
    proof {
        assert(trim(t) =~= s@.subrange(a as int, b as int));
    }
}

/// Relies on `String::push`: appends one character.
#[verifier::external_body]
pub(crate) fn push_char(s: &mut String, c: char)
    ensures
        final(s)@ == old(s)@.push(c),
{
    s.push(c)
}

} // verus!
