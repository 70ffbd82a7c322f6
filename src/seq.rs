//! Circular comparison of 32-bit TCP sequence numbers.
use vstd::prelude::*;

verus! {

/// Distance walked forward, modulo 2^32, from `from` to `to`.
pub open spec fn seq_dist(from: u32, to: u32) -> int {
    if to >= from {
        to - from
    } else {
        to - from + 0x1_0000_0000
    }
}

/// Walking forward from `start`, `x` is reached strictly after `start`
/// and strictly before `end`.
pub open spec fn seq_between(start: u32, x: u32, end: u32) -> bool {
    0 < seq_dist(start, x) && seq_dist(start, x) < seq_dist(start, end)
}

/// Whether `x` lies strictly between `start` and `end` in the circular
/// sequence space.
pub fn is_between_wrapped(start: u32, x: u32, end: u32) -> (r: bool)
    ensures
        r == seq_between(start, x, end),
        start == x ==> !r,
{
    if start == x {
        false
    } else if start < x {
        // `x` is reached without wrapping; `end` cuts it off when it lies in
        // the closed interval from `start` to `x`.
        !(end >= start && end <= x)
    } else {
        // reaching `x` wraps past zero: `end` must wrap too, and land past `x`
        end < start && end > x
    }
}

/// A number is never strictly after itself: the boundary is excluded.
pub proof fn lemma_start_excluded(start: u32, end: u32)
    ensures
        !seq_between(start, start, end),
{
}

/// Without wraparound, `a < b < c` puts `b` between `a` and `c`, and never
/// `c` between `a` and `b`.
pub proof fn lemma_ordered_without_wrap(a: u32, b: u32, c: u32)
    requires
        a < b,
        b < c,
    ensures
        seq_between(a, b, c),
        !seq_between(a, c, b),
{
}

} // verus!
