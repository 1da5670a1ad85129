//! Fixed-point planar geometry.
//!
//! Positions and lengths are integers in milliunits (1000 per world unit).
//! Squared distances are exact; the integer square root rounds down, so a
//! derived length is the floor of the true length in milliunits.

use vstd::prelude::*;

verus! {

/// Largest magnitude, in milliunits, allowed for a body position coordinate.
pub const POS_LIMIT: i64 = 100_000_000;

/// Largest half-extent, in milliunits, allowed for a rectangular collider.
pub const EXTENT_LIMIT: i64 = 100_000_000;

/// Largest magnitude, in milliunits, allowed for an anchor coordinate
/// (a position combined with a half-extent).
pub const ANCHOR_LIMIT: i64 = 200_000_000;

/// A planar point or vector in milliunits.
#[derive(Clone, Copy, PartialEq, Eq, Structural, Debug)]
pub struct Vec2 {
    pub x: i64,
    pub y: i64,
}

/// Both coordinates lie within `limit` in magnitude.
pub open spec fn vec_in_bounds(v: Vec2, limit: int) -> bool {
    -limit <= v.x <= limit && -limit <= v.y <= limit
}

/// The square of an integer.
pub open spec fn sq(n: int) -> int {
    n * n
}

/// Exact squared Euclidean distance between two points.
pub open spec fn dist_sq_spec(a: Vec2, b: Vec2) -> int {
    sq(a.x - b.x) + sq(a.y - b.y)
}

/// Truncating division (rounds toward zero), as Rust's `/` does on
/// machine integers; in spec arithmetic `/` is Euclidean, so the negative
/// case is spelled out.
pub open spec fn div_trunc(a: int, b: int) -> int
    recommends
        b > 0,
{
    if a >= 0 {
        a / b
    } else {
        -((-a) / b)
    }
}

/// `r` is the integer square root of `n`: the floor of the real root.
pub open spec fn is_isqrt(n: int, r: int) -> bool {
    0 <= r && r * r <= n < (r + 1) * (r + 1)
}

/// Squared distance between two in-bounds points, exactly.
pub fn dist_sq(a: Vec2, b: Vec2) -> (r: i64)
    requires
        vec_in_bounds(a, ANCHOR_LIMIT as int),
        vec_in_bounds(b, ANCHOR_LIMIT as int),
    ensures
        r == dist_sq_spec(a, b),
        0 <= r <= 320_000_000_000_000_000,
{
    let dx: i64 = a.x - b.x;
    let dy: i64 = a.y - b.y;
    proof {
        assert(dx * dx <= 400_000_000i64 * 400_000_000i64 && dx * dx >= 0)
            by (nonlinear_arith)
            requires -400_000_000 <= dx <= 400_000_000;
        assert(dy * dy <= 400_000_000i64 * 400_000_000i64 && dy * dy >= 0)
            by (nonlinear_arith)
            requires -400_000_000 <= dy <= 400_000_000;
    }
    dx * dx + dy * dy
}

/// Integer square root by bisection: the floor of the real square root.
pub fn isqrt(n: i64) -> (r: i64)
    requires
        n >= 0,
    ensures
        is_isqrt(n as int, r as int),
{
    let nw: u64 = n as u64;
    let mut lo: u64 = 0;
    let mut hi: u64 = 4_294_967_296;
    proof {
        assert(hi * hi > nw) by (nonlinear_arith)
            requires hi == 4_294_967_296u64, nw < 0x8000_0000_0000_0000u64;
    }
    while lo + 1 < hi
        invariant
            lo < hi,
            hi <= 4_294_967_296,
            lo * lo <= nw,
            hi * hi > nw,
        decreases hi - lo,
    {
        let mid: u64 = lo + (hi - lo) / 2;
        let midw: u128 = mid as u128;
        proof {
            assert(midw * midw <= 0x1_0000_0000u128 * 0x1_0000_0000u128)
                by (nonlinear_arith)
                requires midw <= 0x1_0000_0000u128;
        }
        if midw * midw <= nw as u128 {
            lo = mid;
        } else {
            proof {
                assert(mid * mid > nw) by (nonlinear_arith)
                    requires
                        midw == mid as int,
                        midw * midw > nw,
                ;
            }
            hi = mid;
        }
    }
    proof {
        assert(lo * lo <= nw < (lo + 1) * (lo + 1));
        assert(lo < 4_294_967_296);
    }
    lo as i64
}

/// Quotient of nonnegative machine integers; on such inputs Rust's
/// truncating division and the Euclidean `/` of specifications agree.
pub fn div_nn(a: i64, b: i64) -> (r: i64)
    requires
        a >= 0,
        b > 0,
    ensures
        r == a as int / b as int,
        0 <= r <= a,
{
    let q: u64 = (a as u64) / (b as u64);
    proof {
        vstd::arithmetic::div_mod::lemma_div_is_ordered(0, a as int, b as int);
        vstd::arithmetic::div_mod::lemma_div_is_ordered_by_denominator(a as int, 1, b as int);
        vstd::arithmetic::div_mod::lemma_div_basics(a as int);
    }
    q as i64
}

/// Truncating division of a possibly negative numerator by a positive
/// denominator: the fixed-point counterpart of scaling a length by a
/// signed ratio.
pub fn div_toward_zero(a: i64, b: i64) -> (r: i64)
    requires
        a > i64::MIN,
        b > 0,
    ensures
        r == div_trunc(a as int, b as int),
        a >= 0 ==> 0 <= r <= a,
        a < 0 ==> a <= r <= 0,
{
    if a >= 0 {
        div_nn(a, b)
    } else {
        let q: i64 = div_nn(-a, b);
        -q
    }
}

} // verus!
