use vstd::prelude::*;
use vstd::arithmetic::div_mod::lemma_div_multiples_vanish;
use vstd::arithmetic::div_mod::lemma_div_is_ordered;
use vstd::arithmetic::div_mod::lemma_div_nonincreasing;

verus! {

/// Largest magnitude a stored coordinate (node position, placement slot,
/// camera center, map half-extent) may have.
pub const COORD_LIMIT: i64 = 0x4000_0000;

/// Largest magnitude an arc-length distance along an edge may have.
pub const DIST_LIMIT: i64 = 0x2_0000_0000;

/// Largest magnitude any computed world position may have; interpolation
/// from in-bounds coordinates and distances stays within this.
pub const WORLD_LIMIT: i64 = 0x10_0000_0000;

/// Bound on the world coordinate any screen point can map to through the
/// camera; radius tests accept anything within it.
pub const VIEW_LIMIT: i64 = 0x40_0000_0000_0000;

/// A 2D point or vector in fixed-point world units.
#[derive(Clone, Copy, PartialEq, Eq, Structural, Debug)]
pub struct Vec2 {
    pub x: i64,
    pub y: i64,
}

impl Vec2 {
    /// Both coordinates have magnitude at most `limit`.
    pub open spec fn in_bounds(self, limit: int) -> bool {
        -limit <= self.x <= limit && -limit <= self.y <= limit
    }

    pub fn new(x: i64, y: i64) -> (r: Vec2)
        ensures
            r == (Vec2 { x, y }),
    {
        Vec2 { x, y }
    }
}

/// Squared Euclidean distance between two points.
pub open spec fn dist_sq(a: Vec2, b: Vec2) -> int {
    (a.x - b.x) * (a.x - b.x) + (a.y - b.y) * (a.y - b.y)
}

/// Whether `b` lies strictly within radius `r` of `a`.
pub open spec fn within(a: Vec2, b: Vec2, r: int) -> bool {
    dist_sq(a, b) < r * r
}

/// Radius test by comparing squared distances, so no square root is needed.
pub fn within_radius(a: Vec2, b: Vec2, r: i64) -> (res: bool)
    requires
        a.in_bounds(VIEW_LIMIT as int),
        b.in_bounds(VIEW_LIMIT as int),
        0 <= r <= VIEW_LIMIT,
    ensures
        res == within(a, b, r as int),
{
    let dx: i128 = a.x as i128 - b.x as i128;
    let dy: i128 = a.y as i128 - b.y as i128;
    proof {
        assert(dx * dx >= 0 && dx * dx <= 0x40_0000_0000_0000_0000_0000_0000_0000
            && dy * dy >= 0 && dy * dy <= 0x40_0000_0000_0000_0000_0000_0000_0000)
            by (nonlinear_arith)
            requires
                -0x80_0000_0000_0000i128 <= dx <= 0x80_0000_0000_0000i128,
                -0x80_0000_0000_0000i128 <= dy <= 0x80_0000_0000_0000i128;
        assert((r as i128) * (r as i128) <= 0x10_0000_0000_0000_0000_0000_0000_0000)
            by (nonlinear_arith)
            requires 0 <= r as i128 <= 0x40_0000_0000_0000i128;
    }
    dx * dx + dy * dy < (r as i128) * (r as i128)
}

/// `r` is the floor of the square root of `n`.
pub open spec fn is_sqrt_floor(n: int, r: int) -> bool {
    0 <= r && r * r <= n && n < (r + 1) * (r + 1)
}

/// The floor of the square root of a non-negative integer.
pub open spec fn sqrt_floor(n: int) -> int {
    choose|r: int| is_sqrt_floor(n, r)
}

pub proof fn lemma_sqrt_floor_exists(n: nat)
    ensures
        is_sqrt_floor(n as int, sqrt_floor(n as int)),
    decreases n,
{
    if n == 0 {
        assert(is_sqrt_floor(0, 0));
    } else {
        lemma_sqrt_floor_exists((n - 1) as nat);
        let r = sqrt_floor(n - 1);
        if n < (r + 1) * (r + 1) {
            assert(is_sqrt_floor(n as int, r));
        } else {
            assert((r + 1) * (r + 1) < (r + 2) * (r + 2)) by (nonlinear_arith)
                requires 0 <= r;
            assert(is_sqrt_floor(n as int, r + 1));
        }
    }
    assert(exists|r: int| is_sqrt_floor(n as int, r));
}

pub proof fn lemma_sqrt_floor_unique(n: int, r1: int, r2: int)
    requires
        is_sqrt_floor(n, r1),
        is_sqrt_floor(n, r2),
    ensures
        r1 == r2,
{
    if r1 < r2 {
        assert((r1 + 1) * (r1 + 1) <= r2 * r2) by (nonlinear_arith)
            requires 0 <= r1, r1 < r2;
    }
    if r2 < r1 {
        assert((r2 + 1) * (r2 + 1) <= r1 * r1) by (nonlinear_arith)
            requires 0 <= r2, r2 < r1;
    }
}

/// Floor of the square root, by binary search on `[0, 2^32)`.
pub fn isqrt(n: u64) -> (r: u64)
    ensures
        r as int == sqrt_floor(n as int),
        is_sqrt_floor(n as int, r as int),
        r <= 0xFFFF_FFFFu64,
{
    let mut lo: u64 = 0;
    let mut hi: u64 = 0xFFFF_FFFF;
    proof {
        assert(n < (0xFFFF_FFFFu64 + 1) * (0xFFFF_FFFFu64 + 1)) by (nonlinear_arith)
            requires n <= 0xFFFF_FFFF_FFFF_FFFFu64;
    }
    while lo < hi
        invariant
            lo <= hi <= 0xFFFF_FFFF,
            lo * lo <= n,
            n < (hi + 1) * (hi + 1),
        decreases hi - lo,
    {
        let mid: u64 = lo + (hi - lo + 1) / 2;
        assert(lo < mid <= hi);
        proof {
            assert((mid as u128) * (mid as u128) < 0x1_0000_0000_0000_0000) by (nonlinear_arith)
                requires 0 <= mid as u128 <= 0xFFFF_FFFFu128;
        }
        let sq: u128 = (mid as u128) * (mid as u128);
        if sq <= n as u128 {
            lo = mid;
        } else {
            hi = mid - 1;
        }
    }
    proof {
        lemma_sqrt_floor_exists(n as nat);
        lemma_sqrt_floor_unique(n as int, lo as int, sqrt_floor(n as int));
    }
    lo
}

/// Floor length of the segment between two stored coordinates.
pub fn dist_floor(a: Vec2, b: Vec2) -> (r: u64)
    requires
        a.in_bounds(COORD_LIMIT as int),
        b.in_bounds(COORD_LIMIT as int),
    ensures
        r as int == sqrt_floor(dist_sq(a, b)),
        is_sqrt_floor(dist_sq(a, b), r as int),
        r <= 0xFFFF_FFFFu64,
{
    let dx: i128 = a.x as i128 - b.x as i128;
    let dy: i128 = a.y as i128 - b.y as i128;
    proof {
        assert(dx * dx >= 0 && dx * dx <= 0x4000_0000_0000_0000) by (nonlinear_arith)
            requires -0x8000_0000i128 <= dx <= 0x8000_0000i128;
        assert(dy * dy >= 0 && dy * dy <= 0x4000_0000_0000_0000) by (nonlinear_arith)
            requires -0x8000_0000i128 <= dy <= 0x8000_0000i128;
    }
    let s: u128 = (dx * dx + dy * dy) as u128;
    isqrt(s as u64)
}

/// Truncated division (rounds toward zero, as the `/` of the machine),
/// defined for a positive divisor.
pub open spec fn div_trunc(n: int, d: int) -> int {
    if n >= 0 {
        n / d
    } else {
        -((-n) / d)
    }
}

/// Truncated division of a signed value by a positive divisor, via
/// sign-magnitude so the machine semantics are stated exactly.
pub fn div_trunc_i64(n: i64, d: i64) -> (r: i64)
    requires
        0 < d,
        i64::MIN < n,
    ensures
        r as int == div_trunc(n as int, d as int),
        n >= 0 ==> 0 <= r <= n,
        n <= 0 ==> n <= r <= 0,
{
    if n >= 0 {
        let q = (n as u64) / (d as u64);
        proof {
            lemma_div_is_ordered(0, n as int, d as int);
            lemma_div_nonincreasing(n as int, d as int);
        }
        q as i64
    } else {
        let m = -n;
        let q = (m as u64) / (d as u64);
        proof {
            lemma_div_is_ordered(0, m as int, d as int);
            lemma_div_nonincreasing(m as int, d as int);
        }
        -(q as i64)
    }
}

/// `(delta * num) / den`, truncated toward zero; `|delta| <= den` keeps the
/// magnitude of the result at most `num`.
pub fn interp_scale(delta: i64, num: i64, den: i64) -> (r: i64)
    requires
        0 < den,
        0 <= num,
        -den <= delta <= den,
    ensures
        r as int == div_trunc(delta as int * num as int, den as int),
        -num <= r <= num,
{
    proof {
        assert(delta as int * num as int <= den as int * num as int
            && -(den as int * num as int) <= delta as int * num as int
            && 0 <= den as int * num as int) by (nonlinear_arith)
            requires 0 < den, 0 <= num, -den <= delta <= den;
    }
    if delta >= 0 {
        proof {
            let di = delta as int;
            let ni = num as int;
            assert(di * ni <= 0x4000_0000_0000_0000_0000_0000_0000_0000int) by (nonlinear_arith)
                requires 0 <= di <= 0x8000_0000_0000_0000int, 0 <= ni <= 0x8000_0000_0000_0000int;
        }
        let p: u128 = (delta as u128) * (num as u128);
        let q: u128 = p / (den as u128);
        proof {
            lemma_div_is_ordered(p as int, den as int * num as int, den as int);
            lemma_div_multiples_vanish(num as int, den as int);
        }
        q as i64
    } else {
        let neg: i64 = -delta;
        proof {
            let gi = neg as int;
            let ni = num as int;
            assert(gi * ni <= 0x4000_0000_0000_0000_0000_0000_0000_0000int) by (nonlinear_arith)
                requires 0 <= gi <= 0x8000_0000_0000_0000int, 0 <= ni <= 0x8000_0000_0000_0000int;
            assert(gi * ni <= den as int * ni) by (nonlinear_arith)
                requires 0 <= gi <= den as int, 0 <= ni;
        }
        let p: u128 = (neg as u128) * (num as u128);
        let q: u128 = p / (den as u128);
        proof {
            lemma_div_is_ordered(p as int, den as int * num as int, den as int);
            lemma_div_multiples_vanish(num as int, den as int);
            assert(delta as int * num as int == -(neg as int * num as int)) by (nonlinear_arith)
                requires delta as int == -(neg as int);
        }
        -(q as i64)
    }
}

/// One component of linear interpolation by truncated division: for
/// `0 <= d <= len`, the scaled offset `div_trunc(delta * d, len)` stays
/// between `0` and `delta`, hits them exactly at `d == 0` and `d == len`,
/// and `len` times it is within `len` of the exact product `delta * d`.
pub proof fn lemma_interp_component(delta: int, d: int, len: int)
    requires
        0 < len,
        0 <= d <= len,
    ensures
        ({
            let q = div_trunc(delta * d, len);
            &&& 0 <= delta ==> 0 <= q <= delta
            &&& delta <= 0 ==> delta <= q <= 0
            &&& -len < len * q - delta * d < len
            &&& d == len ==> q == delta
            &&& d == 0 ==> q == 0
        }),
{
    if delta >= 0 {
        lemma_interp_component_nonneg(delta, d, len);
    } else {
        lemma_interp_component_nonneg(-delta, d, len);
        let q1 = div_trunc(-delta * d, len);
        assert(delta * d == -(-delta * d)) by (nonlinear_arith);
        assert(div_trunc(delta * d, len) == -q1);
        assert(len * (-q1) - delta * d == -(len * q1 - (-delta * d))) by (nonlinear_arith);
    }
}

proof fn lemma_interp_component_nonneg(delta: int, d: int, len: int)
    requires
        0 < len,
        0 <= d <= len,
        0 <= delta,
    ensures
        ({
            let q = div_trunc(delta * d, len);
            &&& 0 <= q <= delta
            &&& -len < len * q - delta * d <= 0
            &&& d == len ==> q == delta
            &&& d == 0 ==> q == 0
        }),
{
    let n = delta * d;
    assert(0 <= n && n <= delta * len) by (nonlinear_arith)
        requires 0 <= delta, 0 <= d <= len, n == delta * d;
    let q = n / len;
    assert(div_trunc(n, len) == q);
    vstd::arithmetic::div_mod::lemma_fundamental_div_mod(n, len);
    vstd::arithmetic::div_mod::lemma_mod_division_less_than_divisor(n, len);
    assert(len * q == n - n % len);
    vstd::arithmetic::div_mod::lemma_div_pos_is_pos(n, len);
    lemma_div_is_ordered(n, delta * len, len);
    lemma_div_multiples_vanish(delta, len);
    assert(len * delta == delta * len) by (nonlinear_arith);
    if d == len {
        assert(n == delta * len);
        assert(q == delta);
    }
    if d == 0 {
        assert(n == 0);
        vstd::arithmetic::div_mod::lemma_basic_div_specific_divisor(len);
    }
}

/// Division by `d` of a multiple of `d` is exact, also under truncation.
pub proof fn lemma_div_trunc_exact(x: int, d: int)
    requires
        0 < d,
    ensures
        div_trunc(d * x, d) == x,
{
    if x >= 0 {
        lemma_div_multiples_vanish(x, d);
    } else {
        lemma_div_multiples_vanish(-x, d);
        assert(-(d * x) == d * (-x)) by (nonlinear_arith);
    }
}

/// `v` clamped into `[lo, hi]`.
pub fn clamp_i64(v: i64, lo: i64, hi: i64) -> (r: i64)
    requires
        lo <= hi,
    ensures
        r == if v < lo { lo } else if v > hi { hi } else { v },
{
    if v < lo {
        lo
    } else if v > hi {
        hi
    } else {
        v
    }
}

} // verus!
