use vstd::prelude::*;
use crate::geom::{Vec2, div_trunc, div_trunc_i64, WORLD_LIMIT};

verus! {

/// Angle units in a full turn.
pub const ANGLE_TURN: i64 = 4096;

/// Angle units in a quarter turn.
pub const ANGLE_QUARTER: i64 = 1024;

/// The fixed-point scale of a trigonometric value and of the linear part of
/// a transform: this value stands for 1.
pub const TRIG_ONE: i64 = 1024;

/// Triangle-wave sine in fixed point: rises linearly from 0 at phase 0 to
/// `TRIG_ONE` at a quarter turn, falls to `-TRIG_ONE` at three quarters,
/// and returns to 0 at a full turn.
pub open spec fn sin_wave_spec(phase: int) -> int {
    if phase < ANGLE_QUARTER {
        phase
    } else if phase < 3 * ANGLE_QUARTER {
        2 * ANGLE_QUARTER - phase
    } else {
        phase - ANGLE_TURN
    }
}

/// Triangle-wave cosine: the sine wave a quarter turn ahead.
pub open spec fn cos_wave_spec(phase: int) -> int {
    sin_wave_spec((phase + ANGLE_QUARTER) % (ANGLE_TURN as int))
}

pub fn sin_wave(phase: i64) -> (r: i64)
    requires
        0 <= phase < ANGLE_TURN,
    ensures
        r as int == sin_wave_spec(phase as int),
        -TRIG_ONE <= r <= TRIG_ONE,
{
    if phase < ANGLE_QUARTER {
        phase
    } else if phase < 3 * ANGLE_QUARTER {
        2 * ANGLE_QUARTER - phase
    } else {
        phase - ANGLE_TURN
    }
}

pub fn cos_wave(phase: i64) -> (r: i64)
    requires
        0 <= phase < ANGLE_TURN,
    ensures
        r as int == cos_wave_spec(phase as int),
        -TRIG_ONE <= r <= TRIG_ONE,
{
    let shifted = if phase + ANGLE_QUARTER >= ANGLE_TURN {
        phase + ANGLE_QUARTER - ANGLE_TURN
    } else {
        phase + ANGLE_QUARTER
    };
    proof {
        if phase + ANGLE_QUARTER >= ANGLE_TURN {
            vstd::arithmetic::div_mod::lemma_mod_sub_multiples_vanish(
                phase as int + ANGLE_QUARTER as int,
                ANGLE_TURN as int,
            );
        }
        vstd::arithmetic::div_mod::lemma_small_mod(shifted as nat, ANGLE_TURN as nat);
    }
    sin_wave(shifted)
}

/// An angle reduced into `[0, ANGLE_TURN)`; in specifications this is the
/// Euclidean remainder.
pub fn normalize_angle(angle: i64) -> (r: i64)
    requires
        i64::MIN < angle,
    ensures
        r as int == (angle as int) % (ANGLE_TURN as int),
        0 <= r < ANGLE_TURN,
{
    if angle >= 0 {
        let r = ((angle as u64) % (ANGLE_TURN as u64)) as i64;
        proof {
            vstd::arithmetic::div_mod::lemma_mod_bound(angle as int, ANGLE_TURN as int);
        }
        r
    } else {
        let m = ((-angle) as u64 % (ANGLE_TURN as u64)) as i64;
        proof {
            vstd::arithmetic::div_mod::lemma_mod_bound(-angle as int, ANGLE_TURN as int);
            vstd::arithmetic::div_mod::lemma_fundamental_div_mod(-angle as int, ANGLE_TURN as int);
            let k = (-angle as int) / (ANGLE_TURN as int);
            assert(angle as int == (-k) * (ANGLE_TURN as int) + (-(m as int))) by (nonlinear_arith)
                requires -angle as int == (ANGLE_TURN as int) * k + m as int;
            vstd::arithmetic::div_mod::lemma_mod_multiples_vanish(-k, -(m as int), ANGLE_TURN as int);
            if m != 0 {
                vstd::arithmetic::div_mod::lemma_mod_add_multiples_vanish(-(m as int), ANGLE_TURN as int);
                vstd::arithmetic::div_mod::lemma_small_mod((ANGLE_TURN - m) as nat, ANGLE_TURN as nat);
            }
        }
        if m == 0 {
            0
        } else {
            ANGLE_TURN - m
        }
    }
}

/// A 2D affine transform: the linear part `[a b; c d]` is scaled by
/// `TRIG_ONE`, the translation `(tx, ty)` is in world units.
#[derive(Clone, Copy, PartialEq, Eq, Structural, Debug)]
pub struct Mat3 {
    pub a: i64,
    pub b: i64,
    pub c: i64,
    pub d: i64,
    pub tx: i64,
    pub ty: i64,
}

impl Mat3 {
    /// Linear entries within twice `TRIG_ONE`, translation within `limit`.
    pub open spec fn wf(self, limit: int) -> bool {
        &&& -2 * TRIG_ONE <= self.a <= 2 * TRIG_ONE
        &&& -2 * TRIG_ONE <= self.b <= 2 * TRIG_ONE
        &&& -2 * TRIG_ONE <= self.c <= 2 * TRIG_ONE
        &&& -2 * TRIG_ONE <= self.d <= 2 * TRIG_ONE
        &&& -limit <= self.tx <= limit
        &&& -limit <= self.ty <= limit
    }

    /// The point this transform maps `v` to.
    pub open spec fn apply_spec(self, v: Vec2) -> Vec2 {
        Vec2 {
            x: (div_trunc(self.a * v.x + self.b * v.y, TRIG_ONE as int) + self.tx) as i64,
            y: (div_trunc(self.c * v.x + self.d * v.y, TRIG_ONE as int) + self.ty) as i64,
        }
    }

    /// A pure translation by `t`.
    pub fn translate(t: Vec2) -> (r: Mat3)
        ensures
            r == (Mat3 { a: TRIG_ONE, b: 0, c: 0, d: TRIG_ONE, tx: t.x, ty: t.y }),
    {
        Mat3 { a: TRIG_ONE, b: 0, c: 0, d: TRIG_ONE, tx: t.x, ty: t.y }
    }

    /// A rotation by `angle` (any angle; reduced into one turn).
    pub fn rotation(angle: i64) -> (r: Mat3)
        requires
            i64::MIN < angle,
        ensures
            ({
                let phase = (angle as int) % (ANGLE_TURN as int);
                r == (Mat3 {
                    a: cos_wave_spec(phase) as i64,
                    b: (-sin_wave_spec(phase)) as i64,
                    c: sin_wave_spec(phase) as i64,
                    d: cos_wave_spec(phase) as i64,
                    tx: 0i64,
                    ty: 0i64,
                })
            }),
            r.wf(0),
    {
        let phase = normalize_angle(angle);
        let c = cos_wave(phase);
        let s = sin_wave(phase);
        Mat3 { a: c, b: -s, c: s, d: c, tx: 0, ty: 0 }
    }

    /// Composition: applying `self.compose(other)` is applying `other`, then
    /// `self`. The entries are stated exactly; callers derive their own
    /// bounds from the shapes they compose.
    pub fn compose(&self, other: &Mat3) -> (r: Mat3)
        requires
            self.wf(WORLD_LIMIT as int),
            other.wf(WORLD_LIMIT as int),
        ensures
            r.a as int == div_trunc(self.a * other.a + self.b * other.c, TRIG_ONE as int),
            r.b as int == div_trunc(self.a * other.b + self.b * other.d, TRIG_ONE as int),
            r.c as int == div_trunc(self.c * other.a + self.d * other.c, TRIG_ONE as int),
            r.d as int == div_trunc(self.c * other.b + self.d * other.d, TRIG_ONE as int),
            r.tx as int == div_trunc(self.a * other.tx + self.b * other.ty, TRIG_ONE as int)
                + self.tx,
            r.ty as int == div_trunc(self.c * other.tx + self.d * other.ty, TRIG_ONE as int)
                + self.ty,
    {
        proof {
            let sa = self.a as int;
            let sb = self.b as int;
            let sc = self.c as int;
            let sd = self.d as int;
            let oa = other.a as int;
            let ob = other.b as int;
            let oc = other.c as int;
            let od = other.d as int;
            let ox = other.tx as int;
            let oy = other.ty as int;
            assert(-0x40_0000 <= sa * oa <= 0x40_0000 && -0x40_0000 <= sb * oc <= 0x40_0000
                && -0x40_0000 <= sa * ob <= 0x40_0000 && -0x40_0000 <= sb * od <= 0x40_0000
                && -0x40_0000 <= sc * oa <= 0x40_0000 && -0x40_0000 <= sd * oc <= 0x40_0000
                && -0x40_0000 <= sc * ob <= 0x40_0000 && -0x40_0000 <= sd * od <= 0x40_0000)
                by (nonlinear_arith)
                requires
                    -2048 <= sa <= 2048,
                    -2048 <= sb <= 2048,
                    -2048 <= sc <= 2048,
                    -2048 <= sd <= 2048,
                    -2048 <= oa <= 2048,
                    -2048 <= ob <= 2048,
                    -2048 <= oc <= 2048,
                    -2048 <= od <= 2048;
            assert(-0x8000_0000_0000 <= sa * ox <= 0x8000_0000_0000
                && -0x8000_0000_0000 <= sb * oy <= 0x8000_0000_0000
                && -0x8000_0000_0000 <= sc * ox <= 0x8000_0000_0000
                && -0x8000_0000_0000 <= sd * oy <= 0x8000_0000_0000)
                by (nonlinear_arith)
                requires
                    -2048 <= sa <= 2048,
                    -2048 <= sb <= 2048,
                    -2048 <= sc <= 2048,
                    -2048 <= sd <= 2048,
                    -0x10_0000_0000 <= ox <= 0x10_0000_0000,
                    -0x10_0000_0000 <= oy <= 0x10_0000_0000;
        }
        Mat3 {
            a: div_trunc_i64(self.a * other.a + self.b * other.c, TRIG_ONE),
            b: div_trunc_i64(self.a * other.b + self.b * other.d, TRIG_ONE),
            c: div_trunc_i64(self.c * other.a + self.d * other.c, TRIG_ONE),
            d: div_trunc_i64(self.c * other.b + self.d * other.d, TRIG_ONE),
            tx: div_trunc_i64(self.a * other.tx + self.b * other.ty, TRIG_ONE) + self.tx,
            ty: div_trunc_i64(self.c * other.tx + self.d * other.ty, TRIG_ONE) + self.ty,
        }
    }

    /// Maps a point through the transform.
    pub fn apply(&self, v: Vec2) -> (r: Vec2)
        requires
            self.wf(4 * WORLD_LIMIT as int),
            v.in_bounds(WORLD_LIMIT as int),
        ensures
            r == self.apply_spec(v),
            r.in_bounds(8 * WORLD_LIMIT as int),
    {
        proof {
            lemma_row_bound(self.a as int, self.b as int, v.x as int, v.y as int,
                2 * TRIG_ONE as int, WORLD_LIMIT as int);
            lemma_row_bound(self.c as int, self.d as int, v.x as int, v.y as int,
                2 * TRIG_ONE as int, WORLD_LIMIT as int);
            lemma_div_trunc_scale_down(
                self.a as int * v.x as int + self.b as int * v.y as int,
                TRIG_ONE as int,
                4 * WORLD_LIMIT as int,
            );
            lemma_div_trunc_scale_down(
                self.c as int * v.x as int + self.d as int * v.y as int,
                TRIG_ONE as int,
                4 * WORLD_LIMIT as int,
            );
            assert(TRIG_ONE as int * (4 * WORLD_LIMIT as int) == 0x1_0000_0000_0000int);
        }
        Vec2 {
            x: div_trunc_i64(self.a * v.x + self.b * v.y, TRIG_ONE) + self.tx,
            y: div_trunc_i64(self.c * v.x + self.d * v.y, TRIG_ONE) + self.ty,
        }
    }

    /// The point the transform maps the origin to.
    pub fn origin(&self) -> (r: Vec2)
        ensures
            r == (Vec2 { x: self.tx, y: self.ty }),
            r == self.apply_spec(Vec2 { x: 0, y: 0 }),
    {
        proof {
            assert(self.a * 0 + self.b * 0 == 0);
            assert(div_trunc(0, TRIG_ONE as int) == 0) by {
                vstd::arithmetic::div_mod::lemma_basic_div_specific_divisor(TRIG_ONE as int);
            }
            assert(self.c * 0 + self.d * 0 == 0);
        }
        Vec2 { x: self.tx, y: self.ty }
    }
}

/// A linear row of magnitude at most `lin_cap` applied to a column of
/// magnitude at most `val_cap` stays within `2 * lin_cap * val_cap`.
pub proof fn lemma_row_bound(p: int, q: int, x: int, y: int, lin_cap: int, val_cap: int)
    requires
        0 <= lin_cap,
        0 <= val_cap,
        -lin_cap <= p <= lin_cap,
        -lin_cap <= q <= lin_cap,
        -val_cap <= x <= val_cap,
        -val_cap <= y <= val_cap,
    ensures
        -(lin_cap * val_cap) <= p * x <= lin_cap * val_cap,
        -(lin_cap * val_cap) <= q * y <= lin_cap * val_cap,
{
    assert(-(lin_cap * val_cap) <= p * x <= lin_cap * val_cap) by (nonlinear_arith)
        requires
            0 <= lin_cap,
            0 <= val_cap,
            -lin_cap <= p <= lin_cap,
            -val_cap <= x <= val_cap;
    assert(-(lin_cap * val_cap) <= q * y <= lin_cap * val_cap) by (nonlinear_arith)
        requires
            0 <= lin_cap,
            0 <= val_cap,
            -lin_cap <= q <= lin_cap,
            -val_cap <= y <= val_cap;
}

/// If `|n| <= bound` then `|div_trunc(n, d)| <= bound` for `d >= 1`.
pub proof fn lemma_div_trunc_bound(n: int, bound: int, d: int)
    requires
        0 < d,
        0 <= bound,
        -bound <= n <= bound,
    ensures
        -bound <= div_trunc(n, d) <= bound,
{
    if n >= 0 {
        vstd::arithmetic::div_mod::lemma_div_nonincreasing(n, d);
        vstd::arithmetic::div_mod::lemma_div_pos_is_pos(n, d);
    } else {
        vstd::arithmetic::div_mod::lemma_div_nonincreasing(-n, d);
        vstd::arithmetic::div_mod::lemma_div_pos_is_pos(-n, d);
    }
}

/// If `|n| <= d * cap` then `|div_trunc(n, d)| <= cap`.
pub proof fn lemma_div_trunc_scale_down(n: int, d: int, cap: int)
    requires
        0 < d,
        0 <= cap,
        -(d * cap) <= n <= d * cap,
    ensures
        -cap <= div_trunc(n, d) <= cap,
{
    if n >= 0 {
        vstd::arithmetic::div_mod::lemma_div_is_ordered(n, d * cap, d);
        vstd::arithmetic::div_mod::lemma_div_multiples_vanish(cap, d);
        vstd::arithmetic::div_mod::lemma_div_pos_is_pos(n, d);
    } else {
        vstd::arithmetic::div_mod::lemma_div_is_ordered(-n, d * cap, d);
        vstd::arithmetic::div_mod::lemma_div_multiples_vanish(cap, d);
        vstd::arithmetic::div_mod::lemma_div_pos_is_pos(-n, d);
    }
}

} // verus!
