use vstd::prelude::*;
use crate::geom::{Vec2, div_trunc, div_trunc_i64, clamp_i64, COORD_LIMIT, VIEW_LIMIT};
use crate::anim::lemma_div_trunc_bound;
use vstd::arithmetic::div_mod::{
    lemma_div_is_ordered, lemma_div_multiples_vanish, lemma_div_denominator,
    lemma_fundamental_div_mod, lemma_mod_bound, lemma_div_pos_is_pos,
};
use vstd::arithmetic::mul::lemma_mul_inequality;

verus! {

/// Bound on a screen coordinate, in window pixels.
pub const SCREEN_LIMIT: i64 = 0x10_0000;

/// Bound on a field of view.
pub const FOV_LIMIT: i64 = 0x8000_0000;

/// The camera center is kept within this magnitude between frames; the
/// per-frame clamp pulls it back inside the map.
pub const CENTER_LIMIT: i64 = 0x100_0000_0000;

/// `v` clamped into `[lo, hi]`.
pub open spec fn clamp_val(v: int, lo: int, hi: int) -> int {
    if v < lo {
        lo
    } else if v > hi {
        hi
    } else {
        v
    }
}

/// The camera: a world-space center and a field of view, the height of the
/// visible world rectangle. The visible width is `fov * aspect`, where the
/// aspect comes from the screen size supplied each frame.
pub struct Camera {
    pub center: Vec2,
    pub fov: i64,
}

impl Camera {
    pub open spec fn wf(self) -> bool {
        &&& self.center.in_bounds(CENTER_LIMIT as int)
        &&& 1 <= self.fov <= FOV_LIMIT
    }

    /// A valid per-frame screen size.
    pub open spec fn screen_wf(size: Vec2) -> bool {
        &&& 1 <= size.x <= SCREEN_LIMIT
        &&& 1 <= size.y <= SCREEN_LIMIT
    }

    /// The inverse viewport transform: the world point under a screen
    /// point, with `fov` world units spanning the screen height. Screen
    /// axes are taken with the same orientation as world axes; a caller
    /// whose window flips the vertical axis flips it before handing
    /// positions in.
    pub open spec fn screen_to_world_spec(self, size: Vec2, pos: Vec2) -> Vec2 {
        Vec2 {
            x: (self.center.x + div_trunc((pos.x - size.x as int / 2) * self.fov, size.y as int)) as i64,
            y: (self.center.y + div_trunc((pos.y - size.y as int / 2) * self.fov, size.y as int)) as i64,
        }
    }

    pub fn screen_to_world(&self, size: Vec2, pos: Vec2) -> (r: Vec2)
        requires
            self.wf(),
            Self::screen_wf(size),
            pos.in_bounds(SCREEN_LIMIT as int),
        ensures
            r == self.screen_to_world_spec(size, pos),
            r.in_bounds(VIEW_LIMIT as int),
    {
        let hx = ((size.x as u64) / 2) as i64;
        let hy = ((size.y as u64) / 2) as i64;
        proof {
            lemma_div_pos_is_pos(size.x as int, 2);
            lemma_div_pos_is_pos(size.y as int, 2);
            lemma_div_is_ordered(size.x as int, SCREEN_LIMIT as int, 2);
            lemma_div_is_ordered(size.y as int, SCREEN_LIMIT as int, 2);
            let dx = pos.x as int - hx as int;
            let dy = pos.y as int - hy as int;
            assert(-0x20_0000_0000_0000 <= dx * self.fov as int <= 0x20_0000_0000_0000)
                by (nonlinear_arith)
                requires
                    -0x20_0000 <= dx <= 0x20_0000,
                    0 <= self.fov as int <= 0x8000_0000int;
            assert(-0x20_0000_0000_0000 <= dy * self.fov as int <= 0x20_0000_0000_0000)
                by (nonlinear_arith)
                requires
                    -0x20_0000 <= dy <= 0x20_0000,
                    0 <= self.fov as int <= 0x8000_0000int;
        }
        let wx = div_trunc_i64((pos.x - hx) * self.fov, size.y);
        let wy = div_trunc_i64((pos.y - hy) * self.fov, size.y);
        Vec2 { x: self.center.x + wx, y: self.center.y + wy }
    }

    /// Moves the center by the world-space offset between two screen
    /// points, as a drag does; the center is kept within `CENTER_LIMIT`.
    pub fn pan(&mut self, from: Vec2, to: Vec2, size: Vec2)
        requires
            old(self).wf(),
            Self::screen_wf(size),
            from.in_bounds(SCREEN_LIMIT as int),
            to.in_bounds(SCREEN_LIMIT as int),
        ensures
            final(self).wf(),
            final(self).fov == old(self).fov,
            ({
                let wf2 = old(self).screen_to_world_spec(size, from);
                let wt = old(self).screen_to_world_spec(size, to);
                &&& final(self).center.x == clamp_val(
                        old(self).center.x + wf2.x - wt.x,
                        -CENTER_LIMIT as int,
                        CENTER_LIMIT as int,
                    )
                &&& final(self).center.y == clamp_val(
                        old(self).center.y + wf2.y - wt.y,
                        -CENTER_LIMIT as int,
                        CENTER_LIMIT as int,
                    )
            }),
    {
        let wf2 = self.screen_to_world(size, from);
        let wt = self.screen_to_world(size, to);
        let cx = clamp_i64(self.center.x + wf2.x - wt.x, -CENTER_LIMIT, CENTER_LIMIT);
        let cy = clamp_i64(self.center.y + wf2.y - wt.y, -CENTER_LIMIT, CENTER_LIMIT);
        self.center = Vec2 { x: cx, y: cy };
    }

    /// One zoom step: the field of view scaled by `den/num` (inward) or
    /// `num/den` (outward), then clamped into `[min_fov, max_fov]`.
    pub open spec fn zoom_step_spec(
        fov: int,
        num: int,
        den: int,
        min_fov: int,
        max_fov: int,
        inward: bool,
    ) -> int {
        let f = if inward {
            fov * den / num
        } else {
            fov * num / den
        };
        clamp_val(f, min_fov, max_fov)
    }

    /// The field of view after `steps` zoom steps.
    pub open spec fn zoom_fov_spec(
        fov: int,
        num: int,
        den: int,
        min_fov: int,
        max_fov: int,
        steps: nat,
        inward: bool,
    ) -> int
        decreases steps,
    {
        if steps == 0 {
            fov
        } else {
            Self::zoom_fov_spec(
                Self::zoom_step_spec(fov, num, den, min_fov, max_fov, inward),
                num,
                den,
                min_fov,
                max_fov,
                (steps - 1) as nat,
                inward,
            )
        }
    }

    /// Wheel zoom: `delta` positive zooms in. The field of view is scaled
    /// step by step and clamped; then the center shifts so that the world
    /// point under the cursor before the zoom stays under it after.
    pub fn zoom(
        &mut self,
        delta: i64,
        num: i64,
        den: i64,
        min_fov: i64,
        max_fov: i64,
        cursor: Vec2,
        size: Vec2,
    )
        requires
            old(self).wf(),
            Self::screen_wf(size),
            cursor.in_bounds(SCREEN_LIMIT as int),
            i64::MIN < delta,
            1 <= den <= num <= 0x10_0000,
            1 <= min_fov <= max_fov <= FOV_LIMIT,
        ensures
            final(self).wf(),
            final(self).fov as int == Self::zoom_fov_spec(
                old(self).fov as int,
                num as int,
                den as int,
                min_fov as int,
                max_fov as int,
                (if delta >= 0 { delta as int } else { -(delta as int) }) as nat,
                delta >= 0,
            ),
            ({
                let pw = old(self).screen_to_world_spec(size, cursor);
                let nw = (Camera { center: old(self).center, fov: final(self).fov })
                    .screen_to_world_spec(size, cursor);
                &&& final(self).center.x == clamp_val(
                        old(self).center.x + pw.x - nw.x,
                        -CENTER_LIMIT as int,
                        CENTER_LIMIT as int,
                    )
                &&& final(self).center.y == clamp_val(
                        old(self).center.y + pw.y - nw.y,
                        -CENTER_LIMIT as int,
                        CENTER_LIMIT as int,
                    )
                &&& (-CENTER_LIMIT as int <= old(self).center.x + pw.x - nw.x <= CENTER_LIMIT as int
                        && -CENTER_LIMIT as int <= old(self).center.y + pw.y - nw.y
                            <= CENTER_LIMIT as int)
                    ==> final(self).screen_to_world_spec(size, cursor)
                        == old(self).screen_to_world_spec(size, cursor)
            }),
    {
        let prev_world = self.screen_to_world(size, cursor);
        let inward = delta >= 0;
        let steps: u64 = if delta >= 0 {
            delta as u64
        } else {
            (-delta) as u64
        };
        let ghost fov0 = self.fov as int;
        let mut k: u64 = 0;
        while k < steps
            invariant
                k <= steps,
                self.center == old(self).center,
                self.center.in_bounds(CENTER_LIMIT as int),
                1 <= self.fov,
                self.fov <= FOV_LIMIT,
                1 <= den <= num <= 0x10_0000,
                1 <= min_fov <= max_fov <= FOV_LIMIT,
                Self::zoom_fov_spec(fov0, num as int, den as int, min_fov as int,
                    max_fov as int, steps as nat, inward)
                    == Self::zoom_fov_spec(self.fov as int, num as int, den as int,
                        min_fov as int, max_fov as int, (steps - k) as nat, inward),
            decreases steps - k,
        {
            proof {
                assert(1 <= self.fov as int * den as int <= 0x8_0000_0000_0000
                    && 1 <= self.fov as int * num as int <= 0x8_0000_0000_0000)
                    by (nonlinear_arith)
                    requires
                        1 <= self.fov as int <= 0x8000_0000int,
                        1 <= den as int <= 0x10_0000int,
                        1 <= num as int <= 0x10_0000int;
            }
            let scaled: i64 = if inward {
                (((self.fov * den) as u64) / (num as u64)) as i64
            } else {
                (((self.fov * num) as u64) / (den as u64)) as i64
            };
            proof {
                if inward {
                    lemma_div_pos_is_pos(self.fov as int * den as int, num as int);
                    lemma_div_is_ordered(self.fov as int * den as int, 0x8_0000_0000_0000int,
                        num as int);
                } else {
                    lemma_div_pos_is_pos(self.fov as int * num as int, den as int);
                    lemma_div_is_ordered(self.fov as int * num as int, 0x8_0000_0000_0000int,
                        den as int);
                }
            }
            let clamped = clamp_i64(scaled, min_fov, max_fov);
            self.fov = clamped;
            k += 1;
        }
        let new_world = self.screen_to_world(size, cursor);
        let cx = clamp_i64(self.center.x + prev_world.x - new_world.x, -CENTER_LIMIT,
            CENTER_LIMIT);
        let cy = clamp_i64(self.center.y + prev_world.y - new_world.y, -CENTER_LIMIT,
            CENTER_LIMIT);
        self.center = Vec2 { x: cx, y: cy };
        proof {
            let sy = size.y as int;
            let dxs = cursor.x as int - size.x as int / 2;
            let dys = cursor.y as int - sy / 2;
            let f1 = self.fov as int;
            lemma_div_pos_is_pos(size.x as int, 2);
            lemma_div_pos_is_pos(size.y as int, 2);
            vstd::arithmetic::div_mod::lemma_div_nonincreasing(size.x as int, 2);
            vstd::arithmetic::div_mod::lemma_div_nonincreasing(size.y as int, 2);
            assert(-0x20_0000_0000_0000 <= dxs * f1 <= 0x20_0000_0000_0000)
                by (nonlinear_arith)
                requires
                    -0x20_0000 <= dxs <= 0x20_0000,
                    0 <= f1 <= 0x8000_0000int;
            assert(-0x20_0000_0000_0000 <= dys * f1 <= 0x20_0000_0000_0000)
                by (nonlinear_arith)
                requires
                    -0x20_0000 <= dys <= 0x20_0000,
                    0 <= f1 <= 0x8000_0000int;
            lemma_div_trunc_bound(dxs * f1, 0x20_0000_0000_0000int, sy);
            lemma_div_trunc_bound(dys * f1, 0x20_0000_0000_0000int, sy);
        }
    }

    /// Half the visible width at this field of view and screen size.
    pub open spec fn half_width_spec(fov: int, size: Vec2) -> int {
        fov * size.x as int / (2 * size.y as int)
    }

    /// The visible rectangle lies inside the map rectangle, which is
    /// centered at the origin with extent `map_size`.
    pub open spec fn visible_within_map(self, map_size: Vec2, size: Vec2) -> bool {
        let vw = Self::half_width_spec(self.fov as int, size);
        let vh = self.fov as int / 2;
        &&& -(map_size.x as int / 2) <= self.center.x - vw
        &&& self.center.x + vw <= map_size.x as int / 2
        &&& -(map_size.y as int / 2) <= self.center.y - vh
        &&& self.center.y + vh <= map_size.y as int / 2
    }

    /// The field of view after the per-frame cap: the least of the old
    /// fov, the map height, and the map width scaled by the frame aspect,
    /// floored at one.
    pub open spec fn clamp_fov_spec(fov: int, map_size: Vec2, size: Vec2) -> int {
        let bound_x = map_size.x as int * size.y as int / size.x as int;
        let capped = if fov <= map_size.y as int && fov <= bound_x {
            fov
        } else if map_size.y as int <= bound_x {
            map_size.y as int
        } else {
            bound_x
        };
        if capped < 1 {
            1
        } else {
            capped
        }
    }

    /// The camera after the per-frame clamp: the capped field of view, and
    /// the center clamped componentwise into the slack box, forced to the
    /// map's center (zero) on an axis the view spans fully.
    pub open spec fn clamp_spec(cam: Camera, map_size: Vec2, size: Vec2) -> Camera {
        let fov = Self::clamp_fov_spec(cam.fov as int, map_size, size);
        let vw = Self::half_width_spec(fov, size);
        let vh = fov / 2;
        let slack_x = map_size.x as int / 2 - vw;
        let slack_y = map_size.y as int / 2 - vh;
        Camera {
            center: Vec2 {
                x: (if slack_x <= 0 {
                    0int
                } else {
                    clamp_val(cam.center.x as int, -slack_x, slack_x)
                }) as i64,
                y: (if slack_y <= 0 {
                    0int
                } else {
                    clamp_val(cam.center.y as int, -slack_y, slack_y)
                }) as i64,
            },
            fov: fov as i64,
        }
    }

    /// Per-frame clamp: the field of view is capped so the visible
    /// rectangle is no larger than the map (never below 1), and the center
    /// is clamped so that rectangle never leaves the map; where the map is
    /// thinner than one unit of view on an axis, the center is forced to
    /// the map's center there.
    pub fn clamp_camera(&mut self, map_size: Vec2, size: Vec2)
        requires
            old(self).wf(),
            Self::screen_wf(size),
            1 <= map_size.x <= 2 * COORD_LIMIT,
            1 <= map_size.y <= 2 * COORD_LIMIT,
        ensures
            final(self).wf(),
            *final(self) == Self::clamp_spec(*old(self), map_size, size),
            map_size.x as int * size.y as int / size.x as int >= 1 ==> final(self).visible_within_map(map_size, size),
    {
        proof {
            assert(1 <= map_size.x as int * size.y as int <= 0x8_0000_0000_0000int)
                by (nonlinear_arith)
                requires
                    1 <= map_size.x as int <= 0x8000_0000int,
                    1 <= size.y as int <= 0x10_0000int;
        }
        let bound_x: i64 = (((map_size.x * size.y) as u64) / (size.x as u64)) as i64;
        proof {
            lemma_div_is_ordered(map_size.x as int * size.y as int, 0x8_0000_0000_0000int,
                size.x as int);
            lemma_div_pos_is_pos(map_size.x as int * size.y as int, size.x as int);
        }
        let capped: i64 = if self.fov <= map_size.y && self.fov <= bound_x {
            self.fov
        } else if map_size.y <= bound_x {
            map_size.y
        } else {
            bound_x
        };
        let fov: i64 = if capped < 1 {
            1
        } else {
            capped
        };
        self.fov = fov;
        proof {
            assert(1 <= fov as int * size.x as int <= 0x8_0000_0000_0000int)
                by (nonlinear_arith)
                requires
                    1 <= fov as int <= 0x8000_0000int,
                    1 <= size.x as int <= 0x10_0000int;
        }
        let vw: i64 = (((fov * size.x) as u64) / ((2 * size.y) as u64)) as i64;
        let vh: i64 = ((fov as u64) / 2) as i64;
        proof {
            lemma_div_pos_is_pos(fov as int * size.x as int, 2 * size.y as int);
            lemma_div_is_ordered(fov as int * size.x as int, 0x8_0000_0000_0000int,
                2 * size.y as int);
            lemma_div_pos_is_pos(fov as int, 2);
            lemma_div_is_ordered(fov as int, FOV_LIMIT as int, 2);
        }
        let half_map_x: i64 = ((map_size.x as u64) / 2) as i64;
        let half_map_y: i64 = ((map_size.y as u64) / 2) as i64;
        proof {
            lemma_div_pos_is_pos(map_size.x as int, 2);
            lemma_div_pos_is_pos(map_size.y as int, 2);
            lemma_div_is_ordered(map_size.x as int, 2 * COORD_LIMIT as int, 2);
            lemma_div_is_ordered(map_size.y as int, 2 * COORD_LIMIT as int, 2);
            // The y extent: fov <= map_size.y gives vh <= map_size.y / 2.
            lemma_div_is_ordered(fov as int, map_size.y as int, 2);
            // The x extent: fov <= bound_x gives vw <= map_size.x / 2.
            if fov <= bound_x {
                lemma_half_width_within(fov as int, map_size.x as int, size.x as int,
                    size.y as int);
            }
        }
        let slack_x = half_map_x - vw;
        let slack_y = half_map_y - vh;
        let cx: i64 = if slack_x <= 0 {
            0
        } else {
            clamp_i64(self.center.x, -slack_x, slack_x)
        };
        let cy: i64 = if slack_y <= 0 {
            0
        } else {
            clamp_i64(self.center.y, -slack_y, slack_y)
        };
        self.center = Vec2 { x: cx, y: cy };
    }
}

/// The per-frame clamp is idempotent: clamping an already clamped camera,
/// with the same map and screen size, changes nothing.
pub proof fn lemma_clamp_camera_idempotent(cam: Camera, map_size: Vec2, size: Vec2)
    requires
        cam.wf(),
        Camera::screen_wf(size),
        1 <= map_size.x <= 2 * COORD_LIMIT,
        1 <= map_size.y <= 2 * COORD_LIMIT,
    ensures
        Camera::clamp_spec(Camera::clamp_spec(cam, map_size, size), map_size, size)
            == Camera::clamp_spec(cam, map_size, size),
{
    assert(0 <= map_size.x as int * size.y as int) by (nonlinear_arith)
        requires 0 <= map_size.x as int, 0 <= size.y as int;
    lemma_div_pos_is_pos(map_size.x as int * size.y as int, size.x as int);
    let bx = map_size.x as int * size.y as int / size.x as int;
    let f1 = Camera::clamp_fov_spec(cam.fov as int, map_size, size);
    assert(1 <= f1 <= FOV_LIMIT);
    let c1 = Camera::clamp_spec(cam, map_size, size);
    assert(c1.fov as int == f1);
    assert(Camera::clamp_fov_spec(f1, map_size, size) == f1);
    let vw = Camera::half_width_spec(f1, size);
    let vh = f1 / 2;
    let slack_x = map_size.x as int / 2 - vw;
    let slack_y = map_size.y as int / 2 - vh;
    lemma_div_pos_is_pos(map_size.x as int, 2);
    lemma_div_pos_is_pos(map_size.y as int, 2);
    lemma_div_is_ordered(map_size.x as int, 2 * COORD_LIMIT as int, 2);
    lemma_div_is_ordered(map_size.y as int, 2 * COORD_LIMIT as int, 2);
    if slack_x > 0 {
        assert(c1.center.x as int == clamp_val(cam.center.x as int, -slack_x, slack_x));
    }
    if slack_y > 0 {
        assert(c1.center.y as int == clamp_val(cam.center.y as int, -slack_y, slack_y));
    }
    assert(Camera::clamp_spec(c1, map_size, size) == c1);
}

/// If `fov * sx <= map_x * sy` then half the visible width is at most half
/// the map width.
proof fn lemma_half_width_within(fov: int, map_x: int, sx: int, sy: int)
    requires
        1 <= sx,
        1 <= sy,
        1 <= map_x,
        0 <= fov,
        fov <= map_x * sy / sx,
    ensures
        fov * sx / (2 * sy) <= map_x / 2,
{
    let bound = map_x * sy / sx;
    lemma_fundamental_div_mod(map_x * sy, sx);
    lemma_mod_bound(map_x * sy, sx);
    assert(bound * sx <= map_x * sy) by (nonlinear_arith)
        requires
            map_x * sy == sx * bound + (map_x * sy) % sx,
            0 <= (map_x * sy) % sx,
            bound * sx == sx * bound;
    lemma_mul_inequality(fov, bound, sx);
    assert(fov * sx <= map_x * sy);
    lemma_div_is_ordered(fov * sx, map_x * sy, 2 * sy);
    lemma_div_denominator(map_x * sy, sy, 2);
    assert(map_x * sy / sy == map_x) by {
        lemma_div_multiples_vanish(map_x, sy);
        assert(sy * map_x == map_x * sy) by (nonlinear_arith);
    }
    assert(map_x * sy / (sy * 2) == map_x / 2);
    assert(sy * 2 == 2 * sy);
}

} // verus!
