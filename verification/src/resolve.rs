use vstd::prelude::*;
use crate::geom::{
    Vec2, within, within_radius, div_trunc, div_trunc_i64, lemma_div_trunc_exact,
    WORLD_LIMIT, VIEW_LIMIT,
};
use crate::anim::{
    Mat3, ANGLE_TURN, TRIG_ONE, cos_wave_spec, sin_wave_spec, cos_wave, sin_wave,
    lemma_div_trunc_bound, lemma_row_bound,
};
use crate::camera::SCREEN_LIMIT;
use crate::game::{Game, Crab, Item, in_targets};
use vstd::arithmetic::div_mod::{
    lemma_div_is_ordered, lemma_div_pos_is_pos, lemma_div_multiples_vanish,
};
use vstd::arithmetic::mul::lemma_mul_inequality;

verus! {

/// The vertical idle-bob offset: the absolute cosine of the animation
/// phase, scaled by the configured jump height.
pub open spec fn bob_spec(anim: int, jump_height: int) -> int {
    let c = cos_wave_spec(anim);
    (if c < 0 {
        -c
    } else {
        c
    }) * jump_height / (TRIG_ONE as int)
}

impl Game {
    /// The agent's world transform: a translation to its world position
    /// lifted by the idle-bob, and, while it moves along an edge, a tilt by
    /// the sine of the animation phase scaled by the configured amplitude.
    pub open spec fn crab_matrix_spec(self, crab: Crab) -> Mat3 {
        let pos = self.roads.world_pos_spec(crab.position);
        let bob = bob_spec(crab.animation_time as int, self.config.jump_height as int);
        match crab.position.to {
            Some(_) => {
                let tilt = div_trunc(
                    sin_wave_spec(crab.animation_time as int)
                        * (self.config.jump_rotation_amplitude as int),
                    TRIG_ONE as int,
                );
                let phase = tilt % (ANGLE_TURN as int);
                Mat3 {
                    a: cos_wave_spec(phase) as i64,
                    b: (-sin_wave_spec(phase)) as i64,
                    c: sin_wave_spec(phase) as i64,
                    d: cos_wave_spec(phase) as i64,
                    tx: pos.x,
                    ty: (pos.y + bob) as i64,
                }
            },
            None => Mat3 {
                a: TRIG_ONE,
                b: 0,
                c: 0,
                d: TRIG_ONE,
                tx: pos.x,
                ty: (pos.y + bob) as i64,
            },
        }
    }

    /// The transform of a hand attach point: the agent's transform followed
    /// by a translation to the fixed local offset.
    pub open spec fn hand_matrix_spec(self, crab: Crab, hand: Vec2) -> Mat3 {
        let m = self.crab_matrix_spec(crab);
        Mat3 {
            a: m.a,
            b: m.b,
            c: m.c,
            d: m.d,
            tx: (div_trunc(m.a * hand.x + m.b * hand.y, TRIG_ONE as int) + m.tx) as i64,
            ty: (div_trunc(m.c * hand.x + m.d * hand.y, TRIG_ONE as int) + m.ty) as i64,
        }
    }

    /// The world point of a hand attach offset.
    pub open spec fn hand_point_spec(self, crab: Crab, hand: Vec2) -> Vec2 {
        let m = self.hand_matrix_spec(crab, hand);
        Vec2 { x: m.tx, y: m.ty }
    }

    pub fn crab_matrix(&self, crab: &Crab) -> (r: Mat3)
        requires
            self.wf(),
            crab.wf(self.roads.n_nodes(), self.n_item_types as int, self.crab_weights@.len() as int),
        ensures
            r == self.crab_matrix_spec(*crab),
            -TRIG_ONE <= r.a <= TRIG_ONE,
            -TRIG_ONE <= r.b <= TRIG_ONE,
            -TRIG_ONE <= r.c <= TRIG_ONE,
            -TRIG_ONE <= r.d <= TRIG_ONE,
            r.wf(WORLD_LIMIT as int),
    {
        let pos = self.roads.world_pos(&crab.position);
        let c = cos_wave(crab.animation_time);
        let ab: i64 = if c < 0 {
            -c
        } else {
            c
        };
        proof {
            assert(0 <= ab as int * self.config.jump_height as int
                <= 0x100_0000_0000int) by (nonlinear_arith)
                requires
                    0 <= ab as int <= 1024,
                    0 <= self.config.jump_height as int <= 0x4000_0000int;
            lemma_mul_inequality(ab as int, TRIG_ONE as int, self.config.jump_height as int);
            lemma_div_is_ordered(
                ab as int * self.config.jump_height as int,
                TRIG_ONE as int * self.config.jump_height as int,
                TRIG_ONE as int,
            );
            lemma_div_multiples_vanish(self.config.jump_height as int, TRIG_ONE as int);
            lemma_div_pos_is_pos(ab as int * self.config.jump_height as int, TRIG_ONE as int);
        }
        let bob = (((ab as u64) * (self.config.jump_height as u64)) / (TRIG_ONE as u64)) as i64;
        let base = Vec2 { x: pos.x, y: pos.y + bob };
        match crab.position.to {
            Some(_) => {
                let s = sin_wave(crab.animation_time);
                proof {
                    assert(-0x40_0000 <= s as int * (self.config.jump_rotation_amplitude as int)
                        <= 0x40_0000) by (nonlinear_arith)
                        requires
                            -1024 <= s as int <= 1024,
                            0 <= self.config.jump_rotation_amplitude as int <= 4096;
                }
                let tilt = div_trunc_i64(s * self.config.jump_rotation_amplitude, TRIG_ONE);
                let rot = Mat3::rotation(tilt);
                let tr = Mat3::translate(base);
                let r = tr.compose(&rot);
                proof {
                    lemma_div_trunc_exact(rot.a as int, TRIG_ONE as int);
                    lemma_div_trunc_exact(rot.b as int, TRIG_ONE as int);
                    lemma_div_trunc_exact(rot.c as int, TRIG_ONE as int);
                    lemma_div_trunc_exact(rot.d as int, TRIG_ONE as int);
                    lemma_div_trunc_exact(0, TRIG_ONE as int);
                    assert(0int * rot.a as int == 0 && 0int * rot.b as int == 0
                        && 0int * rot.c as int == 0 && 0int * rot.d as int == 0
                        && TRIG_ONE as int * 0int == 0) by (nonlinear_arith);
                }
                r
            },
            None => Mat3::translate(base),
        }
    }

    pub fn crab_matrix_left_hand(&self, crab: &Crab) -> (r: Mat3)
        requires
            self.wf(),
            crab.wf(self.roads.n_nodes(), self.n_item_types as int, self.crab_weights@.len() as int),
        ensures
            r == self.hand_matrix_spec(*crab, self.config.crab_left_hand_pos),
            r.wf(2 * WORLD_LIMIT as int),
    {
        let m = self.crab_matrix(crab);
        let hand = self.config.crab_left_hand_pos;
        let r = m.compose(&Mat3::translate(hand));
        proof {
            lemma_hand_compose(m, hand);
            lemma_row_bound(m.a as int, m.b as int, hand.x as int, hand.y as int,
                TRIG_ONE as int, 0x10_0000int);
            lemma_row_bound(m.c as int, m.d as int, hand.x as int, hand.y as int,
                TRIG_ONE as int, 0x10_0000int);
            lemma_div_trunc_bound(m.a as int * hand.x + m.b as int * hand.y,
                0x8000_0000int, TRIG_ONE as int);
            lemma_div_trunc_bound(m.c as int * hand.x + m.d as int * hand.y,
                0x8000_0000int, TRIG_ONE as int);
        }
        r
    }

    pub fn crab_matrix_right_hand(&self, crab: &Crab) -> (r: Mat3)
        requires
            self.wf(),
            crab.wf(self.roads.n_nodes(), self.n_item_types as int, self.crab_weights@.len() as int),
        ensures
            r == self.hand_matrix_spec(*crab, self.config.crab_right_hand_pos),
            r.wf(2 * WORLD_LIMIT as int),
    {
        let m = self.crab_matrix(crab);
        let hand = self.config.crab_right_hand_pos;
        let r = m.compose(&Mat3::translate(hand));
        proof {
            lemma_hand_compose(m, hand);
            lemma_row_bound(m.a as int, m.b as int, hand.x as int, hand.y as int,
                TRIG_ONE as int, 0x10_0000int);
            lemma_row_bound(m.c as int, m.d as int, hand.x as int, hand.y as int,
                TRIG_ONE as int, 0x10_0000int);
            lemma_div_trunc_bound(m.a as int * hand.x + m.b as int * hand.y,
                0x8000_0000int, TRIG_ONE as int);
            lemma_div_trunc_bound(m.c as int * hand.x + m.d as int * hand.y,
                0x8000_0000int, TRIG_ONE as int);
        }
        r
    }

    /// A ground item the click takes: its kind is in the target set and its
    /// slot lies within the click radius of the cursor's world point.
    pub open spec fn ground_hit(self, cw: Vec2, i: int) -> bool {
        let it = self.items@[i];
        &&& self.to_find@.contains(it.type_index)
        &&& within(
                self.item_positions@[it.pos_index as int],
                cw,
                self.config.click_radius as int,
            )
    }

    /// What the click does to one agent: the left hand is cleared when its
    /// attach point is within the click radius and it holds a target kind;
    /// otherwise the right hand under the same rule; at most one hand per
    /// agent, the left taking precedence.
    pub open spec fn click_crab_spec(self, cw: Vec2, c: Crab) -> Crab {
        let lp = self.hand_point_spec(c, self.config.crab_left_hand_pos);
        let rp = self.hand_point_spec(c, self.config.crab_right_hand_pos);
        let radius = self.config.click_radius as int;
        if within(lp, cw, radius) && in_targets(self.to_find@, c.left_hand) {
            Crab {
                type_index: c.type_index,
                position: c.position,
                animation_time: c.animation_time,
                left_hand: None,
                right_hand: c.right_hand,
            }
        } else if within(rp, cw, radius) && in_targets(self.to_find@, c.right_hand) {
            Crab {
                type_index: c.type_index,
                position: c.position,
                animation_time: c.animation_time,
                left_hand: c.left_hand,
                right_hand: None,
            }
        } else {
            c
        }
    }

    /// What a resolved click does to the ground items: among those whose
    /// kind is in the target set and whose slot is within the click radius
    /// of the cursor's world point `cw`, the first in storage order is
    /// removed; with no such item they stay as they are.
    pub open spec fn click_items_ok(self, new_items: Seq<Item>, cw: Vec2) -> bool {
        if exists|i: int| 0 <= i < self.items@.len() && self.ground_hit(cw, i) {
            exists|i: int|
                {
                    &&& 0 <= i < self.items@.len()
                    &&& self.ground_hit(cw, i)
                    &&& forall|j: int| 0 <= j < i ==> !self.ground_hit(cw, j)
                    &&& new_items == self.items@.remove(i)
                }
        } else {
            new_items == self.items@
        }
    }

    /// What a resolved click does to the agents: each one independently has
    /// at most one hand cleared under the rule of `click_crab_spec`.
    pub open spec fn click_crabs_ok(self, new_crabs: Seq<Crab>, cw: Vec2) -> bool {
        &&& new_crabs.len() == self.crabs@.len()
        &&& forall|i: int| 0 <= i < self.crabs@.len()
                ==> new_crabs[i] == self.click_crab_spec(cw, #[trigger] self.crabs@[i])
    }

    /// The first ground item the click takes, in storage order.
    fn first_ground_hit(&self, cw: Vec2) -> (r: Option<usize>)
        requires
            self.wf(),
            cw.in_bounds(VIEW_LIMIT as int),
        ensures
            match r {
                Some(i) => {
                    &&& (i as int) < self.items@.len()
                    &&& self.ground_hit(cw, i as int)
                    &&& forall|j: int| 0 <= j < i as int ==> !self.ground_hit(cw, j)
                },
                None => forall|j: int| 0 <= j < self.items@.len() ==> !self.ground_hit(cw, j),
            },
    {
        let n = self.items.len();
        let mut i: usize = 0;
        while i < n
            invariant
                self.wf(),
                cw.in_bounds(VIEW_LIMIT as int),
                n == self.items@.len(),
                i <= n,
                forall|j: int| 0 <= j < i ==> !self.ground_hit(cw, j),
            decreases n - i,
        {
            let it = self.items[i];
            if self.can_take(it.type_index)
                && within_radius(self.item_positions[it.pos_index], cw, self.config.click_radius)
            {
                return Some(i);
            }
            i += 1;
        }
        None
    }

    /// Resolves a click at a screen position: among ground items whose kind
    /// is in the target set and whose slot is within the click radius, the
    /// first in storage order is removed; then every agent, scanned in
    /// reverse order, has at most one hand cleared under the rule of
    /// `click_crab_spec`. Both a ground item and hands may be taken by one
    /// click.
    pub fn click(&mut self, pos: Vec2)
        requires
            old(self).wf(),
            pos.in_bounds(SCREEN_LIMIT as int),
        ensures
            final(self).wf(),
            final(self).same_setting(*old(self)),
            ({
                let cw = old(self).camera.screen_to_world_spec(old(self).framebuffer_size, pos);
                &&& old(self).click_items_ok(final(self).items@, cw)
                &&& old(self).click_crabs_ok(final(self).crabs@, cw)
            }),
    {
        let cw = self.camera.screen_to_world(self.framebuffer_size, pos);
        match self.first_ground_hit(cw) {
            Some(i) => {
                self.items.remove(i);
                proof {
                    assert forall|a: int, b: int| 0 <= a < b < self.items@.len()
                        implies self.items@[a].pos_index != self.items@[b].pos_index by {
                        assert(self.items@[a] == if a < i as int {
                            old(self).items@[a]
                        } else {
                            old(self).items@[a + 1]
                        });
                        assert(self.items@[b] == if b < i as int {
                            old(self).items@[b]
                        } else {
                            old(self).items@[b + 1]
                        });
                    }
                    assert forall|a: int| 0 <= a < self.items@.len()
                        implies (#[trigger] self.items@[a]).wf(
                            self.n_item_types as int,
                            self.item_positions@.len() as int,
                        ) by {
                        assert(self.items@[a] == if a < i as int {
                            old(self).items@[a]
                        } else {
                            old(self).items@[a + 1]
                        });
                    }
                }
            },
            None => {},
        }
        let ghost ground_done = self.items@;
        let n = self.crabs.len();
        let mut i: usize = n;
        while i > 0
            invariant
                self.wf(),
                i <= n,
                n == self.crabs@.len(),
                n == old(self).crabs@.len(),
                self.config == old(self).config,
                self.roads == old(self).roads,
                self.map_size == old(self).map_size,
                self.item_positions == old(self).item_positions,
                self.n_item_types == old(self).n_item_types,
                self.crab_weights == old(self).crab_weights,
                self.framebuffer_size == old(self).framebuffer_size,
                self.camera == old(self).camera,
                self.drag == old(self).drag,
                self.editor == old(self).editor,
                self.current_time == old(self).current_time,
                self.to_find == old(self).to_find,
                self.items@ == ground_done,
                cw.in_bounds(VIEW_LIMIT as int),
                cw == old(self).camera.screen_to_world_spec(old(self).framebuffer_size, pos),
                forall|k: int| 0 <= k < i ==> self.crabs@[k] == old(self).crabs@[k],
                forall|k: int| i <= k < n
                    ==> self.crabs@[k] == old(self).click_crab_spec(cw, old(self).crabs@[k]),
            decreases i,
        {
            i -= 1;
            let crab = self.crabs[i];
            let lm = self.crab_matrix_left_hand(&crab);
            let lp = lm.origin();
            let l_hit = within_radius(lp, cw, self.config.click_radius);
            let l_take = match crab.left_hand {
                Some(k) => self.can_take(k),
                None => false,
            };
            if l_hit && l_take {
                self.crabs[i] = Crab {
                    type_index: crab.type_index,
                    position: crab.position,
                    animation_time: crab.animation_time,
                    left_hand: None,
                    right_hand: crab.right_hand,
                };
            } else {
                let rm = self.crab_matrix_right_hand(&crab);
                let rp = rm.origin();
                let r_hit = within_radius(rp, cw, self.config.click_radius);
                let r_take = match crab.right_hand {
                    Some(k) => self.can_take(k),
                    None => false,
                };
                if r_hit && r_take {
                    self.crabs[i] = Crab {
                        type_index: crab.type_index,
                        position: crab.position,
                        animation_time: crab.animation_time,
                        left_hand: crab.left_hand,
                        right_hand: None,
                    };
                }
            }
        }
    }
}

/// Composing an agent transform with a hand translation keeps the linear
/// part and shifts the translation by the rotated hand offset, exactly.
proof fn lemma_hand_compose(m: Mat3, hand: Vec2)
    requires
        -TRIG_ONE <= m.a <= TRIG_ONE,
        -TRIG_ONE <= m.b <= TRIG_ONE,
        -TRIG_ONE <= m.c <= TRIG_ONE,
        -TRIG_ONE <= m.d <= TRIG_ONE,
    ensures
        div_trunc(m.a as int * TRIG_ONE as int + m.b as int * 0, TRIG_ONE as int) == m.a as int,
        div_trunc(m.a as int * 0 + m.b as int * TRIG_ONE as int, TRIG_ONE as int) == m.b as int,
        div_trunc(m.c as int * TRIG_ONE as int + m.d as int * 0, TRIG_ONE as int) == m.c as int,
        div_trunc(m.c as int * 0 + m.d as int * TRIG_ONE as int, TRIG_ONE as int) == m.d as int,
{
    lemma_div_trunc_exact(m.a as int, TRIG_ONE as int);
    lemma_div_trunc_exact(m.b as int, TRIG_ONE as int);
    lemma_div_trunc_exact(m.c as int, TRIG_ONE as int);
    lemma_div_trunc_exact(m.d as int, TRIG_ONE as int);
    assert(m.a as int * TRIG_ONE as int == TRIG_ONE as int * m.a as int) by (nonlinear_arith);
    assert(m.b as int * TRIG_ONE as int == TRIG_ONE as int * m.b as int) by (nonlinear_arith);
    assert(m.c as int * TRIG_ONE as int == TRIG_ONE as int * m.c as int) by (nonlinear_arith);
    assert(m.d as int * TRIG_ONE as int == TRIG_ONE as int * m.d as int) by (nonlinear_arith);
}

} // verus!
