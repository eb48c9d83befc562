use vstd::prelude::*;
use crate::geom::{Vec2, within, within_radius, dist_sq, sqrt_floor, COORD_LIMIT, VIEW_LIMIT};
use crate::roads::{Roads, Position};
use crate::config::DT_LIMIT;
use crate::game::{Game, Crab};
use crate::gesture::{Drag, elapsed_spec};
use crate::anim::{ANGLE_TURN, normalize_angle};
use crate::rng::rand_below;
use vstd::arithmetic::div_mod::{
    lemma_div_is_ordered, lemma_div_pos_is_pos, lemma_div_multiples_vanish,
};

verus! {

/// The lookahead point: the agent's own interpolation with the travelled
/// distance advanced by the collision-check distance; it may lie past the
/// edge's end, which is accepted, as it only serves proximity tests.
pub open spec fn lookahead_spec(roads: Roads, c: Crab, ccd: int) -> Vec2 {
    roads.world_pos_spec(
        Position {
            from: c.position.from,
            to: c.position.to,
            distance: (c.position.distance + ccd) as i64,
        },
    )
}

/// How many of the first `n` agents other than `excl` stand within the
/// collision radius of the point `front`.
pub open spec fn nearby_count(
    crabs: Seq<Crab>,
    excl: int,
    front: Vec2,
    roads: Roads,
    radius: int,
    n: int,
) -> int
    decreases n,
{
    if n <= 0 {
        0
    } else {
        nearby_count(crabs, excl, front, roads, radius, n - 1) + if n - 1 != excl && within(
            front,
            roads.world_pos_spec(crabs[n - 1].position),
            radius,
        ) {
            1int
        } else {
            0int
        }
    }
}

/// The distance advanced in one tick with `k` nearby agents: the base
/// advance divided by the slow-down factor `num/den` once per agent,
/// flooring at each step.
pub open spec fn advance_slowed(base: int, num: int, den: int, k: nat) -> int
    decreases k,
{
    if k == 0 {
        base
    } else {
        advance_slowed(base, num, den, (k - 1) as nat) * den / num
    }
}

/// One slow-down step never increases a non-negative advance, for a factor
/// of at least one.
proof fn lemma_advance_step(a: int, num: int, den: int)
    requires
        0 <= a,
        1 <= den <= num,
    ensures
        0 <= a * den / num <= a,
{
    assert(0 <= a * den && a * den <= a * num) by (nonlinear_arith)
        requires 0 <= a, 1 <= den <= num;
    lemma_div_is_ordered(a * den, a * num, num);
    lemma_div_multiples_vanish(a, num);
    assert(num * a == a * num) by (nonlinear_arith);
    lemma_div_pos_is_pos(a * den, num);
}

pub proof fn lemma_advance_bounds(base: int, num: int, den: int, k: nat)
    requires
        0 <= base,
        1 <= den <= num,
    ensures
        0 <= advance_slowed(base, num, den, k) <= base,
    decreases k,
{
    if k > 0 {
        lemma_advance_bounds(base, num, den, (k - 1) as nat);
        lemma_advance_step(advance_slowed(base, num, den, (k - 1) as nat), num, den);
    }
}

/// Adding a nearby agent never increases an agent's per-tick advance: with
/// a slow-down factor of at least one, the advance is non-increasing in the
/// number of agents within the collision radius of the lookahead point.
pub proof fn lemma_slow_down_monotone(base: int, num: int, den: int, k1: nat, k2: nat)
    requires
        0 <= base,
        1 <= den <= num,
        k1 <= k2,
    ensures
        advance_slowed(base, num, den, k2) <= advance_slowed(base, num, den, k1),
    decreases k2 - k1,
{
    if k2 > k1 {
        lemma_slow_down_monotone(base, num, den, k1, (k2 - 1) as nat);
        lemma_advance_bounds(base, num, den, (k2 - 1) as nat);
        lemma_advance_step(advance_slowed(base, num, den, (k2 - 1) as nat), num, den);
    }
}

proof fn lemma_nearby_count_nonneg(
    crabs: Seq<Crab>,
    excl: int,
    front: Vec2,
    roads: Roads,
    radius: int,
    n: int,
)
    ensures
        0 <= nearby_count(crabs, excl, front, roads, radius, n),
    decreases n,
{
    if n > 0 {
        lemma_nearby_count_nonneg(crabs, excl, front, roads, radius, n - 1);
    }
}

/// The count over the first `n` agents reads only those agents.
proof fn lemma_nearby_count_prefix(
    c1: Seq<Crab>,
    c2: Seq<Crab>,
    excl: int,
    front: Vec2,
    roads: Roads,
    radius: int,
    n: int,
)
    requires
        n <= c1.len(),
        n <= c2.len(),
        forall|j: int| 0 <= j < n ==> c1[j] == c2[j],
    ensures
        nearby_count(c1, excl, front, roads, radius, n)
            == nearby_count(c2, excl, front, roads, radius, n),
    decreases n,
{
    if n > 0 {
        lemma_nearby_count_prefix(c1, c2, excl, front, roads, radius, n - 1);
    }
}

/// Putting one more agent into the pre-tick snapshot never increases an
/// existing agent's per-tick advance: the newcomer either is outside the
/// collision radius of the agent's lookahead point and changes nothing, or
/// compounds the slow-down once more. `g2` is the same game with one agent
/// appended.
pub proof fn lemma_extra_agent_never_speeds_up(g: Game, g2: Game, extra: Crab, i: int, dt: int)
    requires
        g.wf(),
        0 <= i < g.crabs@.len(),
        0 <= dt,
        g2.crabs@ == g.crabs@.push(extra),
        g2.config == g.config,
        g2.roads == g.roads,
    ensures
        advance_of(g2, i, dt) <= advance_of(g, i, dt),
{
    let c = g.crabs@[i];
    match c.position.to {
        None => {},
        Some(_) => {
            let front = lookahead_spec(g.roads, c, g.config.collision_check_distance as int);
            let radius = g.config.collision_check_radius as int;
            let n = g.crabs@.len() as int;
            lemma_nearby_count_prefix(g.crabs@, g2.crabs@, i, front, g.roads, radius, n);
            lemma_nearby_count_nonneg(g.crabs@, i, front, g.roads, radius, n);
            let k1 = nearby_count(g.crabs@, i, front, g.roads, radius, n);
            let k2 = nearby_count(g2.crabs@, i, front, g.roads, radius, n + 1);
            assert(k1 <= k2 <= k1 + 1);
            assert(0 <= g.config.crab_speed * dt) by (nonlinear_arith)
                requires 0 <= g.config.crab_speed, 0 <= dt;
            lemma_slow_down_monotone(
                g.config.crab_speed * dt,
                g.config.collision_slow_down_num as int,
                g.config.collision_slow_down_den as int,
                k1 as nat,
                k2 as nat,
            );
        },
    }
}

/// The advance one tick gives agent `i`, computed from the pre-tick
/// snapshot: zero when it is stationary, otherwise the slowed base advance.
pub open spec fn advance_of(g: Game, i: int, dt: int) -> int {
    let c = g.crabs@[i];
    match c.position.to {
        None => 0,
        Some(_) => advance_slowed(
            g.config.crab_speed * dt,
            g.config.collision_slow_down_num as int,
            g.config.collision_slow_down_den as int,
            nearby_count(
                g.crabs@,
                i,
                lookahead_spec(g.roads, c, g.config.collision_check_distance as int),
                g.roads,
                g.config.collision_check_radius as int,
                g.crabs@.len() as int,
            ) as nat,
        ),
    }
}

/// What one tick does to one agent, relative to the pre-tick game `g`: the
/// animation phase accumulates and wraps; a stationary agent keeps its
/// placement; a moving one advances by its slowed advance, and on passing
/// the edge's length it transitions to the edge's end, heading toward a
/// neighbor of that node, or to a standstill when the node is a dead end.
pub open spec fn crab_step_ok(g: Game, new_c: Crab, i: int, dt: int) -> bool {
    let c = g.crabs@[i];
    &&& new_c.type_index == c.type_index
    &&& new_c.left_hand == c.left_hand
    &&& new_c.right_hand == c.right_hand
    &&& new_c.animation_time as int == (c.animation_time + g.config.animation_speed * dt) % (
        ANGLE_TURN as int)
    &&& match c.position.to {
            None => new_c.position == c.position,
            Some(t) => {
                let adv = advance_of(g, i, dt);
                let nd = c.position.distance + adv;
                let len = sqrt_floor(dist_sq(
                    g.roads.nodes@[c.position.from as int].pos,
                    g.roads.nodes@[t as int].pos,
                ));
                if nd <= len {
                    new_c.position == (Position {
                        from: c.position.from,
                        to: Some(t),
                        distance: nd as i64,
                    })
                } else {
                    &&& new_c.position.from == t
                    &&& new_c.position.distance == 0
                    &&& match new_c.position.to {
                            Some(u) => g.roads.nodes@[t as int].connected@.contains(u),
                            None => g.roads.nodes@[t as int].connected@.len() == 0,
                        }
                }
            },
        }
}

impl Game {
    /// One tick: the gesture dwell check runs, the global clock accumulates
    /// (saturating at the top of its range), and every agent advances along
    /// its edge, slowed once per other agent near its lookahead point, all
    /// slow-downs read from the pre-tick snapshot; an agent passing its
    /// edge's end transitions to a uniformly random outgoing edge of the
    /// node it reached, or to a standstill at a dead end.
    pub fn update(&mut self, delta_time: i64, now: u64)
        requires
            old(self).wf(),
            0 <= delta_time <= DT_LIMIT,
        ensures
            final(self).wf(),
            final(self).config == old(self).config,
            final(self).roads == old(self).roads,
            final(self).map_size == old(self).map_size,
            final(self).item_positions == old(self).item_positions,
            final(self).n_item_types == old(self).n_item_types,
            final(self).crab_weights == old(self).crab_weights,
            final(self).camera == old(self).camera,
            final(self).items == old(self).items,
            final(self).to_find == old(self).to_find,
            final(self).editor == old(self).editor,
            final(self).framebuffer_size == old(self).framebuffer_size,
            match old(self).drag {
                Drag::Detecting { from, start_time } => {
                    if elapsed_spec(now, start_time) > old(self).config.drag_start_timer {
                        final(self).drag == (Drag::Dragging { prev_mouse_pos: from })
                    } else {
                        final(self).drag == old(self).drag
                    }
                },
                _ => final(self).drag == old(self).drag,
            },
            final(self).current_time as int == if old(self).current_time + delta_time
                <= i64::MAX {
                old(self).current_time + delta_time
            } else {
                i64::MAX as int
            },
            final(self).crabs@.len() == old(self).crabs@.len(),
            forall|i: int| 0 <= i < old(self).crabs@.len()
                ==> crab_step_ok(*old(self), #[trigger] final(self).crabs@[i], i,
                    delta_time as int),
    {
        self.drag.poll(now, self.config.drag_start_timer);
        if self.current_time <= i64::MAX - delta_time {
            self.current_time = self.current_time + delta_time;
        } else {
            self.current_time = i64::MAX;
        }
        let ghost g0 = *self;
        let n = self.crabs.len();
        let mut advances: Vec<i64> = Vec::new();
        let mut i: usize = 0;
        while i < n
            invariant
                *self == g0,
                g0.wf(),
                g0.crabs == old(self).crabs,
                g0.config == old(self).config,
                g0.roads == old(self).roads,
                0 <= delta_time <= DT_LIMIT,
                n == self.crabs@.len(),
                i <= n,
                advances@.len() == i,
                forall|k: int| 0 <= k < i ==> {
                    &&& (#[trigger] advances@[k]) as int == advance_of(*old(self), k,
                        delta_time as int)
                    &&& 0 <= advances@[k] <= 0x8000_0000i64
                },
            decreases n - i,
        {
            let c = self.crabs[i];
            match c.position.to {
                None => {
                    advances.push(0);
                },
                Some(_) => {
                    let look = Position {
                        from: c.position.from,
                        to: c.position.to,
                        distance: c.position.distance + self.config.collision_check_distance,
                    };
                    let front = self.roads.world_pos(&look);
                    let radius = self.config.collision_check_radius;
                    let mut cnt: usize = 0;
                    let mut j: usize = 0;
                    while j < n
                        invariant
                            *self == g0,
                            g0.wf(),
                            0 <= radius <= COORD_LIMIT,
                            radius == self.config.collision_check_radius,
                            n == self.crabs@.len(),
                            i < n,
                            j <= n,
                            front.in_bounds(VIEW_LIMIT as int),
                            cnt <= j,
                            cnt as int == nearby_count(self.crabs@, i as int, front, self.roads,
                                radius as int, j as int),
                        decreases n - j,
                    {
                        if j != i {
                            let p = self.roads.world_pos(&self.crabs[j].position);
                            if within_radius(front, p, radius) {
                                cnt += 1;
                            }
                        }
                        j += 1;
                    }
                    proof {
                        assert(0 <= self.config.crab_speed as int * delta_time as int
                            <= 0x8000_0000int) by (nonlinear_arith)
                            requires
                                0 <= self.config.crab_speed as int <= 0x10_0000int,
                                0 <= delta_time as int <= 0x800int;
                    }
                    let base: u64 = (self.config.crab_speed as u64) * (delta_time as u64);
                    let num: u64 = self.config.collision_slow_down_num as u64;
                    let den: u64 = self.config.collision_slow_down_den as u64;
                    let mut a: u64 = base;
                    let mut s: usize = 0;
                    while s < cnt
                        invariant
                            1 <= den <= num <= 0x10_0000u64,
                            base <= 0x8000_0000u64,
                            s <= cnt,
                            a as int == advance_slowed(base as int, num as int, den as int,
                                s as nat),
                            0 <= a <= base,
                        decreases cnt - s,
                    {
                        proof {
                            assert(a as int * den as int <= 0x8_0000_0000_0000int
                                && 0 <= a as int * den as int) by (nonlinear_arith)
                                requires
                                    0 <= a as int <= 0x8000_0000int,
                                    0 <= den as int <= 0x10_0000int;
                            lemma_advance_step(a as int, num as int, den as int);
                        }
                        a = (a * den) / num;
                        s += 1;
                    }
                    advances.push(a as i64);
                },
            }
            i += 1;
        }
        let mut i: usize = 0;
        while i < n
            invariant
                g0.wf(),
                self.wf(),
                g0.crabs == old(self).crabs,
                g0.config == old(self).config,
                g0.roads == old(self).roads,
                self.config == g0.config,
                self.roads == g0.roads,
                self.map_size == g0.map_size,
                self.item_positions == g0.item_positions,
                self.n_item_types == g0.n_item_types,
                self.crab_weights == g0.crab_weights,
                self.camera == g0.camera,
                self.items == g0.items,
                self.to_find == g0.to_find,
                self.editor == g0.editor,
                self.framebuffer_size == g0.framebuffer_size,
                self.drag == g0.drag,
                self.current_time == g0.current_time,
                0 <= delta_time <= DT_LIMIT,
                n == self.crabs@.len(),
                n == old(self).crabs@.len(),
                i <= n,
                advances@.len() == n,
                forall|k: int| 0 <= k < n ==> {
                    &&& (#[trigger] advances@[k]) as int == advance_of(*old(self), k,
                        delta_time as int)
                    &&& 0 <= advances@[k] <= 0x8000_0000i64
                },
                forall|k: int| i <= k < n ==> self.crabs@[k] == old(self).crabs@[k],
                forall|k: int| 0 <= k < i
                    ==> crab_step_ok(*old(self), #[trigger] self.crabs@[k], k, delta_time as int),
            decreases n - i,
        {
            let c = self.crabs[i];
            proof {
                assert(0 <= self.config.animation_speed as int * delta_time as int
                    <= 0x8000_0000int) by (nonlinear_arith)
                    requires
                        0 <= self.config.animation_speed as int <= 0x10_0000int,
                        0 <= delta_time as int <= 0x800int;
            }
            let anim = normalize_angle(c.animation_time + self.config.animation_speed
                * delta_time);
            let position: Position = match c.position.to {
                None => c.position,
                Some(t) => {
                    let nd = c.position.distance + advances[i];
                    let from_pos = self.roads.nodes[c.position.from].pos;
                    let to_pos = self.roads.nodes[t].pos;
                    let len = crate::geom::dist_floor(from_pos, to_pos);
                    if nd > len as i64 {
                        let n_conn = self.roads.nodes[t].connected.len();
                        let to2: Option<usize> = if n_conn > 0 {
                            let pick = rand_below(n_conn);
                            let u = self.roads.nodes[t].connected[pick];
                            proof {
                                assert(self.roads.nodes@[t as int].connected@.contains(u));
                            }
                            Some(u)
                        } else {
                            None
                        };
                        Position { from: t, to: to2, distance: 0 }
                    } else {
                        Position { from: c.position.from, to: c.position.to, distance: nd }
                    }
                },
            };
            self.crabs[i] = Crab {
                type_index: c.type_index,
                position,
                animation_time: anim,
                left_hand: c.left_hand,
                right_hand: c.right_hand,
            };
            i += 1;
        }
    }
}

} // verus!
