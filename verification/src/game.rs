use vstd::prelude::*;
use crate::geom::{
    Vec2, within, within_radius, dist_sq, sqrt_floor, COORD_LIMIT, VIEW_LIMIT,
};
use crate::roads::{Roads, Position, TRAVEL_LIMIT};
use crate::config::Config;
use crate::camera::{Camera, SCREEN_LIMIT};
use crate::gesture::Drag;
use crate::anim::ANGLE_TURN;
use crate::rng::{rand_below, rand_below_u64, rand_ratio, sample_indices, weighted_choice, sum_weights};

verus! {

/// An autonomous agent: a placement on the road network, an animation
/// phase, a visual variant, and up to two carried items.
#[derive(Clone, Copy)]
pub struct Crab {
    pub type_index: usize,
    pub position: Position,
    pub animation_time: i64,
    pub left_hand: Option<usize>,
    pub right_hand: Option<usize>,
}

impl Crab {
    pub open spec fn wf(self, n_nodes: int, n_types: int, n_variants: int) -> bool {
        &&& self.position.wf(n_nodes)
        &&& self.position.distance <= TRAVEL_LIMIT
        &&& 0 <= self.animation_time < ANGLE_TURN
        &&& (self.type_index as int) < n_variants
        &&& match self.left_hand {
                Some(t) => (t as int) < n_types,
                None => true,
            }
        &&& match self.right_hand {
                Some(t) => (t as int) < n_types,
                None => true,
            }
    }
}

/// A ground collectible: a kind, the placement slot it sits on, and a
/// display rotation.
#[derive(Clone, Copy)]
pub struct Item {
    pub type_index: usize,
    pub pos_index: usize,
    pub rot: i64,
}

impl Item {
    pub open spec fn wf(self, n_types: int, n_slots: int) -> bool {
        &&& (self.type_index as int) < n_types
        &&& (self.pos_index as int) < n_slots
        &&& 0 <= self.rot < ANGLE_TURN
    }
}

/// The graph-editing overlay's state.
pub struct Editor {
    pub drag_from: Option<usize>,
    pub shown: bool,
}

/// No existing item occupies placement slot `slot`.
pub open spec fn slot_free(items: Seq<Item>, slot: int) -> bool {
    forall|j: int| 0 <= j < items.len() ==> (#[trigger] items[j]).pos_index as int != slot
}

/// With fewer ground items than placement slots, some slot is free, since
/// no two items share one.
pub proof fn lemma_free_slot_exists(items: Seq<Item>, n_slots: int)
    requires
        forall|i: int, j: int| 0 <= i < j < items.len()
            ==> items[i].pos_index != items[j].pos_index,
        forall|i: int| 0 <= i < items.len() ==> (#[trigger] items[i]).pos_index < n_slots,
        items.len() < n_slots,
    ensures
        exists|s: int| 0 <= s < n_slots && slot_free(items, s),
{
    let used = items.map_values(|it: Item| it.pos_index as int);
    assert(used.no_duplicates()) by {
        assert forall|i: int, j: int| 0 <= i < used.len() && 0 <= j < used.len() && i != j
            implies used[i] != used[j] by {
            if i < j {
                assert(items[i].pos_index != items[j].pos_index);
            } else {
                assert(items[j].pos_index != items[i].pos_index);
            }
        }
    }
    used.unique_seq_to_set();
    let used_set = used.to_set();
    let range = vstd::set_lib::set_int_range(0, n_slots);
    vstd::set_lib::lemma_int_range(0, n_slots);
    if forall|s: int| 0 <= s < n_slots ==> #[trigger] slot_free(items, s) == false {
        assert forall|x: int| range.contains(x) implies used_set.contains(x) by {
            assert(!slot_free(items, x));
            let j = choose|j: int| 0 <= j < items.len()
                && (#[trigger] items[j]).pos_index as int == x;
            assert(used[j] == x);
            assert(used.contains(x));
        }
        vstd::set_lib::lemma_len_subset(range, used_set);
        assert(false);
    }
}

/// With as many ground items as placement slots, every slot is used, since
/// no two items share one.
pub proof fn lemma_no_free_slot_when_full(items: Seq<Item>, n_slots: int)
    requires
        forall|i: int, j: int| 0 <= i < j < items.len()
            ==> items[i].pos_index != items[j].pos_index,
        forall|i: int| 0 <= i < items.len() ==> (#[trigger] items[i]).pos_index < n_slots,
        items.len() >= n_slots,
        0 <= n_slots,
    ensures
        forall|x: int| 0 <= x < n_slots ==> #[trigger] slot_free(items, x) == false,
{
    let used = items.map_values(|it: Item| it.pos_index as int);
    assert(used.no_duplicates()) by {
        assert forall|i: int, j: int| 0 <= i < used.len() && 0 <= j < used.len() && i != j
            implies used[i] != used[j] by {
            if i < j {
                assert(items[i].pos_index != items[j].pos_index);
            } else {
                assert(items[j].pos_index != items[i].pos_index);
            }
        }
    }
    used.unique_seq_to_set();
    let used_set = used.to_set();
    let range = vstd::set_lib::set_int_range(0, n_slots);
    vstd::set_lib::lemma_int_range(0, n_slots);
    assert forall|x: int| 0 <= x < n_slots implies !slot_free(items, x) by {
        if slot_free(items, x) {
            assert(!used_set.contains(x));
            assert(used_set.subset_of(range.remove(x))) by {
                assert forall|y: int| used_set.contains(y)
                    implies range.remove(x).contains(y) by {
                    let j = choose|j: int| 0 <= j < used.len() && used[j] == y;
                    assert((items[j].pos_index as int) < n_slots);
                }
            }
            vstd::set::axiom_set_remove_len(range, x);
            vstd::set_lib::lemma_len_subset(used_set, range.remove(x));
            assert(false);
        }
    }
}

/// A node an agent may spawn at: it has an outgoing edge, or no agent
/// already starts there.
pub open spec fn spawn_candidate(roads: Roads, crabs: Seq<Crab>, idx: int) -> bool {
    ||| roads.nodes@[idx].connected@.len() > 0
    ||| forall|j: int| 0 <= j < crabs.len() ==> (#[trigger] crabs[j]).position.from as int != idx
}

/// Ground items of kind `t`.
pub open spec fn ground_count(items: Seq<Item>, t: int) -> int
    decreases items.len(),
{
    if items.len() == 0 {
        0
    } else {
        ground_count(items.drop_last(), t) + if items.last().type_index as int == t {
            1int
        } else {
            0int
        }
    }
}

/// Items of kind `t` held in agents' hands.
pub open spec fn hand_count(crabs: Seq<Crab>, t: int) -> int
    decreases crabs.len(),
{
    if crabs.len() == 0 {
        0
    } else {
        hand_count(crabs.drop_last(), t) + (if crabs.last().left_hand == Some(t as usize) {
            1int
        } else {
            0int
        }) + (if crabs.last().right_hand == Some(t as usize) {
            1int
        } else {
            0int
        })
    }
}

/// A carried-item slot holds a kind of the target set.
pub open spec fn in_targets(targets: Seq<usize>, t: Option<usize>) -> bool {
    match t {
        Some(k) => targets.contains(k),
        None => false,
    }
}

/// The whole simulation: the road network, agents, ground items, camera,
/// gesture state and tuning, owned by one context.
pub struct Game {
    pub framebuffer_size: Vec2,
    pub camera: Camera,
    pub drag: Drag,
    pub config: Config,
    pub roads: Roads,
    pub map_size: Vec2,
    pub item_positions: Vec<Vec2>,
    pub n_item_types: usize,
    pub crab_weights: Vec<u64>,
    pub crabs: Vec<Crab>,
    pub editor: Editor,
    pub current_time: i64,
    pub items: Vec<Item>,
    pub to_find: Vec<usize>,
}

impl Game {
    /// The simulation invariant: tuning and graph well-formed, every agent
    /// placed on a valid edge with bounded travel, every item on a valid
    /// slot with no slot used twice, and the target set a duplicate-free
    /// selection of item kinds.
    pub open spec fn wf(self) -> bool {
        &&& self.config.wf()
        &&& self.roads.wf()
        &&& self.camera.wf()
        &&& Camera::screen_wf(self.framebuffer_size)
        &&& 1 <= self.map_size.x <= 2 * COORD_LIMIT
        &&& 1 <= self.map_size.y <= 2 * COORD_LIMIT
        &&& 1 <= self.n_item_types
        &&& forall|i: int| 0 <= i < self.item_positions@.len()
                ==> (#[trigger] self.item_positions@[i]).in_bounds(COORD_LIMIT as int)
        &&& forall|i: int| 0 <= i < self.crabs@.len()
                ==> (#[trigger] self.crabs@[i]).wf(
                    self.roads.n_nodes(),
                    self.n_item_types as int,
                    self.crab_weights@.len() as int,
                )
        &&& forall|i: int| 0 <= i < self.items@.len()
                ==> (#[trigger] self.items@[i]).wf(
                    self.n_item_types as int,
                    self.item_positions@.len() as int,
                )
        &&& forall|i: int, j: int| 0 <= i < j < self.items@.len()
                ==> self.items@[i].pos_index != self.items@[j].pos_index
        &&& forall|i: int| 0 <= i < self.to_find@.len()
                ==> (#[trigger] self.to_find@[i]) < self.n_item_types
        &&& forall|i: int, j: int| 0 <= i < j < self.to_find@.len()
                ==> self.to_find@[i] != self.to_find@[j]
        &&& sum_weights(self.crab_weights@) <= u64::MAX
        &&& 0 <= self.current_time
        &&& match self.drag {
                Drag::Detecting { from, .. } => from.in_bounds(SCREEN_LIMIT as int),
                Drag::Dragging { prev_mouse_pos } => prev_mouse_pos.in_bounds(
                    SCREEN_LIMIT as int,
                ),
                Drag::Idle => true,
            }
    }

    /// Everything that spawning and click resolution leave untouched:
    /// the static setting plus the camera, gesture, editor and clock.
    pub open spec fn same_setting(self, other: Game) -> bool {
        &&& self.config == other.config
        &&& self.roads == other.roads
        &&& self.map_size == other.map_size
        &&& self.item_positions == other.item_positions
        &&& self.n_item_types == other.n_item_types
        &&& self.crab_weights == other.crab_weights
        &&& self.framebuffer_size == other.framebuffer_size
        &&& self.camera == other.camera
        &&& self.drag == other.drag
        &&& self.editor == other.editor
        &&& self.current_time == other.current_time
        &&& self.to_find == other.to_find
    }

    /// Builds a session: the target set is a uniform sample of distinct
    /// item kinds, then the configured numbers of agents and ground items
    /// are spawned.
    pub fn new(
        config: Config,
        roads: Roads,
        item_positions: Vec<Vec2>,
        map_size: Vec2,
        n_item_types: usize,
        crab_weights: Vec<u64>,
    ) -> (game: Game)
        requires
            config.wf(),
            roads.wf(),
            forall|i: int| 0 <= i < item_positions@.len()
                ==> (#[trigger] item_positions@[i]).in_bounds(COORD_LIMIT as int),
            1 <= map_size.x <= 2 * COORD_LIMIT,
            1 <= map_size.y <= 2 * COORD_LIMIT,
            1 <= n_item_types,
            config.types_to_find <= n_item_types,
            sum_weights(crab_weights@) <= u64::MAX,
        ensures
            game.wf(),
            game.config == config,
            game.roads == roads,
            game.item_positions == item_positions,
            game.map_size == map_size,
            game.n_item_types == n_item_types,
            game.crab_weights == crab_weights,
            game.to_find@.len() == config.types_to_find,
            game.camera == (Camera { center: Vec2 { x: 0, y: 0 }, fov: config.default_fov }),
            game.drag is Idle,
            game.crabs@.len() <= config.crabs,
            game.items@.len() <= config.free_items,
            (exists|i: int| 0 <= i < roads.n_nodes()
                && (#[trigger] roads.nodes@[i]).connected@.len() > 0)
                && sum_weights(crab_weights@) > 0
                ==> game.crabs@.len() == config.crabs,
            game.items@.len() as int == if config.free_items <= item_positions@.len() {
                config.free_items as int
            } else {
                item_positions@.len() as int
            },
            game.editor == (Editor { drag_from: Option::<usize>::None, shown: false }),
            game.framebuffer_size == (Vec2 { x: 1, y: 1 }),
            game.current_time == 0,
    {
        let crabs_count = config.crabs;
        let free_items = config.free_items;
        let to_find = sample_indices(n_item_types, config.types_to_find);
        let mut game = Game {
            framebuffer_size: Vec2 { x: 1, y: 1 },
            camera: Camera { center: Vec2 { x: 0, y: 0 }, fov: config.default_fov },
            drag: Drag::Idle,
            config,
            roads,
            map_size,
            item_positions,
            n_item_types,
            crab_weights,
            crabs: Vec::new(),
            editor: Editor { drag_from: None, shown: false },
            current_time: 0,
            items: Vec::new(),
            to_find,
        };
        let mut i: usize = 0;
        while i < crabs_count
            invariant
                game.wf(),
                i <= crabs_count,
                game.crabs@.len() <= i,
                (exists|k: int| 0 <= k < roads.n_nodes()
                    && (#[trigger] roads.nodes@[k]).connected@.len() > 0)
                    && sum_weights(crab_weights@) > 0 ==> game.crabs@.len() == i,
                game.items@.len() == 0,
                game.config == config,
                game.roads == roads,
                game.item_positions == item_positions,
                game.map_size == map_size,
                game.n_item_types == n_item_types,
                game.crab_weights == crab_weights,
                game.to_find@.len() == config.types_to_find,
                game.camera == (Camera { center: Vec2 { x: 0, y: 0 }, fov: config.default_fov }),
                game.drag is Idle,
                game.editor == (Editor { drag_from: Option::<usize>::None, shown: false }),
                game.framebuffer_size == (Vec2 { x: 1, y: 1 }),
                game.current_time == 0,
            decreases crabs_count - i,
        {
            proof {
                if exists|k: int| 0 <= k < roads.n_nodes()
                    && (#[trigger] roads.nodes@[k]).connected@.len() > 0 {
                    let k = choose|k: int| 0 <= k < roads.n_nodes()
                        && (#[trigger] roads.nodes@[k]).connected@.len() > 0;
                    assert(spawn_candidate(game.roads, game.crabs@, k));
                }
            }
            game.spawn_crab();
            i += 1;
        }
        let mut i: usize = 0;
        while i < free_items
            invariant
                game.wf(),
                i <= free_items,
                game.items@.len() <= i,
                game.items@.len() as int == if i as int <= item_positions@.len() {
                    i as int
                } else {
                    item_positions@.len() as int
                },
                game.editor == (Editor { drag_from: Option::<usize>::None, shown: false }),
                game.framebuffer_size == (Vec2 { x: 1, y: 1 }),
                game.config == config,
                game.roads == roads,
                game.item_positions == item_positions,
                game.map_size == map_size,
                game.n_item_types == n_item_types,
                game.crab_weights == crab_weights,
                game.to_find@.len() == config.types_to_find,
                game.camera == (Camera { center: Vec2 { x: 0, y: 0 }, fov: config.default_fov }),
                game.drag is Idle,
                game.crabs@.len() <= crabs_count,
                (exists|k: int| 0 <= k < roads.n_nodes()
                    && (#[trigger] roads.nodes@[k]).connected@.len() > 0)
                    && sum_weights(crab_weights@) > 0
                    ==> game.crabs@.len() == crabs_count,
                game.current_time == 0,
            decreases free_items - i,
        {
            proof {
                if game.items@.len() < game.item_positions@.len() {
                    lemma_free_slot_exists(game.items@, game.item_positions@.len() as int);
                } else {
                    lemma_no_free_slot_when_full(game.items@, game.item_positions@.len() as int);
                }
            }
            game.spawn_item();
            i += 1;
        }
        game
    }

    /// Whether placement slot `slot` is already used by a ground item.
    fn slot_used(&self, slot: usize) -> (b: bool)
        ensures
            b == !slot_free(self.items@, slot as int),
    {
        let n = self.items.len();
        let mut j: usize = 0;
        while j < n
            invariant
                n == self.items@.len(),
                j <= n,
                forall|k: int| 0 <= k < j ==> (#[trigger] self.items@[k]).pos_index != slot,
            decreases n - j,
        {
            if self.items[j].pos_index == slot {
                return true;
            }
            j += 1;
        }
        false
    }

    /// Spawns one ground item on a placement slot chosen uniformly among
    /// the free ones, with a uniform kind and rotation; does nothing when
    /// every slot is occupied.
    pub fn spawn_item(&mut self)
        requires
            old(self).wf(),
        ensures
            final(self).wf(),
            final(self).same_setting(*old(self)),
            final(self).crabs == old(self).crabs,
            if exists|s: int| 0 <= s < old(self).item_positions@.len()
                && slot_free(old(self).items@, s) {
                &&& final(self).items@.len() == old(self).items@.len() + 1
                &&& final(self).items@.subrange(0, old(self).items@.len() as int)
                    == old(self).items@
                &&& slot_free(old(self).items@, final(self).items@.last().pos_index as int)
            } else {
                final(self).items@ == old(self).items@
            },
    {
        let n_slots = self.item_positions.len();
        let mut free: Vec<usize> = Vec::new();
        let mut s: usize = 0;
        while s < n_slots
            invariant
                n_slots == self.item_positions@.len(),
                s <= n_slots,
                forall|k: int| 0 <= k < free@.len()
                    ==> (#[trigger] free@[k]) < n_slots && slot_free(self.items@, free@[k] as int),
                forall|t: int| 0 <= t < s && slot_free(self.items@, t)
                    ==> exists|k: int| 0 <= k < free@.len() && free@[k] as int == t,
            decreases n_slots - s,
        {
            if !self.slot_used(s) {
                let ghost pre = free@;
                free.push(s);
                proof {
                    assert forall|t: int| 0 <= t < s + 1 && slot_free(self.items@, t)
                        implies exists|k: int| 0 <= k < free@.len() && free@[k] as int == t by {
                        if t < s {
                            let k0 = choose|k: int| 0 <= k < pre.len() && pre[k] as int == t;
                            assert(free@[k0] as int == t);
                        } else {
                            assert(free@[pre.len() as int] as int == t);
                        }
                    }
                }
            }
            s += 1;
        }
        if free.len() == 0 {
            return;
        }
        let pick = free[rand_below(free.len())];
        let kind = rand_below(self.n_item_types);
        let rot = rand_below_u64(ANGLE_TURN as u64) as i64;
        let ghost before = self.items@;
        self.items.push(Item { type_index: kind, pos_index: pick, rot });
        proof {
            assert(self.items@.subrange(0, before.len() as int) == before);
        }
    }

    /// Spawns one agent at a node chosen uniformly among spawn candidates,
    /// heading toward a uniformly chosen neighbor (stationary at a
    /// dead-end), a uniform initial travel below the edge length, carried
    /// items by the configured probabilities, and a weight-proportional
    /// visual variant. Does nothing when no candidate node exists or every
    /// variant weight is zero.
    pub fn spawn_crab(&mut self)
        requires
            old(self).wf(),
        ensures
            final(self).wf(),
            final(self).same_setting(*old(self)),
            final(self).items == old(self).items,
            final(self).crabs@.len() == old(self).crabs@.len()
                || final(self).crabs@.len() == old(self).crabs@.len() + 1,
            final(self).crabs@.len() == old(self).crabs@.len()
                ==> final(self).crabs@ == old(self).crabs@,
            final(self).crabs@.len() == old(self).crabs@.len()
                ==> (forall|idx: int| 0 <= idx < old(self).roads.n_nodes()
                        ==> !spawn_candidate(old(self).roads, old(self).crabs@, idx))
                    || sum_weights(old(self).crab_weights@) == 0,
            final(self).crabs@.len() == old(self).crabs@.len() + 1 ==> {
                &&& final(self).crabs@.subrange(0, old(self).crabs@.len() as int)
                    == old(self).crabs@
                &&& ({
                    let c = final(self).crabs@.last();
                    let from = c.position.from as int;
                    &&& 0 <= from < old(self).roads.n_nodes()
                    &&& spawn_candidate(old(self).roads, old(self).crabs@, from)
                    &&& (c.type_index as int) < old(self).crab_weights@.len()
                    &&& old(self).crab_weights@[c.type_index as int] > 0
                    &&& match c.position.to {
                            Some(t) => old(self).roads.nodes@[from].connected@.contains(t),
                            None => old(self).roads.nodes@[from].connected@.len() == 0,
                        }
                    &&& match c.position.to {
                            Some(t) => {
                                let len = sqrt_floor(dist_sq(
                                    old(self).roads.nodes@[from].pos,
                                    old(self).roads.nodes@[t as int].pos,
                                ));
                                0 <= c.position.distance
                                    && (len > 0 ==> (c.position.distance as int) < len)
                                    && (len == 0 ==> c.position.distance == 0)
                            },
                            None => c.position.distance == 0,
                        }
                })
            },
    {
        let n = self.roads.nodes.len();
        let mut indices: Vec<usize> = Vec::new();
        let mut idx: usize = 0;
        while idx < n
            invariant
                n == self.roads.nodes@.len(),
                idx <= n,
                forall|k: int| 0 <= k < indices@.len()
                    ==> (#[trigger] indices@[k]) < n
                        && spawn_candidate(self.roads, self.crabs@, indices@[k] as int),
                forall|t: int| 0 <= t < idx && spawn_candidate(self.roads, self.crabs@, t)
                    ==> exists|k: int| 0 <= k < indices@.len() && indices@[k] as int == t,
            decreases n - idx,
        {
            let connected_nonempty = self.roads.nodes[idx].connected.len() > 0;
            let mut free_node = true;
            let m = self.crabs.len();
            let mut j: usize = 0;
            while j < m
                invariant
                    m == self.crabs@.len(),
                    j <= m,
                    free_node == (forall|k: int| 0 <= k < j
                        ==> (#[trigger] self.crabs@[k]).position.from != idx),
                decreases m - j,
            {
                if self.crabs[j].position.from == idx {
                    free_node = false;
                }
                j += 1;
            }
            if connected_nonempty || free_node {
                let ghost pre = indices@;
                indices.push(idx);
                proof {
                    assert forall|t: int| 0 <= t < idx + 1
                        && spawn_candidate(self.roads, self.crabs@, t)
                        implies exists|k: int| 0 <= k < indices@.len()
                            && indices@[k] as int == t by {
                        if t < idx {
                            let k0 = choose|k: int| 0 <= k < pre.len() && pre[k] as int == t;
                            assert(indices@[k0] as int == t);
                        } else {
                            assert(indices@[pre.len() as int] as int == t);
                        }
                    }
                }
            }
            idx += 1;
        }
        if indices.len() == 0 {
            return;
        }
        let type_index = match weighted_choice(&self.crab_weights) {
            Some(t) => t,
            None => {
                return;
            },
        };
        let from = indices[rand_below(indices.len())];
        let n_conn = self.roads.nodes[from].connected.len();
        let to: Option<usize> = if n_conn > 0 {
            Some(self.roads.nodes[from].connected[rand_below(n_conn)])
        } else {
            None
        };
        let distance: i64 = match to {
            Some(t) => {
                let len = crate::geom::dist_floor(self.roads.nodes[from].pos,
                    self.roads.nodes[t].pos);
                if len == 0 {
                    0
                } else {
                    rand_below_u64(len) as i64
                }
            },
            None => 0,
        };
        let random_kind = rand_below(self.n_item_types);
        let random_kind_2 = rand_below(self.n_item_types);
        let (left_hand, right_hand): (Option<usize>, Option<usize>) = if rand_ratio(
            self.config.crab_hold_item_num,
            self.config.crab_hold_item_den,
        ) {
            if rand_ratio(self.config.crab_hold_double_num, self.config.crab_hold_double_den) {
                (Some(random_kind), Some(random_kind_2))
            } else if rand_ratio(1, 2) {
                (Some(random_kind), None)
            } else {
                (None, Some(random_kind))
            }
        } else {
            (None, None)
        };
        let animation_time = rand_below_u64(ANGLE_TURN as u64) as i64;
        let ghost before = self.crabs@;
        self.crabs.push(Crab {
            type_index,
            position: Position { from, to, distance },
            animation_time,
            left_hand,
            right_hand,
        });
        proof {
            assert(self.crabs@.subrange(0, before.len() as int) == before);
        }
    }

    /// How many items of this kind remain: on the ground plus in hands.
    pub fn item_count(&self, item_type: usize) -> (r: usize)
        requires
            self.wf(),
            self.items@.len() + 2 * self.crabs@.len() <= usize::MAX,
        ensures
            r as int == ground_count(self.items@, item_type as int)
                + hand_count(self.crabs@, item_type as int),
    {
        let n_items = self.items.len();
        let mut ground: usize = 0;
        let mut i: usize = 0;
        while i < n_items
            invariant
                n_items == self.items@.len(),
                i <= n_items,
                ground == ground_count(self.items@.subrange(0, i as int), item_type as int),
                ground <= i,
            decreases n_items - i,
        {
            proof {
                assert(self.items@.subrange(0, i as int + 1).drop_last()
                    == self.items@.subrange(0, i as int));
                lemma_ground_count_nonneg(self.items@.subrange(0, i as int), item_type as int);
            }
            if self.items[i].type_index == item_type {
                ground += 1;
            }
            i += 1;
        }
        proof {
            assert(self.items@.subrange(0, n_items as int) == self.items@);
        }
        let n_crabs = self.crabs.len();
        let mut held: usize = 0;
        let mut i: usize = 0;
        while i < n_crabs
            invariant
                n_crabs == self.crabs@.len(),
                i <= n_crabs,
                held == hand_count(self.crabs@.subrange(0, i as int), item_type as int),
                held <= 2 * i,
                ground <= self.items@.len(),
                ground == ground_count(self.items@, item_type as int),
                self.items@.len() + 2 * self.crabs@.len() <= usize::MAX,
            decreases n_crabs - i,
        {
            proof {
                assert(self.crabs@.subrange(0, i as int + 1).drop_last()
                    == self.crabs@.subrange(0, i as int));
                lemma_hand_count_nonneg(self.crabs@.subrange(0, i as int), item_type as int);
            }
            let c = &self.crabs[i];
            let lh = match c.left_hand {
                Some(t) => t == item_type,
                None => false,
            };
            let rh = match c.right_hand {
                Some(t) => t == item_type,
                None => false,
            };
            if lh {
                held += 1;
            }
            if rh {
                held += 1;
            }
            i += 1;
        }
        proof {
            assert(self.crabs@.subrange(0, n_crabs as int) == self.crabs@);
            lemma_ground_count_nonneg(self.items@, item_type as int);
            lemma_hand_count_nonneg(self.crabs@, item_type as int);
        }
        ground + held
    }

    /// `h` is the first road node, by node order, whose position lies
    /// within the editor's hover radius of the world point `cw`.
    pub open spec fn is_first_hovered(self, cw: Vec2, h: int) -> bool {
        let rad = self.config.road_node_ui_radius as int;
        &&& 0 <= h < self.roads.n_nodes()
        &&& within(self.roads.nodes@[h].pos, cw, rad)
        &&& forall|j: int| 0 <= j < h
                ==> !within(#[trigger] self.roads.nodes@[j].pos, cw, rad)
    }

    /// No road node lies within the hover radius of the world point `cw`.
    pub open spec fn no_hovered(self, cw: Vec2) -> bool {
        let rad = self.config.road_node_ui_radius as int;
        forall|j: int| 0 <= j < self.roads.n_nodes()
            ==> !within(#[trigger] self.roads.nodes@[j].pos, cw, rad)
    }

    /// The first road node whose position lies within the editor's hover
    /// radius of the cursor, by node order.
    pub fn hovered_road_node(&self, cursor: Vec2) -> (r: Option<usize>)
        requires
            self.wf(),
            cursor.in_bounds(crate::camera::SCREEN_LIMIT as int),
        ensures
            ({
                let cw = self.camera.screen_to_world_spec(self.framebuffer_size, cursor);
                match r {
                    Some(i) => self.is_first_hovered(cw, i as int),
                    None => self.no_hovered(cw),
                }
            }),
    {
        let cw = self.camera.screen_to_world(self.framebuffer_size, cursor);
        let n = self.roads.nodes.len();
        let mut i: usize = 0;
        while i < n
            invariant
                self.wf(),
                n == self.roads.nodes@.len(),
                i <= n,
                cw == self.camera.screen_to_world_spec(self.framebuffer_size, cursor),
                cw.in_bounds(VIEW_LIMIT as int),
                forall|j: int| 0 <= j < i
                    ==> !within(
                        #[trigger] self.roads.nodes@[j].pos,
                        cw,
                        self.config.road_node_ui_radius as int,
                    ),
            decreases n - i,
        {
            if within_radius(self.roads.nodes[i].pos, cw, self.config.road_node_ui_radius) {
                return Some(i);
            }
            i += 1;
        }
        None
    }

    /// Whether a carried or ground kind belongs to the target set.
    pub(crate) fn can_take(&self, kind: usize) -> (b: bool)
        ensures
            b == self.to_find@.contains(kind),
    {
        let n = self.to_find.len();
        let mut i: usize = 0;
        while i < n
            invariant
                n == self.to_find@.len(),
                i <= n,
                forall|j: int| 0 <= j < i ==> (#[trigger] self.to_find@[j]) != kind,
            decreases n - i,
        {
            if self.to_find[i] == kind {
                return true;
            }
            i += 1;
        }
        false
    }
}

pub proof fn lemma_ground_count_nonneg(items: Seq<Item>, t: int)
    ensures
        0 <= ground_count(items, t) <= items.len(),
    decreases items.len(),
{
    if items.len() > 0 {
        lemma_ground_count_nonneg(items.drop_last(), t);
    }
}

pub proof fn lemma_hand_count_nonneg(crabs: Seq<Crab>, t: int)
    ensures
        0 <= hand_count(crabs, t) <= 2 * crabs.len(),
    decreases crabs.len(),
{
    if crabs.len() > 0 {
        lemma_hand_count_nonneg(crabs.drop_last(), t);
    }
}

} // verus!
