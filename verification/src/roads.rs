use vstd::prelude::*;
use crate::geom::{
    Vec2, dist_sq, sqrt_floor, div_trunc, dist_floor, interp_scale,
    lemma_sqrt_floor_exists, lemma_interp_component,
    COORD_LIMIT, DIST_LIMIT, WORLD_LIMIT,
};

verus! {

/// Every edge's floor length is below this bound, so an agent's travelled
/// arc length stays below it between ticks.
pub const TRAVEL_LIMIT: i64 = 0x1_0000_0000;

/// A waypoint of the road network: a world position and the ordered list of
/// node indices reachable from it by a directed edge.
pub struct RoadNode {
    pub pos: Vec2,
    pub connected: Vec<usize>,
}

impl RoadNode {
    /// Well-formed as the node at `index` in a graph of `n` nodes: the
    /// position is a stored coordinate, every neighbor is a valid node
    /// index, and a node never lists itself as a neighbor.
    pub open spec fn wf(self, index: int, n: int) -> bool {
        &&& self.pos.in_bounds(COORD_LIMIT as int)
        &&& forall|j: int| 0 <= j < self.connected@.len()
                ==> (#[trigger] self.connected@[j]) < n && self.connected@[j] as int != index
    }
}

/// The directed waypoint graph agents travel on.
pub struct Roads {
    pub nodes: Vec<RoadNode>,
}

/// A placement on the road network: at node `from` when `to` is absent,
/// otherwise `distance` world units along the edge from `from` toward `to`.
#[derive(Clone, Copy)]
pub struct Position {
    pub from: usize,
    pub to: Option<usize>,
    pub distance: i64,
}

impl Position {
    /// Valid against a graph of `n` nodes.
    pub open spec fn wf(self, n: int) -> bool {
        &&& (self.from as int) < n
        &&& match self.to {
                Some(t) => (t as int) < n,
                None => true,
            }
        &&& 0 <= self.distance <= DIST_LIMIT
    }
}

/// A neighbor list with every reference to node `idx` dropped.
pub open spec fn strip_loops(s: Seq<usize>, idx: int) -> Seq<usize>
    decreases s.len(),
{
    if s.len() == 0 {
        Seq::empty()
    } else {
        let rest = strip_loops(s.drop_last(), idx);
        if s.last() as int == idx {
            rest
        } else {
            rest.push(s.last())
        }
    }
}

/// The renumbering applied to one neighbor list when the node at `idx` is
/// deleted: references to `idx` are dropped, references above it shift down.
pub open spec fn renumber(s: Seq<usize>, idx: int) -> Seq<usize>
    decreases s.len(),
{
    if s.len() == 0 {
        Seq::empty()
    } else {
        let rest = renumber(s.drop_last(), idx);
        let v = s.last();
        if v as int == idx {
            rest
        } else if v as int > idx {
            rest.push((v - 1) as usize)
        } else {
            rest.push(v)
        }
    }
}

/// What adding the directed edge `from -> to` does to a graph: the edge is
/// appended to `from`'s neighbor list unless it would be a self-loop, and
/// nothing else changes.
pub open spec fn edge_added(r1: Roads, r2: Roads, from: usize, to: usize) -> bool {
    &&& r2.nodes@.len() == r1.nodes@.len()
    &&& forall|i: int| 0 <= i < r1.nodes@.len() && i != from as int
            ==> r2.nodes@[i] == r1.nodes@[i]
    &&& r2.nodes@[from as int].pos == r1.nodes@[from as int].pos
    &&& r2.nodes@[from as int].connected@ == if from == to {
            r1.nodes@[from as int].connected@
        } else {
            r1.nodes@[from as int].connected@.push(to)
        }
}

impl Roads {
    /// Every node is well-formed: positions in bounds, neighbor indices
    /// valid, and no node lists itself (no self-loop edges).
    pub open spec fn wf(self) -> bool {
        forall|i: int| 0 <= i < self.nodes@.len()
            ==> (#[trigger] self.nodes@[i]).wf(i, self.nodes@.len() as int)
    }

    pub open spec fn n_nodes(self) -> int {
        self.nodes@.len() as int
    }

    /// The ordered list of nodes reachable from `node` by one directed edge.
    pub fn neighbors(&self, node: usize) -> (r: &Vec<usize>)
        requires
            (node as int) < self.n_nodes(),
        ensures
            r@ == self.nodes@[node as int].connected@,
    {
        &self.nodes[node].connected
    }

    /// The world coordinate a placement resolves to: the position of `from`
    /// when `to` is absent or the edge has zero floor length, otherwise
    /// `from.pos` plus `(to.pos - from.pos) * distance / len` with each
    /// component truncated toward zero.
    pub open spec fn world_pos_spec(self, p: Position) -> Vec2 {
        let a = self.nodes@[p.from as int].pos;
        match p.to {
            None => a,
            Some(t) => {
                let b = self.nodes@[t as int].pos;
                let len = sqrt_floor(dist_sq(a, b));
                if len <= 0 {
                    a
                } else {
                    Vec2 {
                        x: (a.x + div_trunc((b.x - a.x) * p.distance, len)) as i64,
                        y: (a.y + div_trunc((b.y - a.y) * p.distance, len)) as i64,
                    }
                }
            },
        }
    }

    /// Resolves a placement into a world coordinate.
    pub fn world_pos(&self, position: &Position) -> (r: Vec2)
        requires
            self.wf(),
            position.wf(self.n_nodes()),
        ensures
            r == self.world_pos_spec(*position),
            r.in_bounds((COORD_LIMIT + DIST_LIMIT) as int),
            r.in_bounds(WORLD_LIMIT as int),
    {
        let a = self.nodes[position.from].pos;
        let t: usize = match position.to {
            Some(t) => t,
            None => {
                return a;
            },
        };
        let b = self.nodes[t].pos;
        let len = dist_floor(a, b);
        if len == 0 {
            return a;
        }
        proof {
            let dx: int = b.x - a.x;
            let dy: int = b.y - a.y;
            let l = len as int;
            assert(-l <= dx <= l && -l <= dy <= l) by (nonlinear_arith)
                requires
                    0 <= l,
                    dx == b.x - a.x,
                    dy == b.y - a.y,
                    (a.x - b.x) * (a.x - b.x) + (a.y - b.y) * (a.y - b.y) < (l + 1) * (l + 1);
        }
        let sx = interp_scale(b.x - a.x, position.distance, len as i64);
        let sy = interp_scale(b.y - a.y, position.distance, len as i64);
        Vec2 { x: a.x + sx, y: a.y + sy }
    }

    /// Whether every node is well-formed, checked field by field; loading
    /// treats a failure as fatal.
    pub fn validate(&self) -> (b: bool)
        ensures
            b == self.wf(),
    {
        let n = self.nodes.len();
        let mut i: usize = 0;
        while i < n
            invariant
                n == self.nodes@.len(),
                i <= n,
                forall|k: int| 0 <= k < i ==> (#[trigger] self.nodes@[k]).wf(k, n as int),
            decreases n - i,
        {
            let node = &self.nodes[i];
            if !(-COORD_LIMIT <= node.pos.x && node.pos.x <= COORD_LIMIT
                && -COORD_LIMIT <= node.pos.y && node.pos.y <= COORD_LIMIT)
            {
                return false;
            }
            let m = node.connected.len();
            let mut j: usize = 0;
            while j < m
                invariant
                    n == self.nodes@.len(),
                    i < n,
                    node == self.nodes@[i as int],
                    m == node.connected@.len(),
                    j <= m,
                    forall|l: int| 0 <= l < j
                        ==> (#[trigger] node.connected@[l]) < n && node.connected@[l] as int != i as int,
                decreases m - j,
            {
                let v = node.connected[j];
                if v >= n || v == i {
                    return false;
                }
                j += 1;
            }
            i += 1;
        }
        true
    }

    /// Appends a fresh node with no outgoing edges at `pos`.
    pub fn add_node(&mut self, pos: Vec2)
        requires
            old(self).wf(),
            pos.in_bounds(COORD_LIMIT as int),
            old(self).n_nodes() < usize::MAX,
        ensures
            final(self).wf(),
            final(self).nodes@.len() == old(self).nodes@.len() + 1,
            forall|i: int| 0 <= i < old(self).nodes@.len()
                ==> final(self).nodes@[i] == old(self).nodes@[i],
            final(self).nodes@.last().pos == pos,
            final(self).nodes@.last().connected@.len() == 0,
    {
        self.nodes.push(RoadNode { pos, connected: Vec::new() });
    }

    /// Adds a directed edge `from -> to`. A self-loop is never added, so the
    /// graph invariant is preserved; any other edge is appended even if it
    /// repeats an existing one.
    pub fn add_edge(&mut self, from: usize, to: usize)
        requires
            old(self).wf(),
            (from as int) < old(self).n_nodes(),
            (to as int) < old(self).n_nodes(),
        ensures
            final(self).wf(),
            edge_added(*old(self), *final(self), from, to),
    {
        if from != to {
            self.nodes[from].connected.push(to);
        }
    }

    /// Deletes the node at `idx` and rewrites every other node's neighbor
    /// list: references to `idx` are dropped and references above it are
    /// decremented, so all edges stay valid and free of self-loops.
    pub fn remove_node(&mut self, idx: usize)
        requires
            old(self).wf(),
            (idx as int) < old(self).n_nodes(),
        ensures
            final(self).wf(),
            final(self).nodes@.len() == old(self).nodes@.len() - 1,
            forall|i: int| 0 <= i < final(self).nodes@.len() ==> {
                let o = if i < idx as int { i } else { i + 1 };
                (#[trigger] final(self).nodes@[i]).pos == old(self).nodes@[o].pos
                    && final(self).nodes@[i].connected@ == renumber(
                        old(self).nodes@[o].connected@,
                        idx as int,
                    )
            },
    {
        let ghost orig = self.nodes@;
        self.nodes.remove(idx);
        let n = self.nodes.len();
        let mut i: usize = 0;
        while i < n
            invariant
                n == self.nodes@.len(),
                n == orig.len() - 1,
                (idx as int) < orig.len(),
                i <= n,
                forall|k: int| 0 <= k < orig.len()
                    ==> (#[trigger] orig[k]).wf(k, orig.len() as int),
                forall|k: int| 0 <= k < n ==> {
                    let o = if k < idx as int { k } else { k + 1 };
                    (#[trigger] self.nodes@[k]).pos == orig[o].pos
                },
                forall|k: int| i <= k < n ==> {
                    let o = if k < idx as int { k } else { k + 1 };
                    (#[trigger] self.nodes@[k]).connected@ == orig[o].connected@
                },
                forall|k: int| 0 <= k < i ==> {
                    let o = if k < idx as int { k } else { k + 1 };
                    (#[trigger] self.nodes@[k]).connected@ == renumber(
                        orig[o].connected@,
                        idx as int,
                    )
                },
                forall|k: int| 0 <= k < i
                    ==> (#[trigger] self.nodes@[k]).wf(k, n as int),
            decreases n - i,
        {
            let ghost o = if (i as int) < idx as int { i as int } else { i as int + 1 };
            let m = self.nodes[i].connected.len();
            let mut kept: Vec<usize> = Vec::new();
            let mut j: usize = 0;
            while j < m
                invariant
                    i < n,
                    n == self.nodes@.len(),
                    n == orig.len() - 1,
                    (idx as int) < orig.len(),
                    o == if (i as int) < idx as int { i as int } else { i as int + 1 },
                    0 <= o < orig.len(),
                    self.nodes@[i as int].connected@ == orig[o].connected@,
                    orig[o].wf(o, orig.len() as int),
                    m == orig[o].connected@.len(),
                    j <= m,
                    kept@ == renumber(orig[o].connected@.subrange(0, j as int), idx as int),
                    forall|l: int| 0 <= l < kept@.len()
                        ==> (#[trigger] kept@[l]) < n && kept@[l] as int != i as int,
                decreases m - j,
            {
                let v = self.nodes[i].connected[j];
                let ghost pre = orig[o].connected@.subrange(0, j as int);
                let ghost cur = orig[o].connected@.subrange(0, j as int + 1);
                proof {
                    assert(cur.drop_last() == pre);
                    assert(cur.last() == v);
                }
                if v != idx {
                    let w: usize = if v > idx { v - 1 } else { v };
                    kept.push(w);
                }
                j += 1;
            }
            proof {
                assert(orig[o].connected@.subrange(0, m as int) == orig[o].connected@);
            }
            let pos = self.nodes[i].pos;
            self.nodes[i] = RoadNode { pos, connected: kept };
            i += 1;
        }
    }
}

/// A placement whose travelled distance does not exceed the floor length of
/// its edge resolves to a point on the segment between the two endpoints:
/// each component lies between the endpoints' components, distance `0`
/// resolves to the start and the full length to the end exactly, and the
/// point is within one unit of the exact interpolation, in that
/// `|len * (r - a) - d * (b - a)| < len` holds componentwise.
pub proof fn lemma_world_pos_on_segment(roads: Roads, p: Position, t: usize)
    requires
        roads.wf(),
        p.wf(roads.n_nodes()),
        p.to == Some(t),
        p.distance <= sqrt_floor(dist_sq(
            roads.nodes@[p.from as int].pos,
            roads.nodes@[t as int].pos,
        )),
    ensures
        ({
            let a = roads.nodes@[p.from as int].pos;
            let b = roads.nodes@[t as int].pos;
            let len = sqrt_floor(dist_sq(a, b));
            let d = p.distance as int;
            let r = roads.world_pos_spec(p);
            &&& a.x <= b.x ==> a.x <= r.x <= b.x
            &&& b.x <= a.x ==> b.x <= r.x <= a.x
            &&& a.y <= b.y ==> a.y <= r.y <= b.y
            &&& b.y <= a.y ==> b.y <= r.y <= a.y
            &&& d == 0 ==> r == a
            &&& len > 0 && d == len ==> r == b
            &&& len > 0 ==> -len < len * (r.x - a.x) - (b.x - a.x) * d < len
            &&& len > 0 ==> -len < len * (r.y - a.y) - (b.y - a.y) * d < len
        }),
{
    let a = roads.nodes@[p.from as int].pos;
    let b = roads.nodes@[t as int].pos;
    let len = sqrt_floor(dist_sq(a, b));
    let d = p.distance as int;
    assert(dist_sq(a, b) >= 0) by (nonlinear_arith);
    lemma_sqrt_floor_exists(dist_sq(a, b) as nat);
    if len > 0 {
        lemma_interp_component(b.x - a.x, d, len);
        lemma_interp_component(b.y - a.y, d, len);
    } else {
        assert(dist_sq(a, b) < 1);
        let dx = a.x - b.x;
        let dy = a.y - b.y;
        assert(dx == 0 && dy == 0) by (nonlinear_arith)
            requires dx * dx + dy * dy < 1, dx == a.x - b.x, dy == a.y - b.y;
        assert(a == b);
    }
}

/// Strips self-loop edges from every node; applied to a freshly loaded
/// graph before it is used.
pub fn fix_roads(roads: &mut Roads)
    ensures
        final(roads).nodes@.len() == old(roads).nodes@.len(),
        forall|i: int| 0 <= i < old(roads).nodes@.len() ==> {
            &&& (#[trigger] final(roads).nodes@[i]).pos == old(roads).nodes@[i].pos
            &&& final(roads).nodes@[i].connected@ == strip_loops(
                    old(roads).nodes@[i].connected@,
                    i,
                )
        },
{
    let ghost orig = roads.nodes@;
    let n = roads.nodes.len();
    let mut i: usize = 0;
    while i < n
        invariant
            n == roads.nodes@.len(),
            n == orig.len(),
            i <= n,
            forall|k: int| i <= k < n ==> (#[trigger] roads.nodes@[k]) == orig[k],
            forall|k: int| 0 <= k < i ==> {
                &&& (#[trigger] roads.nodes@[k]).pos == orig[k].pos
                &&& roads.nodes@[k].connected@ == strip_loops(orig[k].connected@, k)
            },
        decreases n - i,
    {
        let m = roads.nodes[i].connected.len();
        let mut kept: Vec<usize> = Vec::new();
        let mut j: usize = 0;
        while j < m
            invariant
                i < n,
                n == roads.nodes@.len(),
                roads.nodes@[i as int] == orig[i as int],
                m == orig[i as int].connected@.len(),
                j <= m,
                kept@ == strip_loops(orig[i as int].connected@.subrange(0, j as int), i as int),
            decreases m - j,
        {
            let v = roads.nodes[i].connected[j];
            let ghost pre = orig[i as int].connected@.subrange(0, j as int);
            let ghost cur = orig[i as int].connected@.subrange(0, j as int + 1);
            proof {
                assert(cur.drop_last() == pre);
                assert(cur.last() == v);
            }
            if v != i {
                kept.push(v);
            }
            j += 1;
        }
        proof {
            assert(orig[i as int].connected@.subrange(0, m as int) == orig[i as int].connected@);
        }
        let pos = roads.nodes[i].pos;
        roads.nodes[i] = RoadNode { pos, connected: kept };
        i += 1;
    }
}

} // verus!
