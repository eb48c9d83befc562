use vstd::prelude::*;
use crate::geom::{Vec2, COORD_LIMIT};
use crate::roads::{Position, renumber};
use crate::camera::{Camera, SCREEN_LIMIT, clamp_val, CENTER_LIMIT};
use crate::game::{Game, Crab};
use crate::gesture::Drag;

verus! {

/// The keys the simulation reacts to: toggling the editor overlay, adding a
/// node or a placement slot at the cursor, dragging a new edge, deleting
/// the hovered node, spawning, and clearing all agents.
pub enum Key {
    Tab,
    N,
    I,
    E,
    Delete,
    Space,
    R,
}

/// The input surface the core consumes: pointer and touch streams arrive
/// merged into one, each event carrying its screen position; key events
/// carry the cursor position and the control-modifier state.
pub enum Event {
    MouseDown { position: Vec2, time: u64 },
    MouseMove { position: Vec2 },
    MouseUp { position: Vec2 },
    Wheel { delta: i64, cursor: Vec2 },
    KeyDown { key: Key, cursor: Vec2, ctrl: bool },
    KeyUp { key: Key, cursor: Vec2 },
}

impl Event {
    /// Every screen position carried by the event is a sane pixel
    /// coordinate, and a wheel delta leaves one step of headroom.
    pub open spec fn wf(self) -> bool {
        match self {
            Event::MouseDown { position, .. } => position.in_bounds(SCREEN_LIMIT as int),
            Event::MouseMove { position } => position.in_bounds(SCREEN_LIMIT as int),
            Event::MouseUp { position } => position.in_bounds(SCREEN_LIMIT as int),
            Event::Wheel { delta, cursor } => cursor.in_bounds(SCREEN_LIMIT as int)
                && i64::MIN < delta,
            Event::KeyDown { cursor, .. } => cursor.in_bounds(SCREEN_LIMIT as int),
            Event::KeyUp { cursor, .. } => cursor.in_bounds(SCREEN_LIMIT as int),
        }
    }
}

/// One agent's placement after node `idx` is deleted: indices above `idx`
/// shift down; an agent heading toward the deleted node comes to a
/// standstill where it is.
pub open spec fn fixup_crab(c: Crab, idx: int) -> Crab {
    let from = if c.position.from as int > idx {
        (c.position.from - 1) as usize
    } else {
        c.position.from
    };
    let position = match c.position.to {
        Some(t) => {
            if t as int == idx {
                Position { from, to: None, distance: 0 }
            } else {
                Position {
                    from,
                    to: Some(if t as int > idx { (t - 1) as usize } else { t }),
                    distance: c.position.distance,
                }
            }
        },
        None => Position { from, to: None, distance: c.position.distance },
    };
    Crab {
        type_index: c.type_index,
        position,
        animation_time: c.animation_time,
        left_hand: c.left_hand,
        right_hand: c.right_hand,
    }
}

/// The agent list after node `idx` is deleted: agents standing at the
/// deleted node leave, every other agent's placement is renumbered.
pub open spec fn fixup_crabs(crabs: Seq<Crab>, idx: int) -> Seq<Crab>
    decreases crabs.len(),
{
    if crabs.len() == 0 {
        Seq::empty()
    } else {
        let rest = fixup_crabs(crabs.drop_last(), idx);
        if crabs.last().position.from as int == idx {
            rest
        } else {
            rest.push(fixup_crab(crabs.last(), idx))
        }
    }
}

/// What deleting node `idx` does to the whole simulation: the graph loses
/// the node and every neighbor list is renumbered, agents standing at the
/// deleted node leave, every other agent's placement is renumbered, and
/// nothing else changes.
pub open spec fn node_deleted(g: Game, g2: Game, idx: int) -> bool {
    &&& g2.roads.nodes@.len() == g.roads.nodes@.len() - 1
    &&& forall|i: int| 0 <= i < g2.roads.nodes@.len() ==> {
            let o = if i < idx { i } else { i + 1 };
            (#[trigger] g2.roads.nodes@[i]).pos == g.roads.nodes@[o].pos
                && g2.roads.nodes@[i].connected@ == renumber(g.roads.nodes@[o].connected@, idx)
        }
    &&& g2.crabs@ == fixup_crabs(g.crabs@, idx)
    &&& g2.config == g.config
    &&& g2.camera == g.camera
    &&& g2.drag == g.drag
    &&& g2.map_size == g.map_size
    &&& g2.item_positions == g.item_positions
    &&& g2.n_item_types == g.n_item_types
    &&& g2.crab_weights == g.crab_weights
    &&& g2.items == g.items
    &&& g2.to_find == g.to_find
    &&& g2.editor == g.editor
    &&& g2.framebuffer_size == g.framebuffer_size
    &&& g2.current_time == g.current_time
}

impl Game {
    /// Deletes a road node and keeps every index in the simulation valid:
    /// the graph's neighbor lists are renumbered, agents standing at the
    /// deleted node leave, and every other agent's placement is renumbered,
    /// so the deletion is atomic with respect to in-flight placements.
    pub fn delete_node(&mut self, idx: usize)
        requires
            old(self).wf(),
            (idx as int) < old(self).roads.n_nodes(),
        ensures
            final(self).wf(),
            node_deleted(*old(self), *final(self), idx as int),
    {
        self.roads.remove_node(idx);
        let n = self.crabs.len();
        let ghost orig = self.crabs@;
        let mut kept: Vec<Crab> = Vec::new();
        let mut i: usize = 0;
        while i < n
            invariant
                n == orig.len(),
                self.crabs@ == orig,
                i <= n,
                forall|k: int| 0 <= k < orig.len()
                    ==> (#[trigger] orig[k]).wf(
                        self.roads.nodes@.len() as int + 1,
                        self.n_item_types as int,
                        self.crab_weights@.len() as int,
                    ),
                (idx as int) <= self.roads.nodes@.len(),
                kept@ == fixup_crabs(orig.subrange(0, i as int), idx as int),
                forall|k: int| 0 <= k < kept@.len()
                    ==> (#[trigger] kept@[k]).wf(
                        self.roads.nodes@.len() as int,
                        self.n_item_types as int,
                        self.crab_weights@.len() as int,
                    ),
            decreases n - i,
        {
            let c = self.crabs[i];
            let ghost pre = orig.subrange(0, i as int);
            let ghost cur = orig.subrange(0, i as int + 1);
            proof {
                assert(cur.drop_last() == pre);
                assert(cur.last() == c);
            }
            if c.position.from != idx {
                let from = if c.position.from > idx {
                    c.position.from - 1
                } else {
                    c.position.from
                };
                let position: Position = match c.position.to {
                    Some(t) => {
                        if t == idx {
                            Position { from, to: None, distance: 0 }
                        } else {
                            Position {
                                from,
                                to: Some(if t > idx {
                                    t - 1
                                } else {
                                    t
                                }),
                                distance: c.position.distance,
                            }
                        }
                    },
                    None => Position { from, to: None, distance: c.position.distance },
                };
                kept.push(Crab {
                    type_index: c.type_index,
                    position,
                    animation_time: c.animation_time,
                    left_hand: c.left_hand,
                    right_hand: c.right_hand,
                });
            }
            i += 1;
        }
        proof {
            assert(orig.subrange(0, n as int) == orig);
        }
        self.crabs = kept;
    }

    /// The per-frame camera clamp against the map's bounds: the field of
    /// view is capped to the least of its old value, the map height, and
    /// the map width under the frame's aspect (floored at one), and the
    /// center is clamped componentwise into the remaining slack, forced to
    /// the map's center on an axis the view spans fully. Clamping again
    /// changes nothing (`lemma_clamp_camera_idempotent`).
    pub fn clamp_camera(&mut self)
        requires
            old(self).wf(),
        ensures
            final(self).wf(),
            final(self).camera.wf(),
            final(self).camera == Camera::clamp_spec(
                old(self).camera,
                old(self).map_size,
                old(self).framebuffer_size,
            ),
            old(self).map_size.x as int * old(self).framebuffer_size.y as int
                / old(self).framebuffer_size.x as int >= 1
                ==> final(self).camera.visible_within_map(
                    old(self).map_size,
                    old(self).framebuffer_size,
                ),
            *final(self) == (Game { camera: final(self).camera, ..*old(self) }),
    {
        let map_size = self.map_size;
        let size = self.framebuffer_size;
        self.camera.clamp_camera(map_size, size);
    }

    /// Supplies the frame's screen size, as the renderer reports it.
    pub fn set_framebuffer_size(&mut self, size: Vec2)
        requires
            old(self).wf(),
            Camera::screen_wf(size),
        ensures
            final(self).wf(),
            *final(self) == (Game { framebuffer_size: size, ..*old(self) }),
    {
        self.framebuffer_size = size;
    }

    /// A pointer-down or touch-start: the classifier restarts.
    fn ev_mouse_down(&mut self, position: Vec2, time: u64)
        requires
            old(self).wf(),
            position.in_bounds(SCREEN_LIMIT as int),
        ensures
            final(self).wf(),
            *final(self) == (Game {
                drag: Drag::Detecting { from: position, start_time: time },
                ..*old(self)
            }),
    {
        self.drag.on_down(position, time);
    }

    /// A pointer move: may escalate the gesture and pans while dragging.
    fn ev_mouse_move(&mut self, position: Vec2)
        requires
            old(self).wf(),
            position.in_bounds(SCREEN_LIMIT as int),
        ensures
            final(self).wf(),
            ({
                let threshold = old(self).config.min_drag_distance as int;
                match old(self).drag {
                    Drag::Idle => *final(self) == *old(self),
                    Drag::Detecting { from, start_time } => {
                        if crate::geom::dist_sq(from, position) > threshold * threshold {
                            *final(self) == (Game {
                                drag: Drag::Dragging { prev_mouse_pos: position },
                                camera: final(self).camera,
                                ..*old(self)
                            }) && pan_ok(*old(self), final(self).camera, from, position)
                        } else {
                            *final(self) == *old(self)
                        }
                    },
                    Drag::Dragging { prev_mouse_pos } => *final(self) == (Game {
                        drag: Drag::Dragging { prev_mouse_pos: position },
                        camera: final(self).camera,
                        ..*old(self)
                    }) && pan_ok(*old(self), final(self).camera, prev_mouse_pos, position),
                }
            }),
    {
        let pan_from = self.drag.on_move(position, self.config.min_drag_distance);
        match pan_from {
            Some(prev) => {
                let size = self.framebuffer_size;
                self.camera.pan(prev, position, size);
            },
            None => {},
        }
    }

    /// A pointer-up or touch-end: a click is resolved when the gesture
    /// never escalated; the classifier returns to idle.
    fn ev_mouse_up(&mut self, position: Vec2)
        requires
            old(self).wf(),
            position.in_bounds(SCREEN_LIMIT as int),
        ensures
            final(self).wf(),
            final(self).drag == Drag::Idle,
            if old(self).drag is Detecting {
                let cw = old(self).camera.screen_to_world_spec(
                    old(self).framebuffer_size,
                    position,
                );
                &&& old(self).click_items_ok(final(self).items@, cw)
                &&& old(self).click_crabs_ok(final(self).crabs@, cw)
                &&& *final(self) == (Game {
                    drag: Drag::Idle,
                    items: final(self).items,
                    crabs: final(self).crabs,
                    ..*old(self)
                })
            } else {
                *final(self) == (Game { drag: Drag::Idle, ..*old(self) })
            },
    {
        let clicked = matches!(self.drag, Drag::Detecting { .. });
        if clicked {
            self.click(position);
        }
        self.drag = Drag::Idle;
    }

    /// A wheel event: zoom toward the cursor.
    fn ev_wheel(&mut self, delta: i64, cursor: Vec2)
        requires
            old(self).wf(),
            cursor.in_bounds(SCREEN_LIMIT as int),
            i64::MIN < delta,
        ensures
            final(self).wf(),
            *final(self) == (Game { camera: final(self).camera, ..*old(self) }),
            final(self).camera.fov as int == Camera::zoom_fov_spec(
                old(self).camera.fov as int,
                old(self).config.zoom_speed_num as int,
                old(self).config.zoom_speed_den as int,
                old(self).config.min_fov as int,
                old(self).config.max_fov as int,
                (if delta >= 0 {
                    delta as int
                } else {
                    -(delta as int)
                }) as nat,
                delta >= 0,
            ),
            ({
                let pw = old(self).camera.screen_to_world_spec(
                    old(self).framebuffer_size,
                    cursor,
                );
                let nw = (Camera { center: old(self).camera.center, fov: final(self).camera.fov })
                    .screen_to_world_spec(old(self).framebuffer_size, cursor);
                &&& final(self).camera.center.x == clamp_val(
                        old(self).camera.center.x + pw.x - nw.x,
                        -CENTER_LIMIT as int,
                        CENTER_LIMIT as int,
                    )
                &&& final(self).camera.center.y == clamp_val(
                        old(self).camera.center.y + pw.y - nw.y,
                        -CENTER_LIMIT as int,
                        CENTER_LIMIT as int,
                    )
                &&& (-CENTER_LIMIT as int <= old(self).camera.center.x + pw.x - nw.x
                        <= CENTER_LIMIT as int
                        && -CENTER_LIMIT as int <= old(self).camera.center.y + pw.y - nw.y
                            <= CENTER_LIMIT as int)
                    ==> final(self).camera.screen_to_world_spec(
                        old(self).framebuffer_size,
                        cursor,
                    ) == pw
            }),
    {
        let size = self.framebuffer_size;
        let num = self.config.zoom_speed_num;
        let den = self.config.zoom_speed_den;
        let min_fov = self.config.min_fov;
        let max_fov = self.config.max_fov;
        self.camera.zoom(delta, num, den, min_fov, max_fov, cursor, size);
    }

    /// A key press: editor toggles and mutations, spawning, clearing.
    fn ev_key_down(&mut self, key: Key, cursor: Vec2, ctrl: bool)
        requires
            old(self).wf(),
            cursor.in_bounds(SCREEN_LIMIT as int),
        ensures
            final(self).wf(),
            match key {
                Key::Tab => *final(self) == (Game {
                    editor: crate::game::Editor {
                        drag_from: old(self).editor.drag_from,
                        shown: !old(self).editor.shown,
                    },
                    ..*old(self)
                }),
                Key::R => {
                    &&& final(self).crabs@.len() == 0
                    &&& *final(self) == (Game { crabs: final(self).crabs, ..*old(self) })
                },
                Key::Space => {
                    if ctrl {
                        &&& final(self).items == old(self).items
                        &&& final(self).crabs@.len() <= old(self).crabs@.len() + 1
                        &&& final(self).same_setting(*old(self))
                    } else {
                        &&& final(self).crabs == old(self).crabs
                        &&& final(self).items@.len() <= old(self).items@.len() + 1
                        &&& final(self).same_setting(*old(self))
                    }
                },
                Key::N => {
                    let w = old(self).camera.screen_to_world_spec(
                        old(self).framebuffer_size,
                        cursor,
                    );
                    if w.in_bounds(COORD_LIMIT as int)
                        && old(self).roads.nodes@.len() < usize::MAX {
                        &&& *final(self) == (Game { roads: final(self).roads, ..*old(self) })
                        &&& final(self).roads.nodes@.len() == old(self).roads.nodes@.len() + 1
                        &&& forall|i: int| 0 <= i < old(self).roads.nodes@.len()
                                ==> final(self).roads.nodes@[i] == old(self).roads.nodes@[i]
                        &&& final(self).roads.nodes@.last().pos == w
                        &&& final(self).roads.nodes@.last().connected@.len() == 0
                    } else {
                        *final(self) == *old(self)
                    }
                },
                Key::I => {
                    let w = old(self).camera.screen_to_world_spec(
                        old(self).framebuffer_size,
                        cursor,
                    );
                    if w.in_bounds(COORD_LIMIT as int) {
                        &&& *final(self) == (Game {
                            item_positions: final(self).item_positions,
                            ..*old(self)
                        })
                        &&& final(self).item_positions@ == old(self).item_positions@.push(w)
                    } else {
                        *final(self) == *old(self)
                    }
                },
                Key::E => {
                    let cw = old(self).camera.screen_to_world_spec(
                        old(self).framebuffer_size,
                        cursor,
                    );
                    if old(self).editor.drag_from is Some {
                        *final(self) == *old(self)
                    } else {
                        &&& final(self).editor.shown == old(self).editor.shown
                        &&& *final(self) == (Game { editor: final(self).editor, ..*old(self) })
                        &&& match final(self).editor.drag_from {
                                Some(h) => old(self).is_first_hovered(cw, h as int),
                                None => old(self).no_hovered(cw),
                            }
                    }
                },
                Key::Delete => {
                    let cw = old(self).camera.screen_to_world_spec(
                        old(self).framebuffer_size,
                        cursor,
                    );
                    if old(self).no_hovered(cw) {
                        *final(self) == *old(self)
                    } else {
                        exists|h: int|
                            {
                                &&& old(self).is_first_hovered(cw, h)
                                &&& node_deleted(*old(self), *final(self), h)
                            }
                    }
                },
            },
    {
        match key {
            Key::Tab => {
                self.editor.shown = !self.editor.shown;
            },
            Key::N => {
                let w = self.camera.screen_to_world(self.framebuffer_size, cursor);
                if -COORD_LIMIT <= w.x && w.x <= COORD_LIMIT && -COORD_LIMIT <= w.y
                    && w.y <= COORD_LIMIT && self.roads.nodes.len() < usize::MAX {
                    self.roads.add_node(w);
                }
            },
            Key::I => {
                let w = self.camera.screen_to_world(self.framebuffer_size, cursor);
                if -COORD_LIMIT <= w.x && w.x <= COORD_LIMIT && -COORD_LIMIT <= w.y
                    && w.y <= COORD_LIMIT {
                    self.item_positions.push(w);
                }
            },
            Key::E => {
                if matches!(self.editor.drag_from, None) {
                    self.editor.drag_from = self.hovered_road_node(cursor);
                }
            },
            Key::Delete => {
                match self.hovered_road_node(cursor) {
                    Some(idx) => {
                        self.delete_node(idx);
                    },
                    None => {},
                }
            },
            Key::Space => {
                if ctrl {
                    self.spawn_crab();
                } else {
                    self.spawn_item();
                }
            },
            Key::R => {
                self.crabs = Vec::new();
            },
        }
    }

    /// A key release: finishing an edge drag.
    fn ev_key_up(&mut self, key: Key, cursor: Vec2)
        requires
            old(self).wf(),
            cursor.in_bounds(SCREEN_LIMIT as int),
        ensures
            final(self).wf(),
            match key {
                Key::E => {
                    let cw = old(self).camera.screen_to_world_spec(
                        old(self).framebuffer_size,
                        cursor,
                    );
                    &&& final(self).editor.drag_from is None
                    &&& final(self).editor.shown == old(self).editor.shown
                    &&& *final(self) == (Game {
                        editor: final(self).editor,
                        roads: final(self).roads,
                        ..*old(self)
                    })
                    &&& match old(self).editor.drag_from {
                            None => final(self).roads == old(self).roads,
                            Some(f) => {
                                if (f as int) < old(self).roads.n_nodes()
                                    && !old(self).no_hovered(cw) {
                                    exists|h: int|
                                        {
                                            &&& old(self).is_first_hovered(cw, h)
                                            &&& crate::roads::edge_added(
                                                old(self).roads,
                                                final(self).roads,
                                                f,
                                                h as usize,
                                            )
                                        }
                                } else {
                                    final(self).roads == old(self).roads
                                }
                            },
                        }
                },
                _ => *final(self) == *old(self),
            },
    {
        match key {
            Key::E => {
                let from = self.editor.drag_from;
                self.editor.drag_from = None;
                match from {
                    Some(f) => {
                        match self.hovered_road_node(cursor) {
                            Some(t) => {
                                if f < self.roads.nodes.len() {
                                    self.roads.add_edge(f, t);
                                    proof {
                                        let cw = old(self).camera.screen_to_world_spec(
                                            old(self).framebuffer_size,
                                            cursor,
                                        );
                                        assert(old(self).is_first_hovered(cw, t as int));
                                        assert(crate::roads::edge_added(
                                            old(self).roads,
                                            self.roads,
                                            f,
                                            t,
                                        ));
                                    }
                                }
                            },
                            None => {},
                        }
                    },
                    None => {},
                }
            },
            _ => {},
        }
    }

    /// Dispatches one input event: pointer events feed the gesture
    /// classifier, whose outcomes pan the camera or resolve a click; the
    /// wheel zooms toward the cursor; keys drive the editor, spawning, and
    /// clearing.
    pub fn handle_event(&mut self, event: Event)
        requires
            old(self).wf(),
            event.wf(),
        ensures
            final(self).wf(),
            match event {
                Event::MouseDown { position, time } => *final(self) == (Game {
                    drag: Drag::Detecting { from: position, start_time: time },
                    ..*old(self)
                }),
                Event::MouseMove { position } => {
                    let threshold = old(self).config.min_drag_distance as int;
                    match old(self).drag {
                        Drag::Idle => *final(self) == *old(self),
                        Drag::Detecting { from, start_time } => {
                            if crate::geom::dist_sq(from, position) > threshold * threshold {
                                *final(self) == (Game {
                                    drag: Drag::Dragging { prev_mouse_pos: position },
                                    camera: final(self).camera,
                                    ..*old(self)
                                }) && pan_ok(*old(self), final(self).camera, from, position)
                            } else {
                                *final(self) == *old(self)
                            }
                        },
                        Drag::Dragging { prev_mouse_pos } => *final(self) == (Game {
                            drag: Drag::Dragging { prev_mouse_pos: position },
                            camera: final(self).camera,
                            ..*old(self)
                        }) && pan_ok(*old(self), final(self).camera, prev_mouse_pos, position),
                    }
                },
                Event::MouseUp { position } => {
                    &&& final(self).drag == Drag::Idle
                    &&& if old(self).drag is Detecting {
                            let cw = old(self).camera.screen_to_world_spec(
                                old(self).framebuffer_size,
                                position,
                            );
                            &&& old(self).click_items_ok(final(self).items@, cw)
                            &&& old(self).click_crabs_ok(final(self).crabs@, cw)
                            &&& *final(self) == (Game {
                                drag: Drag::Idle,
                                items: final(self).items,
                                crabs: final(self).crabs,
                                ..*old(self)
                            })
                        } else {
                            *final(self) == (Game { drag: Drag::Idle, ..*old(self) })
                        }
                },
                Event::Wheel { delta, cursor } => {
                    let pw = old(self).camera.screen_to_world_spec(
                        old(self).framebuffer_size,
                        cursor,
                    );
                    let nw = (Camera {
                        center: old(self).camera.center,
                        fov: final(self).camera.fov,
                    }).screen_to_world_spec(old(self).framebuffer_size, cursor);
                    &&& *final(self) == (Game { camera: final(self).camera, ..*old(self) })
                    &&& final(self).camera.fov as int == Camera::zoom_fov_spec(
                            old(self).camera.fov as int,
                            old(self).config.zoom_speed_num as int,
                            old(self).config.zoom_speed_den as int,
                            old(self).config.min_fov as int,
                            old(self).config.max_fov as int,
                            (if delta >= 0 {
                                delta as int
                            } else {
                                -(delta as int)
                            }) as nat,
                            delta >= 0,
                        )
                    &&& final(self).camera.center.x == clamp_val(
                            old(self).camera.center.x + pw.x - nw.x,
                            -CENTER_LIMIT as int,
                            CENTER_LIMIT as int,
                        )
                    &&& final(self).camera.center.y == clamp_val(
                            old(self).camera.center.y + pw.y - nw.y,
                            -CENTER_LIMIT as int,
                            CENTER_LIMIT as int,
                        )
                    &&& (-CENTER_LIMIT as int <= old(self).camera.center.x + pw.x - nw.x
                            <= CENTER_LIMIT as int
                            && -CENTER_LIMIT as int <= old(self).camera.center.y + pw.y - nw.y
                                <= CENTER_LIMIT as int)
                        ==> final(self).camera.screen_to_world_spec(
                            old(self).framebuffer_size,
                            cursor,
                        ) == pw
                },
                Event::KeyDown { key, cursor, ctrl } => match key {
                    Key::Tab => *final(self) == (Game {
                        editor: crate::game::Editor {
                            drag_from: old(self).editor.drag_from,
                            shown: !old(self).editor.shown,
                        },
                        ..*old(self)
                    }),
                    Key::R => {
                        &&& final(self).crabs@.len() == 0
                        &&& *final(self) == (Game { crabs: final(self).crabs, ..*old(self) })
                    },
                    Key::Space => {
                        if ctrl {
                            &&& final(self).items == old(self).items
                            &&& final(self).crabs@.len() <= old(self).crabs@.len() + 1
                            &&& final(self).same_setting(*old(self))
                        } else {
                            &&& final(self).crabs == old(self).crabs
                            &&& final(self).items@.len() <= old(self).items@.len() + 1
                            &&& final(self).same_setting(*old(self))
                        }
                    },
                    Key::N => {
                        let w = old(self).camera.screen_to_world_spec(
                            old(self).framebuffer_size,
                            cursor,
                        );
                        if w.in_bounds(COORD_LIMIT as int)
                            && old(self).roads.nodes@.len() < usize::MAX {
                            &&& *final(self) == (Game {
                                roads: final(self).roads,
                                ..*old(self)
                            })
                            &&& final(self).roads.nodes@.len()
                                == old(self).roads.nodes@.len() + 1
                            &&& forall|i: int| 0 <= i < old(self).roads.nodes@.len()
                                    ==> final(self).roads.nodes@[i] == old(self).roads.nodes@[i]
                            &&& final(self).roads.nodes@.last().pos == w
                            &&& final(self).roads.nodes@.last().connected@.len() == 0
                        } else {
                            *final(self) == *old(self)
                        }
                    },
                    Key::I => {
                        let w = old(self).camera.screen_to_world_spec(
                            old(self).framebuffer_size,
                            cursor,
                        );
                        if w.in_bounds(COORD_LIMIT as int) {
                            &&& *final(self) == (Game {
                                item_positions: final(self).item_positions,
                                ..*old(self)
                            })
                            &&& final(self).item_positions@
                                == old(self).item_positions@.push(w)
                        } else {
                            *final(self) == *old(self)
                        }
                    },
                    Key::E => {
                        let cw = old(self).camera.screen_to_world_spec(
                            old(self).framebuffer_size,
                            cursor,
                        );
                        if old(self).editor.drag_from is Some {
                            *final(self) == *old(self)
                        } else {
                            &&& final(self).editor.shown == old(self).editor.shown
                            &&& *final(self) == (Game {
                                editor: final(self).editor,
                                ..*old(self)
                            })
                            &&& match final(self).editor.drag_from {
                                    Some(h) => old(self).is_first_hovered(cw, h as int),
                                    None => old(self).no_hovered(cw),
                                }
                        }
                    },
                    Key::Delete => {
                        let cw = old(self).camera.screen_to_world_spec(
                            old(self).framebuffer_size,
                            cursor,
                        );
                        if old(self).no_hovered(cw) {
                            *final(self) == *old(self)
                        } else {
                            exists|h: int|
                                {
                                    &&& old(self).is_first_hovered(cw, h)
                                    &&& node_deleted(*old(self), *final(self), h)
                                }
                        }
                    },
                },
                Event::KeyUp { key, cursor } => match key {
                    Key::E => {
                        let cw = old(self).camera.screen_to_world_spec(
                            old(self).framebuffer_size,
                            cursor,
                        );
                        &&& final(self).editor.drag_from is None
                        &&& final(self).editor.shown == old(self).editor.shown
                        &&& *final(self) == (Game {
                            editor: final(self).editor,
                            roads: final(self).roads,
                            ..*old(self)
                        })
                        &&& match old(self).editor.drag_from {
                                None => final(self).roads == old(self).roads,
                                Some(f) => {
                                    if (f as int) < old(self).roads.n_nodes()
                                        && !old(self).no_hovered(cw) {
                                        exists|h: int|
                                            {
                                                &&& old(self).is_first_hovered(cw, h)
                                                &&& crate::roads::edge_added(
                                                    old(self).roads,
                                                    final(self).roads,
                                                    f,
                                                    h as usize,
                                                )
                                            }
                                    } else {
                                        final(self).roads == old(self).roads
                                    }
                                },
                            }
                    },
                    _ => *final(self) == *old(self),
                },
            },
    {
        match event {
            Event::MouseDown { position, time } => {
                self.ev_mouse_down(position, time);
            },
            Event::MouseMove { position } => {
                self.ev_mouse_move(position);
            },
            Event::MouseUp { position } => {
                self.ev_mouse_up(position);
            },
            Event::Wheel { delta, cursor } => {
                self.ev_wheel(delta, cursor);
            },
            Event::KeyDown { key, cursor, ctrl } => {
                self.ev_key_down(key, cursor, ctrl);
            },
            Event::KeyUp { key, cursor } => {
                self.ev_key_up(key, cursor);
            },
        }
    }
}

/// The camera after a pan between two screen points: the center moved by
/// their world-space difference, kept within its working range.
pub open spec fn pan_ok(g: Game, cam: Camera, from: Vec2, to: Vec2) -> bool {
    let wf2 = g.camera.screen_to_world_spec(g.framebuffer_size, from);
    let wt = g.camera.screen_to_world_spec(g.framebuffer_size, to);
    &&& cam.fov == g.camera.fov
    &&& cam.center.x == clamp_val(
            g.camera.center.x + wf2.x - wt.x,
            -CENTER_LIMIT as int,
            CENTER_LIMIT as int,
        )
    &&& cam.center.y == clamp_val(
            g.camera.center.y + wf2.y - wt.y,
            -CENTER_LIMIT as int,
            CENTER_LIMIT as int,
        )
}

} // verus!
