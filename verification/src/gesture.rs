use vstd::prelude::*;
use crate::geom::{Vec2, dist_sq, COORD_LIMIT, VIEW_LIMIT};

verus! {

/// The gesture classifier's state: a press starts in `Detecting`, escalates
/// to `Dragging` by moving far enough or by dwelling long enough, and a
/// release while still `Detecting` is a click. Only one pointer stream is
/// tracked; a second concurrent touch is not supported, its events simply
/// restart or feed the one gesture.
pub enum Drag {
    Idle,
    Detecting { from: Vec2, start_time: u64 },
    Dragging { prev_mouse_pos: Vec2 },
}

/// Time elapsed since `start`, zero when the clock reads earlier than
/// `start`.
pub open spec fn elapsed_spec(now: u64, start: u64) -> int {
    if now >= start {
        now - start
    } else {
        0
    }
}

impl Drag {
    /// A pointer-down or touch-start restarts the classifier
    /// unconditionally, recording the press position and time.
    pub fn on_down(&mut self, pos: Vec2, now: u64)
        ensures
            *final(self) == (Drag::Detecting { from: pos, start_time: now }),
    {
        *self = Drag::Detecting { from: pos, start_time: now };
    }

    /// A pointer move. While `Detecting`, a move beyond the drag threshold
    /// escalates to `Dragging`; while `Dragging`, the previous pointer
    /// position is returned so the caller can pan by the difference, and
    /// the position is updated. A move while `Idle` changes nothing.
    pub fn on_move(&mut self, pos: Vec2, min_drag_distance: i64) -> (pan_from: Option<Vec2>)
        requires
            pos.in_bounds(VIEW_LIMIT as int),
            0 <= min_drag_distance <= COORD_LIMIT,
            (match *old(self) {
                Drag::Detecting { from, .. } => from.in_bounds(VIEW_LIMIT as int),
                _ => true,
            }),
        ensures
            match *old(self) {
                Drag::Idle => *final(self) == Drag::Idle && pan_from == Option::<Vec2>::None,
                Drag::Detecting { from, start_time } => {
                    if dist_sq(from, pos) > min_drag_distance * min_drag_distance {
                        &&& *final(self) == (Drag::Dragging { prev_mouse_pos: pos })
                        &&& pan_from == Some(from)
                    } else {
                        &&& *final(self) == *old(self)
                        &&& pan_from == Option::<Vec2>::None
                    }
                },
                Drag::Dragging { prev_mouse_pos } => {
                    &&& *final(self) == (Drag::Dragging { prev_mouse_pos: pos })
                    &&& pan_from == Some(prev_mouse_pos)
                },
            },
    {
        match *self {
            Drag::Idle => None,
            Drag::Detecting { from, start_time: _ } => {
                let dx: i128 = from.x as i128 - pos.x as i128;
                let dy: i128 = from.y as i128 - pos.y as i128;
                proof {
                    assert(dx * dx >= 0 && dx * dx <= 0x40_0000_0000_0000_0000_0000_0000_0000
                        && dy * dy >= 0 && dy * dy <= 0x40_0000_0000_0000_0000_0000_0000_0000)
                        by (nonlinear_arith)
                        requires
                            -0x80_0000_0000_0000i128 <= dx <= 0x80_0000_0000_0000i128,
                            -0x80_0000_0000_0000i128 <= dy <= 0x80_0000_0000_0000i128;
                    assert((min_drag_distance as i128) * (min_drag_distance as i128)
                        <= 0x1000_0000_0000_0000i128) by (nonlinear_arith)
                        requires 0 <= min_drag_distance as i128 <= 0x4000_0000i128;
                }
                if dx * dx + dy * dy
                    > (min_drag_distance as i128) * (min_drag_distance as i128) {
                    *self = Drag::Dragging { prev_mouse_pos: pos };
                    Some(from)
                } else {
                    None
                }
            },
            Drag::Dragging { prev_mouse_pos } => {
                *self = Drag::Dragging { prev_mouse_pos: pos };
                Some(prev_mouse_pos)
            },
        }
    }

    /// The per-tick poll: a press held in `Detecting` longer than the drag
    /// timer becomes a drag even without any movement.
    pub fn poll(&mut self, now: u64, drag_start_timer: u64)
        ensures
            match *old(self) {
                Drag::Detecting { from, start_time } => {
                    if elapsed_spec(now, start_time) > drag_start_timer {
                        *final(self) == (Drag::Dragging { prev_mouse_pos: from })
                    } else {
                        *final(self) == *old(self)
                    }
                },
                _ => *final(self) == *old(self),
            },
    {
        match *self {
            Drag::Detecting { from, start_time } => {
                let elapsed: u64 = if now >= start_time {
                    now - start_time
                } else {
                    0
                };
                if elapsed > drag_start_timer {
                    *self = Drag::Dragging { prev_mouse_pos: from };
                }
            },
            _ => {},
        }
    }

    /// A pointer-up or touch-end: a click exactly when the gesture never
    /// escalated out of `Detecting`; the classifier always returns to
    /// `Idle`.
    pub fn on_up(&mut self) -> (click: bool)
        ensures
            *final(self) == Drag::Idle,
            click == (*old(self) is Detecting),
    {
        let click = match *self {
            Drag::Detecting { .. } => true,
            _ => false,
        };
        *self = Drag::Idle;
        click
    }
}

} // verus!
