use vstd::prelude::*;
use crate::geom::{Vec2, COORD_LIMIT};
use crate::anim::ANGLE_TURN;
use crate::camera::FOV_LIMIT;

verus! {

/// Bound on a per-tick speed or rate.
pub const RATE_LIMIT: i64 = 0x10_0000;

/// Bound on one tick's delta-time.
pub const DT_LIMIT: i64 = 0x800;

/// Bound on the numerator and denominator of a zoom or slow-down ratio.
pub const RATIO_LIMIT: i64 = 0x10_0000;

/// Bound on a hand attach-point offset.
pub const HAND_LIMIT: i64 = 0x10_0000;

/// The tuning surface of the simulation, loaded once at startup. Lengths and
/// speeds are in fixed-point world units, angles in units of
/// 1/`ANGLE_TURN` of a turn, probabilities and the zoom and slow-down
/// factors as integer ratios, times in the integer time unit of the host.
pub struct Config {
    pub click_radius: i64,
    pub crabs: usize,
    pub free_items: usize,
    pub min_drag_distance: i64,
    pub default_fov: i64,
    pub drag_start_timer: u64,
    pub crab_speed: i64,
    pub road_node_ui_radius: i64,
    pub zoom_speed_num: i64,
    pub zoom_speed_den: i64,
    pub min_fov: i64,
    pub max_fov: i64,
    pub animation_speed: i64,
    pub jump_height: i64,
    pub jump_rotation_amplitude: i64,
    pub collision_check_distance: i64,
    pub collision_check_radius: i64,
    pub collision_slow_down_num: i64,
    pub collision_slow_down_den: i64,
    pub crab_hold_item_num: u32,
    pub crab_hold_item_den: u32,
    pub crab_hold_double_num: u32,
    pub crab_hold_double_den: u32,
    pub crab_left_hand_pos: Vec2,
    pub crab_right_hand_pos: Vec2,
    pub types_to_find: usize,
}

impl Config {
    /// Every parameter within its machine bounds: radii and lengths are
    /// non-negative stored coordinates, ratios have positive denominators,
    /// the slow-down and zoom factors are at least one (they divide and
    /// multiply the base values), and probabilities are proper fractions.
    pub open spec fn wf(self) -> bool {
        &&& 0 <= self.click_radius <= COORD_LIMIT
        &&& 0 <= self.min_drag_distance <= COORD_LIMIT
        &&& 1 <= self.default_fov <= FOV_LIMIT
        &&& 1 <= self.min_fov <= self.max_fov <= FOV_LIMIT
        &&& 0 <= self.crab_speed <= RATE_LIMIT
        &&& 0 <= self.road_node_ui_radius <= COORD_LIMIT
        &&& 1 <= self.zoom_speed_den <= self.zoom_speed_num <= RATIO_LIMIT
        &&& 0 <= self.animation_speed <= RATE_LIMIT
        &&& 0 <= self.jump_height <= COORD_LIMIT
        &&& 0 <= self.jump_rotation_amplitude <= ANGLE_TURN
        &&& 0 <= self.collision_check_distance <= COORD_LIMIT
        &&& 0 <= self.collision_check_radius <= COORD_LIMIT
        &&& 1 <= self.collision_slow_down_den <= self.collision_slow_down_num <= RATIO_LIMIT
        &&& 1 <= self.crab_hold_item_den && self.crab_hold_item_num <= self.crab_hold_item_den
        &&& 1 <= self.crab_hold_double_den
            && self.crab_hold_double_num <= self.crab_hold_double_den
        &&& self.crab_left_hand_pos.in_bounds(HAND_LIMIT as int)
        &&& self.crab_right_hand_pos.in_bounds(HAND_LIMIT as int)
    }

    /// Checks every bound of `wf`; loading treats a failure as fatal.
    pub fn validate(&self) -> (b: bool)
        ensures
            b == self.wf(),
    {
        0 <= self.click_radius && self.click_radius <= COORD_LIMIT
            && 0 <= self.min_drag_distance && self.min_drag_distance <= COORD_LIMIT
            && 1 <= self.default_fov && self.default_fov <= FOV_LIMIT
            && 1 <= self.min_fov && self.min_fov <= self.max_fov && self.max_fov <= FOV_LIMIT
            && 0 <= self.crab_speed && self.crab_speed <= RATE_LIMIT
            && 0 <= self.road_node_ui_radius && self.road_node_ui_radius <= COORD_LIMIT
            && 1 <= self.zoom_speed_den && self.zoom_speed_den <= self.zoom_speed_num
            && self.zoom_speed_num <= RATIO_LIMIT
            && 0 <= self.animation_speed && self.animation_speed <= RATE_LIMIT
            && 0 <= self.jump_height && self.jump_height <= COORD_LIMIT
            && 0 <= self.jump_rotation_amplitude && self.jump_rotation_amplitude <= ANGLE_TURN
            && 0 <= self.collision_check_distance
            && self.collision_check_distance <= COORD_LIMIT
            && 0 <= self.collision_check_radius && self.collision_check_radius <= COORD_LIMIT
            && 1 <= self.collision_slow_down_den
            && self.collision_slow_down_den <= self.collision_slow_down_num
            && self.collision_slow_down_num <= RATIO_LIMIT
            && 1 <= self.crab_hold_item_den
            && self.crab_hold_item_num <= self.crab_hold_item_den
            && 1 <= self.crab_hold_double_den
            && self.crab_hold_double_num <= self.crab_hold_double_den
            && -HAND_LIMIT <= self.crab_left_hand_pos.x && self.crab_left_hand_pos.x <= HAND_LIMIT
            && -HAND_LIMIT <= self.crab_left_hand_pos.y && self.crab_left_hand_pos.y <= HAND_LIMIT
            && -HAND_LIMIT <= self.crab_right_hand_pos.x
            && self.crab_right_hand_pos.x <= HAND_LIMIT
            && -HAND_LIMIT <= self.crab_right_hand_pos.y
            && self.crab_right_hand_pos.y <= HAND_LIMIT
    }
}

} // verus!
