use find_ferris::geom::Vec2;
use find_ferris::gesture::Drag;
use find_ferris::camera::Camera;

#[test]
fn click_when_released_in_place() {
    // Pointer-down at (100,100), release at (100,100) before the dwell
    // timer: exactly one click, no pan.
    let mut drag = Drag::Idle;
    drag.on_down(Vec2 { x: 100, y: 100 }, 0);
    drag.poll(10, 1000);
    let pan = drag.on_move(Vec2 { x: 100, y: 100 }, 5);
    assert!(pan.is_none());
    let click = drag.on_up();
    assert!(click);
    assert!(matches!(drag, Drag::Idle));
    // A second release gives no second click.
    assert!(!drag.on_up());
}

#[test]
fn drag_by_distance() {
    // Pointer-down at (0,0), move to (50,0) past the threshold: no click,
    // at least one pan delta, and the classifier ends idle.
    let mut drag = Drag::Idle;
    drag.on_down(Vec2 { x: 0, y: 0 }, 0);
    let pan = drag.on_move(Vec2 { x: 50, y: 0 }, 10);
    assert_eq!(pan, Some(Vec2 { x: 0, y: 0 }));
    assert!(matches!(drag, Drag::Dragging { .. }));
    let pan2 = drag.on_move(Vec2 { x: 60, y: 0 }, 10);
    assert_eq!(pan2, Some(Vec2 { x: 50, y: 0 }));
    let click = drag.on_up();
    assert!(!click);
    assert!(matches!(drag, Drag::Idle));
}

#[test]
fn small_move_does_not_escalate() {
    let mut drag = Drag::Idle;
    drag.on_down(Vec2 { x: 0, y: 0 }, 0);
    let pan = drag.on_move(Vec2 { x: 3, y: 0 }, 10);
    assert!(pan.is_none());
    assert!(matches!(drag, Drag::Detecting { .. }));
}

#[test]
fn drag_by_dwell() {
    // A press held in place longer than the timer becomes a drag on the
    // next poll, without any move event.
    let mut drag = Drag::Idle;
    drag.on_down(Vec2 { x: 5, y: 5 }, 0);
    drag.poll(500, 1000);
    assert!(matches!(drag, Drag::Detecting { .. }));
    drag.poll(2000, 1000);
    match drag {
        Drag::Dragging { prev_mouse_pos } => assert_eq!(prev_mouse_pos, Vec2 { x: 5, y: 5 }),
        _ => panic!("dwell did not escalate to a drag"),
    }
    assert!(!drag.on_up());
}

#[test]
fn screen_to_world_center_and_offset() {
    let cam = Camera { center: Vec2 { x: 0, y: 0 }, fov: 100 };
    let size = Vec2 { x: 100, y: 100 };
    assert_eq!(cam.screen_to_world(size, Vec2 { x: 50, y: 50 }), Vec2 { x: 0, y: 0 });
    assert_eq!(cam.screen_to_world(size, Vec2 { x: 100, y: 50 }), Vec2 { x: 50, y: 0 });
    assert_eq!(cam.screen_to_world(size, Vec2 { x: 0, y: 0 }), Vec2 { x: -50, y: -50 });
    let moved = Camera { center: Vec2 { x: 10, y: 20 }, fov: 100 };
    assert_eq!(moved.screen_to_world(size, Vec2 { x: 50, y: 50 }), Vec2 { x: 10, y: 20 });
}

#[test]
fn pan_moves_center_by_world_offset() {
    let mut cam = Camera { center: Vec2 { x: 0, y: 0 }, fov: 100 };
    let size = Vec2 { x: 100, y: 100 };
    cam.pan(Vec2 { x: 50, y: 50 }, Vec2 { x: 60, y: 50 }, size);
    assert_eq!(cam.center, Vec2 { x: -10, y: 0 });
    assert_eq!(cam.fov, 100);
}

#[test]
fn camera_clamp_pulls_view_inside_map() {
    // Any prior center and field of view end inside the map's rectangle.
    let mut cam = Camera { center: Vec2 { x: 1000, y: -1000 }, fov: 100 };
    let map = Vec2 { x: 200, y: 200 };
    let size = Vec2 { x: 100, y: 100 };
    cam.clamp_camera(map, size);
    assert_eq!(cam.fov, 100);
    assert_eq!(cam.center, Vec2 { x: 50, y: -50 });
    // The visible rectangle is 100 x 100 centered at (50,-50): inside.
    let mut wide = Camera { center: Vec2 { x: 3, y: 4 }, fov: 500 };
    wide.clamp_camera(map, size);
    // The field of view is capped to the map and the center forced to it.
    assert_eq!(wide.fov, 200);
    assert_eq!(wide.center, Vec2 { x: 0, y: 0 });
}

#[test]
fn clamp_is_idempotent() {
    let mut cam = Camera { center: Vec2 { x: 77, y: -31 }, fov: 130 };
    let map = Vec2 { x: 200, y: 200 };
    let size = Vec2 { x: 160, y: 100 };
    cam.clamp_camera(map, size);
    let once = (cam.center, cam.fov);
    cam.clamp_camera(map, size);
    assert_eq!((cam.center, cam.fov), once);
}

#[test]
fn zoom_keeps_cursor_point_fixed() {
    let mut cam = Camera { center: Vec2 { x: 0, y: 0 }, fov: 100 };
    let size = Vec2 { x: 100, y: 100 };
    let cursor = Vec2 { x: 75, y: 50 };
    let before = cam.screen_to_world(size, cursor);
    assert_eq!(before, Vec2 { x: 25, y: 0 });
    cam.zoom(1, 2, 1, 10, 1000, cursor, size);
    assert_eq!(cam.fov, 50);
    let after = cam.screen_to_world(size, cursor);
    assert_eq!(after, before);
}

#[test]
fn zoom_clamps_to_bounds() {
    let mut cam = Camera { center: Vec2 { x: 0, y: 0 }, fov: 100 };
    let size = Vec2 { x: 100, y: 100 };
    let cursor = Vec2 { x: 50, y: 50 };
    cam.zoom(10, 2, 1, 30, 1000, cursor, size);
    assert_eq!(cam.fov, 30);
    cam.zoom(-10, 2, 1, 30, 1000, cursor, size);
    assert_eq!(cam.fov, 1000);
}
