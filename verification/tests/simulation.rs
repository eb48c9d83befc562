use find_ferris::geom::Vec2;
use find_ferris::roads::{Roads, RoadNode, Position};
use find_ferris::config::Config;
use find_ferris::game::{Game, Crab, Item};
use find_ferris::gesture::Drag;
use find_ferris::events::{Event, Key};
use find_ferris::rng::weighted_choice;

fn test_config() -> Config {
    Config {
        click_radius: 5,
        crabs: 0,
        free_items: 0,
        min_drag_distance: 10,
        default_fov: 100,
        drag_start_timer: 1000,
        crab_speed: 4,
        road_node_ui_radius: 3,
        zoom_speed_num: 2,
        zoom_speed_den: 1,
        min_fov: 10,
        max_fov: 1000,
        animation_speed: 0,
        jump_height: 0,
        jump_rotation_amplitude: 0,
        collision_check_distance: 0,
        collision_check_radius: 8,
        collision_slow_down_num: 2,
        collision_slow_down_den: 1,
        crab_hold_item_num: 1,
        crab_hold_item_den: 1,
        crab_hold_double_num: 1,
        crab_hold_double_den: 1,
        crab_left_hand_pos: Vec2 { x: 2, y: 0 },
        crab_right_hand_pos: Vec2 { x: -2, y: 0 },
        types_to_find: 1,
    }
}

fn node(x: i64, y: i64, connected: Vec<usize>) -> RoadNode {
    RoadNode { pos: Vec2 { x, y }, connected }
}

fn empty_game() -> Game {
    let mut game = Game::new(
        test_config(),
        Roads { nodes: vec![node(0, 0, vec![1]), node(10, 0, vec![])] },
        vec![Vec2 { x: 0, y: 0 }],
        Vec2 { x: 200, y: 200 },
        5,
        vec![1],
    );
    game.set_framebuffer_size(Vec2 { x: 100, y: 100 });
    game.items = vec![];
    game.crabs = vec![];
    game.to_find = vec![0];
    game
}

fn crab_at(from: usize, to: Option<usize>, distance: i64) -> Crab {
    Crab {
        type_index: 0,
        position: Position { from, to, distance },
        animation_time: 0,
        left_hand: None,
        right_hand: None,
    }
}

#[test]
fn new_samples_distinct_targets() {
    let mut config = test_config();
    config.types_to_find = 3;
    config.crabs = 2;
    config.free_items = 1;
    let game = Game::new(
        config,
        Roads { nodes: vec![node(0, 0, vec![1]), node(10, 0, vec![])] },
        vec![Vec2 { x: 0, y: 0 }, Vec2 { x: 5, y: 5 }],
        Vec2 { x: 200, y: 200 },
        5,
        vec![1, 3],
    );
    assert_eq!(game.to_find.len(), 3);
    for &t in &game.to_find {
        assert!(t < 5);
    }
    for i in 0..3 {
        for j in (i + 1)..3 {
            assert_ne!(game.to_find[i], game.to_find[j]);
        }
    }
    assert_eq!(game.camera.center, Vec2 { x: 0, y: 0 });
    assert_eq!(game.camera.fov, 100);
    assert!(matches!(game.drag, Drag::Idle));
    assert_eq!(game.crabs.len(), 2);
    assert_eq!(game.items.len(), 1);
}

#[test]
fn weighted_choice_picks_positive_weight() {
    assert_eq!(weighted_choice(&vec![0, 0, 7]), Some(2));
    assert_eq!(weighted_choice(&vec![0, 0, 0]), None);
    assert_eq!(weighted_choice(&vec![]), None);
    let r = weighted_choice(&vec![1, 0, 2]).unwrap();
    assert!(r == 0 || r == 2);
}

#[test]
fn spawn_item_takes_the_free_slot() {
    let mut game = empty_game();
    game.spawn_item();
    assert_eq!(game.items.len(), 1);
    assert_eq!(game.items[0].pos_index, 0);
    assert!(game.items[0].type_index < 5);
    // Every slot is now occupied: a second spawn is a no-op.
    game.spawn_item();
    assert_eq!(game.items.len(), 1);
}

#[test]
fn spawn_crab_dead_end_then_exhaustion() {
    let mut game = empty_game();
    game.roads = Roads { nodes: vec![node(0, 0, vec![])] };
    game.spawn_crab();
    assert_eq!(game.crabs.len(), 1);
    assert_eq!(game.crabs[0].position.from, 0);
    assert!(game.crabs[0].position.to.is_none());
    assert_eq!(game.crabs[0].position.distance, 0);
    // The hold probabilities are both 1: the agent holds in both hands.
    assert!(game.crabs[0].left_hand.is_some());
    assert!(game.crabs[0].right_hand.is_some());
    // The only node is a dead end and already hosts an agent: no candidate.
    game.spawn_crab();
    assert_eq!(game.crabs.len(), 1);
}

#[test]
fn spawn_crab_heads_along_an_edge() {
    let mut game = empty_game();
    game.roads = Roads { nodes: vec![node(0, 0, vec![1]), node(10, 0, vec![0])] };
    game.spawn_crab();
    assert_eq!(game.crabs.len(), 1);
    let p = &game.crabs[0].position;
    let to = p.to.expect("a connected node spawns a moving agent");
    assert!(p.from < 2 && to < 2 && to != p.from);
    assert!(0 <= p.distance && p.distance < 10);
}

#[test]
fn item_count_adds_ground_and_hands() {
    let mut game = empty_game();
    game.item_positions = vec![Vec2 { x: 0, y: 0 }, Vec2 { x: 5, y: 5 }];
    game.items = vec![
        Item { type_index: 1, pos_index: 0, rot: 0 },
        Item { type_index: 1, pos_index: 1, rot: 7 },
    ];
    let mut crab = crab_at(0, None, 0);
    crab.left_hand = Some(1);
    crab.right_hand = Some(0);
    game.crabs = vec![crab];
    assert_eq!(game.item_count(1), 3);
    assert_eq!(game.item_count(0), 1);
    assert_eq!(game.item_count(4), 0);
}

#[test]
fn click_removes_first_matching_ground_item() {
    let mut game = empty_game();
    game.items = vec![Item { type_index: 0, pos_index: 0, rot: 0 }];
    // Screen (50,50) maps to world (0,0), where the slot lies.
    game.handle_event(Event::MouseDown { position: Vec2 { x: 50, y: 50 }, time: 0 });
    game.handle_event(Event::MouseUp { position: Vec2 { x: 50, y: 50 } });
    assert_eq!(game.items.len(), 0);
    assert!(matches!(game.drag, Drag::Idle));
    // No pan happened: the camera never moved.
    assert_eq!(game.camera.center, Vec2 { x: 0, y: 0 });
}

#[test]
fn click_ignores_kind_outside_target_set() {
    let mut game = empty_game();
    // The ground item's kind is not in the target set: nothing is removed,
    // even though the click lands exactly on it.
    game.items = vec![Item { type_index: 3, pos_index: 0, rot: 0 }];
    game.to_find = vec![0];
    game.handle_event(Event::MouseDown { position: Vec2 { x: 50, y: 50 }, time: 0 });
    game.handle_event(Event::MouseUp { position: Vec2 { x: 50, y: 50 } });
    assert_eq!(game.items.len(), 1);
    assert_eq!(game.items[0].type_index, 3);
}

#[test]
fn click_takes_left_hand_before_right() {
    let mut game = empty_game();
    let mut crab = crab_at(0, None, 0);
    crab.left_hand = Some(0);
    crab.right_hand = Some(0);
    game.crabs = vec![crab];
    // The hands sit at (2,0) and (-2,0); a click at the world origin is
    // within the radius of both, and only the left one is cleared.
    game.click(Vec2 { x: 50, y: 50 });
    assert!(game.crabs[0].left_hand.is_none());
    assert_eq!(game.crabs[0].right_hand, Some(0));
    // A second click takes the right hand.
    game.click(Vec2 { x: 50, y: 50 });
    assert!(game.crabs[0].right_hand.is_none());
}

#[test]
fn click_respects_hand_target_set() {
    let mut game = empty_game();
    let mut crab = crab_at(0, None, 0);
    crab.left_hand = Some(2);
    game.crabs = vec![crab];
    game.to_find = vec![0];
    game.click(Vec2 { x: 50, y: 50 });
    assert_eq!(game.crabs[0].left_hand, Some(2));
}

#[test]
fn update_advances_along_the_edge() {
    let mut game = empty_game();
    game.crabs = vec![crab_at(0, Some(1), 0)];
    game.update(1, 0);
    // Base advance: speed 4 times delta 1, no agent nearby.
    assert_eq!(game.crabs[0].position.distance, 4);
    assert_eq!(game.crabs[0].position.from, 0);
    assert_eq!(game.crabs[0].position.to, Some(1));
}

#[test]
fn update_transitions_at_dead_end_and_stays() {
    let mut game = empty_game();
    // The edge is 10 long; from distance 9 an advance of 4 passes the end,
    // and the reached node has no outgoing edge.
    game.crabs = vec![crab_at(0, Some(1), 9)];
    game.update(1, 0);
    assert_eq!(game.crabs[0].position.from, 1);
    assert!(game.crabs[0].position.to.is_none());
    assert_eq!(game.crabs[0].position.distance, 0);
    // A stationary agent stays put until something else changes the graph.
    game.update(1, 0);
    assert_eq!(game.crabs[0].position.from, 1);
    assert!(game.crabs[0].position.to.is_none());
    assert_eq!(game.crabs[0].position.distance, 0);
}

#[test]
fn update_transition_picks_a_neighbor() {
    let mut game = empty_game();
    game.roads = Roads { nodes: vec![node(0, 0, vec![1]), node(10, 0, vec![0])] };
    game.crabs = vec![crab_at(0, Some(1), 9)];
    game.update(1, 0);
    assert_eq!(game.crabs[0].position.from, 1);
    assert_eq!(game.crabs[0].position.to, Some(0));
    assert_eq!(game.crabs[0].position.distance, 0);
}

#[test]
fn update_slow_down_halves_the_advance() {
    let mut game = empty_game();
    // A second agent stands at the first one's lookahead point, within the
    // collision radius: the advance is divided by the slow-down factor 2.
    game.crabs = vec![crab_at(0, Some(1), 0), crab_at(0, None, 0)];
    game.update(1, 0);
    assert_eq!(game.crabs[0].position.distance, 2);
    // The bystander never moved.
    assert_eq!(game.crabs[1].position.from, 0);
    assert!(game.crabs[1].position.to.is_none());
}

#[test]
fn update_slow_down_compounds_per_neighbor() {
    let mut game = empty_game();
    game.crabs = vec![crab_at(0, Some(1), 0), crab_at(0, None, 0), crab_at(0, None, 0)];
    game.update(1, 0);
    // Two nearby agents: 4 / 2 / 2 = 1.
    assert_eq!(game.crabs[0].position.distance, 1);
}

#[test]
fn update_escalates_dwell_to_drag() {
    let mut game = empty_game();
    game.handle_event(Event::MouseDown { position: Vec2 { x: 5, y: 5 }, time: 0 });
    game.update(1, 2000);
    match game.drag {
        Drag::Dragging { prev_mouse_pos } => assert_eq!(prev_mouse_pos, Vec2 { x: 5, y: 5 }),
        _ => panic!("the dwell timer did not escalate the gesture"),
    }
}

#[test]
fn hovered_road_node_finds_first_near_node() {
    let mut game = empty_game();
    game.roads = Roads { nodes: vec![node(20, 0, vec![]), node(1, 0, vec![])] };
    // Screen (50,50) is world (0,0): only the node at (1,0) is within the
    // hover radius 3.
    assert_eq!(game.hovered_road_node(Vec2 { x: 50, y: 50 }), Some(1));
    game.roads = Roads { nodes: vec![node(20, 0, vec![])] };
    assert_eq!(game.hovered_road_node(Vec2 { x: 50, y: 50 }), None);
}

#[test]
fn delete_node_renumbers_agent_placements() {
    let mut game = empty_game();
    game.roads = Roads {
        nodes: vec![node(0, 0, vec![1, 2]), node(10, 0, vec![2]), node(20, 0, vec![])],
    };
    game.crabs = vec![
        crab_at(1, None, 0),       // stands at the deleted node: leaves
        crab_at(2, Some(1), 3),    // heads toward it: comes to a standstill
        crab_at(0, Some(2), 5),    // indices above the deleted one shift
    ];
    game.delete_node(1);
    assert_eq!(game.roads.nodes.len(), 2);
    assert_eq!(game.crabs.len(), 2);
    assert_eq!(game.crabs[0].position.from, 1);
    assert!(game.crabs[0].position.to.is_none());
    assert_eq!(game.crabs[0].position.distance, 0);
    assert_eq!(game.crabs[1].position.from, 0);
    assert_eq!(game.crabs[1].position.to, Some(1));
    assert_eq!(game.crabs[1].position.distance, 5);
}

#[test]
fn key_events_drive_the_editor() {
    let mut game = empty_game();
    assert!(!game.editor.shown);
    game.handle_event(Event::KeyDown {
        key: Key::Tab,
        cursor: Vec2 { x: 0, y: 0 },
        ctrl: false,
    });
    assert!(game.editor.shown);
    let nodes_before = game.roads.nodes.len();
    game.handle_event(Event::KeyDown {
        key: Key::N,
        cursor: Vec2 { x: 50, y: 50 },
        ctrl: false,
    });
    assert_eq!(game.roads.nodes.len(), nodes_before + 1);
    assert_eq!(game.roads.nodes[nodes_before].pos, Vec2 { x: 0, y: 0 });
    game.crabs = vec![crab_at(0, None, 0)];
    game.handle_event(Event::KeyDown {
        key: Key::R,
        cursor: Vec2 { x: 0, y: 0 },
        ctrl: false,
    });
    assert!(game.crabs.is_empty());
}

#[test]
fn key_i_adds_a_placement_slot() {
    let mut game = empty_game();
    let slots_before = game.item_positions.len();
    game.handle_event(Event::KeyDown {
        key: Key::I,
        cursor: Vec2 { x: 60, y: 50 },
        ctrl: false,
    });
    assert_eq!(game.item_positions.len(), slots_before + 1);
    assert_eq!(game.item_positions[slots_before], Vec2 { x: 10, y: 0 });
}

#[test]
fn delete_key_removes_the_hovered_node() {
    let mut game = empty_game();
    game.roads = Roads { nodes: vec![node(0, 0, vec![1]), node(10, 0, vec![])] };
    game.crabs = vec![crab_at(0, Some(1), 2)];
    // Screen (50,50) is world (0,0): the first node is hovered.
    game.handle_event(Event::KeyDown {
        key: Key::Delete,
        cursor: Vec2 { x: 50, y: 50 },
        ctrl: false,
    });
    assert_eq!(game.roads.nodes.len(), 1);
    assert_eq!(game.roads.nodes[0].pos, Vec2 { x: 10, y: 0 });
    // The agent stood at the deleted node and left with it.
    assert!(game.crabs.is_empty());
    // With no node hovered, the key does nothing.
    game.handle_event(Event::KeyDown {
        key: Key::Delete,
        cursor: Vec2 { x: 50, y: 50 },
        ctrl: false,
    });
    assert_eq!(game.roads.nodes.len(), 1);
}

#[test]
fn edge_drag_adds_an_edge() {
    let mut game = empty_game();
    game.roads = Roads { nodes: vec![node(0, 0, vec![]), node(40, 0, vec![])] };
    // Press E over the node at the origin, release it over the other node:
    // screen (90,50) is world (40,0).
    game.handle_event(Event::KeyDown {
        key: Key::E,
        cursor: Vec2 { x: 50, y: 50 },
        ctrl: false,
    });
    assert_eq!(game.editor.drag_from, Some(0));
    game.handle_event(Event::KeyUp { key: Key::E, cursor: Vec2 { x: 90, y: 50 } });
    assert!(game.editor.drag_from.is_none());
    assert_eq!(game.roads.nodes[0].connected, vec![1]);
}

#[test]
fn wheel_zooms_toward_cursor() {
    let mut game = empty_game();
    let cursor = Vec2 { x: 75, y: 50 };
    let size = Vec2 { x: 100, y: 100 };
    let before = game.camera.screen_to_world(size, cursor);
    game.handle_event(Event::Wheel { delta: 1, cursor });
    assert_eq!(game.camera.fov, 50);
    // The world point under the cursor is the same after the zoom.
    assert_eq!(game.camera.screen_to_world(size, cursor), before);
    assert_eq!(before, Vec2 { x: 25, y: 0 });
}

#[test]
fn new_starts_with_hidden_editor_and_fills_slots() {
    let mut config = test_config();
    config.free_items = 5;
    let game = Game::new(
        config,
        Roads { nodes: vec![node(0, 0, vec![1]), node(10, 0, vec![])] },
        vec![Vec2 { x: 0, y: 0 }, Vec2 { x: 5, y: 5 }],
        Vec2 { x: 200, y: 200 },
        5,
        vec![1],
    );
    assert!(game.editor.drag_from.is_none());
    assert!(!game.editor.shown);
    assert_eq!(game.framebuffer_size, Vec2 { x: 1, y: 1 });
    assert_eq!(game.current_time, 0);
    // More items were requested than slots exist: every slot is filled.
    assert_eq!(game.items.len(), 2);
    assert_ne!(game.items[0].pos_index, game.items[1].pos_index);
}

#[test]
fn drag_pans_the_camera() {
    let mut game = empty_game();
    game.handle_event(Event::MouseDown { position: Vec2 { x: 0, y: 0 }, time: 0 });
    game.handle_event(Event::MouseMove { position: Vec2 { x: 50, y: 0 } });
    // The move escalated to a drag and panned by the world offset of the
    // two screen points: 50 pixels is 50 world units at this zoom.
    assert!(matches!(game.drag, Drag::Dragging { .. }));
    assert_eq!(game.camera.center, Vec2 { x: -50, y: 0 });
    game.handle_event(Event::MouseUp { position: Vec2 { x: 50, y: 0 } });
    assert!(matches!(game.drag, Drag::Idle));
    // No click was resolved by the released drag: nothing else changed.
    assert_eq!(game.camera.center, Vec2 { x: -50, y: 0 });
}
