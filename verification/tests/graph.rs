use find_ferris::geom::Vec2;
use find_ferris::roads::{Roads, RoadNode, Position, fix_roads};

fn node(x: i64, y: i64, connected: Vec<usize>) -> RoadNode {
    RoadNode { pos: Vec2 { x, y }, connected }
}

#[test]
fn world_pos_stationary() {
    let roads = Roads { nodes: vec![node(7, -3, vec![])] };
    let p = Position { from: 0, to: None, distance: 0 };
    assert_eq!(roads.world_pos(&p), Vec2 { x: 7, y: -3 });
}

#[test]
fn world_pos_interpolates_along_edge() {
    let roads = Roads { nodes: vec![node(0, 0, vec![1]), node(30, 40, vec![])] };
    // The edge length is 50.
    let mid = Position { from: 0, to: Some(1), distance: 10 };
    assert_eq!(roads.world_pos(&mid), Vec2 { x: 6, y: 8 });
    let start = Position { from: 0, to: Some(1), distance: 0 };
    assert_eq!(roads.world_pos(&start), Vec2 { x: 0, y: 0 });
    let end = Position { from: 0, to: Some(1), distance: 50 };
    assert_eq!(roads.world_pos(&end), Vec2 { x: 30, y: 40 });
}

#[test]
fn world_pos_past_edge_end_extends() {
    let roads = Roads { nodes: vec![node(0, 0, vec![1]), node(10, 0, vec![])] };
    let past = Position { from: 0, to: Some(1), distance: 15 };
    assert_eq!(roads.world_pos(&past), Vec2 { x: 15, y: 0 });
}

#[test]
fn world_pos_zero_length_edge() {
    let roads = Roads { nodes: vec![node(5, 5, vec![1]), node(5, 5, vec![])] };
    let p = Position { from: 0, to: Some(1), distance: 3 };
    assert_eq!(roads.world_pos(&p), Vec2 { x: 5, y: 5 });
}

#[test]
fn fix_roads_strips_self_loops() {
    let mut roads = Roads {
        nodes: vec![node(0, 0, vec![0, 1, 0, 2]), node(1, 1, vec![1]), node(2, 2, vec![0])],
    };
    fix_roads(&mut roads);
    assert_eq!(roads.nodes[0].connected, vec![1, 2]);
    assert_eq!(roads.nodes[1].connected, Vec::<usize>::new());
    assert_eq!(roads.nodes[2].connected, vec![0]);
    assert!(roads.validate());
}

#[test]
fn validate_rejects_bad_graphs() {
    let self_loop = Roads { nodes: vec![node(0, 0, vec![0])] };
    assert!(!self_loop.validate());
    let out_of_range = Roads { nodes: vec![node(0, 0, vec![3])] };
    assert!(!out_of_range.validate());
    let fine = Roads { nodes: vec![node(0, 0, vec![1]), node(1, 0, vec![])] };
    assert!(fine.validate());
}

#[test]
fn add_edge_never_adds_self_loop() {
    let mut roads = Roads { nodes: vec![node(0, 0, vec![]), node(1, 0, vec![])] };
    roads.add_edge(0, 0);
    assert_eq!(roads.nodes[0].connected, Vec::<usize>::new());
    roads.add_edge(0, 1);
    assert_eq!(roads.nodes[0].connected, vec![1]);
    roads.add_edge(0, 1);
    assert_eq!(roads.nodes[0].connected, vec![1, 1]);
    assert!(roads.validate());
}

#[test]
fn add_node_has_no_edges() {
    let mut roads = Roads { nodes: vec![] };
    roads.add_node(Vec2 { x: 4, y: 5 });
    assert_eq!(roads.nodes.len(), 1);
    assert_eq!(roads.nodes[0].pos, Vec2 { x: 4, y: 5 });
    assert!(roads.nodes[0].connected.is_empty());
    assert!(roads.validate());
}

#[test]
fn remove_node_renumbers_neighbors() {
    let mut roads = Roads {
        nodes: vec![
            node(0, 0, vec![1, 2]),
            node(1, 0, vec![0, 2]),
            node(2, 0, vec![0, 1]),
        ],
    };
    roads.remove_node(1);
    assert_eq!(roads.nodes.len(), 2);
    assert_eq!(roads.nodes[0].pos, Vec2 { x: 0, y: 0 });
    assert_eq!(roads.nodes[1].pos, Vec2 { x: 2, y: 0 });
    // References to the deleted node vanish, higher ones shift down.
    assert_eq!(roads.nodes[0].connected, vec![1]);
    assert_eq!(roads.nodes[1].connected, vec![0]);
    // The graph invariant survives the deletion.
    assert!(roads.validate());
}

#[test]
fn remove_first_node() {
    let mut roads = Roads { nodes: vec![node(0, 0, vec![1]), node(9, 9, vec![0])] };
    roads.remove_node(0);
    assert_eq!(roads.nodes.len(), 1);
    assert_eq!(roads.nodes[0].pos, Vec2 { x: 9, y: 9 });
    assert_eq!(roads.nodes[0].connected, Vec::<usize>::new());
    assert!(roads.validate());
}
