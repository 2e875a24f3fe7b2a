use catan::geometry::{facing, isqrt, midpoint, step_toward, Point};
use catan::map::{
    color_of, setup, Connection, MalformedLayoutError, ManaPoint, MapInitData, BLUE, ORANGE,
};
use catan::occupancy::{Occupancy, OccupancyError};
use catan::sync::{board_from_init, handle_init_map_send, SnapshotTimer};

fn p(x: i64, y: i64) -> Point {
    Point { x, y }
}

fn layout() -> MapInitData {
    MapInitData {
        map_start_vertexes: vec![0, 2],
        vertex_positions: vec![p(0, 0), p(1000, 0), p(2000, 0), p(1000, 1000)],
        vertex_connections: vec![
            Connection { a: 0, b: 1 },
            Connection { a: 1, b: 2 },
            Connection { a: 1, b: 3 },
        ],
        mana_points: vec![ManaPoint { pos: p(500, 500), color: "blue".to_string() }],
        mana_connections: vec![Connection { a: 0, b: 0 }, Connection { a: 0, b: 1 }],
    }
}

#[test]
fn setup_builds_nodes_and_adjacency() {
    let b = setup(&layout()).unwrap();
    assert_eq!(b.vertexes.len(), 4);
    assert_eq!(b.edges.len(), 3);
    assert_eq!(b.materials.len(), 1);
    assert_eq!(b.vertexes[1].adjacencies.vertex_list, vec![0, 2, 3]);
    assert_eq!(b.vertexes[1].adjacencies.edge_list, vec![0, 1, 2]);
    assert_eq!(b.vertexes[0].adjacencies.vertex_list, vec![1]);
    assert_eq!(b.vertexes[0].adjacencies.material_list, vec![0]);
    assert_eq!(b.vertexes[3].adjacencies.material_list, Vec::<u32>::new());
    assert!(b.vertexes[0].is_start);
    assert!(!b.vertexes[1].is_start);
    assert!(b.vertexes[2].is_start);
    assert_eq!(b.edges[0].pos, p(500, 0));
    assert_eq!(b.edges[0].direction, p(-1000, 0));
    assert_eq!(b.edges[2].adjacencies.vertex_list, vec![1, 3]);
    assert_eq!(b.materials[0].material_type, BLUE);
    assert_eq!(b.materials[0].adjacencies.vertex_list, vec![0, 1]);
    assert!(b.is_adjacent(1, 3));
    assert!(b.is_adjacent(3, 1));
    assert!(!b.is_adjacent(0, 2));
}

#[test]
fn setup_rejects_connection_to_missing_junction() {
    let mut l = layout();
    l.vertex_connections.push(Connection { a: 2, b: 9 });
    assert_eq!(setup(&l).unwrap_err(), MalformedLayoutError::BadVertexConnection { index: 3 });
    let mut l = layout();
    l.vertex_connections[0] = Connection { a: -1, b: 1 };
    assert_eq!(setup(&l).unwrap_err(), MalformedLayoutError::BadVertexConnection { index: 0 });
}

#[test]
fn setup_rejects_unknown_color() {
    let mut l = layout();
    l.mana_points.push(ManaPoint { pos: p(0, 0), color: "teal".to_string() });
    assert_eq!(setup(&l).unwrap_err(), MalformedLayoutError::UnknownColor { index: 1 });
}

#[test]
fn setup_rejects_bad_mana_connection_and_positions() {
    let mut l = layout();
    l.mana_connections.push(Connection { a: 1, b: 0 });
    assert_eq!(setup(&l).unwrap_err(), MalformedLayoutError::BadManaConnection { index: 2 });
    let mut l = layout();
    l.vertex_positions[2] = p(2_000_000_000, 0);
    assert_eq!(setup(&l).unwrap_err(), MalformedLayoutError::PositionOutOfRange { index: 2 });
    let mut l = layout();
    l.mana_points[0].pos = p(0, -2_000_000_000);
    assert_eq!(setup(&l).unwrap_err(), MalformedLayoutError::ManaPositionOutOfRange { index: 0 });
}

#[test]
fn first_error_wins() {
    let mut l = layout();
    l.vertex_connections.push(Connection { a: 0, b: 7 });
    l.mana_points[0].color = "mauve".to_string();
    assert_eq!(setup(&l).unwrap_err(), MalformedLayoutError::BadVertexConnection { index: 3 });
}

#[test]
fn empty_layout_builds_empty_board() {
    let l = MapInitData {
        map_start_vertexes: vec![],
        vertex_positions: vec![],
        vertex_connections: vec![],
        mana_points: vec![],
        mana_connections: vec![],
    };
    let b = setup(&l).unwrap();
    assert_eq!(b.vertexes.len(), 0);
    assert!(!b.vertex_exists(0));
}

#[test]
fn color_names() {
    assert_eq!(color_of(&"blue".to_string()), Some(BLUE));
    assert_eq!(color_of(&"orange".to_string()), Some(ORANGE));
    assert_eq!(color_of(&"Blue".to_string()), None);
}

#[test]
fn release_of_free_junction_is_a_no_op() {
    let mut o = Occupancy::new(3);
    o.release(1);
    assert_eq!(o.filled, vec![false, false, false]);
    assert_eq!(o.reserve(1), Ok(()));
    assert_eq!(o.reserve(1), Err(OccupancyError::AlreadyOccupied));
    assert_eq!(o.reserve(5), Err(OccupancyError::UnknownNodeReference));
    o.release(1);
    o.release(1);
    assert_eq!(o.filled, vec![false, false, false]);
    o.set(2, true);
    o.set(9, true);
    assert_eq!(o.filled, vec![false, false, true]);
    assert!(o.is_free(0));
    assert!(!o.is_free(2));
    assert!(!o.is_free(3));
}

#[test]
fn board_description_round_trip() {
    let b = setup(&layout()).unwrap();
    let (vs, es, ms) = handle_init_map_send(&b);
    let b2 = board_from_init(&vs, &es, &ms).unwrap();
    for i in 0..b.vertexes.len() {
        assert_eq!(b2.vertexes[i].adjacencies.vertex_list, b.vertexes[i].adjacencies.vertex_list);
        assert_eq!(b2.vertexes[i].adjacencies.edge_list, b.vertexes[i].adjacencies.edge_list);
        assert_eq!(b2.vertexes[i].adjacencies.material_list, b.vertexes[i].adjacencies.material_list);
        assert_eq!(b2.vertexes[i].pos, b.vertexes[i].pos);
        assert_eq!(b2.vertexes[i].is_start, b.vertexes[i].is_start);
    }
    for j in 0..b.edges.len() {
        assert_eq!(b2.edges[j].adjacencies.vertex_list, b.edges[j].adjacencies.vertex_list);
        assert_eq!(b2.edges[j].direction, b.edges[j].direction);
    }
    assert_eq!(b2.materials[0].adjacencies.vertex_list, vec![0, 1]);
}

#[test]
fn board_description_with_bad_reference_is_refused() {
    let b = setup(&layout()).unwrap();
    let (mut vs, es, ms) = handle_init_map_send(&b);
    vs[0].adjacentices.vertex_list.push(17);
    assert!(board_from_init(&vs, &es, &ms).is_none());
    let (mut vs, es, ms) = handle_init_map_send(&b);
    vs[1].id = 5;
    assert!(board_from_init(&vs, &es, &ms).is_none());
}

#[test]
fn integer_square_root() {
    assert_eq!(isqrt(0), 0);
    assert_eq!(isqrt(1), 1);
    assert_eq!(isqrt(15), 3);
    assert_eq!(isqrt(16), 4);
    assert_eq!(isqrt(2_000_000), 1414);
    assert_eq!(isqrt(u64::MAX), 4_294_967_295);
}

#[test]
fn midpoint_rounds_down() {
    assert_eq!(midpoint(0, 1000), 500);
    assert_eq!(midpoint(1, 2), 1);
    assert_eq!(midpoint(-1, -2), -2);
    assert_eq!(midpoint(-3, 0), -2);
}

#[test]
fn facing_sectors() {
    assert_eq!(facing(10, 0), 0);
    assert_eq!(facing(10, 3), 1);
    assert_eq!(facing(10, 10), 1);
    assert_eq!(facing(0, 10), 2);
    assert_eq!(facing(-5, 10), 3);
    assert_eq!(facing(-10, 0), 4);
    assert_eq!(facing(10, -3), -1);
    assert_eq!(facing(0, -10), -2);
    assert_eq!(facing(-5, -10), -3);
    assert_eq!(facing(-10, -3), -4);
}

#[test]
fn step_stops_short_then_snaps() {
    let (q, arrived) = step_toward(p(0, 0), p(1000, 0), 300);
    assert_eq!(q, p(300, 0));
    assert!(!arrived);
    let (q, arrived) = step_toward(p(0, 0), p(300, 400), 250);
    assert_eq!(q, p(150, 200));
    assert!(!arrived);
    let (q, arrived) = step_toward(p(900, 0), p(1000, 0), 300);
    assert_eq!(q, p(1000, 0));
    assert!(arrived);
    let (q, arrived) = step_toward(p(5, 5), p(5, 5), 0);
    assert_eq!(q, p(5, 5));
    assert!(arrived);
}

#[test]
fn snapshot_timer_keeps_remainder() {
    let mut t = SnapshotTimer::new();
    assert!(!t.tick(20_000));
    assert!(!t.tick(20_000));
    assert!(t.tick(20_000));
    assert_eq!(t.accumulated_us, 10_000);
    assert!(t.tick(130_000));
    assert_eq!(t.accumulated_us, 90_000);
    assert!(t.tick(0));
    assert_eq!(t.accumulated_us, 40_000);
}

#[test]
fn small_steps_never_stall() {
    // a travel of one toward a point three away on both axes still moves on both axes
    let (q, arrived) = step_toward(p(0, 0), p(3, 3), 1);
    assert!(!arrived);
    assert_eq!(q, p(1, 1));
    let (q, arrived) = step_toward(p(0, 0), p(-1000, 7), 1);
    assert!(!arrived);
    assert_eq!(q, p(-1, 1));
}
