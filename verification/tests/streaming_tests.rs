use squareblocks::streaming::{WorldMeta, VIEW_RANGE, WORLD_HEIGHT};
use std::cell::Cell;

#[test]
fn streaming_constants_have_their_values() {
    assert_eq!(VIEW_RANGE, 4);
    assert_eq!(WORLD_HEIGHT, 16);
}

#[test]
fn new_registry_holds_nothing() {
    let world = WorldMeta::new();
    assert!(world.chunks.is_empty());
    assert!(!world.contains((0, 0, 0)));
}

#[test]
fn record_adds_and_keeps() {
    let mut world = WorldMeta::new();
    world.record((1, 2, 3));
    assert!(world.contains((1, 2, 3)));
    assert!(!world.contains((3, 2, 1)));
    world.record((3, 2, 1));
    assert!(world.contains((1, 2, 3)));
    assert!(world.contains((3, 2, 1)));
    assert_eq!(world.chunks, vec![(1, 2, 3), (3, 2, 1)]);
}

#[test]
fn first_missing_chunk_is_the_lowest_corner() {
    let world = WorldMeta::new();
    assert_eq!(world.next_missing(0, 0, 4), Some((-4, 0, -4)));
    assert_eq!(world.next_missing(10, -20, 4), Some((6, 0, -24)));
}

#[test]
fn chunks_are_visited_by_z_then_x_then_layer() {
    let mut world = WorldMeta::new();
    let mut seen: Vec<(i16, i16, i16)> = Vec::new();
    while let Some(c) = world.next_missing(5, 7, 1) {
        seen.push(c);
        world.record(c);
        assert!(seen.len() <= 144);
    }
    assert_eq!(seen.len(), 16 * 3 * 3);
    assert_eq!(
        &seen[0..10],
        &[
            (4, 0, 6), (4, 0, 7), (4, 0, 8),
            (5, 0, 6), (5, 0, 7), (5, 0, 8),
            (6, 0, 6), (6, 0, 7), (6, 0, 8),
            (4, 1, 6),
        ]
    );
    assert_eq!(seen[143], (6, 15, 8));
    assert_eq!(world.next_missing(5, 7, 1), None);
}

#[test]
fn recorded_chunks_are_skipped() {
    let mut world = WorldMeta::new();
    world.record((-4, 0, -4));
    world.record((-4, 0, -3));
    world.record((-4, 0, -1));
    assert_eq!(world.next_missing(0, 0, 4), Some((-4, 0, -2)));
}

#[test]
fn default_view_holds_sixteen_layers_of_nine_by_nine() {
    let mut world = WorldMeta::new();
    let mut n: usize = 0;
    while let Some(c) = world.next_missing(0, 0, VIEW_RANGE) {
        assert!((0..16).contains(&c.1));
        assert!((-4..=4).contains(&c.0));
        assert!((-4..=4).contains(&c.2));
        world.record(c);
        n += 1;
        assert!(n <= 1296);
    }
    assert_eq!(n, 16 * 9 * 9);
}

#[test]
fn view_range_zero_is_one_column() {
    let mut world = WorldMeta::new();
    assert_eq!(world.next_missing(3, -3, 0), Some((3, 0, -3)));
    world.record((3, 0, -3));
    assert_eq!(world.next_missing(3, -3, 0), Some((3, 1, -3)));
}

#[test]
fn negative_view_range_sees_nothing() {
    let world = WorldMeta::new();
    assert_eq!(world.next_missing(0, 0, -1), None);
    assert_eq!(world.next_missing(0, 0, i16::MIN), None);
}

#[test]
fn view_stops_at_the_ends_of_the_coordinate_range() {
    let mut world = WorldMeta::new();
    assert_eq!(world.next_missing(i16::MIN, i16::MAX, 4), Some((i16::MIN, 0, i16::MAX - 4)));
    let mut n: usize = 0;
    while let Some(c) = world.next_missing(i16::MIN, i16::MAX, 1) {
        world.record(c);
        n += 1;
        assert!(n <= 64);
    }
    assert_eq!(n, 16 * 2 * 2);
}

#[test]
fn load_next_generates_the_first_missing_chunk() {
    let mut world = WorldMeta::new();
    let loaded = world.load_next(|_x: i32, y: i32, _z: i32| y < 3, 2, -1, 4);
    assert!(loaded.is_some());
    let loaded = loaded.unwrap();
    assert_eq!(loaded.position, (-2, 0, -5));
    assert_eq!(loaded.origin, (-32, 0, -80));
    assert_eq!(loaded.chunk.cxyz, (-2, 0, -5));
    assert!(!loaded.chunk.is_empty);
    assert_eq!(loaded.chunk.get_block(0, 2, 0), 1);
    assert_eq!(loaded.chunk.get_block(0, 3, 0), 0);
    let mesh = loaded.surface.unwrap();
    let direct = loaded.chunk.make_mesh();
    assert_eq!(mesh.positions, direct.positions);
    assert_eq!(mesh.indices, direct.indices);
    assert_eq!(mesh.positions.len(), 4 * (2 * 256 + 4 * 3 * 16));
    assert_eq!(world.chunks, vec![(-2, 0, -5)]);
}

#[test]
fn load_next_records_an_empty_chunk_without_a_surface() {
    let mut world = WorldMeta::new();
    let loaded = world.load_next(|_x: i32, _y: i32, _z: i32| false, 0, 0, 4).unwrap();
    assert_eq!(loaded.position, (-4, 0, -4));
    assert!(loaded.chunk.is_empty);
    assert!(loaded.surface.is_none());
    assert_eq!(world.chunks, vec![(-4, 0, -4)]);
    assert!(world.contains((-4, 0, -4)));
}

#[test]
fn load_next_takes_one_chunk_in_each_step() {
    let mut world = WorldMeta::new();
    let mut positions: Vec<(i16, i16, i16)> = Vec::new();
    for _ in 0..4 {
        let loaded = world.load_next(|_x: i32, y: i32, _z: i32| y == 0, 0, 0, 1).unwrap();
        assert_eq!(loaded.surface.is_some(), !loaded.chunk.is_empty);
        positions.push(loaded.position);
    }
    assert_eq!(positions, vec![(-1, 0, -1), (-1, 0, 0), (-1, 0, 1), (0, 0, -1)]);
    assert_eq!(world.chunks, positions);
}

#[test]
fn load_next_does_nothing_when_all_is_loaded() {
    let mut world = WorldMeta::new();
    let mut layer: i16 = 0;
    while layer < 16 {
        world.record((7, layer, 9));
        layer += 1;
    }
    let calls: Cell<u32> = Cell::new(0);
    let loaded = world.load_next(
        |_x: i32, _y: i32, _z: i32| {
            calls.set(calls.get() + 1);
            true
        },
        7,
        9,
        0,
    );
    assert!(loaded.is_none());
    assert_eq!(calls.get(), 0);
    assert_eq!(world.chunks.len(), 16);
}
