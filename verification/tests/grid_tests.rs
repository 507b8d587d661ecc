use rts_core::coords::GridVec;
use rts_core::grid::{ChunkData, GridMap};

fn v(x: i32, y: i32) -> GridVec {
    GridVec::new(x, y)
}

#[test]
fn new_chunk_data_is_all_free() {
    let mut chunk = ChunkData::new();
    for x in 0..16 {
        for y in 0..16 {
            assert!(!chunk.get(x, y));
        }
    }
    chunk.set(3, 4, true);
    assert!(chunk.get(3, 4));
    assert!(!chunk.get(4, 3));
    chunk.set(3, 4, false);
    assert!(!chunk.get(3, 4));
}

#[test]
fn create_chunk_returns_its_marker() {
    let mut map = GridMap::new();
    assert!(!map.has_chunk(v(3, -2)));
    let marker = map.create_chunk(v(3, -2));
    assert_eq!(marker.position(), v(3, -2));
    assert!(map.has_chunk(v(3, -2)));
    assert!(!map.has_chunk(v(-2, 3)));
    assert!(!map.has_chunk(v(3, -1)));
}

#[test]
fn created_chunk_is_all_free() {
    let mut map = GridMap::new();
    map.create_chunk(v(0, 0));
    for x in 0..16 {
        for y in 0..16 {
            assert!(!map.is_occupied(v(0, 0), v(x, y)));
        }
    }
}

#[test]
fn placement_atomicity() {
    let mut map = GridMap::new();
    map.create_chunk(v(0, 0));
    assert!(map.try_place(v(0, 1), &[v(0, 0)]));
    assert!(map.is_occupied(v(0, 0), v(0, 1)));
    let placed = map.try_place(v(0, 0), &[v(0, 0), v(1, 0), v(0, 1)]);
    assert!(!placed);
    assert!(!map.is_occupied(v(0, 0), v(0, 0)));
    assert!(!map.is_occupied(v(0, 0), v(1, 0)));
    assert!(map.is_occupied(v(0, 0), v(0, 1)));
}

#[test]
fn placement_success() {
    let mut map = GridMap::new();
    map.create_chunk(v(0, 0));
    let square = [v(0, 0), v(1, 0), v(0, 1), v(1, 1)];
    assert!(map.try_place(v(4, 6), &square));
    assert!(map.is_occupied(v(0, 0), v(4, 6)));
    assert!(map.is_occupied(v(0, 0), v(5, 6)));
    assert!(map.is_occupied(v(0, 0), v(4, 7)));
    assert!(map.is_occupied(v(0, 0), v(5, 7)));
    let mut occupied = 0;
    for x in 0..16 {
        for y in 0..16 {
            if map.is_occupied(v(0, 0), v(x, y)) {
                occupied += 1;
            }
        }
    }
    assert_eq!(occupied, 4);
}

#[test]
fn placing_twice_on_the_same_cells_fails_the_second_time() {
    let mut map = GridMap::new();
    map.create_chunk(v(0, 0));
    let square = [v(0, 0), v(1, 0), v(0, 1), v(1, 1)];
    assert!(map.try_place(v(0, 0), &square));
    assert!(!map.try_place(v(0, 0), &square));
    assert!(!map.try_place(v(1, 1), &square));
    assert!(!map.is_occupied(v(0, 0), v(2, 2)));
    assert!(map.try_place(v(2, 0), &square));
}

#[test]
fn missing_chunk_fail_closed() {
    let mut map = GridMap::new();
    assert!(map.is_occupied(v(7, 7), v(0, 0)));
    assert!(map.is_occupied(v(7, 7), v(15, 15)));
    assert!(!map.try_place(v(0, 0), &[v(0, 0)]));
    map.create_chunk(v(0, 0));
    let placed = map.try_place(v(15, 0), &[v(0, 0), v(1, 0)]);
    assert!(!placed);
    for x in 0..16 {
        for y in 0..16 {
            assert!(!map.is_occupied(v(0, 0), v(x, y)));
        }
    }
    assert!(!map.has_chunk(v(1, 0)));
    assert!(map.is_occupied(v(1, 0), v(0, 0)));
}

#[test]
fn placement_across_a_chunk_border() {
    let mut map = GridMap::new();
    map.create_chunk(v(0, 0));
    map.create_chunk(v(1, 0));
    assert!(map.try_place(v(15, 3), &[v(0, 0), v(1, 0)]));
    assert!(map.is_occupied(v(0, 0), v(15, 3)));
    assert!(map.is_occupied(v(1, 0), v(0, 3)));
    assert!(!map.is_occupied(v(1, 0), v(1, 3)));
    assert!(!map.is_occupied(v(0, 0), v(14, 3)));
}

#[test]
fn placement_in_negative_chunks() {
    let mut map = GridMap::new();
    map.create_chunk(v(-1, -1));
    assert!(map.try_place(v(-1, -1), &[v(0, 0)]));
    assert!(map.is_occupied(v(-1, -1), v(15, 15)));
    assert!(!map.is_occupied(v(-1, -1), v(0, 0)));
    assert!(map.try_place(v(0, 0), &[v(-16, -16)]));
    assert!(map.is_occupied(v(-1, -1), v(0, 0)));
}

#[test]
fn empty_footprint_is_placed_and_changes_nothing() {
    let mut map = GridMap::new();
    assert!(map.try_place(v(5, 5), &[]));
    map.create_chunk(v(0, 0));
    assert!(map.try_place(v(5, 5), &[]));
    assert!(!map.is_occupied(v(0, 0), v(5, 5)));
}

#[test]
fn repeated_offsets_are_set_once() {
    let mut map = GridMap::new();
    map.create_chunk(v(0, 0));
    assert!(map.try_place(v(1, 1), &[v(0, 0), v(0, 0), v(1, 0)]));
    assert!(map.is_occupied(v(0, 0), v(1, 1)));
    assert!(map.is_occupied(v(0, 0), v(2, 1)));
    assert!(!map.is_occupied(v(0, 0), v(3, 1)));
}

#[test]
fn cell_beyond_the_machine_limit_is_resolved_without_wrapping() {
    let mut map = GridMap::new();
    map.create_chunk(v(134_217_727, 0));
    assert!(!map.try_place(v(i32::MAX, 0), &[v(0, 0), v(1, 0)]));
    assert!(!map.is_occupied(v(134_217_727, 0), v(15, 0)));
    map.create_chunk(v(134_217_728, 0));
    assert!(map.try_place(v(i32::MAX, 0), &[v(0, 0), v(1, 0)]));
    assert!(map.is_occupied(v(134_217_727, 0), v(15, 0)));
    assert!(map.is_occupied(v(134_217_728, 0), v(0, 0)));
    map.create_chunk(v(-134_217_729, 0));
    assert!(map.try_place(v(i32::MIN, 0), &[v(-1, 0)]));
    assert!(map.is_occupied(v(-134_217_729, 0), v(15, 0)));
}

#[test]
fn chunks_with_swapped_axes_are_distinct() {
    let mut map = GridMap::new();
    map.create_chunk(v(1, 2));
    assert!(map.has_chunk(v(1, 2)));
    assert!(!map.has_chunk(v(2, 1)));
    map.create_chunk(v(2, 1));
    assert!(map.try_place(v(16, 32), &[v(0, 0)]));
    assert!(map.is_occupied(v(1, 2), v(0, 0)));
    assert!(!map.is_occupied(v(2, 1), v(0, 0)));
}

#[test]
fn start_area_of_sixteen_chunks() {
    let mut map = GridMap::new();
    for x in -2..2 {
        for y in -2..2 {
            let marker = map.create_chunk(v(x, y));
            assert_eq!(marker.position(), v(x, y));
            assert!(map.try_place(v(x * 16 + 2, y * 16 + 2), &[v(0, 0)]));
        }
    }
    for x in -2..2 {
        for y in -2..2 {
            assert!(map.is_occupied(v(x, y), v(2, 2)));
            assert!(!map.is_occupied(v(x, y), v(2, 3)));
        }
    }
    assert!(map.is_occupied(v(2, 2), v(2, 2)));
}

#[test]
fn default_grid_has_no_chunks() {
    let map = GridMap::default();
    assert!(!map.has_chunk(v(0, 0)));
    assert!(map.is_occupied(v(0, 0), v(0, 0)));
}
