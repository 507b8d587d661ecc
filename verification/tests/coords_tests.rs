use rts_core::coords::{GridVec, CHUNK_SIZE, CHUNK_SIZE_I32};
use rts_core::grid::GridMap;

#[test]
fn chunk_size_is_sixteen() {
    assert_eq!(CHUNK_SIZE, 16);
    assert_eq!(CHUNK_SIZE_I32, 16);
}

#[test]
fn negative_cell_maps_to_negative_chunk() {
    let (chunk, local) = GridMap::global_to_chunk(GridVec::new(-1, -1));
    assert_eq!(chunk, GridVec::new(-1, -1));
    assert_eq!(local, GridVec::new(15, 15));
}

#[test]
fn origin_maps_to_chunk_zero() {
    let (chunk, local) = GridMap::global_to_chunk(GridVec::new(0, 0));
    assert_eq!(chunk, GridVec::new(0, 0));
    assert_eq!(local, GridVec::new(0, 0));
}

#[test]
fn split_uses_floored_division_on_each_axis() {
    let (chunk, local) = GridMap::global_to_chunk(GridVec::new(-17, 33));
    assert_eq!(chunk, GridVec::new(-2, 2));
    assert_eq!(local, GridVec::new(15, 1));
    let (chunk, local) = GridMap::global_to_chunk(GridVec::new(16, -16));
    assert_eq!(chunk, GridVec::new(1, -1));
    assert_eq!(local, GridVec::new(0, 0));
    let (chunk, local) = GridMap::global_to_chunk(GridVec::new(15, -15));
    assert_eq!(chunk, GridVec::new(0, -1));
    assert_eq!(local, GridVec::new(15, 1));
}

#[test]
fn split_at_the_machine_limits() {
    let (chunk, local) = GridMap::global_to_chunk(GridVec::new(i32::MIN, i32::MAX));
    assert_eq!(chunk, GridVec::new(-134_217_728, 134_217_727));
    assert_eq!(local, GridVec::new(0, 15));
    assert_eq!(GridMap::chunk_to_global(chunk, local), GridVec::new(i32::MIN, i32::MAX));
}

#[test]
fn join_gives_chunk_times_sixteen_plus_local() {
    assert_eq!(
        GridMap::chunk_to_global(GridVec::new(2, -3), GridVec::new(5, 7)),
        GridVec::new(37, -41)
    );
    assert_eq!(
        GridMap::chunk_to_global(GridVec::new(-1, -1), GridVec::new(15, 15)),
        GridVec::new(-1, -1)
    );
}

#[test]
fn join_does_not_validate_the_local_position() {
    assert_eq!(
        GridMap::chunk_to_global(GridVec::new(1, 1), GridVec::new(20, -4)),
        GridVec::new(36, 12)
    );
}

#[test]
fn round_trip_over_a_window_of_cells() {
    for x in -40..40 {
        for y in -40..40 {
            let cell = GridVec::new(x, y);
            let (chunk, local) = GridMap::global_to_chunk(cell);
            assert!(0 <= local.x && local.x < 16);
            assert!(0 <= local.y && local.y < 16);
            assert_eq!(GridMap::chunk_to_global(chunk, local), cell);
        }
    }
}

#[test]
fn split_after_join_gives_the_parts_back() {
    for cx in -3..3 {
        for lx in 0..16 {
            let chunk = GridVec::new(cx, -cx);
            let local = GridVec::new(lx, 15 - lx);
            let cell = GridMap::chunk_to_global(chunk, local);
            assert_eq!(GridMap::global_to_chunk(cell), (chunk, local));
        }
    }
}
