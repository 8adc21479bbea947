//! The solitaire board: conversions, geometry rules and stacking.

use tile_grid::solitaire::grid::{GridPos, TileGridSet};
use tile_grid::world::WorldVec;

#[test]
fn world_round_trip_is_stable() {
    let p = GridPos::new(3, 0, -5);
    let w = p.to_world();
    let q = GridPos::from_world(w);
    assert_eq!(q, p);
    assert_eq!(q.to_world(), w);

    let edge = GridPos::new(25, 0, 19);
    assert_eq!(GridPos::from_world(edge.to_world()), edge);
    let other_edge = GridPos::new(-25, 0, -19);
    assert_eq!(GridPos::from_world(other_edge.to_world()), other_edge);
}

#[test]
fn from_world_clamps_extremes_to_the_boundary() {
    let far = GridPos::from_world(WorldVec::new(10_000_000, 0, 9_999_999));
    assert_eq!(far, GridPos::new(25, 0, 19));

    let near = GridPos::from_world(WorldVec::new(-10_000_000, 0, -9_999_999));
    assert_eq!(near, GridPos::new(-25, 0, -19));
}

#[test]
fn to_world_scales_by_the_tile_dimensions() {
    let w = GridPos::new(2, 1, -3).to_world();
    assert_eq!(w, WorldVec::new(30_000, 34_500, -58_500));
}

#[test]
fn insert_refuses_overlapping_and_duplicate_cells() {
    let mut set = TileGridSet::new();
    assert!(set.insert(GridPos::new(0, 0, 0)));
    assert!(!set.insert(GridPos::new(0, 0, 0)));
    assert!(!set.insert(GridPos::new(1, 0, 0)));
    assert!(!set.insert(GridPos::new(-1, 0, 1)));
    assert!(set.insert(GridPos::new(2, 0, 0)));
    assert_eq!(set.len(), 2);

    assert!(set.insert(GridPos::new(0, 1, 0)));
    assert_eq!(set.len(), 3);
}

#[test]
fn insert_unchecked_refuses_only_duplicates() {
    let mut set = TileGridSet::new();
    assert!(set.insert_unchecked(GridPos::new(0, 0, 0)));
    assert!(set.insert_unchecked(GridPos::new(1, 0, 0)));
    assert!(!set.insert_unchecked(GridPos::new(1, 0, 0)));
    assert_eq!(set.len(), 2);
}

#[test]
fn remove_and_clear_update_the_set() {
    let mut set = TileGridSet::new();
    set.insert(GridPos::new(0, 0, 0));
    set.insert(GridPos::new(2, 0, 0));
    assert!(set.remove(&GridPos::new(0, 0, 0)));
    assert!(!set.remove(&GridPos::new(0, 0, 0)));
    assert_eq!(set.len(), 1);
    set.clear();
    assert_eq!(set.len(), 0);
}

#[test]
fn overlap_is_symmetric_for_neighbouring_cells() {
    let a = GridPos::new(0, 0, 0);
    let b = GridPos::new(1, 0, 1);

    let mut with_a = TileGridSet::new();
    with_a.insert(a);
    let mut with_b = TileGridSet::new();
    with_b.insert(b);

    assert_eq!(with_a.is_overlapping(b), with_b.is_overlapping(a));
    assert!(with_a.is_overlapping(b));
}

#[test]
fn ground_level_is_always_supported() {
    let set = TileGridSet::new();
    assert!(set.is_supported_from_below(GridPos::new(0, 0, 0)));
    assert!(set.is_supported_from_below(GridPos::new(17, 0, -4)));
    assert!(!set.is_supported_from_below(GridPos::new(0, 1, 0)));
}

#[test]
fn four_diagonals_support_a_tile_and_three_do_not() {
    let mut set = TileGridSet::new();
    set.insert(GridPos::new(-1, 0, -1));
    set.insert(GridPos::new(1, 0, -1));
    set.insert(GridPos::new(-1, 0, 1));
    set.insert(GridPos::new(1, 0, 1));
    assert_eq!(set.len(), 4);

    let above = GridPos::new(0, 1, 0);
    assert!(set.is_supported_from_below(above));

    set.remove(&GridPos::new(-1, 0, -1));
    assert!(!set.is_supported_from_below(above));
}

#[test]
fn opposite_pair_supports_a_tile() {
    let mut set = TileGridSet::new();
    set.insert(GridPos::new(-1, 0, 0));
    set.insert(GridPos::new(1, 0, 0));
    assert!(set.is_supported_from_below(GridPos::new(0, 1, 0)));

    let mut single = TileGridSet::new();
    single.insert(GridPos::new(-1, 0, 0));
    assert!(!single.is_supported_from_below(GridPos::new(0, 1, 0)));
}

#[test]
fn a_covered_tile_is_blocked() {
    let mut set = TileGridSet::new();
    set.insert(GridPos::new(0, 0, 0));
    set.insert(GridPos::new(0, 1, 0));
    assert!(set.is_blocked(GridPos::new(0, 0, 0)));
    assert!(!set.is_blocked(GridPos::new(0, 1, 0)));
}

#[test]
fn a_sandwiched_tile_is_blocked_until_a_run_cell_leaves() {
    let mut set = TileGridSet::new();
    set.insert_unchecked(GridPos::new(0, 0, 0));
    for dz in -1..=1 {
        set.insert_unchecked(GridPos::new(-2, 0, dz));
        set.insert_unchecked(GridPos::new(2, 0, dz));
    }
    assert!(set.is_blocked(GridPos::new(0, 0, 0)));

    set.remove(&GridPos::new(2, 0, -1));
    assert!(!set.is_blocked(GridPos::new(0, 0, 0)));

    set.insert_unchecked(GridPos::new(2, 0, -1));
    assert!(set.is_blocked(GridPos::new(0, 0, 0)));
    set.remove(&GridPos::new(-2, 0, 0));
    assert!(!set.is_blocked(GridPos::new(0, 0, 0)));
}

#[test]
fn a_tile_beside_one_neighbour_is_not_blocked() {
    let mut set = TileGridSet::new();
    set.insert(GridPos::new(0, 0, 0));
    set.insert(GridPos::new(2, 0, 0));
    assert!(!set.is_blocked(GridPos::new(0, 0, 0)));
    assert!(!set.is_blocked(GridPos::new(2, 0, 0)));
}

#[test]
fn can_place_requires_room_and_support() {
    let mut set = TileGridSet::new();
    assert!(set.can_place(GridPos::new(0, 0, 0)));
    assert!(!set.can_place(GridPos::new(0, 1, 0)));
    set.insert(GridPos::new(0, 0, 0));
    assert!(!set.can_place(GridPos::new(1, 0, 0)));
    assert!(set.can_place(GridPos::new(0, 1, 0)));
}

#[test]
fn first_unoccupied_above_climbs_a_stack() {
    let mut set = TileGridSet::new();
    let base = GridPos::new(0, 0, 0);
    assert_eq!(set.first_unoccupied_above(base), base);

    set.insert(GridPos::new(0, 0, 0));
    set.insert(GridPos::new(0, 1, 0));
    assert_eq!(set.first_unoccupied_above(base), GridPos::new(0, 2, 0));

    assert_eq!(
        set.first_unoccupied_above(GridPos::new(1, 0, 0)),
        GridPos::new(1, 2, 0)
    );
    assert_eq!(
        set.first_unoccupied_above(GridPos::new(2, 0, 0)),
        GridPos::new(2, 0, 0)
    );
}
