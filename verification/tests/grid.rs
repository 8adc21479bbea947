//! The configurable grid container: snapping, clamping and overlap.

use tile_grid::grid::{Grid3D, GridPos};
use tile_grid::world::WorldVec;

const ONE: i64 = 1_000_000;

fn unit_cell() -> WorldVec {
    WorldVec::new(ONE, ONE, ONE)
}

#[test]
fn should_calculate_grid_pos_without_subdivisions() {
    let grid = Grid3D::new(unit_cell(), (0, 0, 0), None, None);
    let world_pos = WorldVec::new(1_200_000, 600_000, -3_500_000);
    let grid_pos = grid.grid_pos_from_world(world_pos);
    let expected = GridPos::new(1, 1, -4);

    assert_eq!(grid_pos, expected);
}

#[test]
fn should_calculate_grid_pos_with_subdivisions() {
    let grid = Grid3D::new(unit_cell(), (1, 2, 3), None, None);
    let world_pos = WorldVec::new(1_200_000, 600_000, -3_500_000);
    let grid_pos = grid.grid_pos_from_world(world_pos);
    let expected = GridPos::new(2, 2, -14);

    assert_eq!(grid_pos, expected);
}

#[test]
fn should_clamp_grid_pos() {
    let grid = Grid3D::new(
        unit_cell(),
        (0, 0, 0),
        Some(GridPos::new(-2, -2, -2)),
        Some(GridPos::new(0, 0, 0)),
    );
    let world_pos = WorldVec::new(1_200_000, -1_400_000, -3_500_000);
    let grid_pos = grid.grid_pos_from_world(world_pos);
    let expected = GridPos::new(0, -1, -2);

    assert_eq!(grid_pos, expected);
}

#[test]
fn should_overlap() {
    let mut grid = Grid3D::new(unit_cell(), (1, 1, 1), None, None);

    grid.insert_from_world(WorldVec::new(ONE, ONE, ONE));

    let world_pos = WorldVec::new(1_500_000, ONE, ONE);
    let grid_pos = grid.grid_pos_from_world(world_pos);
    let result = grid.is_overlapping(grid_pos);

    assert!(result);
}

#[test]
fn should_not_overlap() {
    let mut grid = Grid3D::new(unit_cell(), (1, 1, 1), None, None);

    grid.insert_from_world(WorldVec::new(ONE, ONE, ONE));

    let world_pos = WorldVec::new(2_000_000, ONE, ONE);
    let grid_pos = grid.grid_pos_from_world(world_pos);
    let result = grid.is_overlapping(grid_pos);

    assert!(!result);
}

#[test]
fn insert_refuses_overlap_and_remove_frees_the_cell() {
    let mut grid = Grid3D::new(unit_cell(), (1, 1, 1), None, None);

    assert!(grid.insert_from_world(WorldVec::new(ONE, ONE, ONE)));
    assert_eq!(grid.len(), 1);
    assert!(!grid.insert_from_world(WorldVec::new(1_500_000, ONE, ONE)));
    assert_eq!(grid.len(), 1);

    assert!(grid.remove(&GridPos::new(2, 2, 2)));
    assert!(!grid.remove(&GridPos::new(2, 2, 2)));
    assert_eq!(grid.len(), 0);

    assert!(grid.insert_from_world(WorldVec::new(1_500_000, ONE, ONE)));
    assert_eq!(grid.len(), 1);
}

#[test]
fn insert_respects_bounds() {
    let mut grid = Grid3D::new(
        unit_cell(),
        (0, 0, 0),
        Some(GridPos::new(0, 0, 0)),
        Some(GridPos::new(3, 3, 3)),
    );

    assert!(grid.insert_from_world(WorldVec::new(2 * ONE, 2 * ONE, 2 * ONE)));
    assert_eq!(grid.len(), 1);

    let mut clamped = Grid3D::new(
        unit_cell(),
        (0, 0, 0),
        Some(GridPos::new(0, 0, 0)),
        Some(GridPos::new(3, 3, 3)),
    );
    let far = clamped.grid_pos_from_world(WorldVec::new(9 * ONE, 9 * ONE, 9 * ONE));
    assert_eq!(far, GridPos::new(3, 3, 3));
}

#[test]
fn clear_empties_the_grid() {
    let mut grid = Grid3D::new(unit_cell(), (0, 0, 0), None, None);
    grid.insert_from_world(WorldVec::new(0, 0, 0));
    grid.insert_from_world(WorldVec::new(5 * ONE, 0, 0));
    assert_eq!(grid.len(), 2);
    grid.clear();
    assert_eq!(grid.len(), 0);
}

#[test]
fn getters_report_the_configuration() {
    let grid = Grid3D::new(
        unit_cell(),
        (1, 0, 1),
        Some(GridPos::new(-10, 0, -7)),
        Some(GridPos::new(10, 5, 7)),
    );
    assert_eq!(grid.cell_size(), WorldVec::new(500_000, ONE, 500_000));
    assert_eq!(grid.min(), GridPos::new(-20, 0, -14));
    assert_eq!(grid.max(), GridPos::new(20, 5, 14));

    let plain = Grid3D::new(unit_cell(), (0, 0, 0), None, None);
    assert_eq!(plain.cell_size(), unit_cell());
}

#[test]
fn snap_world_pos_lands_on_the_lattice() {
    let grid = Grid3D::new(unit_cell(), (0, 0, 0), None, None);
    let snapped = grid.snap_world_pos_to_grid(WorldVec::new(1_200_000, 600_000, -3_500_000));
    assert_eq!(snapped, WorldVec::new(ONE, ONE, -4 * ONE));

    let fine = Grid3D::new(unit_cell(), (1, 1, 1), None, None);
    let snapped_half = fine.snap_world_pos_to_grid(WorldVec::new(1_200_000, 600_000, 0));
    assert_eq!(snapped_half, WorldVec::new(ONE, 500_000, 0));
}
