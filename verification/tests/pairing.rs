//! The pairing algorithm and the dealing of identities.

use tile_grid::rng::SeededRng;
use tile_grid::solitaire::grid::{GridPos, TileGridSet};
use tile_grid::solitaire::play::{assign_tiles, create_tile_pairs_with, is_matching_pair};
use tile_grid::tiles::Tile;

fn square_layout() -> TileGridSet {
    let mut set = TileGridSet::new();
    set.insert_unchecked(GridPos::new(0, 0, 0));
    set.insert_unchecked(GridPos::new(1, 0, 0));
    set.insert_unchecked(GridPos::new(0, 0, 1));
    set.insert_unchecked(GridPos::new(1, 0, 1));
    set
}

fn flattened(pairs: &[(GridPos, GridPos)]) -> Vec<GridPos> {
    let mut all = Vec::new();
    for (a, b) in pairs {
        all.push(*a);
        all.push(*b);
    }
    all
}

#[test]
fn four_free_tiles_pair_into_two_pairs() {
    let set = square_layout();
    let mut rng = SeededRng::new(1);
    let pairs = set.best_effort_pairs_with(&mut rng);
    assert_eq!(pairs.len(), 2);

    let all = flattened(&pairs);
    for p in &all {
        assert!(
            *p == GridPos::new(0, 0, 0)
                || *p == GridPos::new(1, 0, 0)
                || *p == GridPos::new(0, 0, 1)
                || *p == GridPos::new(1, 0, 1)
        );
    }
    for i in 0..all.len() {
        for j in 0..i {
            assert_ne!(all[i], all[j]);
        }
    }
    assert_eq!(set.len(), 4);
}

#[test]
fn pairing_returns_floor_of_half_the_positions() {
    let mut set = TileGridSet::new();
    for x in 0..5 {
        set.insert_unchecked(GridPos::new(2 * x, 0, 0));
    }
    let mut rng = SeededRng::new(9);
    let pairs = set.best_effort_pairs_with(&mut rng);
    assert_eq!(pairs.len(), 2);

    let all = flattened(&pairs);
    for i in 0..all.len() {
        for j in 0..i {
            assert_ne!(all[i], all[j]);
        }
    }
}

#[test]
fn pairing_an_empty_or_single_board_yields_nothing() {
    let empty = TileGridSet::new();
    let mut rng = SeededRng::new(3);
    assert_eq!(empty.best_effort_pairs_with(&mut rng).len(), 0);

    let mut single = TileGridSet::new();
    single.insert(GridPos::new(0, 0, 0));
    assert_eq!(single.best_effort_pairs_with(&mut rng).len(), 0);
}

#[test]
fn pairing_is_deterministic_under_a_fixed_seed() {
    let set = square_layout();
    let mut first_rng = SeededRng::new(123);
    let mut second_rng = SeededRng::new(123);
    let first = set.best_effort_pairs_with(&mut first_rng);
    let second = set.best_effort_pairs_with(&mut second_rng);
    assert_eq!(first, second);

    let mut other_rng = SeededRng::new(124);
    let other = set.best_effort_pairs_with(&mut other_rng);
    assert_eq!(other.len(), first.len());
}

#[test]
fn pairing_through_the_process_generator_covers_the_board() {
    let mut set = TileGridSet::new();
    set.insert(GridPos::new(0, 0, 0));
    set.insert(GridPos::new(4, 0, 0));
    let pairs = set.best_effort_pairs();
    assert_eq!(pairs.len(), 1);
    let (a, b) = pairs[0];
    assert_ne!(a, b);
    assert!(a == GridPos::new(0, 0, 0) || a == GridPos::new(4, 0, 0));
    assert!(b == GridPos::new(0, 0, 0) || b == GridPos::new(4, 0, 0));
}

#[test]
fn an_always_blocked_remainder_is_still_paired_off() {
    let mut set = TileGridSet::new();
    set.insert_unchecked(GridPos::new(0, 0, 0));
    set.insert_unchecked(GridPos::new(0, 1, 0));
    set.insert_unchecked(GridPos::new(0, 2, 0));
    set.insert_unchecked(GridPos::new(0, 3, 0));
    let mut rng = SeededRng::new(5);
    let pairs = set.best_effort_pairs_with(&mut rng);
    assert_eq!(pairs.len(), 2);
    let all = flattened(&pairs);
    for i in 0..all.len() {
        for j in 0..i {
            assert_ne!(all[i], all[j]);
        }
    }
}

#[test]
fn covering_tiles_pair_before_the_tiles_beneath_them() {
    let mut set = TileGridSet::new();
    let below_left = GridPos::new(0, 0, 0);
    let top_left = GridPos::new(0, 1, 0);
    let below_right = GridPos::new(4, 0, 0);
    let top_right = GridPos::new(4, 1, 0);
    set.insert(below_left);
    set.insert(top_left);
    set.insert(below_right);
    set.insert(top_right);

    let mut rng = SeededRng::new(31);
    let pairs = set.best_effort_pairs_with(&mut rng);
    assert_eq!(pairs.len(), 2);

    let (a, b) = pairs[0];
    assert!(a == top_left && b == top_right || a == top_right && b == top_left);
    let (c, d) = pairs[1];
    assert!(c == below_left && d == below_right || c == below_right && d == below_left);
}

#[test]
fn the_dealt_deck_holds_seventy_two_matching_pairs() {
    let mut rng = SeededRng::new(2024);
    let pairs = create_tile_pairs_with(&mut rng);
    assert_eq!(pairs.len(), 72);
    for (a, b) in &pairs {
        assert!(is_matching_pair(*a, *b));
    }

    let mut tiles: Vec<Tile> = Vec::new();
    for (a, b) in &pairs {
        tiles.push(*a);
        tiles.push(*b);
    }
    assert_eq!(tiles.len(), 144);

    let normal = Tile::new_normal_set();
    for face in &normal {
        let copies = tiles.iter().filter(|t| **t == *face).count();
        assert_eq!(copies, 4);
    }
    let bonus = Tile::new_bonus_set();
    for face in &bonus {
        let copies = tiles.iter().filter(|t| **t == *face).count();
        assert_eq!(copies, 1);
    }
}

#[test]
fn dealing_is_deterministic_under_a_fixed_seed() {
    let mut first_rng = SeededRng::new(77);
    let mut second_rng = SeededRng::new(77);
    assert_eq!(
        create_tile_pairs_with(&mut first_rng),
        create_tile_pairs_with(&mut second_rng)
    );
}

#[test]
fn assign_tiles_zips_pairs_in_order() {
    let grid_pairs = vec![
        (GridPos::new(0, 0, 0), GridPos::new(2, 0, 0)),
        (GridPos::new(0, 0, 2), GridPos::new(2, 0, 2)),
    ];
    let mut rng = SeededRng::new(8);
    let tile_pairs = create_tile_pairs_with(&mut rng);
    let assigned = assign_tiles(&grid_pairs, &tile_pairs);
    assert_eq!(assigned.len(), 4);
    assert_eq!(assigned[0], (GridPos::new(0, 0, 0), tile_pairs[0].0));
    assert_eq!(assigned[1], (GridPos::new(2, 0, 0), tile_pairs[0].1));
    assert_eq!(assigned[2], (GridPos::new(0, 0, 2), tile_pairs[1].0));
    assert_eq!(assigned[3], (GridPos::new(2, 0, 2), tile_pairs[1].1));
    assert!(is_matching_pair(assigned[0].1, assigned[1].1));
}
