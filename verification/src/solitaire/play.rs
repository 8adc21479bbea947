//! Play-time rules: which tiles match, and dealing identities to pairs.
//!
//! After a layout is finalized the play layer pairs the occupied
//! positions, deals a shuffled deck of identity pairs against them, and
//! thereafter lets the player remove matching pairs of unblocked tiles.

use vstd::prelude::*;

verus! {

use vstd::multiset::Multiset;

use crate::pairs::lemma_pair_items_permutation;
use crate::pairs::lemma_pair_items_push;
use crate::pairs::pair_items;
use crate::rng::shuffled;
use crate::rng::IndexRng;
use crate::rng::ThreadRngSource;
use crate::solitaire::grid::GridPos;
use crate::tiles::bonus_tile_values;
use crate::tiles::normal_tile_values;
use crate::tiles::Bonus;
use crate::tiles::Tile;

/// May these two tiles be removed together? Two seasons always match, two
/// plants always match, and any other two tiles match only when they are
/// the same face.
pub open spec fn matching_pair(first: Tile, second: Tile) -> bool {
    match (first, second) {
        (Tile::Bonus(Bonus::Plant(_)), Tile::Bonus(Bonus::Plant(_))) => true,
        (Tile::Bonus(Bonus::Season(_)), Tile::Bonus(Bonus::Season(_))) => true,
        (a, b) => a == b,
    }
}

/// Decides `matching_pair`.
pub fn is_matching_pair(first: Tile, second: Tile) -> (r: bool)
    ensures
        r == matching_pair(first, second),
{
    match (first, second) {
        (Tile::Bonus(Bonus::Plant(_)), Tile::Bonus(Bonus::Plant(_))) => true,
        (Tile::Bonus(Bonus::Season(_)), Tile::Bonus(Bonus::Season(_))) => true,
        (a, b) => a == b,
    }
}

/// The full deck: four copies of every suit and honor face and one of
/// every bonus face — 144 tiles.
pub open spec fn full_deck() -> Seq<Tile> {
    normal_tile_values() + normal_tile_values() + normal_tile_values() + normal_tile_values()
        + bonus_tile_values()
}

/// Deals the full deck into matching pairs, in random order: every suit
/// and honor face as two identical pairs, the shuffled seasons as two
/// pairs, and the shuffled plants as two pairs. Every pair matches, and
/// the pairs together hold exactly the 144 tiles of the deck.
pub fn create_tile_pairs_with<R: IndexRng>(rng: &mut R) -> (r: Vec<(Tile, Tile)>)
    ensures
        r@.len() == 72,
        forall|k: int| 0 <= k < r@.len() ==> matching_pair(#[trigger] r@[k].0, r@[k].1),
        pair_items(r@).to_multiset() == full_deck().to_multiset(),
{
    broadcast use vstd::multiset::group_multiset_axioms;
    broadcast use vstd::seq_lib::group_to_multiset_ensures;
    broadcast use vstd::seq_lib::lemma_multiset_commutative;

    let mut seasons: Vec<Tile> = Vec::new();
    seasons.push(Tile::Bonus(Bonus::Season(crate::tiles::Season::Spring)));
    seasons.push(Tile::Bonus(Bonus::Season(crate::tiles::Season::Summer)));
    seasons.push(Tile::Bonus(Bonus::Season(crate::tiles::Season::Fall)));
    seasons.push(Tile::Bonus(Bonus::Season(crate::tiles::Season::Winter)));
    proof {
        assert(seasons@ =~= bonus_tile_values().subrange(0, 4));
    }
    let mut plants: Vec<Tile> = Vec::new();
    plants.push(Tile::Bonus(Bonus::Plant(crate::tiles::Plant::Plum)));
    plants.push(Tile::Bonus(Bonus::Plant(crate::tiles::Plant::Orchid)));
    plants.push(Tile::Bonus(Bonus::Plant(crate::tiles::Plant::Chrysanthemum)));
    plants.push(Tile::Bonus(Bonus::Plant(crate::tiles::Plant::Bamboo)));
    proof {
        assert(plants@ =~= bonus_tile_values().subrange(4, 8));
    }
    let seasons_sh = shuffled(&seasons, rng);
    let plants_sh = shuffled(&plants, rng);
    proof {
        assert forall|k: int| 0 <= k < 4 implies is_season(#[trigger] seasons_sh@[k]) by {
            assert(seasons_sh@.contains(seasons_sh@[k]));
            vstd::seq_lib::to_multiset_contains::<Tile>(seasons_sh@, seasons_sh@[k]);
            vstd::seq_lib::to_multiset_contains::<Tile>(seasons@, seasons_sh@[k]);
            assert(seasons@.contains(seasons_sh@[k]));
            let w = choose|w: int| 0 <= w < seasons@.len() && seasons@[w] == seasons_sh@[k];
        }
        assert forall|k: int| 0 <= k < 4 implies is_plant(#[trigger] plants_sh@[k]) by {
            assert(plants_sh@.contains(plants_sh@[k]));
            vstd::seq_lib::to_multiset_contains::<Tile>(plants_sh@, plants_sh@[k]);
            vstd::seq_lib::to_multiset_contains::<Tile>(plants@, plants_sh@[k]);
            assert(plants@.contains(plants_sh@[k]));
            let w = choose|w: int| 0 <= w < plants@.len() && plants@[w] == plants_sh@[k];
        }
    }
    let mut pairs: Vec<(Tile, Tile)> = Vec::new();
    let ghost p0 = pairs@;
    pairs.push((seasons_sh[0], seasons_sh[1]));
    let ghost p1 = pairs@;
    pairs.push((seasons_sh[2], seasons_sh[3]));
    let ghost p2 = pairs@;
    pairs.push((plants_sh[0], plants_sh[1]));
    let ghost p3 = pairs@;
    pairs.push((plants_sh[2], plants_sh[3]));
    proof {
        lemma_pair_items_push(p0, (seasons_sh@[0], seasons_sh@[1]));
        lemma_pair_items_push(p1, (seasons_sh@[2], seasons_sh@[3]));
        lemma_pair_items_push(p2, (plants_sh@[0], plants_sh@[1]));
        lemma_pair_items_push(p3, (plants_sh@[2], plants_sh@[3]));
        assert(pair_items(pairs@) =~= seasons_sh@ + plants_sh@);
        assert(pair_items(pairs@).to_multiset() =~= seasons@.to_multiset().add(
            plants@.to_multiset(),
        ));
    }
    let normal = Tile::new_normal_set();
    let mut i: usize = 0;
    while i < normal.len()
        invariant
            normal@ == normal_tile_values(),
            i <= normal@.len(),
            pairs@.len() == 4 + 2 * i,
            forall|k: int|
                0 <= k < pairs@.len() ==> matching_pair(#[trigger] pairs@[k].0, pairs@[k].1),
            pair_items(pairs@).to_multiset() =~= seasons@.to_multiset().add(
                plants@.to_multiset(),
            ).add(normal@.subrange(0, i as int).to_multiset()).add(
                normal@.subrange(0, i as int).to_multiset(),
            ).add(normal@.subrange(0, i as int).to_multiset()).add(
                normal@.subrange(0, i as int).to_multiset(),
            ),
        decreases normal@.len() - i,
    {
        broadcast use vstd::multiset::group_multiset_axioms;
        broadcast use vstd::seq_lib::group_to_multiset_ensures;

        let t = normal[i];
        let ghost q0 = pairs@;
        pairs.push((t, t));
        let ghost q1 = pairs@;
        pairs.push((t, t));
        proof {
            lemma_pair_items_push(q0, (t, t));
            lemma_pair_items_push(q1, (t, t));
            assert(normal@.subrange(0, i + 1) =~= normal@.subrange(0, i as int).push(t));
            assert(pair_items(pairs@) =~= pair_items(q0) + seq![t, t] + seq![t, t]);
            vstd::seq_lib::lemma_multiset_commutative(pair_items(q0) + seq![t, t], seq![t, t]);
            vstd::seq_lib::lemma_multiset_commutative(pair_items(q0), seq![t, t]);
            assert(seq![t, t].to_multiset() =~= Multiset::empty().insert(t).insert(t)) by {
                assert(seq![t, t] =~= Seq::empty().push(t).push(t));
            }
            assert(pair_items(pairs@).to_multiset() =~= seasons@.to_multiset().add(
                plants@.to_multiset(),
            ).add(normal@.subrange(0, i + 1).to_multiset()).add(
                normal@.subrange(0, i + 1).to_multiset(),
            ).add(normal@.subrange(0, i + 1).to_multiset()).add(
                normal@.subrange(0, i + 1).to_multiset(),
            ));
        }
        i += 1;
    }
    proof {
        assert(normal@.subrange(0, normal@.len() as int) =~= normal_tile_values());
        assert(bonus_tile_values() =~= bonus_tile_values().subrange(0, 4)
            + bonus_tile_values().subrange(4, 8));
        assert(full_deck().to_multiset() =~= pair_items(pairs@).to_multiset());
    }
    let out = shuffled(&pairs, rng);
    proof {
        lemma_pair_items_permutation(out@, pairs@);
        assert forall|k: int| 0 <= k < out@.len() implies matching_pair(
            #[trigger] out@[k].0,
            out@[k].1,
        ) by {
            assert(out@.contains(out@[k]));
            vstd::seq_lib::to_multiset_contains::<(Tile, Tile)>(out@, out@[k]);
            vstd::seq_lib::to_multiset_contains::<(Tile, Tile)>(pairs@, out@[k]);
            assert(pairs@.contains(out@[k]));
            let w = choose|w: int| 0 <= w < pairs@.len() && pairs@[w] == out@[k];
        }
    }
    out
}

/// Is this tile a season?
pub open spec fn is_season(t: Tile) -> bool {
    match t {
        Tile::Bonus(Bonus::Season(_)) => true,
        _ => false,
    }
}

/// Is this tile a plant?
pub open spec fn is_plant(t: Tile) -> bool {
    match t {
        Tile::Bonus(Bonus::Plant(_)) => true,
        _ => false,
    }
}

/// Deals the full deck into matching pairs as `create_tile_pairs_with`
/// does, drawing from the process-wide generator.
pub fn create_tile_pairs() -> (r: Vec<(Tile, Tile)>)
    ensures
        r@.len() == 72,
        forall|k: int| 0 <= k < r@.len() ==> matching_pair(#[trigger] r@[k].0, r@[k].1),
        pair_items(r@).to_multiset() == full_deck().to_multiset(),
{
    let mut rng = ThreadRngSource;
    create_tile_pairs_with(&mut rng)
}

/// Zips position pairs with identity pairs: the two positions of the
/// `k`-th pair take the two tiles of the `k`-th identity pair, until
/// either list runs out.
pub fn assign_tiles(grid_pairs: &Vec<(GridPos, GridPos)>, tile_pairs: &Vec<(Tile, Tile)>) -> (r:
    Vec<(GridPos, Tile)>)
    ensures
        r@.len() == 2 * (if grid_pairs@.len() < tile_pairs@.len() {
            grid_pairs@.len()
        } else {
            tile_pairs@.len()
        }),
        forall|k: int|
            0 <= k && 2 * k < r@.len() ==> #[trigger] r@[2 * k] == (
                grid_pairs@[k].0,
                tile_pairs@[k].0,
            ) && r@[2 * k + 1] == (grid_pairs@[k].1, tile_pairs@[k].1),
{
    let mut r: Vec<(GridPos, Tile)> = Vec::new();
    let mut k: usize = 0;
    while k < grid_pairs.len() && k < tile_pairs.len()
        invariant
            k <= grid_pairs@.len(),
            k <= tile_pairs@.len(),
            r@.len() == 2 * k,
            forall|m: int|
                0 <= m && 2 * m < r@.len() ==> #[trigger] r@[2 * m] == (
                    grid_pairs@[m].0,
                    tile_pairs@[m].0,
                ) && r@[2 * m + 1] == (grid_pairs@[m].1, tile_pairs@[m].1),
        decreases grid_pairs@.len() - k,
    {
        let gp = grid_pairs[k];
        let tp = tile_pairs[k];
        let ghost prev = r@;
        r.push((gp.0, tp.0));
        r.push((gp.1, tp.1));
        proof {
            assert forall|m: int|
                0 <= m && 2 * m < r@.len() implies #[trigger] r@[2 * m] == (
                    grid_pairs@[m].0,
                    tile_pairs@[m].0,
                ) && r@[2 * m + 1] == (grid_pairs@[m].1, tile_pairs@[m].1) by {
                if m < k {
                    assert(r@[2 * m] == prev[2 * m]);
                    assert(r@[2 * m + 1] == prev[2 * m + 1]);
                } else {
                    assert(m == k);
                    assert(r@[2 * m] == (gp.0, tp.0));
                    assert(r@[2 * m + 1] == (gp.1, tp.1));
                }
            }
        }
        k += 1;
    }
    proof {
        assert(k == grid_pairs@.len() || k == tile_pairs@.len());
    }
    r
}

} // verus!
