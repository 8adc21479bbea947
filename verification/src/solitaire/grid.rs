//! The discretized 3D board for solitaire play.
//!
//! A `GridPos` addresses one lattice cell: `x` and `z` index a horizontal
//! lattice whose pitch is half a tile's footprint, so neighbouring tiles
//! stand two cells apart and a tile placed between two others covers the
//! cell in the middle; `y` counts whole tiles of stacking height. The
//! `TileGridSet` records which cells hold a tile and answers the geometric
//! questions of play: whether a candidate placement would intersect a
//! placed tile, whether it would rest on stable support, and whether a
//! placed tile is still reachable for matching.

use vstd::prelude::*;

verus! {

use crate::arith::floor_div;
use crate::grid::lemma_push_to_set;
use crate::grid::lemma_remove_index_to_set;

pub use crate::grid::GridPos;
use crate::clamped_value::clamped;
use crate::pairs::lemma_pair_items_push;
use crate::pairs::pair_items;
use crate::rng::IndexRng;
use crate::world::WorldVec;

/// Tile footprint and height in micro-units of world space.
pub const TILE_WIDTH: i64 = 30000;

pub const TILE_HEIGHT: i64 = 23000;

pub const TILE_DEPTH: i64 = 39000;

/// Horizontal lattice pitch: half of `TILE_WIDTH`.
pub const CELL_WIDTH: i64 = 15000;

/// Horizontal lattice pitch along depth: half of `TILE_DEPTH`.
pub const CELL_DEPTH: i64 = 19500;

pub const HALF_CELL_WIDTH: i64 = 7500;

pub const HALF_CELL_DEPTH: i64 = 9750;

pub const HALF_TILE_HEIGHT: i64 = 11500;

/// The playable area of the table top, measured in micro-units.
pub const TABLE_INNER_SIZE: i64 = 800000;

/// The horizontal clamp window, `TABLE_INNER_SIZE / 2 - TILE_WIDTH / 2`:
/// a tile centre never leaves the table top.
pub const MAX_WORLD_X: i64 = 385000;

/// `-MAX_WORLD_X + TILE_WIDTH / 2`.
pub const MIN_WORLD_X: i64 = -370000;

/// `TABLE_INNER_SIZE / 2 - TILE_DEPTH / 2`.
pub const MAX_WORLD_Z: i64 = 380500;

/// `-MAX_WORLD_Z + TILE_DEPTH / 2`.
pub const MIN_WORLD_Z: i64 = -361000;

/// The lattice indices that the clamp window maps onto: the floors of
/// `MIN_WORLD_X / CELL_WIDTH` .. `MAX_WORLD_X / CELL_WIDTH` and likewise
/// for depth.
pub const GRID_MIN_X: i64 = -25;

pub const GRID_MAX_X: i64 = 25;

pub const GRID_MIN_Z: i64 = -19;

pub const GRID_MAX_Z: i64 = 19;

/// The lattice column a world coordinate snaps to: clamp the cell-centred
/// coordinate into the playable window, then floor onto the lattice.
pub open spec fn grid_x_from_world(wx: int) -> int {
    clamped(wx + HALF_CELL_WIDTH, MIN_WORLD_X as int, MAX_WORLD_X as int) / (CELL_WIDTH as int)
}

pub open spec fn grid_z_from_world(wz: int) -> int {
    clamped(wz + HALF_CELL_DEPTH, MIN_WORLD_Z as int, MAX_WORLD_Z as int) / (CELL_DEPTH as int)
}

impl GridPos {
    /// Snaps a world-space point onto the board: the horizontal coordinates
    /// are clamped into the playable window and floored onto the lattice,
    /// and the height is zero — stacking height is assigned by placement
    /// logic, never read from a world position.
    pub fn from_world(pos: WorldVec) -> (r: Self)
        ensures
            r.x as int == grid_x_from_world(pos.x as int),
            r.y == 0,
            r.z as int == grid_z_from_world(pos.z as int),
    {
        let xm: i64 = if pos.x > MAX_WORLD_X - HALF_CELL_WIDTH {
            MAX_WORLD_X
        } else if pos.x + HALF_CELL_WIDTH < MIN_WORLD_X {
            MIN_WORLD_X
        } else {
            pos.x + HALF_CELL_WIDTH
        };
        let zm: i64 = if pos.z > MAX_WORLD_Z - HALF_CELL_DEPTH {
            MAX_WORLD_Z
        } else if pos.z + HALF_CELL_DEPTH < MIN_WORLD_Z {
            MIN_WORLD_Z
        } else {
            pos.z + HALF_CELL_DEPTH
        };
        let gx = floor_div(xm, CELL_WIDTH);
        let gz = floor_div(zm, CELL_DEPTH);
        proof {
            vstd::arithmetic::div_mod::lemma_div_is_ordered(
                MIN_WORLD_X as int,
                xm as int,
                CELL_WIDTH as int,
            );
            vstd::arithmetic::div_mod::lemma_div_is_ordered(
                xm as int,
                MAX_WORLD_X as int,
                CELL_WIDTH as int,
            );
            vstd::arithmetic::div_mod::lemma_div_is_ordered(
                MIN_WORLD_Z as int,
                zm as int,
                CELL_DEPTH as int,
            );
            vstd::arithmetic::div_mod::lemma_div_is_ordered(
                zm as int,
                MAX_WORLD_Z as int,
                CELL_DEPTH as int,
            );
        }
        GridPos { x: gx as i32, y: 0, z: gz as i32 }
    }

    /// The world-space centre of this cell: lattice index times pitch, and
    /// height scaled to whole tiles with the origin at a tile's mid-height.
    pub fn to_world(self) -> (r: WorldVec)
        ensures
            r.x as int == self.x as int * CELL_WIDTH,
            r.y as int == self.y as int * TILE_HEIGHT + HALF_TILE_HEIGHT,
            r.z as int == self.z as int * CELL_DEPTH,
    {
        WorldVec {
            x: (self.x as i64) * CELL_WIDTH,
            y: (self.y as i64) * TILE_HEIGHT + HALF_TILE_HEIGHT,
            z: (self.z as i64) * CELL_DEPTH,
        }
    }
}

/// Snapping always lands inside the playable lattice window, and an
/// out-of-range coordinate lands exactly on the window's boundary cell.
pub proof fn lemma_from_world_clamps(wx: int, wz: int)
    ensures
        GRID_MIN_X <= grid_x_from_world(wx) <= GRID_MAX_X,
        GRID_MIN_Z <= grid_z_from_world(wz) <= GRID_MAX_Z,
        wx + HALF_CELL_WIDTH >= MAX_WORLD_X ==> grid_x_from_world(wx) == GRID_MAX_X,
        wx + HALF_CELL_WIDTH <= MIN_WORLD_X ==> grid_x_from_world(wx) == GRID_MIN_X,
        wz + HALF_CELL_DEPTH >= MAX_WORLD_Z ==> grid_z_from_world(wz) == GRID_MAX_Z,
        wz + HALF_CELL_DEPTH <= MIN_WORLD_Z ==> grid_z_from_world(wz) == GRID_MIN_Z,
{
    let cx = clamped(wx + HALF_CELL_WIDTH, MIN_WORLD_X as int, MAX_WORLD_X as int);
    let cz = clamped(wz + HALF_CELL_DEPTH, MIN_WORLD_Z as int, MAX_WORLD_Z as int);
    vstd::arithmetic::div_mod::lemma_div_is_ordered(MIN_WORLD_X as int, cx, CELL_WIDTH as int);
    vstd::arithmetic::div_mod::lemma_div_is_ordered(cx, MAX_WORLD_X as int, CELL_WIDTH as int);
    vstd::arithmetic::div_mod::lemma_div_is_ordered(MIN_WORLD_Z as int, cz, CELL_DEPTH as int);
    vstd::arithmetic::div_mod::lemma_div_is_ordered(cz, MAX_WORLD_Z as int, CELL_DEPTH as int);
}

/// Does some placed tile occupy the cell with coordinates `(x, y, z)`?
pub open spec fn occupied(s: Set<GridPos>, x: int, y: int, z: int) -> bool {
    exists|g: GridPos| #[trigger] s.contains(g) && g.x == x && g.y == y && g.z == z
}

/// Would tiles centred on cells `a` and `b` physically intersect? A tile's
/// footprint spans two lattice cells per axis, so two tiles intersect when
/// they share the stacking height and their centres are within one cell of
/// each other both ways.
pub open spec fn covers(a: GridPos, b: GridPos) -> bool {
    a.y == b.y && -1 <= a.x - b.x <= 1 && -1 <= a.z - b.z <= 1
}

/// Is some placed tile of `s` intersecting a tile placed at `pos`?
pub open spec fn overlapping(s: Set<GridPos>, pos: GridPos) -> bool {
    exists|g: GridPos| #[trigger] s.contains(g) && covers(g, pos)
}

/// Is a tile at `pos` resting on stable support? Ground level always is.
/// Above ground, the tile may rest directly on the cell below, straddle a
/// pair of opposite neighbours, rest on one orthogonal neighbour together
/// with the two diagonals across from it, or balance on all four
/// diagonals. A tile touching only a single corner below is not supported.
pub open spec fn supported_from_below(s: Set<GridPos>, pos: GridPos) -> bool {
    pos.y == 0 || {
        let below = pos.y - 1;
        let center = occupied(s, pos.x as int, below, pos.z as int);
        let left = occupied(s, pos.x - 1, below, pos.z as int);
        let right = occupied(s, pos.x + 1, below, pos.z as int);
        let front = occupied(s, pos.x as int, below, pos.z - 1);
        let back = occupied(s, pos.x as int, below, pos.z + 1);
        let front_left = occupied(s, pos.x - 1, below, pos.z - 1);
        let front_right = occupied(s, pos.x + 1, below, pos.z - 1);
        let back_left = occupied(s, pos.x - 1, below, pos.z + 1);
        let back_right = occupied(s, pos.x + 1, below, pos.z + 1);
        center || (left && right) || (front && back) || (left && front_right && back_right) || (
        right && front_left && back_left) || (front && back_left && back_right) || (back
            && front_left && front_right) || (front_left && front_right && back_left && back_right)
    }
}

/// Does a placed tile intersect the space directly above `pos` — the cell
/// one stacking step up, reached by any footprint within one lattice step?
pub open spec fn covered_from_above(s: Set<GridPos>, pos: GridPos) -> bool {
    exists|g: GridPos|
        #[trigger] s.contains(g) && g.y == pos.y + 1 && -1 <= g.x - pos.x <= 1 && -1 <= g.z - pos.z
            <= 1
}

/// Are all three cells of the depth run at column `x` beside `pos`
/// occupied: the cells at `pos.z - 1`, `pos.z` and `pos.z + 1` on `pos`'s
/// own layer?
pub open spec fn run_occupied(s: Set<GridPos>, x: int, pos: GridPos) -> bool {
    occupied(s, x, pos.y as int, pos.z - 1) && occupied(s, x, pos.y as int, pos.z as int)
        && occupied(s, x, pos.y as int, pos.z + 1)
}

/// Is a placed tile at `pos` unreachable for matching? It is when a tile
/// covers it from above, or when it is sandwiched: fully walled in by
/// three-cell runs of tiles both at its left (`x - 2`) and at its right
/// (`x + 2`) across its whole depth.
pub open spec fn blocked(s: Set<GridPos>, pos: GridPos) -> bool {
    covered_from_above(s, pos) || (run_occupied(s, pos.x - 2, pos) && run_occupied(
        s,
        pos.x + 2,
        pos,
    ))
}

/// Is `p` on board `s` and reachable for matching right now?
pub open spec fn freely_matchable(s: Set<GridPos>, p: GridPos) -> bool {
    s.contains(p) && !blocked(s, p)
}

/// The board left over after the first `i` pairs of `ps` have been
/// removed from `s`.
pub open spec fn board_after(s: Set<GridPos>, ps: Seq<(GridPos, GridPos)>, i: int) -> Set<
    GridPos,
> {
    s.difference(pair_items(ps.take(i)).to_set())
}

/// Do the first `k` pairs of `ps` play out as legal moves from `s`: each
/// pair removes two positions that are still on the board left by the
/// earlier pairs, and are unblocked there?
pub open spec fn greedy_prefix(s: Set<GridPos>, ps: Seq<(GridPos, GridPos)>, k: int) -> bool {
    forall|i: int|
        0 <= i < k ==> freely_matchable(#[trigger] board_after(s, ps, i), ps[i].0)
            && freely_matchable(board_after(s, ps, i), ps[i].1)
}

/// Does `ps` decompose at `k` into a maximal playable phase and a forced
/// remainder: the first `k` pairs play out as legal moves, and the board
/// they leave holds no two distinct matchable positions?
pub open spec fn greedy_then_stuck(s: Set<GridPos>, ps: Seq<(GridPos, GridPos)>, k: int) -> bool {
    &&& 0 <= k <= ps.len()
    &&& greedy_prefix(s, ps, k)
    &&& forall|a: GridPos, b: GridPos|
        !(a != b && #[trigger] freely_matchable(board_after(s, ps, k), a)
            && #[trigger] freely_matchable(board_after(s, ps, k), b))
}

/// `board_after` with every pair taken: the board minus all paired
/// positions.
proof fn lemma_board_after_full(s: Set<GridPos>, ps: Seq<(GridPos, GridPos)>)
    ensures
        board_after(s, ps, ps.len() as int) == s.difference(pair_items(ps).to_set()),
{
    assert(ps.take(ps.len() as int) =~= ps);
}

/// Appending a pair does not change the board after the first `i` pairs.
proof fn lemma_board_after_push(
    s: Set<GridPos>,
    ps: Seq<(GridPos, GridPos)>,
    p: (GridPos, GridPos),
    i: int,
)
    requires
        0 <= i <= ps.len(),
    ensures
        board_after(s, ps.push(p), i) == board_after(s, ps, i),
{
    assert(ps.push(p).take(i) =~= ps.take(i));
}

/// Appending a pair keeps an existing playable prefix playable.
proof fn lemma_prefix_push(
    s: Set<GridPos>,
    ps: Seq<(GridPos, GridPos)>,
    p: (GridPos, GridPos),
    k: int,
)
    requires
        0 <= k <= ps.len(),
        greedy_prefix(s, ps, k),
    ensures
        greedy_prefix(s, ps.push(p), k),
{
    assert forall|i: int| 0 <= i < k implies freely_matchable(
        #[trigger] board_after(s, ps.push(p), i),
        ps.push(p)[i].0,
    ) && freely_matchable(board_after(s, ps.push(p), i), ps.push(p)[i].1) by {
        lemma_board_after_push(s, ps, p, i);
        assert(ps.push(p)[i] == ps[i]);
        assert(freely_matchable(board_after(s, ps, i), ps[i].0) && freely_matchable(
            board_after(s, ps, i),
            ps[i].1,
        ));
    }
}

/// A pair whose two positions are matchable on the board left by `ps`
/// extends the playable prefix by one move.
proof fn lemma_prefix_extend(s: Set<GridPos>, ps: Seq<(GridPos, GridPos)>, p: (GridPos, GridPos))
    requires
        greedy_prefix(s, ps, ps.len() as int),
        freely_matchable(s.difference(pair_items(ps).to_set()), p.0),
        freely_matchable(s.difference(pair_items(ps).to_set()), p.1),
    ensures
        greedy_prefix(s, ps.push(p), ps.len() as int + 1),
{
    lemma_prefix_push(s, ps, p, ps.len() as int);
    lemma_board_after_push(s, ps, p, ps.len() as int);
    lemma_board_after_full(s, ps);
    assert forall|i: int| 0 <= i < ps.len() as int + 1 implies freely_matchable(
        #[trigger] board_after(s, ps.push(p), i),
        ps.push(p)[i].0,
    ) && freely_matchable(board_after(s, ps.push(p), i), ps.push(p)[i].1) by {
        if i < ps.len() {
            assert(freely_matchable(board_after(s, ps.push(p), i), ps.push(p)[i].0)
                && freely_matchable(board_after(s, ps.push(p), i), ps.push(p)[i].1));
        } else {
            assert(ps.push(p)[i] == p);
            assert(board_after(s, ps.push(p), i) == s.difference(pair_items(ps).to_set()));
        }
    }
}

/// Appending a pair removes exactly its two positions from the board that
/// is left.
proof fn lemma_board_shrinks(s: Set<GridPos>, ps: Seq<(GridPos, GridPos)>, p: (GridPos, GridPos))
    ensures
        s.difference(pair_items(ps.push(p)).to_set()) =~= s.difference(
            pair_items(ps).to_set(),
        ).remove(p.0).remove(p.1),
{
    lemma_pair_items_push(ps, p);
    vstd::seq_lib::seq_to_set_distributes_over_add::<GridPos>(pair_items(ps), seq![p.0, p.1]);
    assert(seq![p.0, p.1].to_set() =~= Set::<GridPos>::empty().insert(p.0).insert(p.1)) by {
        assert(seq![p.0, p.1][0] == p.0);
        assert(seq![p.0, p.1][1] == p.1);
        assert forall|q: GridPos| seq![p.0, p.1].to_set().contains(q) implies (q == p.0 || q
            == p.1) by {
            let kk = choose|kk: int| 0 <= kk < 2 && seq![p.0, p.1][kk] == q;
        }
    }
}

/// The occupied cells of a board, as a mutable set with exact contracts.
///
/// The store itself is dumb: geometry is checked by the query methods, and
/// `insert` is the only method that couples a geometric check with a
/// mutation. A loaded layout that was already vetted can be replayed
/// through `insert_unchecked`.
pub struct TileGridSet {
    cells: Vec<GridPos>,
}

impl View for TileGridSet {
    type V = Set<GridPos>;

    closed spec fn view(&self) -> Set<GridPos> {
        self.cells@.to_set()
    }
}

impl TileGridSet {
    /// The store holds each occupied cell once; every constructor
    /// establishes this and every mutation preserves it.
    pub closed spec fn wf(&self) -> bool {
        self.cells@.no_duplicates()
    }

    /// An empty board.
    pub fn new() -> (r: Self)
        ensures
            r.wf(),
            r@ == Set::<GridPos>::empty(),
    {
        let r = Self { cells: Vec::new() };
        proof {
            assert(r@ =~= Set::<GridPos>::empty());
        }
        r
    }

    fn contains_pos(cells: &Vec<GridPos>, p: GridPos) -> (r: bool)
        ensures
            r == cells@.contains(p),
    {
        let mut i: usize = 0;
        while i < cells.len()
            invariant
                i <= cells.len(),
                forall|k: int| 0 <= k < i ==> cells@[k] != p,
            decreases cells.len() - i,
        {
            if cells[i] == p {
                return true;
            }
            i += 1;
        }
        false
    }

    fn occupied_at(cells: &Vec<GridPos>, x: i64, y: i64, z: i64) -> (r: bool)
        ensures
            r == occupied(cells@.to_set(), x as int, y as int, z as int),
    {
        let in_range = x >= i32::MIN as i64 && x <= i32::MAX as i64 && y >= i32::MIN as i64 && y
            <= i32::MAX as i64 && z >= i32::MIN as i64 && z <= i32::MAX as i64;
        if in_range {
            let p = GridPos { x: x as i32, y: y as i32, z: z as i32 };
            let r = Self::contains_pos(cells, p);
            proof {
                if r {
                    assert(cells@.to_set().contains(p));
                } else {
                    assert forall|g: GridPos|
                        cells@.to_set().contains(g) && g.x == x && g.y == y && g.z
                            == z implies false by {
                        assert(g == p);
                    }
                }
            }
            r
        } else {
            false
        }
    }

    /// How many cells are occupied.
    pub fn len(&self) -> (r: usize)
        requires
            self.wf(),
        ensures
            r == self@.len(),
    {
        proof {
            self.cells@.unique_seq_to_set();
        }
        self.cells.len()
    }

    /// Inserts `pos` unless a placed tile would physically intersect it
    /// (which also covers `pos` itself being occupied), and reports whether
    /// the tile was placed.
    pub fn insert(&mut self, pos: GridPos) -> (r: bool)
        requires
            old(self).wf(),
        ensures
            final(self).wf(),
            r == !overlapping(old(self)@, pos),
            final(self)@ == if r {
                old(self)@.insert(pos)
            } else {
                old(self)@
            },
    {
        if self.is_overlapping(pos) {
            false
        } else {
            proof {
                if self.cells@.contains(pos) {
                    assert(self@.contains(pos) && covers(pos, pos));
                }
            }
            proof {
                lemma_push_to_set(self.cells@, pos);
            }
            self.cells.push(pos);
            true
        }
    }

    /// Inserts `pos` with no overlap check, for replaying a stored layout;
    /// an exact duplicate is still refused, so the store stays a set.
    pub fn insert_unchecked(&mut self, pos: GridPos) -> (r: bool)
        requires
            old(self).wf(),
        ensures
            final(self).wf(),
            r == !old(self)@.contains(pos),
            final(self)@ == old(self)@.insert(pos),
    {
        if Self::contains_pos(&self.cells, pos) {
            proof {
                assert(self@ =~= self@.insert(pos));
            }
            false
        } else {
            proof {
                lemma_push_to_set(self.cells@, pos);
            }
            self.cells.push(pos);
            true
        }
    }

    /// Removes `pos`, reporting whether it was present.
    pub fn remove(&mut self, pos: &GridPos) -> (r: bool)
        requires
            old(self).wf(),
        ensures
            final(self).wf(),
            r == old(self)@.contains(*pos),
            final(self)@ == old(self)@.remove(*pos),
    {
        let p = *pos;
        match Self::index_of(&self.cells, p) {
            Some(i) => {
                proof {
                    assert(old(self)@.contains(p));
                    lemma_remove_index_to_set(self.cells@, i as int);
                }
                self.cells.remove(i);
                proof {
                    assert(self@ =~= old(self)@.remove(p));
                }
                true
            },
            None => {
                proof {
                    assert(self@ =~= self@.remove(p));
                }
                false
            },
        }
    }

    /// Where `p` sits in `cells`, if anywhere.
    fn index_of(cells: &Vec<GridPos>, p: GridPos) -> (r: Option<usize>)
        ensures
            match r {
                Some(i) => i < cells@.len() && cells@[i as int] == p,
                None => !cells@.contains(p),
            },
    {
        let mut i: usize = 0;
        while i < cells.len()
            invariant
                i <= cells.len(),
                forall|k: int| 0 <= k < i ==> cells@[k] != p,
            decreases cells.len() - i,
        {
            if cells[i] == p {
                return Some(i);
            }
            i += 1;
        }
        None
    }

    /// Empties the board.
    pub fn clear(&mut self)
        ensures
            final(self).wf(),
            final(self)@ == Set::<GridPos>::empty(),
    {
        self.cells = Vec::new();
        proof {
            assert(self@ =~= Set::<GridPos>::empty());
        }
    }

    /// Would a tile at `pos` physically intersect a placed tile? The scan
    /// covers the window of centres whose footprints reach into `pos`'s
    /// cell: same height, one lattice step each way.
    pub fn is_overlapping(&self, pos: GridPos) -> (r: bool)
        ensures
            r == overlapping(self@, pos),
    {
        let x = pos.x as i64;
        let y = pos.y as i64;
        let z = pos.z as i64;
        let r = Self::occupied_at(&self.cells, x - 1, y, z - 1) || Self::occupied_at(
            &self.cells,
            x,
            y,
            z - 1,
        ) || Self::occupied_at(&self.cells, x + 1, y, z - 1) || Self::occupied_at(
            &self.cells,
            x - 1,
            y,
            z,
        ) || Self::occupied_at(&self.cells, x, y, z) || Self::occupied_at(
            &self.cells,
            x + 1,
            y,
            z,
        ) || Self::occupied_at(&self.cells, x - 1, y, z + 1) || Self::occupied_at(
            &self.cells,
            x,
            y,
            z + 1,
        ) || Self::occupied_at(&self.cells, x + 1, y, z + 1);
        proof {
            lemma_overlap_window(self@, pos);
        }
        r
    }

    /// Does a tile at `pos` rest on stable support? Always true at ground
    /// level; above it, the scan checks the nine cells one layer down for
    /// the enumerated contact patterns.
    pub fn is_supported_from_below(&self, pos: GridPos) -> (r: bool)
        ensures
            r == supported_from_below(self@, pos),
    {
        if pos.y == 0 {
            return true;
        }
        let x = pos.x as i64;
        let y = pos.y as i64 - 1;
        let z = pos.z as i64;
        let center = Self::occupied_at(&self.cells, x, y, z);
        let left = Self::occupied_at(&self.cells, x - 1, y, z);
        let right = Self::occupied_at(&self.cells, x + 1, y, z);
        let front = Self::occupied_at(&self.cells, x, y, z - 1);
        let back = Self::occupied_at(&self.cells, x, y, z + 1);
        let front_left = Self::occupied_at(&self.cells, x - 1, y, z - 1);
        let front_right = Self::occupied_at(&self.cells, x + 1, y, z - 1);
        let back_left = Self::occupied_at(&self.cells, x - 1, y, z + 1);
        let back_right = Self::occupied_at(&self.cells, x + 1, y, z + 1);
        center || (left && right) || (front && back) || (left && front_right && back_right) || (
        right && front_left && back_left) || (front && back_left && back_right) || (back
            && front_left && front_right) || (front_left && front_right && back_left && back_right)
    }

    /// Is the placed tile at `pos` currently unreachable for matching,
    /// because a tile covers it from above or full runs of tiles wall it in
    /// on both sides?
    pub fn is_blocked(&self, pos: GridPos) -> (r: bool)
        ensures
            r == blocked(self@, pos),
    {
        Self::blocked_at(&self.cells, pos)
    }

    fn blocked_at(cells: &Vec<GridPos>, pos: GridPos) -> (r: bool)
        ensures
            r == blocked(cells@.to_set(), pos),
    {
        let x = pos.x as i64;
        let y = pos.y as i64;
        let z = pos.z as i64;
        let above = y + 1;
        let has_tile_above = Self::occupied_at(cells, x - 1, above, z - 1) || Self::occupied_at(
            cells,
            x,
            above,
            z - 1,
        ) || Self::occupied_at(cells, x + 1, above, z - 1) || Self::occupied_at(
            cells,
            x - 1,
            above,
            z,
        ) || Self::occupied_at(cells, x, above, z) || Self::occupied_at(
            cells,
            x + 1,
            above,
            z,
        ) || Self::occupied_at(cells, x - 1, above, z + 1) || Self::occupied_at(
            cells,
            x,
            above,
            z + 1,
        ) || Self::occupied_at(cells, x + 1, above, z + 1);
        proof {
            lemma_cover_window(cells@.to_set(), pos);
        }
        if has_tile_above {
            return true;
        }
        let has_wall_left = Self::occupied_at(cells, x - 2, y, z - 1) && Self::occupied_at(
            cells,
            x - 2,
            y,
            z,
        ) && Self::occupied_at(cells, x - 2, y, z + 1);
        let has_wall_right = Self::occupied_at(cells, x + 2, y, z - 1) && Self::occupied_at(
            cells,
            x + 2,
            y,
            z,
        ) && Self::occupied_at(cells, x + 2, y, z + 1);
        has_wall_left && has_wall_right
    }

    /// The lowest stacking height at or above `pos.y` at which a tile on
    /// `pos`'s column would intersect nothing: where a candidate tile
    /// dragged over a stack comes to rest.
    pub fn first_unoccupied_above(&self, pos: GridPos) -> (r: GridPos)
        requires
            forall|g: GridPos| self@.contains(g) ==> g.y < i32::MAX,
        ensures
            r.x == pos.x && r.z == pos.z && pos.y <= r.y,
            !overlapping(self@, r),
            forall|q: GridPos|
                q.x == pos.x && q.z == pos.z && pos.y <= q.y < r.y ==> overlapping(self@, q),
    {
        let top = self.max_height();
        let bound: i64 = if (pos.y as i64) > top + 1 {
            pos.y as i64
        } else {
            top + 1
        };
        let mut y: i64 = pos.y as i64;
        loop
            invariant
                forall|g: GridPos| self@.contains(g) ==> g.y as int <= top,
                top < i32::MAX,
                i32::MIN <= pos.y as int <= y <= bound <= i32::MAX as int,
                bound == if (pos.y as int) > top + 1 {
                    pos.y as int
                } else {
                    top + 1
                },
                forall|q: GridPos|
                    q.x == pos.x && q.z == pos.z && pos.y <= q.y < y ==> overlapping(self@, q),
            ensures
                i32::MIN <= y <= i32::MAX,
                !overlapping(self@, GridPos { x: pos.x, y: y as i32, z: pos.z }),
                pos.y as int <= y,
                forall|q: GridPos|
                    q.x == pos.x && q.z == pos.z && pos.y <= q.y < y ==> overlapping(self@, q),
            decreases bound - y,
        {
            proof {
                if y > top {
                    assert forall|g: GridPos|
                        self@.contains(g) && covers(
                            g,
                            GridPos { x: pos.x, y: y as i32, z: pos.z },
                        ) implies false by {}
                }
            }
            let cand = GridPos { x: pos.x, y: y as i32, z: pos.z };
            if !self.is_overlapping(cand) {
                break;
            }
            proof {
                assert forall|q: GridPos|
                    q.x == pos.x && q.z == pos.z && pos.y <= q.y < y + 1 implies overlapping(
                    self@,
                    q,
                ) by {
                    if q.y < y {
                    } else {
                        assert(q == cand);
                    }
                }
            }
            y = y + 1;
        }
        GridPos { x: pos.x, y: y as i32, z: pos.z }
    }

    /// An upper bound on the stacking heights in use, and a height actually
    /// in use when the board is not empty.
    fn max_height(&self) -> (r: i64)
        ensures
            forall|g: GridPos| self@.contains(g) ==> g.y as int <= r,
            r == i32::MIN as int - 1 || exists|g: GridPos| #[trigger] self@.contains(g) && g.y as int == r,
    {
        let mut top: i64 = (i32::MIN as i64) - 1;
        let mut i: usize = 0;
        while i < self.cells.len()
            invariant
                i <= self.cells@.len(),
                forall|k: int| 0 <= k < i ==> self.cells@[k].y as int <= top,
                top == i32::MIN as int - 1 || exists|k: int|
                    0 <= k < i && self.cells@[k].y as int == top,
            decreases self.cells@.len() - i,
        {
            let gy = self.cells[i].y as i64;
            if gy > top {
                top = gy;
            }
            i += 1;
        }
        proof {
            assert forall|g: GridPos| self@.contains(g) implies g.y as int <= top by {
                let k = choose|k: int| 0 <= k < self.cells@.len() && self.cells@[k] == g;
            }
            if top != i32::MIN as int - 1 {
                let k = choose|k: int| 0 <= k < self.cells@.len() && self.cells@[k].y as int == top;
                assert(self@.contains(self.cells@[k]));
            }
        }
        top
    }

    /// May a tile be placed at `pos` right now? The placement rule: the
    /// board is not full, the tile would intersect nothing, and it would
    /// rest on stable support.
    pub fn can_place(&self, pos: GridPos) -> (r: bool)
        requires
            self.wf(),
        ensures
            r == (self@.len() < crate::tiles::NUMBER_OF_TILES_WITH_BONUS
                && !overlapping(self@, pos) && supported_from_below(self@, pos)),
    {
        self.len() < (crate::tiles::NUMBER_OF_TILES_WITH_BONUS as usize) && !self.is_overlapping(
            pos,
        ) && self.is_supported_from_below(pos)
    }

    /// The occupied positions that are currently unblocked, each once, in
    /// store order.
    fn collect_free(cells: &Vec<GridPos>) -> (free: Vec<GridPos>)
        requires
            cells@.no_duplicates(),
        ensures
            free@.no_duplicates(),
            forall|k: int| 0 <= k < free@.len() ==> cells@.contains(#[trigger] free@[k]),
            forall|p: GridPos|
                free@.contains(p) <==> cells@.contains(p) && !blocked(cells@.to_set(), p),
    {
        let mut free: Vec<GridPos> = Vec::new();
        let mut i: usize = 0;
        while i < cells.len()
            invariant
                cells@.no_duplicates(),
                i <= cells@.len(),
                forall|p: GridPos|
                    free@.contains(p) <==> exists|j: int|
                        0 <= j < i && cells@[j] == p && !blocked(cells@.to_set(), p),
                free@.no_duplicates(),
            decreases cells@.len() - i,
        {
            let c = cells[i];
            if !Self::blocked_at(cells, c) {
                proof {
                    if free@.contains(c) {
                        let j = choose|j: int|
                            0 <= j < i && cells@[j] == c && !blocked(cells@.to_set(), c);
                        assert(cells@[j] == cells@[i as int]);
                        assert(false);
                    }
                }
                let ghost prev_free = free@;
                free.push(c);
                proof {
                    lemma_push_to_set(prev_free, c);
                    assert(free@.contains(c)) by {
                        assert(free@[prev_free.len() as int] == c);
                    }
                    assert forall|p: GridPos| free@.contains(p) implies exists|j: int|
                        0 <= j < i + 1 && cells@[j] == p && !blocked(cells@.to_set(), p) by {
                        let m = choose|m: int| 0 <= m < free@.len() && free@[m] == p;
                        if m < prev_free.len() {
                            assert(prev_free[m] == p);
                            assert(prev_free.contains(p));
                        } else {
                            assert(p == c);
                            assert(cells@[i as int] == p && !blocked(cells@.to_set(), p));
                        }
                    }
                    assert forall|p: GridPos|
                        (exists|j: int|
                            0 <= j < i + 1 && cells@[j] == p && !blocked(
                                cells@.to_set(),
                                p,
                            )) implies free@.contains(p) by {
                        let j = choose|j: int|
                            0 <= j < i + 1 && cells@[j] == p && !blocked(cells@.to_set(), p);
                        if j < i {
                            assert(prev_free.contains(p));
                            let m = choose|m: int| 0 <= m < prev_free.len() && prev_free[m] == p;
                            assert(free@[m] == p);
                        } else {
                            assert(p == c);
                        }
                    }
                }
            }
            i += 1;
        }
        proof {
            assert forall|p: GridPos| free@.contains(p) implies cells@.contains(p) && !blocked(
                cells@.to_set(),
                p,
            ) by {
                let j = choose|j: int|
                    0 <= j < cells@.len() && cells@[j] == p && !blocked(cells@.to_set(), p);
            }
            assert forall|k: int| 0 <= k < free@.len() implies cells@.contains(
                #[trigger] free@[k],
            ) by {
                assert(free@.contains(free@[k]));
            }
        }
        free
    }

    /// Removes the one occurrence of `p` from a duplicate-free store.
    fn remove_value(v: &mut Vec<GridPos>, p: GridPos)
        requires
            old(v)@.contains(p),
            old(v)@.no_duplicates(),
        ensures
            final(v)@.no_duplicates(),
            final(v)@.len() == old(v)@.len() - 1,
            forall|q: GridPos| final(v)@.contains(q) <==> old(v)@.contains(q) && q != p,
    {
        match Self::index_of(v, p) {
            Some(k) => {
                proof {
                    lemma_remove_index_to_set(v@, k as int);
                }
                let ghost prev = v@;
                v.remove(k);
                proof {
                    assert(v@.to_set() =~= prev.to_set().remove(p));
                    assert forall|q: GridPos| v@.contains(q) <==> prev.contains(q) && q != p by {
                        assert(v@.contains(q) == v@.to_set().contains(q));
                        assert(prev.contains(q) == prev.to_set().contains(q));
                    }
                }
            },
            None => {
                proof {
                    assert(false);
                }
            },
        }
    }

    /// Pairs the occupied positions for solvable play, greedily and
    /// randomly: repeatedly draw two distinct currently-unblocked
    /// positions and remove them, and when fewer than two remain free,
    /// pair the rest off in store order, dropping a final odd position.
    /// The result always holds `⌊n/2⌋` pairs of distinct occupied
    /// positions, each position in at most one pair; some prefix of it
    /// plays out as legal moves until no two matchable positions remain,
    /// and the forced remainder follows; the board itself is untouched.
    #[verifier::rlimit(100)]
    pub fn best_effort_pairs_with<R: IndexRng>(&self, rng: &mut R) -> (pairs: Vec<
        (GridPos, GridPos),
    >)
        requires
            self.wf(),
        ensures
            pairs@.len() == self@.len() / 2,
            pair_items(pairs@).no_duplicates(),
            forall|k: int|
                0 <= k < pair_items(pairs@).len() ==> self@.contains(
                    #[trigger] pair_items(pairs@)[k],
                ),
            exists|k: int| greedy_then_stuck(self@, pairs@, k),
    {
        proof {
            self.cells@.unique_seq_to_set();
        }
        let ghost orig = self.cells@;
        let ghost s0 = self@;
        let mut remaining: Vec<GridPos> = Vec::new();
        let mut i: usize = 0;
        while i < self.cells.len()
            invariant
                i <= self.cells@.len(),
                remaining@ =~= self.cells@.subrange(0, i as int),
            decreases self.cells@.len() - i,
        {
            remaining.push(self.cells[i]);
            i += 1;
        }
        proof {
            assert(remaining@ =~= orig);
        }
        let mut pairs: Vec<(GridPos, GridPos)> = Vec::new();
        proof {
            assert(pair_items(pairs@).to_set() =~= Set::<GridPos>::empty());
            assert(remaining@.to_set() =~= s0.difference(pair_items(pairs@).to_set()));
        }
        loop
            invariant
                s0 == orig.to_set(),
                remaining@.no_duplicates(),
                forall|k: int| 0 <= k < remaining@.len() ==> orig.contains(#[trigger] remaining@[k]),
                pair_items(pairs@).no_duplicates(),
                forall|k: int|
                    0 <= k < pair_items(pairs@).len() ==> orig.contains(
                        #[trigger] pair_items(pairs@)[k],
                    ),
                forall|p: GridPos| pair_items(pairs@).contains(p) ==> !remaining@.contains(p),
                2 * pairs@.len() + remaining@.len() == orig.len(),
                remaining@.to_set() == s0.difference(pair_items(pairs@).to_set()),
                greedy_prefix(s0, pairs@, pairs@.len() as int),
            ensures
                remaining@.no_duplicates(),
                forall|k: int| 0 <= k < remaining@.len() ==> orig.contains(#[trigger] remaining@[k]),
                pair_items(pairs@).no_duplicates(),
                forall|k: int|
                    0 <= k < pair_items(pairs@).len() ==> orig.contains(
                        #[trigger] pair_items(pairs@)[k],
                    ),
                forall|p: GridPos| pair_items(pairs@).contains(p) ==> !remaining@.contains(p),
                2 * pairs@.len() + remaining@.len() == orig.len(),
                remaining@.to_set() == s0.difference(pair_items(pairs@).to_set()),
                greedy_prefix(s0, pairs@, pairs@.len() as int),
                forall|a: GridPos, b: GridPos|
                    !(a != b && #[trigger] freely_matchable(remaining@.to_set(), a)
                        && #[trigger] freely_matchable(remaining@.to_set(), b)),
            decreases remaining@.len(),
        {
            let free = Self::collect_free(&remaining);
            if free.len() < 2 {
                proof {
                    assert forall|a: GridPos, b: GridPos|
                        a != b && freely_matchable(remaining@.to_set(), a) && freely_matchable(
                            remaining@.to_set(),
                            b,
                        ) implies false by {
                        assert(remaining@.contains(a) && remaining@.contains(b));
                        assert(free@.contains(a) && free@.contains(b));
                        let ia = choose|ia: int| 0 <= ia < free@.len() && free@[ia] == a;
                        let ib = choose|ib: int| 0 <= ib < free@.len() && free@[ib] == b;
                        assert(ia != ib);
                    }
                }
                break;
            }
            let i = rng.pick(free.len());
            let j0 = rng.pick(free.len() - 1);
            let j = if j0 >= i {
                j0 + 1
            } else {
                j0
            };
            let a = free[i];
            let b = free[j];
            proof {
                assert(a != b);
                assert(remaining@.contains(a));
                assert(remaining@.contains(b));
            }
            let ghost rem0 = remaining@;
            let ghost pairs0 = pairs@;
            Self::remove_value(&mut remaining, a);
            proof {
                assert(remaining@.contains(b));
            }
            Self::remove_value(&mut remaining, b);
            proof {
                assert forall|k2: int| 0 <= k2 < remaining@.len() implies orig.contains(
                    #[trigger] remaining@[k2],
                ) by {
                    assert(remaining@.contains(remaining@[k2]));
                    assert(rem0.contains(remaining@[k2]));
                    let w = choose|w: int| 0 <= w < rem0.len() && rem0[w] == remaining@[k2];
                }
            }
            pairs.push((a, b));
            proof {
                lemma_pair_items_push(pairs0, (a, b));
                let pp0 = pair_items(pairs0);
                let pp = pair_items(pairs@);
                assert(pp == pp0 + seq![a, b]);
                assert(!pp0.contains(a) && !pp0.contains(b));
                vstd::seq_lib::lemma_no_dup_in_concat(pp0, seq![a, b]);
                assert forall|p: GridPos| pp.contains(p) implies !remaining@.contains(p) by {
                    if pp0.contains(p) {
                        assert(!rem0.contains(p));
                    }
                }
                assert forall|k: int| 0 <= k < pp.len() implies orig.contains(
                    #[trigger] pp[k],
                ) by {
                    if k < pp0.len() {
                        assert(pp0[k] == pp[k]);
                        assert(pp0.contains(pp0[k]));
                        let m = choose|m: int| 0 <= m < pp0.len() && pp0[m] == pp[k];
                    } else {
                        assert(pp[k] == a || pp[k] == b);
                    }
                }
                assert(freely_matchable(rem0.to_set(), a) && freely_matchable(
                    rem0.to_set(),
                    b,
                )) by {
                    assert(free@.contains(a) && free@.contains(b)) by {
                        assert(free@[i as int] == a && free@[j as int] == b);
                    }
                }
                lemma_board_shrinks(s0, pairs0, (a, b));
                assert(remaining@.to_set() =~= rem0.to_set().remove(a).remove(b));
                assert(remaining@.to_set() == s0.difference(pair_items(pairs@).to_set()));
                lemma_board_after_full(s0, pairs0);
                lemma_prefix_extend(s0, pairs0, (a, b));
            }
        }
        let ghost rem_tail = remaining@;
        let ghost pairs_mid = pairs@;
        proof {
            lemma_board_after_full(s0, pairs_mid);
        }
        let mut k: usize = 0;
        while k + 1 < remaining.len()
            invariant
                remaining@ == rem_tail,
                remaining@.no_duplicates(),
                k % 2 == 0,
                k <= remaining@.len(),
                2 * pairs@.len() == 2 * pairs_mid.len() + k,
                pair_items(pairs@) =~= pair_items(pairs_mid) + rem_tail.subrange(
                    0,
                    k as int,
                ),
                greedy_prefix(s0, pairs@, pairs_mid.len() as int),
                board_after(s0, pairs@, pairs_mid.len() as int) == rem_tail.to_set(),
            decreases remaining@.len() - k,
        {
            let a = remaining[k];
            let b = remaining[k + 1];
            let ghost pairs0 = pairs@;
            pairs.push((a, b));
            proof {
                lemma_pair_items_push(pairs0, (a, b));
                assert(rem_tail.subrange(0, k + 2) =~= rem_tail.subrange(0, k as int) + seq![
                    a,
                    b,
                ]);
                assert(pair_items(pairs@) =~= pair_items(pairs_mid) + rem_tail.subrange(
                    0,
                    k + 2,
                ));
                lemma_prefix_push(s0, pairs0, (a, b), pairs_mid.len() as int);
                lemma_board_after_push(s0, pairs0, (a, b), pairs_mid.len() as int);
            }
            k += 2;
        }
        proof {
            let pp_mid = pair_items(pairs_mid);
            let tail_used = rem_tail.subrange(0, k as int);
            assert(tail_used.no_duplicates());
            assert forall|i2: int, j2: int|
                0 <= i2 < pp_mid.len() && 0 <= j2 < tail_used.len() implies pp_mid[i2]
                != tail_used[j2] by {
                assert(pp_mid.contains(pp_mid[i2]));
                assert(rem_tail.contains(tail_used[j2]));
            }
            vstd::seq_lib::lemma_no_dup_in_concat(pp_mid, tail_used);
            let pp = pair_items(pairs@);
            assert forall|m: int| 0 <= m < pp.len() implies orig.contains(#[trigger] pp[m]) by {
                if m < pp_mid.len() {
                    assert(pp_mid.contains(pp_mid[m]));
                    assert(pp[m] == pp_mid[m]);
                } else {
                    assert(pp[m] == tail_used[m - pp_mid.len()]);
                    assert(rem_tail.contains(pp[m]));
                    let w = choose|w: int| 0 <= w < rem_tail.len() && rem_tail[w] == pp[m];
                }
            }
            assert(k == rem_tail.len() || k + 1 == rem_tail.len());
            assert(2 * pairs_mid.len() + rem_tail.len() == orig.len());
            vstd::arithmetic::div_mod::lemma_hoist_over_denominator(
                rem_tail.len() as int,
                pairs_mid.len() as int,
                2nat,
            );
            assert(pairs@.len() == orig.len() / 2) by {
                if k == rem_tail.len() {
                    assert(rem_tail.len() as int / 2 == k as int / 2);
                } else {
                    assert(rem_tail.len() as int == k + 1);
                }
            }
            let k0 = pairs_mid.len() as int;
            assert forall|a: GridPos, b: GridPos|
                a != b && freely_matchable(board_after(s0, pairs@, k0), a) && freely_matchable(
                    board_after(s0, pairs@, k0),
                    b,
                ) implies false by {
                assert(freely_matchable(rem_tail.to_set(), a));
                assert(freely_matchable(rem_tail.to_set(), b));
            }
            assert(greedy_then_stuck(s0, pairs@, k0));
        }
        pairs
    }

    /// Pairs the occupied positions as `best_effort_pairs_with` does,
    /// drawing from the process-wide generator.
    pub fn best_effort_pairs(&self) -> (pairs: Vec<(GridPos, GridPos)>)
        requires
            self.wf(),
        ensures
            pairs@.len() == self@.len() / 2,
            pair_items(pairs@).no_duplicates(),
            forall|k: int|
                0 <= k < pair_items(pairs@).len() ==> self@.contains(
                    #[trigger] pair_items(pairs@)[k],
                ),
            exists|k: int| greedy_then_stuck(self@, pairs@, k),
    {
        let mut rng = crate::rng::ThreadRngSource;
        self.best_effort_pairs_with(&mut rng)
    }
}

/// The overlap relation, spelled out cell by cell: a tile at `pos` is
/// intersected exactly when one of the nine window cells around `pos` is
/// occupied.
proof fn lemma_overlap_window(s: Set<GridPos>, pos: GridPos)
    ensures
        overlapping(s, pos) <==> (occupied(s, pos.x - 1, pos.y as int, pos.z - 1) || occupied(
            s,
            pos.x as int,
            pos.y as int,
            pos.z - 1,
        ) || occupied(s, pos.x + 1, pos.y as int, pos.z - 1) || occupied(
            s,
            pos.x - 1,
            pos.y as int,
            pos.z as int,
        ) || occupied(s, pos.x as int, pos.y as int, pos.z as int) || occupied(
            s,
            pos.x + 1,
            pos.y as int,
            pos.z as int,
        ) || occupied(s, pos.x - 1, pos.y as int, pos.z + 1) || occupied(
            s,
            pos.x as int,
            pos.y as int,
            pos.z + 1,
        ) || occupied(s, pos.x + 1, pos.y as int, pos.z + 1)),
{
    if overlapping(s, pos) {
        let g = choose|g: GridPos| #[trigger] s.contains(g) && covers(g, pos);
        assert(occupied(s, g.x as int, g.y as int, g.z as int));
    }
}

/// The covering relation, spelled out cell by cell: a tile at `pos` is
/// covered exactly when one of the nine window cells one layer up is
/// occupied.
proof fn lemma_cover_window(s: Set<GridPos>, pos: GridPos)
    ensures
        covered_from_above(s, pos) <==> (occupied(s, pos.x - 1, pos.y + 1, pos.z - 1) || occupied(
            s,
            pos.x as int,
            pos.y + 1,
            pos.z - 1,
        ) || occupied(s, pos.x + 1, pos.y + 1, pos.z - 1) || occupied(
            s,
            pos.x - 1,
            pos.y + 1,
            pos.z as int,
        ) || occupied(s, pos.x as int, pos.y + 1, pos.z as int) || occupied(
            s,
            pos.x + 1,
            pos.y + 1,
            pos.z as int,
        ) || occupied(s, pos.x - 1, pos.y + 1, pos.z + 1) || occupied(
            s,
            pos.x as int,
            pos.y + 1,
            pos.z + 1,
        ) || occupied(s, pos.x + 1, pos.y + 1, pos.z + 1)),
{
    if covered_from_above(s, pos) {
        let g = choose|g: GridPos|
            #[trigger] s.contains(g) && g.y == pos.y + 1 && -1 <= g.x - pos.x <= 1 && -1 <= g.z
                - pos.z <= 1;
        assert(occupied(s, g.x as int, g.y as int, g.z as int));
    }
}

/// Overlap is symmetric: if placing a tile at `a` is what makes a tile at
/// `b` overlapped, then placing one at `b` instead makes a tile at `a`
/// overlapped.
pub proof fn lemma_overlap_symmetry(s: Set<GridPos>, a: GridPos, b: GridPos)
    requires
        overlapping(s.insert(a), b),
        !overlapping(s, b),
    ensures
        overlapping(s.insert(b), a),
{
    let g = choose|g: GridPos| #[trigger] s.insert(a).contains(g) && covers(g, b);
    assert(g == a);
    assert(s.insert(b).contains(b) && covers(b, a));
}

/// Ground rule: a position at stacking height zero is supported on any
/// board.
pub proof fn lemma_ground_is_supported(s: Set<GridPos>, pos: GridPos)
    requires
        pos.y == 0,
    ensures
        supported_from_below(s, pos),
{
}

/// Tiles at all four diagonal neighbours one layer down support a tile,
/// with nothing else below it needed.
pub proof fn lemma_diagonal_support(s: Set<GridPos>, pos: GridPos)
    requires
        pos.y != 0,
        occupied(s, pos.x - 1, pos.y - 1, pos.z - 1),
        occupied(s, pos.x + 1, pos.y - 1, pos.z - 1),
        occupied(s, pos.x - 1, pos.y - 1, pos.z + 1),
        occupied(s, pos.x + 1, pos.y - 1, pos.z + 1),
    ensures
        supported_from_below(s, pos),
{
}

/// With one diagonal gone and no other contact below — nothing directly
/// beneath and no orthogonal neighbour — three diagonals alone do not
/// support a tile.
pub proof fn lemma_missing_diagonal_unsupported(s: Set<GridPos>, pos: GridPos)
    requires
        pos.y != 0,
        !occupied(s, pos.x as int, pos.y - 1, pos.z as int),
        !occupied(s, pos.x - 1, pos.y - 1, pos.z as int),
        !occupied(s, pos.x + 1, pos.y - 1, pos.z as int),
        !occupied(s, pos.x as int, pos.y - 1, pos.z - 1),
        !occupied(s, pos.x as int, pos.y - 1, pos.z + 1),
        !occupied(s, pos.x - 1, pos.y - 1, pos.z - 1),
    ensures
        !supported_from_below(s, pos),
{
}

/// A tile directly above blocks a tile, whatever its horizontal
/// neighbours.
pub proof fn lemma_covered_tile_is_blocked(s: Set<GridPos>, pos: GridPos)
    requires
        occupied(s, pos.x as int, pos.y + 1, pos.z as int),
    ensures
        blocked(s, pos),
{
    let g = choose|g: GridPos|
        #[trigger] s.contains(g) && g.x == pos.x as int && g.y == pos.y + 1 && g.z == pos.z as int;
    assert(covered_from_above(s, pos));
}

/// Full three-cell runs of tiles on both sides block a tile.
pub proof fn lemma_sandwiched_tile_is_blocked(s: Set<GridPos>, pos: GridPos)
    requires
        run_occupied(s, pos.x - 2, pos),
        run_occupied(s, pos.x + 2, pos),
    ensures
        blocked(s, pos),
{
}

/// A gap anywhere in either side run unblocks an uncovered tile: `dx`
/// and `dz` select any one of the six cells of the two runs.
pub proof fn lemma_gap_in_run_unblocks(s: Set<GridPos>, pos: GridPos, dx: int, dz: int)
    requires
        !covered_from_above(s, pos),
        dx == -2 || dx == 2,
        -1 <= dz <= 1,
        !occupied(s, pos.x + dx, pos.y as int, pos.z + dz),
    ensures
        !blocked(s, pos),
{
}

/// Round trip: a ground-level cell within the playable window comes back
/// unchanged when its world centre is snapped onto the lattice again, so
/// converting to world space, back, and to world space once more yields
/// the same world point.
pub proof fn lemma_world_round_trip(p: GridPos)
    requires
        p.y == 0,
        GRID_MIN_X <= p.x as int <= GRID_MAX_X,
        GRID_MIN_Z <= p.z as int <= GRID_MAX_Z,
    ensures
        grid_x_from_world(p.x as int * CELL_WIDTH) == p.x as int,
        grid_z_from_world(p.z as int * CELL_DEPTH) == p.z as int,
{
    let wx = p.x as int * CELL_WIDTH;
    let wz = p.z as int * CELL_DEPTH;
    assert(MIN_WORLD_X <= wx + HALF_CELL_WIDTH <= MAX_WORLD_X);
    assert(MIN_WORLD_Z <= wz + HALF_CELL_DEPTH <= MAX_WORLD_Z);
    vstd::arithmetic::div_mod::lemma_div_multiples_vanish_fancy(
        p.x as int,
        HALF_CELL_WIDTH as int,
        CELL_WIDTH as int,
    );
    vstd::arithmetic::div_mod::lemma_div_multiples_vanish_fancy(
        p.z as int,
        HALF_CELL_DEPTH as int,
        CELL_DEPTH as int,
    );
}

} // verus!
