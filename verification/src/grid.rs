//! A configurable 3D grid container.
//!
//! Where the solitaire board fixes its lattice to the tile's footprint,
//! this container is configured at construction: a cell size in world
//! micro-units, a per-axis subdivision count (a tile spanning two lattice
//! cells per horizontal axis is subdivision one), and optional index
//! bounds. World positions snap to the nearest subdivided lattice index,
//! clamped into the bounds, and the overlap window's radius equals the
//! subdivision count per axis.

use vstd::prelude::*;

verus! {

use crate::arith::round_div;
use crate::arith::rounded_div;
use crate::clamped_value::clamped;
use crate::world::WorldVec;

/// One cell of a lattice.
#[derive(Debug, Default, Clone, Copy, PartialEq, Eq, Hash, Structural)]
pub struct GridPos {
    pub x: i32,
    pub y: i32,
    pub z: i32,
}

impl GridPos {
    pub fn new(x: i32, y: i32, z: i32) -> (r: Self)
        ensures
            r == (GridPos { x, y, z }),
    {
        Self { x, y, z }
    }
}

/// Appending a fresh element to a duplicate-free sequence inserts exactly
/// that element into the induced set, and keeps the sequence
/// duplicate-free.
pub(crate) proof fn lemma_push_to_set(s: Seq<GridPos>, p: GridPos)
    requires
        !s.contains(p),
        s.no_duplicates(),
    ensures
        s.push(p).to_set() =~= s.to_set().insert(p),
        s.push(p).no_duplicates(),
{
    let t = s.push(p);
    assert forall|q: GridPos| t.to_set().contains(q) implies s.to_set().insert(p).contains(q) by {
        let k = choose|k: int| 0 <= k < t.len() && t[k] == q;
        if k < s.len() {
            assert(s[k] == q);
        } else {
            assert(q == p);
        }
    }
    assert forall|q: GridPos| s.to_set().insert(p).contains(q) implies t.to_set().contains(q) by {
        if q == p {
            assert(t[s.len() as int] == q);
        } else {
            let k = choose|k: int| 0 <= k < s.len() && s[k] == q;
            assert(t[k] == q);
        }
    }
    assert forall|i: int, j: int| 0 <= i < t.len() && 0 <= j < t.len() && i != j implies t[i]
        != t[j] by {
        if i < s.len() && j < s.len() {
            assert(s[i] != s[j]);
        } else if j == s.len() {
            assert(s[i] != p);
        } else {
            assert(s[j] != p);
        }
    }
}

/// Removing index `i` from a duplicate-free sequence removes exactly that
/// element from the induced set, and keeps the sequence duplicate-free.
pub(crate) proof fn lemma_remove_index_to_set(s: Seq<GridPos>, i: int)
    requires
        s.no_duplicates(),
        0 <= i < s.len(),
    ensures
        s.remove(i).to_set() =~= s.to_set().remove(s[i]),
        s.remove(i).no_duplicates(),
{
    let t = s.remove(i);
    s.remove_ensures(i);
    assert forall|p: GridPos| t.to_set().contains(p) implies s.to_set().remove(s[i]).contains(
        p,
    ) by {
        let k = choose|k: int| 0 <= k < t.len() && t[k] == p;
        if k < i {
            assert(s[k] == p);
        } else {
            assert(s[k + 1] == p);
        }
    }
    assert forall|p: GridPos| s.to_set().remove(s[i]).contains(p) implies t.to_set().contains(
        p,
    ) by {
        let k = choose|k: int| 0 <= k < s.len() && s[k] == p;
        if k < i {
            assert(t[k] == p);
        } else {
            assert(k != i);
            assert(t[k - 1] == p);
        }
    }
}

/// Where a world coordinate snaps on one axis: scale onto the subdivided
/// lattice (`s` parts per cell of size `c`), round to the nearest index,
/// and clamp into `[lo, hi]`.
pub open spec fn snap_axis(w: int, c: int, s: int, lo: int, hi: int) -> int {
    clamped(rounded_div(w * s, c), lo, hi)
}

/// Does a placed cell of `s` fall within the window of radius `sub`
/// around `pos` — same-axis distance at most the subdivision count, each
/// axis?
pub open spec fn within_window(s: Set<GridPos>, pos: GridPos, sub: (u32, u32, u32)) -> bool {
    exists|g: GridPos|
        #[trigger] s.contains(g) && -(sub.0 as int) <= g.x - pos.x <= sub.0 as int && -(
        sub.1 as int) <= g.y - pos.y <= sub.1 as int && -(sub.2 as int) <= g.z - pos.z
            <= sub.2 as int
}

/// The grid container: a set of occupied cells on a configured lattice.
pub struct Grid3D {
    set: Vec<GridPos>,
    cell_size: WorldVec,
    cell_subdivisions: (u32, u32, u32),
    min: GridPos,
    max: GridPos,
}

impl View for Grid3D {
    type V = Set<GridPos>;

    closed spec fn view(&self) -> Set<GridPos> {
        self.set@.to_set()
    }
}

impl Grid3D {
    /// The store holds each occupied cell once, and the configuration is
    /// one this container's arithmetic handles exactly.
    pub closed spec fn wf(&self) -> bool {
        self.set@.no_duplicates() && 1 <= self.cell_size.x <= 0x4000_0000 && 1
            <= self.cell_size.y <= 0x4000_0000 && 1 <= self.cell_size.z <= 0x4000_0000
            && self.cell_subdivisions.0 <= 0xffff && self.cell_subdivisions.1 <= 0xffff
            && self.cell_subdivisions.2 <= 0xffff
    }

    /// The configured cell extent, before subdivision.
    pub closed spec fn spec_cell_size(&self) -> WorldVec {
        self.cell_size
    }

    pub closed spec fn spec_subdivisions(&self) -> (u32, u32, u32) {
        self.cell_subdivisions
    }

    pub closed spec fn spec_min(&self) -> GridPos {
        self.min
    }

    pub closed spec fn spec_max(&self) -> GridPos {
        self.max
    }

    /// An empty grid on the given lattice: a cell of `cell_size`
    /// micro-units split into `cell_subdivisions + 1` lattice steps per
    /// axis, and index bounds scaled accordingly, unbounded where absent.
    pub fn new(
        cell_size: WorldVec,
        cell_subdivisions: (u32, u32, u32),
        min: Option<GridPos>,
        max: Option<GridPos>,
    ) -> (r: Self)
        requires
            1 <= cell_size.x <= 0x4000_0000,
            1 <= cell_size.y <= 0x4000_0000,
            1 <= cell_size.z <= 0x4000_0000,
            cell_subdivisions.0 <= 0xffff,
            cell_subdivisions.1 <= 0xffff,
            cell_subdivisions.2 <= 0xffff,
            match min {
                Some(m) => i32::MIN <= m.x * (cell_subdivisions.0 + 1) <= i32::MAX && i32::MIN
                    <= m.y * (cell_subdivisions.1 + 1) <= i32::MAX && i32::MIN <= m.z * (
                cell_subdivisions.2 + 1) <= i32::MAX,
                None => true,
            },
            match max {
                Some(m) => i32::MIN <= m.x * (cell_subdivisions.0 + 1) <= i32::MAX && i32::MIN
                    <= m.y * (cell_subdivisions.1 + 1) <= i32::MAX && i32::MIN <= m.z * (
                cell_subdivisions.2 + 1) <= i32::MAX,
                None => true,
            },
        ensures
            r.wf(),
            r@ == Set::<GridPos>::empty(),
            r.spec_cell_size() == cell_size,
            r.spec_subdivisions() == cell_subdivisions,
            match min {
                Some(m) => r.spec_min().x == m.x * (cell_subdivisions.0 + 1) && r.spec_min().y
                    == m.y * (cell_subdivisions.1 + 1) && r.spec_min().z == m.z * (
                cell_subdivisions.2 + 1),
                None => r.spec_min() == (GridPos { x: i32::MIN, y: i32::MIN, z: i32::MIN }),
            },
            match max {
                Some(m) => r.spec_max().x == m.x * (cell_subdivisions.0 + 1) && r.spec_max().y
                    == m.y * (cell_subdivisions.1 + 1) && r.spec_max().z == m.z * (
                cell_subdivisions.2 + 1),
                None => r.spec_max() == (GridPos { x: i32::MAX, y: i32::MAX, z: i32::MAX }),
            },
    {
        let scaled_min = match min {
            Some(m) => GridPos {
                x: ((m.x as i64) * ((cell_subdivisions.0 as i64) + 1)) as i32,
                y: ((m.y as i64) * ((cell_subdivisions.1 as i64) + 1)) as i32,
                z: ((m.z as i64) * ((cell_subdivisions.2 as i64) + 1)) as i32,
            },
            None => GridPos { x: i32::MIN, y: i32::MIN, z: i32::MIN },
        };
        let scaled_max = match max {
            Some(m) => GridPos {
                x: ((m.x as i64) * ((cell_subdivisions.0 as i64) + 1)) as i32,
                y: ((m.y as i64) * ((cell_subdivisions.1 as i64) + 1)) as i32,
                z: ((m.z as i64) * ((cell_subdivisions.2 as i64) + 1)) as i32,
            },
            None => GridPos { x: i32::MAX, y: i32::MAX, z: i32::MAX },
        };
        let r = Self {
            set: Vec::new(),
            cell_size,
            cell_subdivisions,
            min: scaled_min,
            max: scaled_max,
        };
        proof {
            assert(r@ =~= Set::<GridPos>::empty());
        }
        r
    }

    /// How many cells are occupied.
    pub fn len(&self) -> (r: usize)
        requires
            self.wf(),
        ensures
            r == self@.len(),
    {
        proof {
            self.set@.unique_seq_to_set();
        }
        self.set.len()
    }

    /// The effective cell size on the subdivided lattice: the configured
    /// extent split into `subdivisions + 1` steps per axis, to the nearest
    /// micro-unit. `min()` and `max()` index this lattice, so scaling them
    /// by this size locates the bounds in world space.
    pub fn cell_size(&self) -> (r: WorldVec)
        requires
            self.wf(),
        ensures
            r.x as int == rounded_div(
                self.spec_cell_size().x as int,
                self.spec_subdivisions().0 as int + 1,
            ),
            r.y as int == rounded_div(
                self.spec_cell_size().y as int,
                self.spec_subdivisions().1 as int + 1,
            ),
            r.z as int == rounded_div(
                self.spec_cell_size().z as int,
                self.spec_subdivisions().2 as int + 1,
            ),
    {
        WorldVec {
            x: round_div(self.cell_size.x, (self.cell_subdivisions.0 as i64) + 1),
            y: round_div(self.cell_size.y, (self.cell_subdivisions.1 as i64) + 1),
            z: round_div(self.cell_size.z, (self.cell_subdivisions.2 as i64) + 1),
        }
    }

    /// The lower index bound, on the subdivided lattice.
    pub fn min(&self) -> (r: GridPos)
        ensures
            r == self.spec_min(),
    {
        self.min
    }

    /// The upper index bound, on the subdivided lattice.
    pub fn max(&self) -> (r: GridPos)
        ensures
            r == self.spec_max(),
    {
        self.max
    }

    /// The subdivided lattice cell a world position snaps to: scaled by
    /// the subdivisions, rounded to the nearest index, and clamped into
    /// the bounds.
    pub fn grid_pos_from_world(&self, world_pos: WorldVec) -> (r: GridPos)
        requires
            self.wf(),
            -0x1000_0000_0000 <= world_pos.x <= 0x1000_0000_0000,
            -0x1000_0000_0000 <= world_pos.y <= 0x1000_0000_0000,
            -0x1000_0000_0000 <= world_pos.z <= 0x1000_0000_0000,
        ensures
            r.x as int == snap_axis(
                world_pos.x as int,
                self.spec_cell_size().x as int,
                self.spec_subdivisions().0 + 1,
                self.spec_min().x as int,
                self.spec_max().x as int,
            ),
            r.y as int == snap_axis(
                world_pos.y as int,
                self.spec_cell_size().y as int,
                self.spec_subdivisions().1 + 1,
                self.spec_min().y as int,
                self.spec_max().y as int,
            ),
            r.z as int == snap_axis(
                world_pos.z as int,
                self.spec_cell_size().z as int,
                self.spec_subdivisions().2 + 1,
                self.spec_min().z as int,
                self.spec_max().z as int,
            ),
    {
        let x = Self::snap_axis_exec(
            world_pos.x,
            self.cell_size.x,
            self.cell_subdivisions.0,
            self.min.x,
            self.max.x,
        );
        let y = Self::snap_axis_exec(
            world_pos.y,
            self.cell_size.y,
            self.cell_subdivisions.1,
            self.min.y,
            self.max.y,
        );
        let z = Self::snap_axis_exec(
            world_pos.z,
            self.cell_size.z,
            self.cell_subdivisions.2,
            self.min.z,
            self.max.z,
        );
        GridPos { x, y, z }
    }

    fn snap_axis_exec(w: i64, c: i64, sub: u32, lo: i32, hi: i32) -> (r: i32)
        requires
            1 <= c <= 0x4000_0000,
            sub <= 0xffff,
            -0x1000_0000_0000 <= w <= 0x1000_0000_0000,
        ensures
            r as int == snap_axis(w as int, c as int, sub + 1, lo as int, hi as int),
    {
        let f = (sub as i64) + 1;
        proof {
            assert(-0x1000_0000_0000_0000 <= w as int * f as int <= 0x1000_0000_0000_0000)
                by (nonlinear_arith)
                requires
                    -0x1000_0000_0000 <= w as int <= 0x1000_0000_0000,
                    1 <= f as int <= 0x10000,
            {
            }
        }
        let n = w * f;
        let g = round_div(n, c);
        let r64: i64 = if g < lo as i64 {
            lo as i64
        } else if g > hi as i64 {
            hi as i64
        } else {
            g
        };
        r64 as i32
    }

    /// Inserts the cell a world position snaps to, provided the cell lies
    /// within the bounds and no placed cell falls within its overlap
    /// window; reports whether it inserted.
    pub fn insert_from_world(&mut self, world_pos: WorldVec) -> (r: bool)
        requires
            old(self).wf(),
            -0x1000_0000_0000 <= world_pos.x <= 0x1000_0000_0000,
            -0x1000_0000_0000 <= world_pos.y <= 0x1000_0000_0000,
            -0x1000_0000_0000 <= world_pos.z <= 0x1000_0000_0000,
        ensures
            final(self).wf(),
            final(self).spec_cell_size() == old(self).spec_cell_size(),
            final(self).spec_subdivisions() == old(self).spec_subdivisions(),
            final(self).spec_min() == old(self).spec_min(),
            final(self).spec_max() == old(self).spec_max(),
            ({
                let g = old(self).spec_grid_pos_from_world(world_pos);
                &&& r == (old(self).spec_min().x <= g.x <= old(self).spec_max().x && old(
                    self,
                ).spec_min().y <= g.y <= old(self).spec_max().y && old(self).spec_min().z <= g.z
                    <= old(self).spec_max().z && !within_window(
                    old(self)@,
                    g,
                    old(self).spec_subdivisions(),
                ))
                &&& final(self)@ == if r {
                    old(self)@.insert(g)
                } else {
                    old(self)@
                }
            }),
    {
        let grid_pos = self.grid_pos_from_world(world_pos);
        let in_bounds = self.min.x <= grid_pos.x && grid_pos.x <= self.max.x && self.min.y
            <= grid_pos.y && grid_pos.y <= self.max.y && self.min.z <= grid_pos.z && grid_pos.z
            <= self.max.z;
        if in_bounds && !self.is_overlapping(grid_pos) {
            proof {
                if self.set@.contains(grid_pos) {
                    assert(self@.contains(grid_pos));
                    assert(grid_pos.x - grid_pos.x == 0 && grid_pos.y - grid_pos.y == 0
                        && grid_pos.z - grid_pos.z == 0);
                    assert(within_window(self@, grid_pos, self.cell_subdivisions));
                }
                lemma_push_to_set(self.set@, grid_pos);
            }
            self.set.push(grid_pos);
            true
        } else {
            false
        }
    }

    /// Where a world position snaps, as a value: the three axes of
    /// `snap_axis`.
    pub open spec fn spec_grid_pos_from_world(&self, world_pos: WorldVec) -> GridPos {
        GridPos {
            x: snap_axis(
                world_pos.x as int,
                self.spec_cell_size().x as int,
                self.spec_subdivisions().0 + 1,
                self.spec_min().x as int,
                self.spec_max().x as int,
            ) as i32,
            y: snap_axis(
                world_pos.y as int,
                self.spec_cell_size().y as int,
                self.spec_subdivisions().1 + 1,
                self.spec_min().y as int,
                self.spec_max().y as int,
            ) as i32,
            z: snap_axis(
                world_pos.z as int,
                self.spec_cell_size().z as int,
                self.spec_subdivisions().2 + 1,
                self.spec_min().z as int,
                self.spec_max().z as int,
            ) as i32,
        }
    }

    /// Removes a cell, reporting whether it was present.
    pub fn remove(&mut self, pos: &GridPos) -> (r: bool)
        requires
            old(self).wf(),
        ensures
            final(self).wf(),
            final(self).spec_cell_size() == old(self).spec_cell_size(),
            final(self).spec_subdivisions() == old(self).spec_subdivisions(),
            final(self).spec_min() == old(self).spec_min(),
            final(self).spec_max() == old(self).spec_max(),
            r == old(self)@.contains(*pos),
            final(self)@ == old(self)@.remove(*pos),
    {
        let p = *pos;
        match Self::index_of(&self.set, p) {
            Some(i) => {
                proof {
                    assert(old(self)@.contains(p));
                    lemma_remove_index_to_set(self.set@, i as int);
                }
                self.set.remove(i);
                proof {
                    assert(self@ =~= old(self)@.remove(p));
                }
                true
            },
            None => {
                proof {
                    assert(self@ =~= self@.remove(p));
                }
                false
            },
        }
    }

    /// Empties the grid; the configuration stays.
    pub fn clear(&mut self)
        requires
            old(self).wf(),
        ensures
            final(self).wf(),
            final(self).spec_cell_size() == old(self).spec_cell_size(),
            final(self).spec_subdivisions() == old(self).spec_subdivisions(),
            final(self).spec_min() == old(self).spec_min(),
            final(self).spec_max() == old(self).spec_max(),
            final(self)@ == Set::<GridPos>::empty(),
    {
        self.set.clear();
        proof {
            assert(self@ =~= Set::<GridPos>::empty());
        }
    }

    /// The world position of the lattice cell nearest a world position:
    /// snap to the grid and scale back, to the nearest micro-unit.
    pub fn snap_world_pos_to_grid(&self, world_pos: WorldVec) -> (r: WorldVec)
        requires
            self.wf(),
            -0x1000_0000_0000 <= world_pos.x <= 0x1000_0000_0000,
            -0x1000_0000_0000 <= world_pos.y <= 0x1000_0000_0000,
            -0x1000_0000_0000 <= world_pos.z <= 0x1000_0000_0000,
        ensures
            ({
                let g = self.spec_grid_pos_from_world(world_pos);
                &&& r.x as int == rounded_div(
                    g.x * self.spec_cell_size().x,
                    self.spec_subdivisions().0 + 1,
                )
                &&& r.y as int == rounded_div(
                    g.y * self.spec_cell_size().y,
                    self.spec_subdivisions().1 + 1,
                )
                &&& r.z as int == rounded_div(
                    g.z * self.spec_cell_size().z,
                    self.spec_subdivisions().2 + 1,
                )
            }),
    {
        let g = self.grid_pos_from_world(world_pos);
        let cx = self.cell_size.x;
        let cy = self.cell_size.y;
        let cz = self.cell_size.z;
        let gx = g.x as i64;
        let gy = g.y as i64;
        let gz = g.z as i64;
        proof {
            assert(-0x2000_0000_0000_0000 <= gx as int * cx as int <= 0x2000_0000_0000_0000)
                by (nonlinear_arith)
                requires
                    -0x8000_0000 <= gx as int <= 0x7fff_ffff,
                    1 <= cx as int <= 0x4000_0000,
            {
            }
            assert(-0x2000_0000_0000_0000 <= gy as int * cy as int <= 0x2000_0000_0000_0000)
                by (nonlinear_arith)
                requires
                    -0x8000_0000 <= gy as int <= 0x7fff_ffff,
                    1 <= cy as int <= 0x4000_0000,
            {
            }
            assert(-0x2000_0000_0000_0000 <= gz as int * cz as int <= 0x2000_0000_0000_0000)
                by (nonlinear_arith)
                requires
                    -0x8000_0000 <= gz as int <= 0x7fff_ffff,
                    1 <= cz as int <= 0x4000_0000,
            {
            }
        }
        let x = round_div(gx * cx, (self.cell_subdivisions.0 as i64) + 1);
        let y = round_div(gy * cy, (self.cell_subdivisions.1 as i64) + 1);
        let z = round_div(gz * cz, (self.cell_subdivisions.2 as i64) + 1);
        WorldVec { x, y, z }
    }

    /// Does a placed cell fall within the overlap window around `pos`?
    /// The window's radius per axis is the subdivision count, so a body
    /// spanning a whole configured cell meets anything within one.
    pub fn is_overlapping(&self, pos: GridPos) -> (r: bool)
        ensures
            r == within_window(self@, pos, self.spec_subdivisions()),
    {
        let sx = self.cell_subdivisions.0 as i64;
        let sy = self.cell_subdivisions.1 as i64;
        let sz = self.cell_subdivisions.2 as i64;
        let mut i: usize = 0;
        while i < self.set.len()
            invariant
                sx == self.spec_subdivisions().0 as i64,
                sy == self.spec_subdivisions().1 as i64,
                sz == self.spec_subdivisions().2 as i64,
                i <= self.set@.len(),
                forall|k: int|
                    0 <= k < i ==> !(-(self.spec_subdivisions().0 as int) <= (
                    #[trigger] self.set@[k]).x - pos.x <= self.spec_subdivisions().0 as int && -(
                    self.spec_subdivisions().1 as int) <= self.set@[k].y - pos.y
                        <= self.spec_subdivisions().1 as int && -(self.spec_subdivisions().2 as int)
                        <= self.set@[k].z - pos.z <= self.spec_subdivisions().2 as int),
            decreases self.set@.len() - i,
        {
            let g = self.set[i];
            let dx = (g.x as i64) - (pos.x as i64);
            let dy = (g.y as i64) - (pos.y as i64);
            let dz = (g.z as i64) - (pos.z as i64);
            if -sx <= dx && dx <= sx && -sy <= dy && dy <= sy && -sz <= dz && dz <= sz {
                proof {
                    assert(self.set@.to_set().contains(g)) by {
                        assert(self.set@.contains(g));
                    }
                }
                return true;
            }
            i += 1;
        }
        proof {
            assert forall|g: GridPos|
                self@.contains(g) && -(self.spec_subdivisions().0 as int) <= g.x - pos.x
                    <= self.spec_subdivisions().0 as int && -(self.spec_subdivisions().1 as int)
                    <= g.y - pos.y <= self.spec_subdivisions().1 as int && -(
                self.spec_subdivisions().2 as int) <= g.z - pos.z
                    <= self.spec_subdivisions().2 as int implies false by {
                let k = choose|k: int| 0 <= k < self.set@.len() && self.set@[k] == g;
            }
        }
        false
    }

    /// Where `p` sits in `cells`, if anywhere.
    fn index_of(cells: &Vec<GridPos>, p: GridPos) -> (r: Option<usize>)
        ensures
            match r {
                Some(i) => i < cells@.len() && cells@[i as int] == p,
                None => !cells@.contains(p),
            },
    {
        let mut i: usize = 0;
        while i < cells.len()
            invariant
                i <= cells.len(),
                forall|k: int| 0 <= k < i ==> cells@[k] != p,
            decreases cells.len() - i,
        {
            if cells[i] == p {
                return Some(i);
            }
            i += 1;
        }
        None
    }
}

} // verus!
