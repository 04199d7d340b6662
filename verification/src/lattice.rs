//! The lattice: one value per cell of a three-dimensional grid, reached by
//! coordinate or by flat index, with boundary-aware neighbour queries.

use vstd::prelude::*;
use vstd::arithmetic::div_mod::{
    lemma_fundamental_div_mod,
    lemma_fundamental_div_mod_converse,
    lemma_mod_bound,
};
use crate::geometry::{
    axis_offsets,
    cell_count,
    contains,
    coord_of,
    diagonal_offsets,
    flat_index,
    law_coord_of_index,
    law_index_of_coord,
    neighbors_along,
    resolve,
    resolve_axis,
    shifted,
};
use crate::types::{BoundaryPolicy, Direction, LatticeCoord};

verus! {

/// A grid of `nx * ny * nz` cells, each holding one value of type `C`.
///
/// The size is fixed at construction; cells are only ever changed in place.
#[derive(Debug)]
pub struct Lattice<C> {
    size: (usize, usize, usize),
    cells: Vec<C>,
}

impl<C> Lattice<C> {
    /// Size of the lattice along `(x, y, z)`.
    pub closed spec fn shape(&self) -> (usize, usize, usize) {
        self.size
    }

    /// The cells in index order.
    pub closed spec fn cells(&self) -> Seq<C> {
        self.cells@
    }

    /// The lattice holds exactly one cell per coordinate.
    pub open spec fn wf(&self) -> bool {
        &&& self.cells().len() == cell_count(self.shape())
        &&& cell_count(self.shape()) <= usize::MAX
    }

    /// Number of cells in an `nx * ny * nz` lattice, or `None` when the
    /// product does not fit in 128 bits.
    pub fn cell_count_size(size: (usize, usize, usize)) -> (count: Option<u128>)
        ensures
            count == if cell_count(size) <= u128::MAX {
                Some(cell_count(size) as u128)
            } else {
                None
            },
    {
        proof {
            assert(0 <= size.0 * size.1 <= usize::MAX * usize::MAX) by (nonlinear_arith);
            assert(usize::MAX * usize::MAX <= u128::MAX) by (nonlinear_arith)
                requires
                    usize::MAX <= 0xffff_ffff_ffff_ffff,
            ;
        }
        let plane: u128 = (size.0 as u128) * (size.1 as u128);
        plane.checked_mul(size.2 as u128)
    }

    /// Size of the lattice along `(x, y, z)`.
    pub fn size(&self) -> (size: (usize, usize, usize))
        ensures
            size == self.shape(),
    {
        self.size
    }

    /// Number of cells.
    pub fn len(&self) -> (count: usize)
        requires
            self.wf(),
        ensures
            count == cell_count(self.shape()),
    {
        self.cells.len()
    }

    /// Whether `coord` names a cell of this lattice.
    pub fn in_bounds(&self, coord: &LatticeCoord) -> (inside: bool)
        ensures
            inside == contains(self.shape(), *coord),
    {
        coord.x < self.size.0 && coord.y < self.size.1 && coord.z < self.size.2
    }

    /// Flat index of `coord`, or `None` when `coord` is outside the lattice.
    /// The index names a cell, and `coord` takes it apart into `coord` again.
    pub fn index(&self, coord: LatticeCoord) -> (index: Option<u128>)
        requires
            self.wf(),
        ensures
            index == if contains(self.shape(), coord) {
                Some(flat_index(self.shape(), coord) as u128)
            } else {
                None
            },
            index matches Some(i) ==> i < cell_count(self.shape()) && coord_of(
                self.shape(),
                i as int,
            ) == coord,
    {
        if !self.in_bounds(&coord) {
            return None;
        }
        proof {
            law_coord_of_index(self.size, coord);
            let nx = self.size.0 as int;
            let ny = self.size.1 as int;
            assert(0 <= coord.y * nx <= usize::MAX * usize::MAX) by (nonlinear_arith)
                requires
                    0 <= coord.y <= usize::MAX,
                    0 <= nx <= usize::MAX,
            ;
            assert(0 <= nx * ny <= usize::MAX * usize::MAX) by (nonlinear_arith)
                requires
                    0 <= ny <= usize::MAX,
                    0 <= nx <= usize::MAX,
            ;
            assert(0 <= coord.z * (nx * ny)) by (nonlinear_arith)
                requires
                    0 <= coord.z,
                    0 <= nx * ny,
            ;
            assert(0 <= coord.y * nx);
        }
        let nx: u128 = self.size.0 as u128;
        let ny: u128 = self.size.1 as u128;
        let row: u128 = (coord.y as u128) * nx;
        let plane: u128 = nx * ny;
        let layer: u128 = (coord.z as u128) * plane;
        Some((coord.x as u128) + row + layer)
    }

    /// Coordinate of the cell at flat index `index`, or `None` when the
    /// lattice has no such cell. The coordinate lies inside the lattice, and
    /// `index` maps it to `index` again.
    pub fn coord(&self, index: u128) -> (coord: Option<LatticeCoord>)
        requires
            self.wf(),
        ensures
            coord == if index < cell_count(self.shape()) {
                Some(coord_of(self.shape(), index as int))
            } else {
                None
            },
            coord matches Some(c) ==> contains(self.shape(), c) && flat_index(self.shape(), c)
                == index,
    {
        if index >= self.cells.len() as u128 {
            return None;
        }
        proof {
            law_index_of_coord(self.size, index as int);
        }
        Some(coord_at(self.size, index as usize))
    }

    /// The cell at `coord`, or `None` when `coord` is outside the lattice.
    pub fn at(&self, coord: LatticeCoord) -> (cell: Option<&C>)
        requires
            self.wf(),
        ensures
            cell == if contains(self.shape(), coord) {
                Some(&self.cells()[flat_index(self.shape(), coord)])
            } else {
                None
            },
    {
        match self.index(coord) {
            Some(i) => {
                proof {
                    law_coord_of_index(self.size, coord);
                }
                Some(&self.cells[i as usize])
            },
            None => None,
        }
    }

    /// The cell at `coord` for changing in place, or `None` when `coord` is
    /// outside the lattice. No other cell and no dimension changes.
    pub fn at_mut(&mut self, coord: LatticeCoord) -> (cell: Option<&mut C>)
        requires
            old(self).wf(),
        ensures
            final(self).shape() == old(self).shape(),
            final(self).wf(),
            contains(old(self).shape(), coord) ==> {
                &&& cell matches Some(c)
                &&& *c == old(self).cells()[flat_index(old(self).shape(), coord)]
                &&& final(self).cells() == old(self).cells().update(
                    flat_index(old(self).shape(), coord),
                    *final(c),
                )
            },
            !contains(old(self).shape(), coord) ==> {
                &&& cell is None
                &&& final(self).cells() == old(self).cells()
            },
    {
        match self.index(coord) {
            Some(i) => {
                proof {
                    law_coord_of_index(self.size, coord);
                }
                Some(&mut self.cells[i as usize])
            },
            None => None,
        }
    }

    /// The cell stored at flat index `index`, or `None` when the lattice has
    /// no such cell.
    pub fn cell(&self, index: usize) -> (cell: Option<&C>)
        ensures
            cell == if index < self.cells().len() {
                Some(&self.cells()[index as int])
            } else {
                None
            },
    {
        if index < self.cells.len() {
            Some(&self.cells[index])
        } else {
            None
        }
    }

    /// The cell stored at flat index `index` for changing in place, or `None`
    /// when the lattice has no such cell. No other cell and no dimension
    /// changes.
    pub fn cell_mut(&mut self, index: usize) -> (cell: Option<&mut C>)
        ensures
            final(self).shape() == old(self).shape(),
            old(self).wf() ==> final(self).wf(),
            index < old(self).cells().len() ==> {
                &&& cell matches Some(c)
                &&& *c == old(self).cells()[index as int]
                &&& final(self).cells() == old(self).cells().update(index as int, *final(c))
            },
            index >= old(self).cells().len() ==> {
                &&& cell is None
                &&& final(self).cells() == old(self).cells()
            },
    {
        if index < self.cells.len() {
            Some(&mut self.cells[index])
        } else {
            None
        }
    }

    /// Every cell with its coordinate, in ascending index order.
    pub fn iter_cells(&self) -> (items: Vec<(LatticeCoord, &C)>)
        requires
            self.wf(),
        ensures
            items@.len() == self.cells().len(),
            forall|i: int|
                0 <= i < items@.len() ==> {
                    &&& (#[trigger] items@[i]).0 == coord_of(self.shape(), i)
                    &&& *items@[i].1 == self.cells()[i]
                },
    {
        let mut items: Vec<(LatticeCoord, &C)> = Vec::new();
        let mut i: usize = 0;
        while i < self.cells.len()
            invariant
                self.wf(),
                i <= self.cells@.len(),
                items@.len() == i,
                forall|j: int|
                    0 <= j < i ==> {
                        &&& (#[trigger] items@[j]).0 == coord_of(self.shape(), j)
                        &&& *items@[j].1 == self.cells()[j]
                    },
            decreases self.cells@.len() - i,
        {
            let coord = self.coord(i as u128).unwrap();
            items.push((coord, &self.cells[i]));
            i += 1;
        }
        items
    }
    /// Every cell with its coordinate, in ascending index order, each for
    /// changing in place. What the lattice holds afterwards is what the
    /// handed-out cells hold when the caller is done with them; its size
    /// stays.
    pub fn iter_cells_mut(&mut self) -> (items: Vec<(LatticeCoord, &mut C)>)
        requires
            old(self).wf(),
        ensures
            final(self).shape() == old(self).shape(),
            final(self).wf(),
            items@.len() == old(self).cells().len(),
            final(self).cells().len() == old(self).cells().len(),
            forall|i: int|
                0 <= i < items@.len() ==> {
                    &&& (#[trigger] items@[i]).0 == coord_of(old(self).shape(), i)
                    &&& *items@[i].1 == old(self).cells()[i]
                    &&& final(self).cells()[i] == *final(items@[i].1)
                },
    {
        let size = self.size;
        let n = self.cells.len();
        let ghost before = self.cells@;
        let mut rest: &mut [C] = self.cells.as_mut_slice();
        let mut items: Vec<(LatticeCoord, &mut C)> = Vec::new();
        let mut i: usize = 0;
        while i < n
            invariant
                i <= n,
                n == before.len(),
                n == cell_count(size),
                items@.len() == i,
                rest@ == before.subrange(i as int, n as int),
                forall|j: int|
                    0 <= j < i ==> {
                        &&& (#[trigger] items@[j]).0 == coord_of(size, j)
                        &&& *items@[j].1 == before[j]
                    },
                after_borrow(self.cells)@ == Seq::new(
                    i as nat,
                    |j: int| *final(items@[j].1),
                ) + final(rest)@,
            decreases n - i,
        {
            let (head, tail) = rest.split_at_mut(1);
            let cell = head.first_mut().unwrap();
            let coord = coord_at(size, i);
            items.push((coord, cell));
            rest = tail;
            i += 1;
        }
        assert(final(rest)@ == rest@);
        items
    }

    /// The cell that the point `point`, given as `(x, y, z)`, stands for on
    /// the torus: each coordinate, negative or not, is reduced modulo the size
    /// of its axis, so the result is never negative and always inside the
    /// lattice.
    pub fn periodic_coord(&self, point: (isize, isize, isize)) -> (wrapped: LatticeCoord)
        requires
            self.shape().0 > 0,
            self.shape().1 > 0,
            self.shape().2 > 0,
        ensures
            wrapped.x == (point.0 as int) % (self.shape().0 as int),
            wrapped.y == (point.1 as int) % (self.shape().1 as int),
            wrapped.z == (point.2 as int) % (self.shape().2 as int),
            contains(self.shape(), wrapped),
            Some(wrapped) == resolve(
                self.shape(),
                (point.0 as int, point.1 as int, point.2 as int),
                BoundaryPolicy::Periodic,
            ),
    {
        let wx = resolve_axis_exec(self.size.0, point.0 as i128, BoundaryPolicy::Periodic);
        let wy = resolve_axis_exec(self.size.1, point.1 as i128, BoundaryPolicy::Periodic);
        let wz = resolve_axis_exec(self.size.2, point.2 as i128, BoundaryPolicy::Periodic);
        LatticeCoord { x: wx.unwrap(), y: wy.unwrap(), z: wz.unwrap() }
    }

    /// The cell reached from `coord` by the step `offset` under `policy`, or
    /// `None` when the policy gives that step no cell.
    pub fn neighbor(
        &self,
        coord: LatticeCoord,
        offset: (isize, isize, isize),
        policy: BoundaryPolicy,
    ) -> (reached: Option<LatticeCoord>)
        ensures
            reached == resolve(
                self.shape(),
                shifted(coord, (offset.0 as int, offset.1 as int, offset.2 as int)),
                policy,
            ),
            reached matches Some(c) ==> contains(self.shape(), c),
    {
        let x = resolve_axis_exec(self.size.0, coord.x as i128 + offset.0 as i128, policy);
        let y = resolve_axis_exec(self.size.1, coord.y as i128 + offset.1 as i128, policy);
        let z = resolve_axis_exec(self.size.2, coord.z as i128 + offset.2 as i128, policy);
        match (x, y, z) {
            (Some(x), Some(y), Some(z)) => Some(LatticeCoord { x, y, z }),
            _ => None,
        }
    }

    /// The axis-aligned neighbours of `coord` in the order `+x, -x, +y, -y,
    /// +z, -z`, or `None` when `coord` is outside the lattice.
    ///
    /// Under `Periodic` and `Reflecting` all six are listed (on a short axis
    /// the same cell may be listed twice, or be `coord` itself); under `Open`
    /// the steps that leave the lattice are left out.
    pub fn neighbors_6(&self, coord: LatticeCoord, policy: BoundaryPolicy) -> (found: Option<
        Vec<LatticeCoord>,
    >)
        ensures
            found is Some <==> contains(self.shape(), coord),
            found matches Some(v) ==> v@ == neighbors_along(
                self.shape(),
                coord,
                axis_offsets(),
                policy,
            ),
    {
        if !self.in_bounds(&coord) {
            return None;
        }
        let offsets: [(isize, isize, isize); 6] = [
            (1, 0, 0),
            (-1, 0, 0),
            (0, 1, 0),
            (0, -1, 0),
            (0, 0, 1),
            (0, 0, -1),
        ];
        proof {
            assert(offsets@.map_values(
                |d: (isize, isize, isize)| (d.0 as int, d.1 as int, d.2 as int),
            ) == axis_offsets());
        }
        Some(self.neighbors_by(coord, offsets.as_slice(), policy))
    }

    /// The neighbours of `coord` in its 3x3x3 block: the six axis-aligned
    /// ones as `neighbors_6` lists them, then the twenty diagonal ones. Empty
    /// when `coord` is outside the lattice.
    pub fn neighbors_26(&self, coord: LatticeCoord, policy: BoundaryPolicy) -> (found: Vec<
        LatticeCoord,
    >)
        ensures
            found@ == if contains(self.shape(), coord) {
                neighbors_along(self.shape(), coord, axis_offsets() + diagonal_offsets(), policy)
            } else {
                Seq::empty()
            },
    {
        if !self.in_bounds(&coord) {
            return Vec::new();
        }
        let offsets: [(isize, isize, isize); 26] = [
            (1, 0, 0),
            (-1, 0, 0),
            (0, 1, 0),
            (0, -1, 0),
            (0, 0, 1),
            (0, 0, -1),
            (-1, -1, -1),
            (-1, -1, 0),
            (-1, -1, 1),
            (-1, 0, -1),
            (-1, 0, 1),
            (-1, 1, -1),
            (-1, 1, 0),
            (-1, 1, 1),
            (0, -1, -1),
            (0, -1, 1),
            (0, 1, -1),
            (0, 1, 1),
            (1, -1, -1),
            (1, -1, 0),
            (1, -1, 1),
            (1, 0, -1),
            (1, 0, 1),
            (1, 1, -1),
            (1, 1, 0),
            (1, 1, 1),
        ];
        proof {
            assert(offsets@.map_values(
                |d: (isize, isize, isize)| (d.0 as int, d.1 as int, d.2 as int),
            ) == axis_offsets() + diagonal_offsets());
        }
        self.neighbors_by(coord, offsets.as_slice(), policy)
    }

    /// The flat index of the cell that lies next to the cell `index` in
    /// `direction` under `policy`, or `None` when `index` names no cell or the
    /// policy gives that step no cell.
    pub fn neighbor_index(&self, index: usize, direction: Direction, policy: BoundaryPolicy) -> (next:
        Option<usize>)
        requires
            self.wf(),
        ensures
            next == if index < cell_count(self.shape()) {
                match resolve(
                    self.shape(),
                    shifted(coord_of(self.shape(), index as int), direction.offset_spec()),
                    policy,
                ) {
                    Some(c) => Some(flat_index(self.shape(), c) as usize),
                    None => None,
                }
            } else {
                None
            },
            next matches Some(n) ==> n < cell_count(self.shape()),
    {
        let here = match self.coord(index as u128) {
            Some(c) => c,
            None => {
                return None;
            },
        };
        match self.neighbor(here, direction.offset(), policy) {
            Some(there) => {
                proof {
                    law_coord_of_index(self.size, there);
                }
                match self.index(there) {
                    Some(n) => Some(n as usize),
                    None => None,
                }
            },
            None => None,
        }
    }

    /// The cells reached from `coord` by each of `offsets` in turn.
    fn neighbors_by(
        &self,
        coord: LatticeCoord,
        offsets: &[(isize, isize, isize)],
        policy: BoundaryPolicy,
    ) -> (found: Vec<LatticeCoord>)
        ensures
            found@ == neighbors_along(
                self.shape(),
                coord,
                offsets@.map_values(|d: (isize, isize, isize)| (d.0 as int, d.1 as int, d.2 as int)),
                policy,
            ),
    {
        let ghost steps = offsets@.map_values(
            |d: (isize, isize, isize)| (d.0 as int, d.1 as int, d.2 as int),
        );
        let mut found: Vec<LatticeCoord> = Vec::new();
        let mut k: usize = 0;
        while k < offsets.len()
            invariant
                k <= offsets.len(),
                steps == offsets@.map_values(
                    |d: (isize, isize, isize)| (d.0 as int, d.1 as int, d.2 as int),
                ),
                found@ == neighbors_along(self.shape(), coord, steps.take(k as int), policy),
            decreases offsets.len() - k,
        {
            proof {
                assert(steps.take(k + 1).drop_last() == steps.take(k as int));
                assert(steps.take(k + 1).last() == steps[k as int]);
            }
            match self.neighbor(coord, offsets[k], policy) {
                Some(c) => {
                    found.push(c);
                },
                None => {},
            }
            k += 1;
        }
        proof {
            assert(steps.take(k as int) == steps);
        }
        found
    }
}

impl<C: Default> Lattice<C> {
    /// A lattice of the given size in which every cell is `C::default()`, or
    /// `None` when the number of cells cannot be indexed.
    pub fn new(size: (usize, usize, usize)) -> (lattice: Option<Lattice<C>>)
        ensures
            lattice is Some <==> cell_count(size) <= usize::MAX,
            lattice matches Some(l) ==> {
                &&& l.wf()
                &&& l.shape() == size
                &&& forall|i: int|
                    0 <= i < l.cells().len() ==> call_ensures(
                        C::default,
                        (),
                        #[trigger] l.cells()[i],
                    )
            },
    {
        let count: usize = match Self::cell_count_size(size) {
            Some(count) => {
                if count > usize::MAX as u128 {
                    return None;
                }
                count as usize
            },
            None => {
                return None;
            },
        };
        let mut cells: Vec<C> = Vec::new();
        let mut i: usize = 0;
        while i < count
            invariant
                i <= count,
                cells@.len() == i,
                forall|j: int| 0 <= j < i ==> call_ensures(C::default, (), #[trigger] cells@[j]),
            decreases count - i,
        {
            cells.push(C::default());
            i += 1;
        }
        Some(Lattice { size, cells })
    }
}

impl<C: Copy> Lattice<C> {
    /// A lattice of the given size in which every cell holds `value`, or
    /// `None` when the number of cells cannot be indexed.
    pub fn filled(size: (usize, usize, usize), value: C) -> (lattice: Option<Lattice<C>>)
        ensures
            lattice is Some <==> cell_count(size) <= usize::MAX,
            lattice matches Some(l) ==> {
                &&& l.wf()
                &&& l.shape() == size
                &&& forall|i: int| 0 <= i < l.cells().len() ==> #[trigger] l.cells()[i] == value
            },
    {
        let count: usize = match Self::cell_count_size(size) {
            Some(count) => {
                if count > usize::MAX as u128 {
                    return None;
                }
                count as usize
            },
            None => {
                return None;
            },
        };
        let mut cells: Vec<C> = Vec::new();
        let mut i: usize = 0;
        while i < count
            invariant
                i <= count,
                cells@.len() == i,
                forall|j: int| 0 <= j < i ==> #[trigger] cells@[j] == value,
            decreases count - i,
        {
            cells.push(value);
            i += 1;
        }
        Some(Lattice { size, cells })
    }
}

impl<C> Default for Lattice<C> {
    /// The lattice without cells.
    fn default() -> (lattice: Lattice<C>)
        ensures
            lattice.wf(),
            lattice.shape() == (0usize, 0usize, 0usize),
            lattice.cells().len() == 0,
    {
        Lattice { size: (0, 0, 0), cells: Vec::new() }
    }
}

impl<C: Clone> Clone for Lattice<C> {
    /// A lattice of the same size whose cells are clones of this one's.
    fn clone(&self) -> (copy: Lattice<C>)
        ensures
            copy.shape() == self.shape(),
            copy.cells().len() == self.cells().len(),
            forall|i: int|
                0 <= i < self.cells().len() ==> cloned::<C>(
                    #[trigger] self.cells()[i],
                    copy.cells()[i],
                ),
            self.wf() ==> copy.wf(),
    {
        Lattice { size: self.size, cells: self.cells.clone() }
    }
}

/// Coordinate of the cell at flat index `index`.
fn coord_at(size: (usize, usize, usize), index: usize) -> (coord: LatticeCoord)
    requires
        index < cell_count(size),
    ensures
        coord == coord_of(size, index as int),
{
    proof {
        law_index_of_coord(size, index as int);
        let nx = size.0 as int;
        let ny = size.1 as int;
        assert(0 < nx && 0 < ny && 0 < nx * ny <= usize::MAX * usize::MAX) by (nonlinear_arith)
            requires
                0 <= nx <= usize::MAX,
                0 <= ny <= usize::MAX,
                0 <= size.2,
                0 < nx * ny * size.2,
        ;
    }
    let i: u128 = index as u128;
    let nx: u128 = size.0 as u128;
    let ny: u128 = size.1 as u128;
    let plane: u128 = nx * ny;
    LatticeCoord { x: (i % nx) as usize, y: ((i / nx) % ny) as usize, z: (i / plane) as usize }
}

/// Executable form of `resolve_axis`.
fn resolve_axis_exec(n: usize, v: i128, policy: BoundaryPolicy) -> (landed: Option<usize>)
    ensures
        landed is Some <==> resolve_axis(n, v as int, policy) is Some,
        landed matches Some(x) ==> resolve_axis(n, v as int, policy) == Some(x as int) && x < n,
{
    if n == 0 {
        return None;
    }
    match policy {
        BoundaryPolicy::Periodic => {
            if v >= 0 {
                proof {
                    lemma_mod_bound(v as int, n as int);
                }
                Some((v % (n as i128)) as usize)
            } else {
                let below: u128 = (-(v + 1)) as u128;
                let m: u128 = below % (n as u128);
                proof {
                    let q = (below as int) / (n as int);
                    lemma_fundamental_div_mod(below as int, n as int);
                    lemma_mod_bound(below as int, n as int);
                    assert(v as int == (-(q + 1)) * n + (n - 1 - m)) by (nonlinear_arith)
                        requires
                            below as int == n * q + m,
                            v as int == -(below + 1),
                    ;
                    lemma_fundamental_div_mod_converse(
                        v as int,
                        n as int,
                        -(q + 1),
                        n - 1 - m,
                    );
                }
                Some((n as u128 - 1 - m) as usize)
            }
        },
        BoundaryPolicy::Reflecting => {
            if v < 0 {
                Some(0)
            } else if v >= n as i128 {
                Some(n - 1)
            } else {
                Some(v as usize)
            }
        },
        BoundaryPolicy::Open => {
            if 0 <= v && v < n as i128 {
                Some(v as usize)
            } else {
                None
            }
        },
    }
}

} // verus!
