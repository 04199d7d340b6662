//! Which cells a picture or a transform of the lattice takes together: the
//! cells of one plane, and the lines of cells along one axis, as flat indices
//! for the caller to read energies from.

use vstd::prelude::*;
use crate::geometry::{cell_count, flat_index, law_coord_of_index};
use crate::lattice::Lattice;
use crate::types::LatticeCoord;

verus! {

/// Size of the lattice along `axis` (0 for x, 1 for y, 2 for z).
pub open spec fn extent(size: (usize, usize, usize), axis: int) -> int {
    if axis == 0 {
        size.0 as int
    } else if axis == 1 {
        size.1 as int
    } else {
        size.2 as int
    }
}

/// The two axes that span the plane across `axis`, lower axis first.
pub open spec fn plane_axes(axis: int) -> (int, int) {
    if axis == 0 {
        (1, 2)
    } else if axis == 1 {
        (0, 2)
    } else {
        (0, 1)
    }
}

/// The cell of the plane `axis == index` that lies at `(u, v)` along the two
/// axes that span the plane.
pub open spec fn plane_cell(axis: int, index: int, u: int, v: int) -> LatticeCoord {
    if axis == 0 {
        LatticeCoord { x: index as usize, y: u as usize, z: v as usize }
    } else if axis == 1 {
        LatticeCoord { x: u as usize, y: index as usize, z: v as usize }
    } else {
        LatticeCoord { x: u as usize, y: v as usize, z: index as usize }
    }
}

/// The cells of the plane in which the coordinate along `axis` is `index`:
/// `grid[u][v]` is the flat index of the cell at `(u, v)` along the two other
/// axes, lower axis first. `None` when there is no such axis or no such
/// plane.
pub fn slice_along_axis<C>(lattice: &Lattice<C>, axis: usize, index: usize) -> (grid: Option<
    Vec<Vec<usize>>,
>)
    requires
        lattice.wf(),
    ensures
        grid is Some <==> axis < 3 && index < extent(lattice.shape(), axis as int),
        grid matches Some(g) ==> {
            &&& g@.len() == extent(lattice.shape(), plane_axes(axis as int).0)
            &&& forall|u: int|
                0 <= u < g@.len() ==> (#[trigger] g@[u])@.len() == extent(
                    lattice.shape(),
                    plane_axes(axis as int).1,
                )
            &&& forall|u: int, v: int|
                0 <= u < g@.len() && 0 <= v < g@[u]@.len() ==> #[trigger] g@[u]@[v] == flat_index(
                    lattice.shape(),
                    plane_cell(axis as int, index as int, u, v),
                )
        },
{
    let size = lattice.size();
    let (deep, rows, cols) = if axis == 0 {
        (size.0, size.1, size.2)
    } else if axis == 1 {
        (size.1, size.0, size.2)
    } else if axis == 2 {
        (size.2, size.0, size.1)
    } else {
        return None;
    };
    if index >= deep {
        return None;
    }
    let mut grid: Vec<Vec<usize>> = Vec::new();
    let mut u: usize = 0;
    while u < rows
        invariant
            lattice.wf(),
            size == lattice.shape(),
            axis < 3,
            index < deep,
            deep == extent(size, axis as int),
            rows == extent(size, plane_axes(axis as int).0),
            cols == extent(size, plane_axes(axis as int).1),
            u <= rows,
            grid@.len() == u,
            forall|a: int| 0 <= a < u ==> (#[trigger] grid@[a])@.len() == cols,
            forall|a: int, b: int|
                0 <= a < u && 0 <= b < cols ==> #[trigger] grid@[a]@[b] == flat_index(
                    size,
                    plane_cell(axis as int, index as int, a, b),
                ),
        decreases rows - u,
    {
        let mut row: Vec<usize> = Vec::new();
        let mut v: usize = 0;
        while v < cols
            invariant
                lattice.wf(),
                size == lattice.shape(),
                axis < 3,
                index < deep,
                deep == extent(size, axis as int),
                rows == extent(size, plane_axes(axis as int).0),
                cols == extent(size, plane_axes(axis as int).1),
                u < rows,
                v <= cols,
                row@.len() == v,
                forall|b: int|
                    0 <= b < v ==> #[trigger] row@[b] == flat_index(
                        size,
                        plane_cell(axis as int, index as int, u as int, b),
                    ),
            decreases cols - v,
        {
            let coord = if axis == 0 {
                LatticeCoord { x: index, y: u, z: v }
            } else if axis == 1 {
                LatticeCoord { x: u, y: index, z: v }
            } else {
                LatticeCoord { x: u, y: v, z: index }
            };
            proof {
                law_coord_of_index(size, coord);
            }
            let at = lattice.index(coord).unwrap();
            row.push(at as usize);
            v += 1;
        }
        grid.push(row);
        u += 1;
    }
    Some(grid)
}

/// The cells of the horizontal plane `z == z_index`: `grid[x][y]` is the flat
/// index of the cell `(x, y, z_index)`. `None` when the lattice has no such
/// plane.
pub fn slice_xy<C>(lattice: &Lattice<C>, z_index: usize) -> (grid: Option<Vec<Vec<usize>>>)
    requires
        lattice.wf(),
    ensures
        grid is Some <==> z_index < lattice.shape().2,
        grid matches Some(g) ==> {
            &&& g@.len() == lattice.shape().0
            &&& forall|x: int| 0 <= x < g@.len() ==> (#[trigger] g@[x])@.len() == lattice.shape().1
            &&& forall|x: int, y: int|
                0 <= x < g@.len() && 0 <= y < g@[x]@.len() ==> #[trigger] g@[x]@[y] == flat_index(
                    lattice.shape(),
                    LatticeCoord { x: x as usize, y: y as usize, z: z_index },
                )
        },
{
    slice_along_axis(lattice, 2, z_index)
}

/// The lines of cells that run along `axis`: `lines[u][v]` holds the flat
/// indices of the cells at `(u, v)` along the two other axes, lower axis
/// first, in the order of their coordinate along `axis`. Every cell lies on
/// exactly one of these lines. `None` when there is no such axis; no lines
/// when the lattice has no cells.
pub fn axis_lines<C>(lattice: &Lattice<C>, axis: usize) -> (lines: Option<Vec<Vec<Vec<usize>>>>)
    requires
        lattice.wf(),
    ensures
        lines is Some <==> axis < 3,
        lines matches Some(l) ==> {
            &&& l@.len() == if cell_count(lattice.shape()) == 0 {
                0
            } else {
                extent(lattice.shape(), plane_axes(axis as int).0)
            }
            &&& forall|u: int|
                0 <= u < l@.len() ==> (#[trigger] l@[u])@.len() == extent(
                    lattice.shape(),
                    plane_axes(axis as int).1,
                )
            &&& forall|u: int, v: int|
                0 <= u < l@.len() && 0 <= v < l@[u]@.len() ==> (#[trigger] l@[u]@[v])@.len()
                    == extent(lattice.shape(), axis as int)
            &&& forall|u: int, v: int, t: int|
                0 <= u < l@.len() && 0 <= v < l@[u]@.len() && 0 <= t < l@[u]@[v]@.len()
                    ==> #[trigger] l@[u]@[v]@[t] == flat_index(
                    lattice.shape(),
                    plane_cell(axis as int, t, u, v),
                )
        },
{
    let size = lattice.size();
    let (deep, rows, cols) = if axis == 0 {
        (size.0, size.1, size.2)
    } else if axis == 1 {
        (size.1, size.0, size.2)
    } else if axis == 2 {
        (size.2, size.0, size.1)
    } else {
        return None;
    };
    let mut lines: Vec<Vec<Vec<usize>>> = Vec::new();
    if lattice.len() == 0 {
        return Some(lines);
    }
    let mut u: usize = 0;
    while u < rows
        invariant
            lattice.wf(),
            size == lattice.shape(),
            axis < 3,
            deep == extent(size, axis as int),
            rows == extent(size, plane_axes(axis as int).0),
            cols == extent(size, plane_axes(axis as int).1),
            u <= rows,
            lines@.len() == u,
            forall|a: int| 0 <= a < u ==> (#[trigger] lines@[a])@.len() == cols,
            forall|a: int, b: int|
                0 <= a < u && 0 <= b < cols ==> (#[trigger] lines@[a]@[b])@.len() == deep,
            forall|a: int, b: int, t: int|
                0 <= a < u && 0 <= b < cols && 0 <= t < deep ==> #[trigger] lines@[a]@[b]@[t]
                    == flat_index(size, plane_cell(axis as int, t, a, b)),
        decreases rows - u,
    {
        let mut row: Vec<Vec<usize>> = Vec::new();
        let mut v: usize = 0;
        while v < cols
            invariant
                lattice.wf(),
                size == lattice.shape(),
                axis < 3,
                deep == extent(size, axis as int),
                rows == extent(size, plane_axes(axis as int).0),
                cols == extent(size, plane_axes(axis as int).1),
                u < rows,
                v <= cols,
                row@.len() == v,
                forall|b: int| 0 <= b < v ==> (#[trigger] row@[b])@.len() == deep,
                forall|b: int, t: int|
                    0 <= b < v && 0 <= t < deep ==> #[trigger] row@[b]@[t] == flat_index(
                        size,
                        plane_cell(axis as int, t, u as int, b),
                    ),
            decreases cols - v,
        {
            let mut line: Vec<usize> = Vec::new();
            let mut t: usize = 0;
            while t < deep
                invariant
                    lattice.wf(),
                    size == lattice.shape(),
                    axis < 3,
                    deep == extent(size, axis as int),
                    rows == extent(size, plane_axes(axis as int).0),
                    cols == extent(size, plane_axes(axis as int).1),
                    u < rows,
                    v < cols,
                    t <= deep,
                    line@.len() == t,
                    forall|s: int|
                        0 <= s < t ==> #[trigger] line@[s] == flat_index(
                            size,
                            plane_cell(axis as int, s, u as int, v as int),
                        ),
                decreases deep - t,
            {
                let coord = if axis == 0 {
                    LatticeCoord { x: t, y: u, z: v }
                } else if axis == 1 {
                    LatticeCoord { x: u, y: t, z: v }
                } else {
                    LatticeCoord { x: u, y: v, z: t }
                };
                proof {
                    law_coord_of_index(size, coord);
                }
                let at = lattice.index(coord).unwrap();
                line.push(at as usize);
                t += 1;
            }
            row.push(line);
            v += 1;
        }
        lines.push(row);
        u += 1;
    }
    Some(lines)
}

} // verus!
