//! The arithmetic of a three-dimensional grid, as mathematics: which
//! coordinates lie inside, how coordinates and flat indices correspond, and
//! where a step that leaves the grid ends up under each boundary policy.
//!
//! Cells are numbered x-fastest: the cell at `(x, y, z)` of a grid of size
//! `(nx, ny, nz)` has index `x + y * nx + z * nx * ny`.

use vstd::prelude::*;
use vstd::arithmetic::div_mod::{
    lemma_div_pos_is_pos,
    lemma_fundamental_div_mod,
    lemma_fundamental_div_mod_converse,
    lemma_mod_bound,
};
use crate::types::{BoundaryPolicy, LatticeCoord};

verus! {

/// Number of cells of a lattice of the given size.
pub open spec fn cell_count(size: (usize, usize, usize)) -> int {
    size.0 * size.1 * size.2
}

/// Whether `coord` lies inside a lattice of the given size.
pub open spec fn contains(size: (usize, usize, usize), coord: LatticeCoord) -> bool {
    coord.x < size.0 && coord.y < size.1 && coord.z < size.2
}

/// Flat index of `coord`: x runs fastest, then y, then z.
pub open spec fn flat_index(size: (usize, usize, usize), coord: LatticeCoord) -> int {
    coord.x + coord.y * size.0 + coord.z * (size.0 * size.1)
}

/// Coordinate of the cell stored at flat index `index`.
pub open spec fn coord_of(size: (usize, usize, usize), index: int) -> LatticeCoord {
    LatticeCoord {
        x: (index % (size.0 as int)) as usize,
        y: ((index / (size.0 as int)) % (size.1 as int)) as usize,
        z: (index / (size.0 * size.1)) as usize,
    }
}

/// An in-bounds coordinate has an index below the cell count, and the
/// coordinate of that index is the coordinate itself.
pub proof fn law_coord_of_index(size: (usize, usize, usize), coord: LatticeCoord)
    requires
        contains(size, coord),
    ensures
        0 <= flat_index(size, coord) < cell_count(size),
        coord_of(size, flat_index(size, coord)) == coord,
{
    let nx = size.0 as int;
    let ny = size.1 as int;
    let nz = size.2 as int;
    let x = coord.x as int;
    let y = coord.y as int;
    let z = coord.z as int;
    let plane = nx * ny;
    let row = y + z * ny;
    let i = flat_index(size, coord);
    assert(0 <= z * ny && z * ny <= (nz - 1) * ny) by (nonlinear_arith)
        requires
            0 <= z <= nz - 1,
            0 < ny,
    ;
    assert(z * plane == (z * ny) * nx) by (nonlinear_arith)
        requires
            plane == nx * ny,
    ;
    assert(row * nx == y * nx + (z * ny) * nx) by (nonlinear_arith)
        requires
            row == y + z * ny,
    ;
    assert(i == row * nx + x);
    assert(0 <= row * nx && row * nx <= (ny * nz - 1) * nx) by (nonlinear_arith)
        requires
            0 <= row,
            row <= ny - 1 + (nz - 1) * ny,
            0 < nx,
    ;
    assert((ny * nz - 1) * nx == nx * ny * nz - nx) by (nonlinear_arith);
    lemma_fundamental_div_mod_converse(i, nx, row, x);
    lemma_fundamental_div_mod_converse(row, ny, z, y);
    assert(0 < plane) by (nonlinear_arith)
        requires
            plane == nx * ny,
            0 < nx,
            0 < ny,
    ;
    assert(i == z * plane + (x + y * nx));
    assert(0 <= y * nx && x + y * nx < plane) by (nonlinear_arith)
        requires
            plane == nx * ny,
            0 <= x < nx,
            0 <= y < ny,
    ;
    lemma_fundamental_div_mod_converse(i, plane, z, x + y * nx);
}

/// An index below the cell count names an in-bounds coordinate, and the index
/// of that coordinate is the index itself.
pub proof fn law_index_of_coord(size: (usize, usize, usize), index: int)
    requires
        0 <= index < cell_count(size),
    ensures
        contains(size, coord_of(size, index)),
        flat_index(size, coord_of(size, index)) == index,
{
    let nx = size.0 as int;
    let ny = size.1 as int;
    let nz = size.2 as int;
    let plane = nx * ny;
    assert(0 < nx && 0 < ny && 0 < nz && 0 < plane) by (nonlinear_arith)
        requires
            0 <= nx,
            0 <= ny,
            0 <= nz,
            0 < nx * ny * nz,
            plane == nx * ny,
    ;
    let x = index % nx;
    let row = index / nx;
    let y = row % ny;
    let z = row / ny;
    lemma_fundamental_div_mod(index, nx);
    lemma_mod_bound(index, nx);
    lemma_fundamental_div_mod(row, ny);
    lemma_mod_bound(row, ny);
    assert(0 <= row) by {
        lemma_div_pos_is_pos(index, nx);
    }
    assert(0 <= z) by {
        lemma_div_pos_is_pos(row, ny);
    }
    assert(index == (ny * z + y) * nx + x) by (nonlinear_arith)
        requires
            index == nx * row + x,
            row == ny * z + y,
    ;
    assert(index == z * plane + (x + y * nx)) by (nonlinear_arith)
        requires
            index == (ny * z + y) * nx + x,
            plane == nx * ny,
    ;
    assert(0 <= y * nx && x + y * nx < plane) by (nonlinear_arith)
        requires
            plane == nx * ny,
            0 <= x < nx,
            0 <= y < ny,
    ;
    lemma_fundamental_div_mod_converse(index, plane, z, x + y * nx);
    assert(z < nz) by (nonlinear_arith)
        requires
            index == z * plane + (x + y * nx),
            0 <= x + y * nx,
            index < plane * nz,
            0 < plane,
    ;
    assert(nx * ny * nz == plane * nz);
    assert(x <= usize::MAX && y <= usize::MAX && z <= usize::MAX);
    let c = coord_of(size, index);
    assert(c.x == x && c.y == y && c.z == z);
    assert(c.z * (size.0 * size.1) == z * plane);
    assert(c.y * size.0 == y * nx);
}

/// Two in-bounds coordinates with the same index are the same coordinate.
pub proof fn law_index_injective(size: (usize, usize, usize), a: LatticeCoord, b: LatticeCoord)
    requires
        contains(size, a),
        contains(size, b),
        flat_index(size, a) == flat_index(size, b),
    ensures
        a == b,
{
    law_coord_of_index(size, a);
    law_coord_of_index(size, b);
}

/// Where the raw coordinate `v` along an axis of length `n` lands under
/// `policy`, or `None` when the policy gives it no cell.
pub open spec fn resolve_axis(n: usize, v: int, policy: BoundaryPolicy) -> Option<int> {
    if n == 0 {
        None
    } else {
        match policy {
            BoundaryPolicy::Periodic => Some(v % (n as int)),
            BoundaryPolicy::Reflecting => Some(
                if v < 0 {
                    0
                } else if v >= n {
                    n - 1
                } else {
                    v
                },
            ),
            BoundaryPolicy::Open => if 0 <= v < n {
                Some(v)
            } else {
                None
            },
        }
    }
}

/// The cell that the raw point `p` stands for under `policy`, axis by axis.
pub open spec fn resolve(
    size: (usize, usize, usize),
    p: (int, int, int),
    policy: BoundaryPolicy,
) -> Option<LatticeCoord> {
    match (
        resolve_axis(size.0, p.0, policy),
        resolve_axis(size.1, p.1, policy),
        resolve_axis(size.2, p.2, policy),
    ) {
        (Some(x), Some(y), Some(z)) => Some(
            LatticeCoord { x: x as usize, y: y as usize, z: z as usize },
        ),
        _ => None,
    }
}

/// The raw point reached from `coord` by the step `d`.
pub open spec fn shifted(coord: LatticeCoord, d: (int, int, int)) -> (int, int, int) {
    (coord.x + d.0, coord.y + d.1, coord.z + d.2)
}

/// The cells reached from `coord` by each step of `offsets` in turn, leaving
/// out the steps to which `policy` gives no cell.
pub open spec fn neighbors_along(
    size: (usize, usize, usize),
    coord: LatticeCoord,
    offsets: Seq<(int, int, int)>,
    policy: BoundaryPolicy,
) -> Seq<LatticeCoord>
    decreases offsets.len(),
{
    if offsets.len() == 0 {
        Seq::empty()
    } else {
        let rest = neighbors_along(size, coord, offsets.drop_last(), policy);
        match resolve(size, shifted(coord, offsets.last()), policy) {
            Some(n) => rest.push(n),
            None => rest,
        }
    }
}

/// The six axis-aligned unit steps: `+x, -x, +y, -y, +z, -z`.
pub open spec fn axis_offsets() -> Seq<(int, int, int)> {
    seq![(1, 0, 0), (-1, 0, 0), (0, 1, 0), (0, -1, 0), (0, 0, 1), (0, 0, -1)]
}

/// The twenty diagonal unit steps, in lexicographic order of `(dx, dy, dz)`.
pub open spec fn diagonal_offsets() -> Seq<(int, int, int)> {
    seq![
        (-1, -1, -1),
        (-1, -1, 0),
        (-1, -1, 1),
        (-1, 0, -1),
        (-1, 0, 1),
        (-1, 1, -1),
        (-1, 1, 0),
        (-1, 1, 1),
        (0, -1, -1),
        (0, -1, 1),
        (0, 1, -1),
        (0, 1, 1),
        (1, -1, -1),
        (1, -1, 0),
        (1, -1, 1),
        (1, 0, -1),
        (1, 0, 1),
        (1, 1, -1),
        (1, 1, 0),
        (1, 1, 1),
    ]
}

/// Whatever the policy, a resolved point is a cell of the lattice; and on a
/// lattice that has cells, only `Open` leaves a point unresolved.
pub proof fn law_resolve_in_bounds(
    size: (usize, usize, usize),
    p: (int, int, int),
    policy: BoundaryPolicy,
)
    ensures
        resolve(size, p, policy) matches Some(c) ==> contains(size, c),
        size.0 > 0 && size.1 > 0 && size.2 > 0 && policy != BoundaryPolicy::Open ==> resolve(
            size,
            p,
            policy,
        ) is Some,
{
    if size.0 > 0 {
        lemma_mod_bound(p.0, size.0 as int);
    }
    if size.1 > 0 {
        lemma_mod_bound(p.1, size.1 as int);
    }
    if size.2 > 0 {
        lemma_mod_bound(p.2, size.2 as int);
    }
}

/// Every cell listed by `neighbors_along` is a cell of the lattice, and no
/// more cells are listed than steps were given.
pub proof fn law_neighbors_in_bounds(
    size: (usize, usize, usize),
    coord: LatticeCoord,
    offsets: Seq<(int, int, int)>,
    policy: BoundaryPolicy,
)
    ensures
        neighbors_along(size, coord, offsets, policy).len() <= offsets.len(),
        forall|k: int|
            0 <= k < neighbors_along(size, coord, offsets, policy).len() ==> contains(
                size,
                #[trigger] neighbors_along(size, coord, offsets, policy)[k],
            ),
    decreases offsets.len(),
{
    if offsets.len() > 0 {
        law_neighbors_in_bounds(size, coord, offsets.drop_last(), policy);
        law_resolve_in_bounds(size, shifted(coord, offsets.last()), policy);
    }
}

/// A cell is listed by `neighbors_along` exactly when one of the steps
/// resolves to it.
pub proof fn law_neighbors_membership(
    size: (usize, usize, usize),
    coord: LatticeCoord,
    offsets: Seq<(int, int, int)>,
    policy: BoundaryPolicy,
    target: LatticeCoord,
)
    ensures
        neighbors_along(size, coord, offsets, policy).contains(target) <==> exists|k: int|
            0 <= k < offsets.len() && resolve(size, shifted(coord, #[trigger] offsets[k]), policy)
                == Some(target),
    decreases offsets.len(),
{
    let listed = neighbors_along(size, coord, offsets, policy);
    if offsets.len() > 0 {
        let front = offsets.drop_last();
        let rest = neighbors_along(size, coord, front, policy);
        let last = resolve(size, shifted(coord, offsets.last()), policy);
        law_neighbors_membership(size, coord, front, policy, target);
        if listed.contains(target) {
            let i = choose|i: int| 0 <= i < listed.len() && listed[i] == target;
            if i < rest.len() {
                assert(rest[i] == target);
                assert(rest.contains(target));
                let k = choose|k: int|
                    0 <= k < front.len() && resolve(
                        size,
                        shifted(coord, #[trigger] front[k]),
                        policy,
                    ) == Some(target);
                assert(offsets[k] == front[k]);
            } else {
                assert(last == Some(target));
                assert(offsets[offsets.len() - 1] == offsets.last());
            }
        }
        if exists|k: int|
            0 <= k < offsets.len() && resolve(size, shifted(coord, #[trigger] offsets[k]), policy)
                == Some(target) {
            let k = choose|k: int|
                0 <= k < offsets.len() && resolve(
                    size,
                    shifted(coord, #[trigger] offsets[k]),
                    policy,
                ) == Some(target);
            if k < front.len() {
                assert(front[k] == offsets[k]);
                assert(rest.contains(target));
                let i = choose|i: int| 0 <= i < rest.len() && rest[i] == target;
                assert(listed[i] == target);
            } else {
                assert(listed[listed.len() - 1] == target);
            }
        }
    }
}

} // verus!
