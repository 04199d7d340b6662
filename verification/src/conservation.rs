//! The counting side of the pattern metrics: sorting the cells of a lattice
//! into voids, walls and filaments once each cell's density has been judged,
//! and counting the boxes that a thresholded density field occupies.
//!
//! The judging itself compares floating-point densities with thresholds and
//! is done by the caller, who hands over one label or one flag per cell, in
//! index order.

use vstd::prelude::*;
use vstd::arithmetic::div_mod::{lemma_div_is_ordered, lemma_div_pos_is_pos};
use crate::lattice::Lattice;
use crate::geometry::{
    cell_count,
    contains,
    coord_of,
    flat_index,
    law_coord_of_index,
    law_index_of_coord,
};
use crate::types::LatticeCoord;

verus! {

/// How dense a cell is, judged against a low and a high threshold.
#[derive(Clone, Copy, Debug, PartialEq, Eq, Hash, Structural)]
pub enum DensityClass {
    /// Below the low threshold.
    Void,
    /// Between the two thresholds.
    Wall,
    /// Above the high threshold.
    Filament,
}

/// The coordinates of those of the first `n` cells whose label is `class`,
/// in ascending index order.
pub open spec fn cells_of_class(
    size: (usize, usize, usize),
    classes: Seq<DensityClass>,
    class: DensityClass,
    n: int,
) -> Seq<LatticeCoord>
    decreases n,
{
    if n <= 0 {
        Seq::empty()
    } else {
        let rest = cells_of_class(size, classes, class, n - 1);
        if classes[n - 1] == class {
            rest.push(coord_of(size, n - 1))
        } else {
            rest
        }
    }
}

/// Each of the first `n` cells is listed under exactly one class.
pub proof fn law_classes_partition(
    size: (usize, usize, usize),
    classes: Seq<DensityClass>,
    n: int,
)
    requires
        0 <= n,
    ensures
        cells_of_class(size, classes, DensityClass::Void, n).len() + cells_of_class(
            size,
            classes,
            DensityClass::Wall,
            n,
        ).len() + cells_of_class(size, classes, DensityClass::Filament, n).len() == n,
    decreases n,
{
    if n > 0 {
        law_classes_partition(size, classes, n - 1);
    }
}

/// A cell is listed under a class exactly when that is its label.
pub proof fn law_class_membership(
    size: (usize, usize, usize),
    classes: Seq<DensityClass>,
    class: DensityClass,
    n: int,
    i: int,
)
    requires
        0 <= i < n <= cell_count(size),
    ensures
        cells_of_class(size, classes, class, n).contains(coord_of(size, i)) <==> classes[i]
            == class,
    decreases n,
{
    let listed = cells_of_class(size, classes, class, n);
    let rest = cells_of_class(size, classes, class, n - 1);
    if i < n - 1 {
        law_class_membership(size, classes, class, n - 1, i);
        if rest.contains(coord_of(size, i)) {
            let k = choose|k: int| 0 <= k < rest.len() && rest[k] == coord_of(size, i);
            assert(listed[k] == coord_of(size, i));
        }
        if listed.contains(coord_of(size, i)) {
            let k = choose|k: int| 0 <= k < listed.len() && listed[k] == coord_of(size, i);
            if k == rest.len() {
                law_index_of_coord(size, i);
                law_index_of_coord(size, n - 1);
                assert(false);
            }
            assert(rest[k] == coord_of(size, i));
        }
    } else {
        if classes[i] == class {
            assert(listed[listed.len() - 1] == coord_of(size, i));
        } else if listed.contains(coord_of(size, i)) {
            lemma_listed_below(size, classes, class, n - 1, coord_of(size, i));
            law_index_of_coord(size, i);
            assert(false);
        }
    }
}

/// Whatever `cells_of_class` lists among the first `n` cells has an index
/// below `n`.
proof fn lemma_listed_below(
    size: (usize, usize, usize),
    classes: Seq<DensityClass>,
    class: DensityClass,
    n: int,
    coord: LatticeCoord,
)
    requires
        0 <= n <= cell_count(size),
        cells_of_class(size, classes, class, n).contains(coord),
    ensures
        0 <= flat_index(size, coord) < n,
        contains(size, coord),
    decreases n,
{
    let listed = cells_of_class(size, classes, class, n);
    let k = choose|k: int| 0 <= k < listed.len() && listed[k] == coord;
    if n > 0 {
        let rest = cells_of_class(size, classes, class, n - 1);
        if k < rest.len() {
            assert(rest[k] == coord);
            lemma_listed_below(size, classes, class, n - 1, coord);
        } else {
            law_index_of_coord(size, n - 1);
        }
    }
}

/// Sorts the cells of `lattice` by their labels: the coordinates of the
/// voids, of the walls and of the filaments, each in ascending index order.
/// `classes` holds the label of each cell in index order; `None` when it does
/// not hold exactly one label per cell.
pub fn void_wall_filament_classification_detailed<C>(
    lattice: &Lattice<C>,
    classes: &Vec<DensityClass>,
) -> (sorted: Option<(Vec<LatticeCoord>, Vec<LatticeCoord>, Vec<LatticeCoord>)>)
    requires
        lattice.wf(),
    ensures
        sorted is Some <==> classes@.len() == cell_count(lattice.shape()),
        sorted matches Some(lists) ==> {
            &&& lists.0@ == cells_of_class(
                lattice.shape(),
                classes@,
                DensityClass::Void,
                classes@.len() as int,
            )
            &&& lists.1@ == cells_of_class(
                lattice.shape(),
                classes@,
                DensityClass::Wall,
                classes@.len() as int,
            )
            &&& lists.2@ == cells_of_class(
                lattice.shape(),
                classes@,
                DensityClass::Filament,
                classes@.len() as int,
            )
            &&& lists.0@.len() + lists.1@.len() + lists.2@.len() == classes@.len()
        },
{
    let count = lattice.len();
    if classes.len() != count {
        return None;
    }
    let ghost size = lattice.shape();
    let mut voids: Vec<LatticeCoord> = Vec::new();
    let mut walls: Vec<LatticeCoord> = Vec::new();
    let mut filaments: Vec<LatticeCoord> = Vec::new();
    let mut i: usize = 0;
    while i < count
        invariant
            lattice.wf(),
            size == lattice.shape(),
            count == cell_count(size),
            classes@.len() == count,
            i <= count,
            voids@ == cells_of_class(size, classes@, DensityClass::Void, i as int),
            walls@ == cells_of_class(size, classes@, DensityClass::Wall, i as int),
            filaments@ == cells_of_class(size, classes@, DensityClass::Filament, i as int),
        decreases count - i,
    {
        let coord = lattice.coord(i as u128).unwrap();
        match classes[i] {
            DensityClass::Void => {
                voids.push(coord);
            },
            DensityClass::Wall => {
                walls.push(coord);
            },
            DensityClass::Filament => {
                filaments.push(coord);
            },
        }
        i += 1;
    }
    proof {
        law_classes_partition(size, classes@, count as int);
    }
    Some((voids, walls, filaments))
}

/// Number of boxes of side `side` that it takes to cover an axis of `n`
/// cells.
pub open spec fn boxes_along(n: int, side: int) -> int {
    if n <= 0 {
        0
    } else {
        (n - 1) / side + 1
    }
}

/// The grid of boxes of side `side` that covers a lattice of the given size.
pub open spec fn box_grid(size: (usize, usize, usize), side: int) -> (usize, usize, usize) {
    (
        boxes_along(size.0 as int, side) as usize,
        boxes_along(size.1 as int, side) as usize,
        boxes_along(size.2 as int, side) as usize,
    )
}

/// The box, as a cell of the box grid, in which the cell `coord` lies.
pub open spec fn box_holding(coord: LatticeCoord, side: int) -> LatticeCoord {
    LatticeCoord {
        x: (coord.x as int / side) as usize,
        y: (coord.y as int / side) as usize,
        z: (coord.z as int / side) as usize,
    }
}

/// Whether the box `b` holds at least one flagged cell.
pub open spec fn box_occupied(
    size: (usize, usize, usize),
    occupied: Seq<bool>,
    side: int,
    b: LatticeCoord,
) -> bool {
    exists|i: int|
        0 <= i < occupied.len() && i < cell_count(size) && #[trigger] occupied[i] && box_holding(
            coord_of(size, i),
            side,
        ) == b
}

/// How many of `flags` are set.
pub open spec fn count_true(flags: Seq<bool>) -> nat
    decreases flags.len(),
{
    if flags.len() == 0 {
        0
    } else {
        count_true(flags.drop_last()) + if flags.last() {
            1nat
        } else {
            0nat
        }
    }
}

/// For each box of the grid in index order, whether it holds a flagged cell.
pub open spec fn box_flags(size: (usize, usize, usize), occupied: Seq<bool>, side: int) -> Seq<
    bool,
> {
    let grid = box_grid(size, side);
    Seq::new(
        cell_count(grid) as nat,
        |m: int| box_occupied(size, occupied, side, coord_of(grid, m)),
    )
}

/// No more flags are set than there are.
pub proof fn law_count_true_bounded(flags: Seq<bool>)
    ensures
        count_true(flags) <= flags.len(),
    decreases flags.len(),
{
    if flags.len() > 0 {
        law_count_true_bounded(flags.drop_last());
    }
}

/// With boxes of side one every cell is its own box: the boxes that hold a
/// flagged cell are the flagged cells.
pub proof fn law_unit_boxes(size: (usize, usize, usize), occupied: Seq<bool>)
    requires
        occupied.len() == cell_count(size),
    ensures
        box_flags(size, occupied, 1) == occupied,
{
    let grid = box_grid(size, 1);
    assert(grid == size);
    let flags = box_flags(size, occupied, 1);
    assert forall|m: int| 0 <= m < flags.len() implies flags[m] == occupied[m] by {
        let b = coord_of(size, m);
        law_index_of_coord(size, m);
        if occupied[m] {
            assert(box_holding(coord_of(size, m), 1) == b);
        }
        if box_occupied(size, occupied, 1, b) {
            let i = choose|i: int|
                0 <= i < occupied.len() && i < cell_count(size) && #[trigger] occupied[i]
                    && box_holding(coord_of(size, i), 1) == b;
            law_index_of_coord(size, i);
            assert(coord_of(size, i) == b);
        }
    }
}

/// The box grid has no more boxes along an axis than the axis has cells, and
/// the box of an in-range coordinate is a box of the grid.
proof fn lemma_boxes_along(n: int, side: int, v: int)
    requires
        0 <= v < n,
        0 < side,
    ensures
        0 < boxes_along(n, side) <= n,
        0 <= v / side < boxes_along(n, side),
{
    lemma_div_is_ordered(v, n - 1, side);
    lemma_div_pos_is_pos(v, side);
    assert((n - 1) / side <= n - 1) by (nonlinear_arith)
        requires
            0 <= n - 1,
            0 < side,
    ;
}

/// Number of boxes along an axis of `n` cells.
fn boxes_along_exec(n: usize, side: usize) -> (boxes: usize)
    requires
        side > 0,
    ensures
        boxes == boxes_along(n as int, side as int),
        boxes <= n,
{
    if n == 0 {
        0
    } else {
        proof {
            lemma_boxes_along(n as int, side as int, 0);
        }
        (n - 1) / side + 1
    }
}

/// Counts the boxes of side `side` that hold at least one flagged cell, the
/// lattice being cut into boxes from the origin. `occupied` holds the flag
/// of each cell in index order.
///
/// `None` when `side` is zero or `occupied` does not hold exactly one flag
/// per cell.
pub fn box_count<C>(lattice: &Lattice<C>, occupied: &Vec<bool>, side: usize) -> (boxes: Option<
    usize,
>)
    requires
        lattice.wf(),
    ensures
        boxes is Some <==> side > 0 && occupied@.len() == cell_count(lattice.shape()),
        boxes matches Some(n) ==> n == count_true(
            box_flags(lattice.shape(), occupied@, side as int),
        ),
{
    let count = lattice.len();
    if side == 0 || occupied.len() != count {
        return None;
    }
    let size = lattice.size();
    let bx = boxes_along_exec(size.0, side);
    let by = boxes_along_exec(size.1, side);
    let bz = boxes_along_exec(size.2, side);
    let ghost grid = box_grid(size, side as int);
    let ghost flags = box_flags(size, occupied@, side as int);
    if count == 0 {
        proof {
            assert(size.0 == 0 || size.1 == 0 || size.2 == 0) by (nonlinear_arith)
                requires
                    size.0 * size.1 * size.2 == 0,
            ;
            assert(cell_count(grid) == 0) by (nonlinear_arith)
                requires
                    grid.0 == 0 || grid.1 == 0 || grid.2 == 0,
                    cell_count(grid) == grid.0 * grid.1 * grid.2,
            ;
            assert(flags.len() == 0);
        }
        return Some(0);
    }
    proof {
        assert(size.0 > 0 && size.1 > 0 && size.2 > 0) by (nonlinear_arith)
            requires
                size.0 * size.1 * size.2 > 0,
        ;
        assert(0 <= bx * by <= size.0 * size.1 && 0 <= bx * by * bz <= size.0 * size.1 * size.2
            && size.0 * size.1 <= size.0 * size.1 * size.2) by (nonlinear_arith)
            requires
                0 <= bx <= size.0,
                0 <= by <= size.1,
                0 <= bz <= size.2,
                size.2 > 0,
        ;
    }
    let plane: usize = bx * by;
    let total: usize = plane * bz;
    let mut marks: Vec<bool> = Vec::new();
    let mut m: usize = 0;
    while m < total
        invariant
            m <= total,
            marks@.len() == m,
            forall|j: int| 0 <= j < m ==> !marks@[j],
        decreases total - m,
    {
        marks.push(false);
        m += 1;
    }
    let mut i: usize = 0;
    while i < count
        invariant
            lattice.wf(),
            size == lattice.shape(),
            count == cell_count(size),
            occupied@.len() == count,
            side > 0,
            grid == box_grid(size, side as int),
            grid == (bx, by, bz),
            plane == bx * by,
            total == cell_count(grid),
            size.0 > 0 && size.1 > 0 && size.2 > 0,
            i <= count,
            marks@.len() == total,
            forall|j: int|
                0 <= j < total ==> (#[trigger] marks@[j] <==> exists|t: int|
                    0 <= t < i && #[trigger] occupied@[t] && flat_index(
                        grid,
                        box_holding(coord_of(size, t), side as int),
                    ) == j),
        decreases count - i,
    {
        if occupied[i] {
            let c = lattice.coord(i as u128).unwrap();
            proof {
                law_index_of_coord(size, i as int);
                lemma_boxes_along(size.0 as int, side as int, c.x as int);
                lemma_boxes_along(size.1 as int, side as int, c.y as int);
                lemma_boxes_along(size.2 as int, side as int, c.z as int);
                law_coord_of_index(grid, box_holding(c, side as int));
                assert(0 <= (c.y / side) * bx && 0 <= (c.z / side) * (bx * by))
                    by (nonlinear_arith)
                    requires
                        0 <= c.y / side,
                        0 <= c.z / side,
                        0 <= bx,
                        0 <= by,
                ;
            }
            let at: usize = c.x / side + (c.y / side) * bx + (c.z / side) * plane;
            let ghost before = marks@;
            marks.set(at, true);
            proof {
                assert forall|j: int| 0 <= j < total implies (#[trigger] marks@[j] <==> exists|
                    t: int,
                |
                    0 <= t < i + 1 && #[trigger] occupied@[t] && flat_index(
                        grid,
                        box_holding(coord_of(size, t), side as int),
                    ) == j) by {
                    if j == at {
                        assert(occupied@[i as int]);
                    } else if marks@[j] {
                        assert(before[j]);
                    } else {
                        assert(!before[j]);
                    }
                }
            }
        }
        i += 1;
    }
    proof {
        assert forall|j: int| 0 <= j < total implies marks@[j] == flags[j] by {
            let b = coord_of(grid, j);
            law_index_of_coord(grid, j);
            if marks@[j] {
                let t = choose|t: int|
                    0 <= t < count && #[trigger] occupied@[t] && flat_index(
                        grid,
                        box_holding(coord_of(size, t), side as int),
                    ) == j;
                let h = box_holding(coord_of(size, t), side as int);
                law_index_of_coord(size, t);
                lemma_boxes_along(size.0 as int, side as int, coord_of(size, t).x as int);
                lemma_boxes_along(size.1 as int, side as int, coord_of(size, t).y as int);
                lemma_boxes_along(size.2 as int, side as int, coord_of(size, t).z as int);
                law_coord_of_index(grid, h);
                assert(h == b);
            }
            if flags[j] {
                let t = choose|t: int|
                    0 <= t < occupied@.len() && t < cell_count(size) && #[trigger] occupied@[t]
                        && box_holding(coord_of(size, t), side as int) == b;
                assert(flat_index(grid, box_holding(coord_of(size, t), side as int)) == j);
            }
        }
        assert(marks@ == flags);
    }
    let mut boxes: usize = 0;
    let mut j: usize = 0;
    while j < total
        invariant
            j <= total,
            marks@.len() == total,
            boxes == count_true(marks@.take(j as int)),
            boxes <= j,
        decreases total - j,
    {
        proof {
            assert(marks@.take(j + 1).drop_last() == marks@.take(j as int));
        }
        if marks[j] {
            boxes += 1;
        }
        j += 1;
    }
    proof {
        assert(marks@.take(total as int) == marks@);
    }
    Some(boxes)
}

/// The box sides that a box-counting estimate uses on a lattice of the given
/// size: 1, 2, 4, ... as long as the side does not exceed the largest extent
/// of the lattice.
pub open spec fn ladder_sides(size: (usize, usize, usize)) -> Seq<int> {
    sides_from(1, largest_extent(size))
}

/// The largest of the three extents.
pub open spec fn largest_extent(size: (usize, usize, usize)) -> int {
    if size.0 >= size.1 && size.0 >= size.2 {
        size.0 as int
    } else if size.1 >= size.2 {
        size.1 as int
    } else {
        size.2 as int
    }
}

/// `side, 2 * side, 4 * side, ...` up to `limit`.
pub open spec fn sides_from(side: int, limit: int) -> Seq<int>
    decreases
            if side <= limit {
                limit - side + 1
            } else {
                0
            },
{
    if side <= 0 || side > limit {
        Seq::empty()
    } else {
        seq![side] + sides_from(2 * side, limit)
    }
}

/// Counts the occupied boxes for every side of the ladder: entry `k` holds
/// the side `2^k` and the number of boxes of that side that hold a flagged
/// cell. `None` when `occupied` does not hold exactly one flag per cell.
pub fn box_counting_ladder<C>(lattice: &Lattice<C>, occupied: &Vec<bool>) -> (ladder: Option<
    Vec<(usize, usize)>,
>)
    requires
        lattice.wf(),
    ensures
        ladder is Some <==> occupied@.len() == cell_count(lattice.shape()),
        ladder matches Some(steps) ==> {
            &&& steps@.len() == ladder_sides(lattice.shape()).len()
            &&& forall|k: int|
                0 <= k < steps@.len() ==> {
                    &&& (#[trigger] steps@[k]).0 == ladder_sides(lattice.shape())[k]
                    &&& steps@[k].1 == count_true(
                        box_flags(lattice.shape(), occupied@, steps@[k].0 as int),
                    )
                }
        },
{
    if occupied.len() != lattice.len() {
        return None;
    }
    let size = lattice.size();
    let largest = if size.0 >= size.1 && size.0 >= size.2 {
        size.0
    } else if size.1 >= size.2 {
        size.1
    } else {
        size.2
    };
    let mut steps: Vec<(usize, usize)> = Vec::new();
    let mut side: usize = 1;
    let ghost all = ladder_sides(size);
    loop
        invariant_except_break
            all == Seq::new(steps@.len(), |k: int| steps@[k].0 as int) + sides_from(
                side as int,
                largest as int,
            ),
        invariant
            lattice.wf(),
            size == lattice.shape(),
            occupied@.len() == cell_count(size),
            largest == largest_extent(size),
            side >= 1,
            all == ladder_sides(size),
            forall|k: int|
                0 <= k < steps@.len() ==> (#[trigger] steps@[k]).1 == count_true(
                    box_flags(size, occupied@, steps@[k].0 as int),
                ),
        ensures
            steps@.len() == all.len(),
            forall|k: int|
                0 <= k < steps@.len() ==> {
                    &&& (#[trigger] steps@[k]).0 == all[k]
                    &&& steps@[k].1 == count_true(box_flags(size, occupied@, steps@[k].0 as int))
                },
        decreases
                if side <= largest {
                    largest - side + 1
                } else {
                    0
                },
    {
        if side > largest {
            proof {
                assert(sides_from(side as int, largest as int) == Seq::<int>::empty());
                assert(all == Seq::new(steps@.len(), |k: int| steps@[k].0 as int));
            }
            break;
        }
        let boxes = box_count(lattice, occupied, side).unwrap();
        let ghost before = steps@;
        steps.push((side, boxes));
        proof {
            let rest = sides_from(2 * side, largest as int);
            assert(sides_from(side as int, largest as int) == seq![side as int] + rest);
            assert(Seq::new(steps@.len(), |k: int| steps@[k].0 as int) == Seq::new(
                before.len(),
                |k: int| before[k].0 as int,
            ) + seq![side as int]);
        }
        if side > usize::MAX / 2 {
            proof {
                assert(sides_from(2 * side, largest as int) == Seq::<int>::empty());
                assert(all == Seq::new(steps@.len(), |k: int| steps@[k].0 as int));
            }
            break;
        }
        side = side * 2;
    }
    Some(steps)
}

} // verus!
