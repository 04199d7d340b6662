//! Which cells exchange energy with which: the pairing of neighbouring cells
//! for spatial transport, and the wavevectors of the lattice's Fourier bins.
//!
//! An exchange moves energy between the two cells of a pair and must run once
//! per pair. `neighbor_pairs` therefore lists every unordered pair of
//! neighbouring cells exactly once, lower index first, in ascending order.

use vstd::prelude::*;
use vstd::arithmetic::div_mod::{
    lemma_fundamental_div_mod_converse,
    lemma_mod_bound,
    lemma_small_mod,
};
use crate::lattice::Lattice;
use crate::geometry::{
    axis_offsets,
    cell_count,
    contains,
    coord_of,
    flat_index,
    law_coord_of_index,
    law_index_of_coord,
    law_neighbors_in_bounds,
    law_neighbors_membership,
    law_resolve_in_bounds,
    neighbors_along,
    resolve,
    resolve_axis,
    shifted,
};
use crate::types::{BoundaryPolicy, Direction, LatticeCoord};

verus! {

/// Whether the cells with flat indices `a` and `b` are distinct cells of the
/// lattice and `b` is an axis-aligned neighbour of `a` under `policy`.
pub open spec fn adjacent(
    size: (usize, usize, usize),
    a: int,
    b: int,
    policy: BoundaryPolicy,
) -> bool {
    &&& 0 <= a < cell_count(size)
    &&& 0 <= b < cell_count(size)
    &&& a != b
    &&& neighbors_along(size, coord_of(size, a), axis_offsets(), policy).contains(
        coord_of(size, b),
    )
}

/// Whether the pair `p` comes before the pair `q`: by first component, then
/// by second.
pub open spec fn pair_before(p: (usize, usize), q: (usize, usize)) -> bool {
    p.0 < q.0 || (p.0 == q.0 && p.1 < q.1)
}

/// Whether `s` is strictly ascending.
pub open spec fn ascending(s: Seq<usize>) -> bool {
    forall|i: int, j: int| 0 <= i < j < s.len() ==> s[i] < s[j]
}

/// The step opposite to the `k`-th axis step is the axis step next to it.
spec fn opposite_step(k: int) -> int {
    if k % 2 == 0 {
        k + 1
    } else {
        k - 1
    }
}

/// Along one axis: if stepping by `d` from `u` lands on `v`, then stepping by
/// `-d` from `v` lands on `u`, unless a wall kept `u` where it was.
proof fn lemma_axis_step_back(n: usize, u: int, v: int, d: int, policy: BoundaryPolicy)
    requires
        0 <= u < n,
        -1 <= d <= 1,
        resolve_axis(n, u + d, policy) == Some(v),
    ensures
        0 <= v < n,
        resolve_axis(n, v - d, policy) == Some(u) || (policy == BoundaryPolicy::Reflecting && v
            == u),
{
    let m = n as int;
    match policy {
        BoundaryPolicy::Periodic => {
            lemma_mod_bound(u + d, m);
            if u + d < 0 {
                lemma_fundamental_div_mod_converse(u + d, m, -1, u + d + m);
                lemma_fundamental_div_mod_converse(v - d, m, 1, u);
            } else if u + d >= m {
                lemma_fundamental_div_mod_converse(u + d, m, 1, u + d - m);
                lemma_fundamental_div_mod_converse(v - d, m, -1, u);
            } else {
                lemma_small_mod((u + d) as nat, m as nat);
                lemma_small_mod(u as nat, m as nat);
            }
        },
        BoundaryPolicy::Reflecting => {},
        BoundaryPolicy::Open => {},
    }
}

/// Being neighbours does not depend on the side from which one looks: `b` is
/// a neighbour of `a` exactly when `a` is a neighbour of `b`.
pub proof fn law_adjacent_symmetric(
    size: (usize, usize, usize),
    a: int,
    b: int,
    policy: BoundaryPolicy,
)
    ensures
        adjacent(size, a, b, policy) == adjacent(size, b, a, policy),
{
    if adjacent(size, a, b, policy) {
        lemma_adjacent_one_way(size, a, b, policy);
    }
    if adjacent(size, b, a, policy) {
        lemma_adjacent_one_way(size, b, a, policy);
    }
}

proof fn lemma_adjacent_one_way(
    size: (usize, usize, usize),
    a: int,
    b: int,
    policy: BoundaryPolicy,
)
    requires
        adjacent(size, a, b, policy),
    ensures
        adjacent(size, b, a, policy),
{
    let ca = coord_of(size, a);
    let cb = coord_of(size, b);
    let steps = axis_offsets();
    law_index_of_coord(size, a);
    law_index_of_coord(size, b);
    law_neighbors_membership(size, ca, steps, policy, cb);
    let k = choose|k: int|
        0 <= k < steps.len() && resolve(size, shifted(ca, #[trigger] steps[k]), policy) == Some(
            cb,
        );
    let d = steps[k];
    let back = steps[opposite_step(k)];
    assert(back == (-d.0, -d.1, -d.2));
    lemma_axis_step_back(size.0, ca.x as int, cb.x as int, d.0, policy);
    lemma_axis_step_back(size.1, ca.y as int, cb.y as int, d.1, policy);
    lemma_axis_step_back(size.2, ca.z as int, cb.z as int, d.2, policy);
    if policy == BoundaryPolicy::Reflecting {
        // Two of the three components of an axis step are zero, and a zero
        // step is always undone; were the third kept by a wall, the step
        // would not have left the cell at all.
        assert(resolve_axis(size.0, cb.x - d.0, policy) == Some(ca.x as int) || (d.0 != 0 && cb.x
            == ca.x));
        assert(resolve_axis(size.1, cb.y - d.1, policy) == Some(ca.y as int) || (d.1 != 0 && cb.y
            == ca.y));
        assert(resolve_axis(size.2, cb.z - d.2, policy) == Some(ca.z as int) || (d.2 != 0 && cb.z
            == ca.z));
        if resolve(size, shifted(cb, back), policy) != Some(ca) {
            assert(ca == cb);
            assert(false);
        }
    }
    assert(resolve(size, shifted(cb, back), policy) == Some(ca));
    law_neighbors_membership(size, cb, steps, policy, ca);
}

/// The cell reached from a cell by a step in one of the six directions is,
/// unless it is the cell itself, adjacent to it.
pub proof fn law_direction_leads_to_adjacent(
    size: (usize, usize, usize),
    a: int,
    direction: Direction,
    policy: BoundaryPolicy,
)
    requires
        0 <= a < cell_count(size),
    ensures
        resolve(size, shifted(coord_of(size, a), direction.offset_spec()), policy) matches Some(c)
            ==> flat_index(size, c) == a || adjacent(size, a, flat_index(size, c), policy),
{
    let ca = coord_of(size, a);
    let steps = axis_offsets();
    assert(steps[direction.ordinal_spec()] == direction.offset_spec());
    match resolve(size, shifted(ca, direction.offset_spec()), policy) {
        Some(c) => {
            law_resolve_in_bounds(size, shifted(ca, direction.offset_spec()), policy);
            law_coord_of_index(size, c);
            law_neighbors_membership(size, ca, steps, policy, c);
        },
        None => {},
    }
}

/// A reflecting wall lets nothing through: two cells are neighbours under
/// `Reflecting` exactly when they are under `Open`.
pub proof fn law_reflecting_is_open(size: (usize, usize, usize), a: int, b: int)
    ensures
        adjacent(size, a, b, BoundaryPolicy::Reflecting) == adjacent(
            size,
            a,
            b,
            BoundaryPolicy::Open,
        ),
{
    let ca = coord_of(size, a);
    let cb = coord_of(size, b);
    let steps = axis_offsets();
    if 0 <= a < cell_count(size) && 0 <= b < cell_count(size) && a != b {
        law_index_of_coord(size, a);
        law_index_of_coord(size, b);
        law_neighbors_membership(size, ca, steps, BoundaryPolicy::Reflecting, cb);
        law_neighbors_membership(size, ca, steps, BoundaryPolicy::Open, cb);
        if adjacent(size, a, b, BoundaryPolicy::Reflecting) {
            let k = choose|k: int|
                0 <= k < steps.len() && resolve(
                    size,
                    shifted(ca, #[trigger] steps[k]),
                    BoundaryPolicy::Reflecting,
                ) == Some(cb);
            // A step that a wall turned back ends where it began.
            assert(resolve(size, shifted(ca, steps[k]), BoundaryPolicy::Open) == Some(cb));
        }
        if adjacent(size, a, b, BoundaryPolicy::Open) {
            let k = choose|k: int|
                0 <= k < steps.len() && resolve(
                    size,
                    shifted(ca, #[trigger] steps[k]),
                    BoundaryPolicy::Open,
                ) == Some(cb);
            assert(resolve(size, shifted(ca, steps[k]), BoundaryPolicy::Reflecting) == Some(cb));
        }
    }
}

/// Closing the lattice into a torus only adds neighbours: cells that are
/// neighbours under `Open` are neighbours under `Periodic`.
pub proof fn law_open_within_periodic(size: (usize, usize, usize), a: int, b: int)
    requires
        adjacent(size, a, b, BoundaryPolicy::Open),
    ensures
        adjacent(size, a, b, BoundaryPolicy::Periodic),
{
    let ca = coord_of(size, a);
    let cb = coord_of(size, b);
    let steps = axis_offsets();
    law_index_of_coord(size, a);
    law_index_of_coord(size, b);
    law_neighbors_membership(size, ca, steps, BoundaryPolicy::Open, cb);
    law_neighbors_membership(size, ca, steps, BoundaryPolicy::Periodic, cb);
    let k = choose|k: int|
        0 <= k < steps.len() && resolve(size, shifted(ca, #[trigger] steps[k]), BoundaryPolicy::Open)
            == Some(cb);
    lemma_small_mod(cb.x as nat, size.0 as nat);
    lemma_small_mod(cb.y as nat, size.1 as nat);
    lemma_small_mod(cb.z as nat, size.2 as nat);
    assert(resolve(size, shifted(ca, steps[k]), BoundaryPolicy::Periodic) == Some(cb));
}

/// Puts `value` into the strictly ascending `sorted`, unless it is there
/// already.
fn insert_ascending(sorted: &mut Vec<usize>, value: usize)
    requires
        ascending(old(sorted)@),
    ensures
        ascending(final(sorted)@),
        final(sorted)@.len() <= old(sorted)@.len() + 1,
        forall|v: usize|
            final(sorted)@.contains(v) <==> (old(sorted)@.contains(v) || v == value),
{
    let ghost before = sorted@;
    let mut at: usize = 0;
    while at < sorted.len() && sorted[at] < value
        invariant
            sorted@ == before,
            at <= sorted@.len(),
            forall|i: int| 0 <= i < at ==> sorted@[i] < value,
        decreases sorted@.len() - at,
    {
        at += 1;
    }
    if at < sorted.len() && sorted[at] == value {
        assert(before.contains(value));
        return ;
    }
    sorted.insert(at, value);
    proof {
        let after = sorted@;
        assert(after == before.insert(at as int, value));
        assert forall|i: int, j: int| 0 <= i < j < after.len() implies after[i] < after[j] by {
            if i < at && j > at {
                assert(after[j] == before[j - 1]);
            }
        }
        assert forall|v: usize| after.contains(v) <==> (before.contains(v) || v == value) by {
            if after.contains(v) {
                let i = choose|i: int| 0 <= i < after.len() && after[i] == v;
                if i < at {
                    assert(before[i] == v);
                } else if i > at {
                    assert(before[i - 1] == v);
                }
            }
            if before.contains(v) {
                let i = choose|i: int| 0 <= i < before.len() && before[i] == v;
                if i < at {
                    assert(after[i] == v);
                } else {
                    assert(after[i + 1] == v);
                }
            }
            if v == value {
                assert(after[at as int] == v);
            }
        }
    }
}

/// The cells adjacent to the cell `index`, each once, in ascending order;
/// with `forward` only those that come after it.
fn gather_adjacent<C>(
    lattice: &Lattice<C>,
    index: usize,
    policy: BoundaryPolicy,
    forward: bool,
) -> (found: Vec<usize>)
    requires
        lattice.wf(),
    ensures
        ascending(found@),
        found@.len() <= 6,
        forall|b: usize|
            found@.contains(b) <==> ((forward ==> index < b) && adjacent(
                lattice.shape(),
                index as int,
                b as int,
                policy,
            )),
{
    let ghost size = lattice.shape();
    let mut found: Vec<usize> = Vec::new();
    let here = match lattice.coord(index as u128) {
        Some(c) => c,
        None => {
            return found;
        },
    };
    proof {
        law_index_of_coord(size, index as int);
    }
    let around = lattice.neighbors_6(here, policy).unwrap();
    let ghost listed = neighbors_along(size, here, axis_offsets(), policy);
    proof {
        law_neighbors_in_bounds(size, here, axis_offsets(), policy);
    }
    let mut k: usize = 0;
    while k < around.len()
        invariant
            lattice.wf(),
            size == lattice.shape(),
            around@ == listed,
            forall|t: int| 0 <= t < listed.len() ==> contains(size, #[trigger] listed[t]),
            k <= around@.len(),
            around@.len() <= 6,
            ascending(found@),
            found@.len() <= k,
            forall|b: usize|
                found@.contains(b) <==> ((forward ==> index < b) && b != index && exists|t: int|
                    0 <= t < k && flat_index(size, #[trigger] listed[t]) == b),
        decreases around@.len() - k,
    {
        let there = lattice.index(around[k]).unwrap();
        proof {
            law_coord_of_index(size, around@[k as int]);
        }
        let ghost before = found@;
        if there > index as u128 || (!forward && there < index as u128) {
            insert_ascending(&mut found, there as usize);
        }
        proof {
            assert forall|b: usize|
                found@.contains(b) <==> ((forward ==> index < b) && b != index && exists|t: int|
                    0 <= t < k + 1 && flat_index(size, #[trigger] listed[t]) == b) by {
                if (forward ==> index < b) && b != index && exists|t: int|
                    0 <= t < k + 1 && flat_index(size, #[trigger] listed[t]) == b {
                    let t = choose|t: int|
                        0 <= t < k + 1 && flat_index(size, #[trigger] listed[t]) == b;
                    if t < k {
                        assert(before.contains(b));
                    }
                }
            }
        }
        k += 1;
    }
    proof {
        assert forall|b: usize|
            found@.contains(b) <==> ((forward ==> index < b) && adjacent(
                size,
                index as int,
                b as int,
                policy,
            )) by {
            if found@.contains(b) {
                let t = choose|t: int|
                    0 <= t < listed.len() && flat_index(size, #[trigger] listed[t]) == b;
                law_coord_of_index(size, listed[t]);
                assert(listed.contains(coord_of(size, b as int)));
            }
            if (forward ==> index < b) && adjacent(size, index as int, b as int, policy) {
                let cb = coord_of(size, b as int);
                let t = choose|t: int| 0 <= t < listed.len() && listed[t] == cb;
                law_index_of_coord(size, b as int);
                assert(flat_index(size, listed[t]) == b);
            }
        }
    }
    found
}

/// The cells with which the cell `index` exchanges energy: the flat indices
/// of the cells adjacent to it under `policy`, each once, in ascending order.
/// Their number, at most six, is the number of exchanges in which the cell
/// takes part. Empty when `index` names no cell.
pub fn adjacent_cells<C>(lattice: &Lattice<C>, index: usize, policy: BoundaryPolicy) -> (found:
    Vec<usize>)
    requires
        lattice.wf(),
    ensures
        ascending(found@),
        found@.len() <= 6,
        forall|b: usize|
            found@.contains(b) <==> adjacent(lattice.shape(), index as int, b as int, policy),
{
    gather_adjacent(lattice, index, policy, false)
}

/// The neighbours of the cell `index` that come after it: the flat indices
/// `b > index` of the cells adjacent to it under `policy`, each once, in
/// ascending order. Empty when `index` names no cell.
pub fn forward_neighbors<C>(lattice: &Lattice<C>, index: usize, policy: BoundaryPolicy) -> (found:
    Vec<usize>)
    requires
        lattice.wf(),
    ensures
        ascending(found@),
        found@.len() <= 6,
        forall|b: usize|
            found@.contains(b) <==> (index < b && adjacent(
                lattice.shape(),
                index as int,
                b as int,
                policy,
            )),
{
    gather_adjacent(lattice, index, policy, true)
}

/// Every unordered pair of neighbouring cells, exactly once: the pairs
/// `(a, b)` of flat indices with `a < b` that are adjacent under `policy`, in
/// ascending order.
pub fn neighbor_pairs<C>(lattice: &Lattice<C>, policy: BoundaryPolicy) -> (pairs: Vec<
    (usize, usize),
>)
    requires
        lattice.wf(),
    ensures
        forall|i: int, j: int|
            0 <= i < j < pairs@.len() ==> pair_before(#[trigger] pairs@[i], #[trigger] pairs@[j]),
        forall|i: int, j: int|
            0 <= i < j < pairs@.len() ==> #[trigger] pairs@[i] != #[trigger] pairs@[j],
        forall|k: int|
            0 <= k < pairs@.len() ==> (#[trigger] pairs@[k]).0 < pairs@[k].1 && adjacent(
                lattice.shape(),
                pairs@[k].0 as int,
                pairs@[k].1 as int,
                policy,
            ),
        forall|a: usize, b: usize|
            a < b && adjacent(lattice.shape(), a as int, b as int, policy) ==> pairs@.contains(
                (a, b),
            ),
{
    let ghost size = lattice.shape();
    let count = lattice.len();
    let mut pairs: Vec<(usize, usize)> = Vec::new();
    let mut a: usize = 0;
    while a < count
        invariant
            lattice.wf(),
            size == lattice.shape(),
            count == cell_count(size),
            a <= count,
            forall|i: int, j: int|
                0 <= i < j < pairs@.len() ==> pair_before(
                    #[trigger] pairs@[i],
                    #[trigger] pairs@[j],
                ),
            forall|k: int|
                0 <= k < pairs@.len() ==> (#[trigger] pairs@[k]).0 < pairs@[k].1 && pairs@[k].0 < a
                    && adjacent(size, pairs@[k].0 as int, pairs@[k].1 as int, policy),
            forall|x: usize, y: usize|
                x < a && x < y && adjacent(size, x as int, y as int, policy) ==> pairs@.contains(
                    (x, y),
                ),
        decreases count - a,
    {
        let ahead = forward_neighbors(lattice, a, policy);
        let ghost base = pairs@;
        let mut k: usize = 0;
        while k < ahead.len()
            invariant
                k <= ahead@.len(),
                ascending(ahead@),
                forall|b: usize|
                    ahead@.contains(b) <==> (a < b && adjacent(size, a as int, b as int, policy)),
                pairs@.len() == base.len() + k,
                forall|i: int| 0 <= i < base.len() ==> pairs@[i] == base[i],
                forall|t: int| 0 <= t < k ==> pairs@[base.len() + t] == (a, ahead@[t]),
                forall|i: int| 0 <= i < base.len() ==> (#[trigger] base[i]).0 < a,
                forall|i: int, j: int|
                    0 <= i < j < base.len() ==> pair_before(#[trigger] base[i], #[trigger] base[j]),
            decreases ahead@.len() - k,
        {
            pairs.push((a, ahead[k]));
            k += 1;
        }
        proof {
            assert forall|i: int, j: int| 0 <= i < j < pairs@.len() implies pair_before(
                #[trigger] pairs@[i],
                #[trigger] pairs@[j],
            ) by {
                if j >= base.len() {
                    assert(pairs@[j] == (a, ahead@[j - base.len()]));
                    if i >= base.len() {
                        assert(pairs@[i] == (a, ahead@[i - base.len()]));
                    } else {
                        assert(pairs@[i] == base[i]);
                    }
                } else {
                    assert(pairs@[i] == base[i] && pairs@[j] == base[j]);
                }
            }
            assert forall|k: int| 0 <= k < pairs@.len() implies (#[trigger] pairs@[k]).0
                < pairs@[k].1 && pairs@[k].0 < a + 1 && adjacent(
                size,
                pairs@[k].0 as int,
                pairs@[k].1 as int,
                policy,
            ) by {
                if k >= base.len() {
                    let t = k - base.len();
                    assert(pairs@[k] == (a, ahead@[t]));
                    assert(ahead@.contains(ahead@[t]));
                } else {
                    assert(pairs@[k] == base[k]);
                }
            }
            assert forall|x: usize, y: usize|
                x < a + 1 && x < y && adjacent(
                    size,
                    x as int,
                    y as int,
                    policy,
                ) implies pairs@.contains((x, y)) by {
                if x < a {
                    assert(base.contains((x, y)));
                    let i = choose|i: int| 0 <= i < base.len() && base[i] == (x, y);
                    assert(pairs@[i] == (x, y));
                } else {
                    assert(ahead@.contains(y));
                    let t = choose|t: int| 0 <= t < ahead@.len() && ahead@[t] == y;
                    assert(pairs@[base.len() + t] == (x, y));
                }
            }
        }
        a += 1;
    }
    proof {
        assert forall|x: usize, y: usize|
            x < y && adjacent(size, x as int, y as int, policy) implies pairs@.contains(
            (x, y),
        ) by {
            assert(x < count);
        }
    }
    pairs
}

/// The signed frequency of bin `i` on an axis of `n` bins: the bins of the
/// lower half stand for the frequencies `0, 1, ..`, those of the upper half
/// for the negative frequencies `.., -2, -1`.
pub open spec fn signed_frequency(n: int, i: int) -> int {
    if 2 * i < n {
        i
    } else {
        i - n
    }
}

/// The signed frequency of a bin is the one integer `k` in the centred range
/// `-n <= 2k < n` that the torus wraps onto the bin.
pub proof fn law_signed_frequency(n: usize, i: int, k: int)
    requires
        0 <= i < n,
    ensures
        (k == signed_frequency(n as int, i)) <==> (-n <= 2 * k < n && resolve_axis(
            n,
            k,
            BoundaryPolicy::Periodic,
        ) == Some(i)),
{
    let m = n as int;
    let f = signed_frequency(m, i);
    if 2 * i < m {
        lemma_small_mod(i as nat, m as nat);
    } else {
        lemma_fundamental_div_mod_converse(f, m, -1, i);
    }
    if -m <= 2 * k < m && k % m == i {
        if k >= 0 {
            lemma_small_mod(k as nat, m as nat);
        } else {
            lemma_fundamental_div_mod_converse(k, m, -1, k + m);
        }
    }
}

/// Executable form of `signed_frequency`.
fn signed_frequency_exec(n: usize, i: usize) -> (k: isize)
    requires
        i < n,
    ensures
        k == signed_frequency(n as int, i as int),
{
    if i < n - i {
        i as isize
    } else {
        -((n - i) as isize)
    }
}

/// The wavevector of the Fourier bin `bin` of a transform over the lattice:
/// per axis the signed frequency of the bin's coordinate. `None` when `bin`
/// is outside the lattice.
pub fn wavevector<C>(lattice: &Lattice<C>, bin: LatticeCoord) -> (k: Option<(isize, isize, isize)>)
    ensures
        k is Some <==> contains(lattice.shape(), bin),
        k matches Some(v) ==> {
            &&& v.0 == signed_frequency(lattice.shape().0 as int, bin.x as int)
            &&& v.1 == signed_frequency(lattice.shape().1 as int, bin.y as int)
            &&& v.2 == signed_frequency(lattice.shape().2 as int, bin.z as int)
        },
{
    if !lattice.in_bounds(&bin) {
        return None;
    }
    let size = lattice.size();
    Some(
        (
            signed_frequency_exec(size.0, bin.x),
            signed_frequency_exec(size.1, bin.y),
            signed_frequency_exec(size.2, bin.z),
        ),
    )
}

} // verus!
