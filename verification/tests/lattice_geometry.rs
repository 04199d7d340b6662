use entropic_void::lattice::Lattice;
use entropic_void::types::{BoundaryPolicy, Direction, LatticeCoord};

fn at(x: usize, y: usize, z: usize) -> LatticeCoord {
    LatticeCoord { x, y, z }
}

#[test]
fn new_allocates_one_default_cell_per_coordinate() {
    let lattice: Lattice<u32> = Lattice::new((2, 3, 4)).expect("24 cells fit");
    assert_eq!(lattice.size(), (2, 3, 4));
    assert_eq!(lattice.len(), 24);
    let items = lattice.iter_cells();
    assert_eq!(items.len(), 24);
    for (_, cell) in items {
        assert_eq!(*cell, 0);
    }
}

#[test]
fn new_with_a_zero_axis_is_an_empty_lattice() {
    let lattice: Lattice<u8> = Lattice::new((0, 5, 5)).expect("no cells fit");
    assert_eq!(lattice.len(), 0);
    assert_eq!(lattice.index(at(0, 0, 0)), None);
    assert_eq!(lattice.coord(0), None);
    assert!(lattice.iter_cells().is_empty());
    assert_eq!(lattice.neighbors_6(at(0, 0, 0), BoundaryPolicy::Periodic), None);
}

#[test]
fn new_refuses_a_size_that_cannot_be_indexed() {
    let lattice: Option<Lattice<u8>> = Lattice::new((usize::MAX, 2, 1));
    assert!(lattice.is_none());
    let lattice: Option<Lattice<u8>> = Lattice::new((usize::MAX, usize::MAX, usize::MAX));
    assert!(lattice.is_none());
}

#[test]
fn cell_count_size_is_the_product_in_128_bits() {
    assert_eq!(Lattice::<u8>::cell_count_size((2, 3, 4)), Some(24));
    assert_eq!(Lattice::<u8>::cell_count_size((0, 3, 4)), Some(0));
    assert_eq!(Lattice::<u8>::cell_count_size((100, 100, 100)), Some(1_000_000));
    let max = usize::MAX as u128;
    assert_eq!(Lattice::<u8>::cell_count_size((usize::MAX, usize::MAX, 1)), Some(max * max));
    assert_eq!(Lattice::<u8>::cell_count_size((usize::MAX, 2, 1)), Some(max * 2));
    if usize::BITS == 64 {
        assert_eq!(Lattice::<u8>::cell_count_size((usize::MAX, usize::MAX, 2)), None);
        assert_eq!(Lattice::<u8>::cell_count_size((usize::MAX, usize::MAX, usize::MAX)), None);
    }
}

#[test]
fn default_lattice_has_no_cells() {
    let lattice: Lattice<u64> = Lattice::default();
    assert_eq!(lattice.size(), (0, 0, 0));
    assert_eq!(lattice.len(), 0);
    assert!(lattice.cell(0).is_none());
}

#[test]
fn index_runs_x_fastest_then_y_then_z() {
    let lattice: Lattice<u8> = Lattice::new((4, 3, 2)).unwrap();
    assert_eq!(lattice.index(at(0, 0, 0)), Some(0));
    assert_eq!(lattice.index(at(1, 0, 0)), Some(1));
    assert_eq!(lattice.index(at(0, 1, 0)), Some(4));
    assert_eq!(lattice.index(at(0, 0, 1)), Some(12));
    assert_eq!(lattice.index(at(2, 1, 1)), Some(2 + 4 + 12));
    assert_eq!(lattice.index(at(3, 2, 1)), Some(23));
}

#[test]
fn index_outside_the_lattice_is_none() {
    let lattice: Lattice<u8> = Lattice::new((4, 3, 2)).unwrap();
    assert_eq!(lattice.index(at(4, 0, 0)), None);
    assert_eq!(lattice.index(at(0, 3, 0)), None);
    assert_eq!(lattice.index(at(0, 0, 2)), None);
    assert_eq!(lattice.index(at(usize::MAX, usize::MAX, usize::MAX)), None);
}

#[test]
fn coord_takes_an_index_apart() {
    let lattice: Lattice<u8> = Lattice::new((4, 3, 2)).unwrap();
    assert_eq!(lattice.coord(0), Some(at(0, 0, 0)));
    assert_eq!(lattice.coord(5), Some(at(1, 1, 0)));
    assert_eq!(lattice.coord(18), Some(at(2, 1, 1)));
    assert_eq!(lattice.coord(23), Some(at(3, 2, 1)));
    assert_eq!(lattice.coord(24), None);
    assert_eq!(lattice.coord(u128::MAX), None);
}

#[test]
fn index_and_coord_are_inverse_on_a_small_lattice() {
    let lattice: Lattice<u8> = Lattice::new((3, 5, 2)).unwrap();
    for i in 0..30u128 {
        let c = lattice.coord(i).expect("an index below the count has a coordinate");
        assert!(lattice.in_bounds(&c));
        assert_eq!(lattice.index(c), Some(i));
    }
    for z in 0..2 {
        for y in 0..5 {
            for x in 0..3 {
                let i = lattice.index(at(x, y, z)).expect("an inner coordinate has an index");
                assert!(i < 30);
                assert_eq!(lattice.coord(i), Some(at(x, y, z)));
            }
        }
    }
}

#[test]
fn index_and_coord_are_inverse_on_a_hundred_cubed() {
    let lattice: Lattice<u8> = Lattice::new((100, 100, 100)).unwrap();
    assert_eq!(lattice.len(), 1_000_000);
    assert_eq!(lattice.index(at(99, 99, 99)), Some(999_999));
    assert_eq!(lattice.index(at(1, 2, 3)), Some(30_201));
    assert_eq!(lattice.coord(30_201), Some(at(1, 2, 3)));
    let mut i: u128 = 0;
    while i < 1_000_000 {
        let c = lattice.coord(i).unwrap();
        assert_eq!(lattice.index(c), Some(i));
        i += 1;
    }
}

#[test]
fn in_bounds_is_strict_on_every_axis() {
    let lattice: Lattice<u8> = Lattice::new((4, 3, 2)).unwrap();
    assert!(lattice.in_bounds(&at(3, 2, 1)));
    assert!(!lattice.in_bounds(&at(4, 2, 1)));
    assert!(!lattice.in_bounds(&at(3, 3, 1)));
    assert!(!lattice.in_bounds(&at(3, 2, 2)));
}

#[test]
fn periodic_coord_wraps_each_axis() {
    let lattice: Lattice<u8> = Lattice::new((4, 3, 2)).unwrap();
    assert_eq!(lattice.periodic_coord((0, 0, 0)), at(0, 0, 0));
    assert_eq!(lattice.periodic_coord((4, 3, 2)), at(0, 0, 0));
    assert_eq!(lattice.periodic_coord((-1, -1, -1)), at(3, 2, 1));
    assert_eq!(lattice.periodic_coord((-4, -3, -2)), at(0, 0, 0));
    assert_eq!(lattice.periodic_coord((-5, 7, 9)), at(3, 1, 1));
    assert_eq!(lattice.periodic_coord((isize::MIN, isize::MAX, 0)).z, 0);
    let far = lattice.periodic_coord((isize::MIN, isize::MAX, 0));
    assert!(lattice.in_bounds(&far));
    // isize::MIN is a multiple of 4, isize::MAX is 1 modulo 3.
    assert_eq!(far, at(0, 1, 0));
}

#[test]
fn neighbor_follows_the_boundary_policy() {
    let lattice: Lattice<u8> = Lattice::new((4, 3, 2)).unwrap();
    let corner = at(0, 0, 0);
    assert_eq!(lattice.neighbor(corner, (-1, 0, 0), BoundaryPolicy::Periodic), Some(at(3, 0, 0)));
    assert_eq!(lattice.neighbor(corner, (-1, 0, 0), BoundaryPolicy::Reflecting), Some(corner));
    assert_eq!(lattice.neighbor(corner, (-1, 0, 0), BoundaryPolicy::Open), None);
    assert_eq!(lattice.neighbor(corner, (1, 1, 1), BoundaryPolicy::Open), Some(at(1, 1, 1)));
    let far = at(3, 2, 1);
    assert_eq!(lattice.neighbor(far, (1, 1, 1), BoundaryPolicy::Periodic), Some(corner));
    assert_eq!(lattice.neighbor(far, (1, 1, 1), BoundaryPolicy::Reflecting), Some(far));
    assert_eq!(lattice.neighbor(far, (1, 1, 1), BoundaryPolicy::Open), None);
    assert_eq!(lattice.neighbor(far, (0, 0, 0), BoundaryPolicy::Open), Some(far));
}

#[test]
fn neighbors_6_open_leaves_out_what_is_outside() {
    let lattice: Lattice<u8> = Lattice::new((4, 3, 2)).unwrap();
    let around = lattice.neighbors_6(at(0, 0, 0), BoundaryPolicy::Open).unwrap();
    assert_eq!(around, vec![at(1, 0, 0), at(0, 1, 0), at(0, 0, 1)]);
    let around = lattice.neighbors_6(at(1, 1, 0), BoundaryPolicy::Open).unwrap();
    assert_eq!(around, vec![at(2, 1, 0), at(0, 1, 0), at(1, 2, 0), at(1, 0, 0), at(1, 1, 1)]);
}

#[test]
fn neighbors_6_periodic_lists_all_six_wrapped() {
    let lattice: Lattice<u8> = Lattice::new((4, 3, 2)).unwrap();
    let around = lattice.neighbors_6(at(0, 0, 0), BoundaryPolicy::Periodic).unwrap();
    assert_eq!(
        around,
        vec![at(1, 0, 0), at(3, 0, 0), at(0, 1, 0), at(0, 2, 0), at(0, 0, 1), at(0, 0, 1)]
    );
    for c in around {
        assert!(lattice.in_bounds(&c));
    }
}

#[test]
fn neighbors_6_reflecting_mirrors_at_the_wall() {
    let lattice: Lattice<u8> = Lattice::new((4, 3, 2)).unwrap();
    let around = lattice.neighbors_6(at(3, 2, 1), BoundaryPolicy::Reflecting).unwrap();
    assert_eq!(
        around,
        vec![at(3, 2, 1), at(2, 2, 1), at(3, 2, 1), at(3, 1, 1), at(3, 2, 1), at(3, 2, 0)]
    );
}

#[test]
fn neighbors_6_of_a_coordinate_outside_is_none() {
    let lattice: Lattice<u8> = Lattice::new((4, 3, 2)).unwrap();
    assert_eq!(lattice.neighbors_6(at(4, 0, 0), BoundaryPolicy::Periodic), None);
    assert_eq!(lattice.neighbors_6(at(0, 0, 2), BoundaryPolicy::Open), None);
}

#[test]
fn neighbors_26_lists_axis_steps_first_then_diagonals() {
    let lattice: Lattice<u8> = Lattice::new((3, 3, 3)).unwrap();
    let around = lattice.neighbors_26(at(1, 1, 1), BoundaryPolicy::Open);
    assert_eq!(around.len(), 26);
    assert_eq!(
        &around[..6],
        &[at(2, 1, 1), at(0, 1, 1), at(1, 2, 1), at(1, 0, 1), at(1, 1, 2), at(1, 1, 0)]
    );
    assert_eq!(around[6], at(0, 0, 0));
    assert_eq!(around[7], at(0, 0, 1));
    assert_eq!(around[13], at(0, 2, 2));
    assert_eq!(around[14], at(1, 0, 0));
    assert_eq!(around[17], at(1, 2, 2));
    assert_eq!(around[18], at(2, 0, 0));
    assert_eq!(around[25], at(2, 2, 2));
    let mut seen = around.clone();
    seen.sort_by_key(|c| (c.z, c.y, c.x));
    seen.dedup();
    assert_eq!(seen.len(), 26);
    assert!(!seen.contains(&at(1, 1, 1)));
}

#[test]
fn neighbors_26_at_an_open_corner_has_seven() {
    let lattice: Lattice<u8> = Lattice::new((3, 3, 3)).unwrap();
    let around = lattice.neighbors_26(at(0, 0, 0), BoundaryPolicy::Open);
    assert_eq!(
        around,
        vec![
            at(1, 0, 0),
            at(0, 1, 0),
            at(0, 0, 1),
            at(0, 1, 1),
            at(1, 0, 1),
            at(1, 1, 0),
            at(1, 1, 1)
        ]
    );
    assert_eq!(lattice.neighbors_26(at(0, 0, 0), BoundaryPolicy::Periodic).len(), 26);
    assert_eq!(lattice.neighbors_26(at(0, 0, 0), BoundaryPolicy::Reflecting).len(), 26);
    assert!(lattice.neighbors_26(at(3, 0, 0), BoundaryPolicy::Periodic).is_empty());
}

#[test]
fn neighbor_index_steps_in_one_direction() {
    let lattice: Lattice<u8> = Lattice::new((4, 3, 2)).unwrap();
    assert_eq!(lattice.neighbor_index(0, Direction::PosX, BoundaryPolicy::Open), Some(1));
    assert_eq!(lattice.neighbor_index(0, Direction::NegX, BoundaryPolicy::Open), None);
    assert_eq!(lattice.neighbor_index(0, Direction::NegX, BoundaryPolicy::Periodic), Some(3));
    assert_eq!(lattice.neighbor_index(0, Direction::NegX, BoundaryPolicy::Reflecting), Some(0));
    assert_eq!(lattice.neighbor_index(0, Direction::PosY, BoundaryPolicy::Open), Some(4));
    assert_eq!(lattice.neighbor_index(0, Direction::PosZ, BoundaryPolicy::Open), Some(12));
    assert_eq!(lattice.neighbor_index(23, Direction::PosZ, BoundaryPolicy::Periodic), Some(11));
    assert_eq!(lattice.neighbor_index(24, Direction::PosX, BoundaryPolicy::Periodic), None);
}
