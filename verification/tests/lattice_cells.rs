use entropic_void::lattice::Lattice;
use entropic_void::types::LatticeCoord;

fn at(x: usize, y: usize, z: usize) -> LatticeCoord {
    LatticeCoord { x, y, z }
}

fn numbered(size: (usize, usize, usize)) -> Lattice<u64> {
    let mut lattice: Lattice<u64> = Lattice::new(size).unwrap();
    let mut i: usize = 0;
    while i < lattice.len() {
        *lattice.cell_mut(i).unwrap() = 100 + i as u64;
        i += 1;
    }
    lattice
}

#[test]
fn at_reads_the_cell_of_a_coordinate() {
    let lattice = numbered((2, 2, 2));
    assert_eq!(lattice.at(at(0, 0, 0)), Some(&100));
    assert_eq!(lattice.at(at(1, 0, 0)), Some(&101));
    assert_eq!(lattice.at(at(0, 1, 0)), Some(&102));
    assert_eq!(lattice.at(at(0, 0, 1)), Some(&104));
    assert_eq!(lattice.at(at(1, 1, 1)), Some(&107));
    assert_eq!(lattice.at(at(2, 0, 0)), None);
}

#[test]
fn at_mut_changes_one_cell_only() {
    let mut lattice = numbered((2, 2, 2));
    *lattice.at_mut(at(1, 0, 1)).unwrap() = 7;
    let cells: Vec<u64> = lattice.iter_cells().into_iter().map(|(_, c)| *c).collect();
    assert_eq!(cells, vec![100, 101, 102, 103, 104, 7, 106, 107]);
    assert!(lattice.at_mut(at(0, 2, 0)).is_none());
    assert_eq!(lattice.size(), (2, 2, 2));
}

#[test]
fn cell_and_cell_mut_go_by_flat_index() {
    let mut lattice = numbered((3, 1, 2));
    assert_eq!(lattice.cell(4), Some(&104));
    assert_eq!(lattice.cell(6), None);
    *lattice.cell_mut(4).unwrap() += 1;
    assert_eq!(lattice.cell(4), Some(&105));
    assert_eq!(lattice.at(at(1, 0, 1)), Some(&105));
    assert!(lattice.cell_mut(6).is_none());
}

#[test]
fn iter_cells_goes_in_ascending_index_order() {
    let lattice = numbered((2, 3, 2));
    let items = lattice.iter_cells();
    assert_eq!(items.len(), 12);
    for (i, (coord, cell)) in items.iter().enumerate() {
        assert_eq!(lattice.index(*coord), Some(i as u128));
        assert_eq!(**cell, 100 + i as u64);
    }
    assert_eq!(items[0].0, at(0, 0, 0));
    assert_eq!(items[1].0, at(1, 0, 0));
    assert_eq!(items[2].0, at(0, 1, 0));
    assert_eq!(items[6].0, at(0, 0, 1));
}

#[test]
fn iter_cells_mut_hands_out_every_cell_once() {
    let mut lattice = numbered((2, 3, 2));
    let items = lattice.iter_cells_mut();
    assert_eq!(items.len(), 12);
    for (coord, cell) in items {
        *cell = (coord.x + 10 * coord.y + 100 * coord.z) as u64;
    }
    assert_eq!(lattice.at(at(1, 2, 1)), Some(&121));
    assert_eq!(lattice.at(at(0, 0, 0)), Some(&0));
    assert_eq!(lattice.at(at(1, 0, 0)), Some(&1));
    assert_eq!(lattice.cell(11), Some(&121));
    assert_eq!(lattice.len(), 12);
}

#[test]
fn clone_copies_size_and_cells() {
    let mut lattice = numbered((2, 2, 1));
    let copy = lattice.clone();
    *lattice.cell_mut(0).unwrap() = 0;
    assert_eq!(copy.size(), (2, 2, 1));
    assert_eq!(copy.cell(0), Some(&100));
    assert_eq!(copy.cell(3), Some(&103));
    assert_eq!(lattice.cell(0), Some(&0));
}

#[test]
fn a_lattice_of_floating_point_cells_starts_at_zero() {
    let lattice: Lattice<[[f64; 4]; 5]> = Lattice::new((2, 2, 2)).unwrap();
    for (_, cell) in lattice.iter_cells() {
        for row in cell.iter() {
            for e in row.iter() {
                assert_eq!(*e, 0.0);
            }
        }
    }
}

#[test]
fn iter_cells_names_the_cell_that_differs() {
    // Every cell holds the same mix of forces but one; walking the cells
    // with their coordinates finds it and says where it is.
    let mut lattice: Lattice<[f64; 4]> = Lattice::new((2, 2, 2)).unwrap();
    for (_, cell) in lattice.iter_cells_mut() {
        *cell = [0.25, 0.25, 0.25, 0.25];
    }
    *lattice.at_mut(at(1, 0, 1)).unwrap() = [1.0, 0.0, 0.0, 0.0];
    let off: Vec<LatticeCoord> = lattice
        .iter_cells()
        .into_iter()
        .filter(|(_, cell)| cell.iter().any(|share| (share - 0.25).abs() > 1e-9))
        .map(|(coord, _)| coord)
        .collect();
    assert_eq!(off, vec![at(1, 0, 1)]);
}

#[test]
fn filled_puts_the_same_value_in_every_cell() {
    let lattice: Lattice<[f64; 4]> = Lattice::filled((3, 2, 2), [0.0, 0.5, 0.0, 0.5]).unwrap();
    assert_eq!(lattice.size(), (3, 2, 2));
    assert_eq!(lattice.len(), 12);
    for (_, cell) in lattice.iter_cells() {
        assert_eq!(*cell, [0.0, 0.5, 0.0, 0.5]);
    }
    assert!(Lattice::<u8>::filled((usize::MAX, 2, 1), 0).is_none());
    assert_eq!(Lattice::<u8>::filled((0, 9, 9), 7).unwrap().len(), 0);
}
