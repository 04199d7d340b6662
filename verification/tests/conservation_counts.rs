use entropic_void::conservation::{
    box_count, box_counting_ladder, void_wall_filament_classification_detailed, DensityClass,
};
use entropic_void::lattice::Lattice;
use entropic_void::types::LatticeCoord;

fn at(x: usize, y: usize, z: usize) -> LatticeCoord {
    LatticeCoord { x, y, z }
}

fn lattice(size: (usize, usize, usize)) -> Lattice<u8> {
    Lattice::new(size).unwrap()
}

#[test]
fn cells_are_sorted_by_their_labels_in_index_order() {
    let l = lattice((2, 2, 1));
    let classes =
        vec![DensityClass::Wall, DensityClass::Void, DensityClass::Filament, DensityClass::Void];
    let (voids, walls, filaments) =
        void_wall_filament_classification_detailed(&l, &classes).unwrap();
    assert_eq!(voids, vec![at(1, 0, 0), at(1, 1, 0)]);
    assert_eq!(walls, vec![at(0, 0, 0)]);
    assert_eq!(filaments, vec![at(0, 1, 0)]);
}

#[test]
fn every_cell_lands_in_exactly_one_list() {
    let l = lattice((3, 4, 5));
    let classes: Vec<DensityClass> = (0..60)
        .map(|i| match i % 7 {
            0 | 1 | 2 => DensityClass::Void,
            3 | 4 => DensityClass::Wall,
            _ => DensityClass::Filament,
        })
        .collect();
    let (voids, walls, filaments) =
        void_wall_filament_classification_detailed(&l, &classes).unwrap();
    assert_eq!(voids.len() + walls.len() + filaments.len(), 60);
    assert_eq!(voids.len(), 27);
    assert_eq!(walls.len(), 17);
    assert_eq!(filaments.len(), 16);
    for (i, class) in classes.iter().enumerate() {
        let c = l.coord(i as u128).unwrap();
        assert_eq!(voids.contains(&c), *class == DensityClass::Void);
        assert_eq!(walls.contains(&c), *class == DensityClass::Wall);
        assert_eq!(filaments.contains(&c), *class == DensityClass::Filament);
    }
}

#[test]
fn classification_wants_one_label_per_cell() {
    let l = lattice((2, 2, 1));
    assert!(void_wall_filament_classification_detailed(&l, &vec![DensityClass::Void; 3]).is_none());
    assert!(void_wall_filament_classification_detailed(&l, &vec![DensityClass::Void; 5]).is_none());
    let empty = lattice((0, 0, 0));
    let (voids, walls, filaments) =
        void_wall_filament_classification_detailed(&empty, &vec![]).unwrap();
    assert!(voids.is_empty() && walls.is_empty() && filaments.is_empty());
}

#[test]
fn boxes_of_side_one_count_the_flagged_cells() {
    let l = lattice((4, 4, 1));
    let mut occupied = vec![false; 16];
    occupied[0] = true;
    occupied[5] = true;
    occupied[15] = true;
    assert_eq!(box_count(&l, &occupied, 1), Some(3));
}

#[test]
fn larger_boxes_merge_cells() {
    let l = lattice((4, 4, 1));
    let mut occupied = vec![false; 16];
    // (0,0), (1,1) share the box (0,0) of side 2; (3,3) lies in box (1,1).
    occupied[0] = true;
    occupied[5] = true;
    occupied[15] = true;
    assert_eq!(box_count(&l, &occupied, 2), Some(2));
    assert_eq!(box_count(&l, &occupied, 3), Some(2));
    assert_eq!(box_count(&l, &occupied, 4), Some(1));
    assert_eq!(box_count(&l, &occupied, 100), Some(1));
    assert_eq!(box_count(&l, &vec![false; 16], 2), Some(0));
    assert_eq!(box_count(&l, &vec![true; 16], 2), Some(4));
    assert_eq!(box_count(&l, &vec![true; 16], 3), Some(4));
}

#[test]
fn boxes_are_cut_from_the_origin_in_three_dimensions() {
    let l = lattice((5, 3, 2));
    let all = vec![true; 30];
    // ceil(5/2) * ceil(3/2) * ceil(2/2) = 3 * 2 * 1.
    assert_eq!(box_count(&l, &all, 2), Some(6));
    let mut one = vec![false; 30];
    one[l.index(at(4, 2, 1)).unwrap() as usize] = true;
    assert_eq!(box_count(&l, &one, 2), Some(1));
    one[l.index(at(4, 2, 0)).unwrap() as usize] = true;
    assert_eq!(box_count(&l, &one, 2), Some(1));
    assert_eq!(box_count(&l, &one, 1), Some(2));
}

#[test]
fn box_count_refuses_a_zero_side_and_a_wrong_number_of_flags() {
    let l = lattice((4, 4, 1));
    assert_eq!(box_count(&l, &vec![true; 16], 0), None);
    assert_eq!(box_count(&l, &vec![true; 15], 1), None);
    assert_eq!(box_count(&l, &vec![true; 17], 1), None);
    let empty = lattice((0, 4, 4));
    assert_eq!(box_count(&empty, &vec![], 2), Some(0));
}

#[test]
fn the_ladder_doubles_the_side_up_to_the_largest_extent() {
    let l = lattice((5, 3, 2));
    let all = vec![true; 30];
    // Sides 1, 2, 4; the next, 8, is longer than the lattice.
    assert_eq!(box_counting_ladder(&l, &all), Some(vec![(1, 30), (2, 6), (4, 2)]));
    let none = vec![false; 30];
    assert_eq!(box_counting_ladder(&l, &none), Some(vec![(1, 0), (2, 0), (4, 0)]));
    assert_eq!(box_counting_ladder(&l, &vec![true; 29]), None);
}

#[test]
fn the_ladder_of_a_filled_cube_has_dimension_three() {
    let l = lattice((8, 8, 8));
    let ladder = box_counting_ladder(&l, &vec![true; 512]).unwrap();
    assert_eq!(ladder, vec![(1, 512), (2, 64), (4, 8), (8, 1)]);
    let single = lattice((1, 1, 1));
    assert_eq!(box_counting_ladder(&single, &vec![true]), Some(vec![(1, 1)]));
    let empty = lattice((0, 0, 0));
    assert_eq!(box_counting_ladder(&empty, &vec![]), Some(vec![]));
}

#[test]
fn box_count_agrees_with_counting_distinct_boxes() {
    let l = lattice((7, 5, 3));
    // A fixed scatter of flags.
    let mut state: u64 = 12345;
    let mut occupied = Vec::new();
    for _ in 0..l.len() {
        state = state.wrapping_mul(6364136223846793005).wrapping_add(1442695040888963407);
        occupied.push((state >> 33) % 4 == 0);
    }
    for side in 1..9usize {
        let mut boxes: Vec<(usize, usize, usize)> = Vec::new();
        for (coord, _) in l.iter_cells() {
            let index = l.index(coord).unwrap() as usize;
            if occupied[index] {
                boxes.push((coord.x / side, coord.y / side, coord.z / side));
            }
        }
        boxes.sort();
        boxes.dedup();
        assert_eq!(box_count(&l, &occupied, side), Some(boxes.len()));
    }
}
