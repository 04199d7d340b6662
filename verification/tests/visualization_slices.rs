use entropic_void::lattice::Lattice;
use entropic_void::visualization::{axis_lines, slice_along_axis, slice_xy};

#[test]
fn slice_xy_is_indexed_x_then_y() {
    let l: Lattice<u8> = Lattice::new((3, 2, 2)).unwrap();
    assert_eq!(slice_xy(&l, 0), Some(vec![vec![0, 3], vec![1, 4], vec![2, 5]]));
    assert_eq!(slice_xy(&l, 1), Some(vec![vec![6, 9], vec![7, 10], vec![8, 11]]));
    assert_eq!(slice_xy(&l, 2), None);
}

#[test]
fn slices_across_the_other_axes() {
    let l: Lattice<u8> = Lattice::new((3, 2, 2)).unwrap();
    // x fixed at 1: rows run over y, columns over z.
    assert_eq!(slice_along_axis(&l, 0, 1), Some(vec![vec![1, 7], vec![4, 10]]));
    // y fixed at 1: rows run over x, columns over z.
    assert_eq!(slice_along_axis(&l, 1, 1), Some(vec![vec![3, 9], vec![4, 10], vec![5, 11]]));
    assert_eq!(slice_along_axis(&l, 2, 1), slice_xy(&l, 1));
    assert_eq!(slice_along_axis(&l, 0, 3), None);
    assert_eq!(slice_along_axis(&l, 3, 0), None);
}

#[test]
fn lines_run_along_the_chosen_axis() {
    let l: Lattice<u8> = Lattice::new((3, 2, 2)).unwrap();
    // Along x: one line per (y, z).
    assert_eq!(
        axis_lines(&l, 0),
        Some(vec![
            vec![vec![0, 1, 2], vec![6, 7, 8]],
            vec![vec![3, 4, 5], vec![9, 10, 11]],
        ])
    );
    // Along z: one line per (x, y).
    assert_eq!(
        axis_lines(&l, 2),
        Some(vec![
            vec![vec![0, 6], vec![3, 9]],
            vec![vec![1, 7], vec![4, 10]],
            vec![vec![2, 8], vec![5, 11]],
        ])
    );
    assert_eq!(axis_lines(&l, 3), None);
}

#[test]
fn every_cell_lies_on_one_line_per_axis() {
    let l: Lattice<u8> = Lattice::new((4, 3, 5)).unwrap();
    for axis in 0..3 {
        let lines = axis_lines(&l, axis).unwrap();
        let mut seen: Vec<usize> = lines.iter().flatten().flatten().copied().collect();
        seen.sort();
        let all: Vec<usize> = (0..60).collect();
        assert_eq!(seen, all);
        let length = [4, 3, 5][axis];
        for line in lines.iter().flatten() {
            assert_eq!(line.len(), length);
        }
    }
}

#[test]
fn an_empty_lattice_has_no_lines() {
    let l: Lattice<u8> = Lattice::new((0, 2, 2)).unwrap();
    assert_eq!(axis_lines(&l, 0), Some(vec![]));
    assert_eq!(axis_lines(&l, 1), Some(vec![]));
    assert_eq!(slice_along_axis(&l, 1, 0), Some(vec![]));
    assert_eq!(slice_along_axis(&l, 0, 0), None);
}
