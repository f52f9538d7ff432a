use synapse::tensor::{fits, Tensor, TensorError};

fn matrix() -> Tensor<i32> {
    Tensor::from_vec(vec![1, 2, 3, 4, 5, 6], vec![2, 3]).unwrap()
}

fn cells(values: &[i32]) -> Vec<Option<i32>> {
    values.iter().map(|v| Some(*v)).collect()
}

#[test]
fn test_invert_axis() {
    let x = matrix();
    let ax0_inv = Tensor::from_vec(vec![4, 5, 6, 1, 2, 3], vec![2, 3]).unwrap();
    let ax1_inv = Tensor::from_vec(vec![3, 2, 1, 6, 5, 4], vec![2, 3]).unwrap();
    assert!(
        x.invert_axis(0).eq(&ax0_inv).all(),
        "{:?} != {:?}",
        x,
        ax0_inv
    );
    assert!(
        x.invert_axis(1).eq(&ax1_inv).all(),
        "{:?} != {:?}",
        x,
        ax1_inv
    );
}

#[test]
fn invert_axis_reads_backwards() {
    let x = matrix();
    assert_eq!(x.invert_axis(0).flat_cells(), cells(&[4, 5, 6, 1, 2, 3]));
    assert_eq!(x.invert_axis(1).flat_cells(), cells(&[3, 2, 1, 6, 5, 4]));
    assert_eq!(x.invert_axis(1).invert_axis(1).flat_cells(), cells(&[1, 2, 3, 4, 5, 6]));
    assert_eq!(x.invert_axis(0).invert_axis(1).flat_cells(), cells(&[6, 5, 4, 3, 2, 1]));
}

#[test]
fn invert_axis_of_single_and_empty_axes() {
    let row = Tensor::from_vec(vec![7, 8], vec![1, 2]).unwrap();
    assert_eq!(row.invert_axis(0).flat_cells(), cells(&[7, 8]));
    let empty = Tensor::<i32>::from_vec(vec![], vec![0, 3]).unwrap();
    assert_eq!(empty.invert_axis(0).flat_cells(), cells(&[]));
    assert_eq!(empty.invert_axis(1).flat_cells(), cells(&[]));
    assert!(!empty.has_cells());
}

#[test]
fn eq_marks_the_cells_that_differ() {
    let x = matrix();
    let y = Tensor::from_vec(vec![1, 0, 3, 4, 5, 0], vec![2, 3]).unwrap();
    assert_eq!(
        x.eq(&y).flat_cells(),
        vec![Some(true), Some(false), Some(true), Some(true), Some(true), Some(false)]
    );
    assert!(!x.eq(&y).all());
    assert!(x.eq(&x.as_dyn()).all());
}

#[test]
fn from_vec_wants_as_many_values_as_cells() {
    assert!(Tensor::from_vec(vec![1, 2, 3], vec![2, 2]).is_none());
    assert!(Tensor::from_vec(vec![1, 2, 3, 4, 5], vec![2, 2]).is_none());
    assert!(Tensor::<i32>::from_vec(vec![], vec![2, 2]).is_none());
    assert!(Tensor::from_vec(vec![1], vec![0]).is_none());
    let scalar = Tensor::from_vec(vec![9], vec![]).unwrap();
    assert_eq!(scalar.ndim(), 0);
    assert_eq!(scalar.flat_cells(), cells(&[9]));
    let empty = Tensor::<i32>::from_vec(vec![], vec![3, 0, 2]).unwrap();
    assert_eq!(empty.shape(), &vec![3, 0, 2]);
}

#[test]
fn transpose_reads_columns() {
    let x = matrix();
    let t = x.t();
    assert_eq!(t.shape(), &vec![3, 2]);
    assert_eq!(t.flat_cells(), cells(&[1, 4, 2, 5, 3, 6]));
    assert_eq!(x.swap_axes(0, 1).flat_cells(), cells(&[1, 4, 2, 5, 3, 6]));
    assert_eq!(x.swap_axes(1, 1).flat_cells(), cells(&[1, 2, 3, 4, 5, 6]));
    assert_eq!(t.t().flat_cells(), cells(&[1, 2, 3, 4, 5, 6]));
}

#[test]
fn swap_axes_of_a_cube() {
    let cube = Tensor::from_vec((0..24).collect(), vec![2, 3, 4]).unwrap();
    let swapped = cube.swap_axes(0, 2);
    assert_eq!(swapped.shape(), &vec![4, 3, 2]);
    let flat = swapped.flat_cells();
    // the cell at [k, j, i] of the result is the cell at [i, j, k] of the cube
    for k in 0..4usize {
        for j in 0..3usize {
            for i in 0..2usize {
                assert_eq!(flat[k * 6 + j * 2 + i], Some((i * 12 + j * 4 + k) as i32));
            }
        }
    }
}

#[test]
fn unsqueeze_and_squeeze_keep_the_cells() {
    let x = matrix();
    let wide = x.unsqueeze(1);
    assert_eq!(wide.shape(), &vec![2, 1, 3]);
    assert_eq!(wide.flat_cells(), cells(&[1, 2, 3, 4, 5, 6]));
    assert_eq!(x.unsqueeze(0).shape(), &vec![1, 2, 3]);
    assert_eq!(x.unsqueeze(2).shape(), &vec![2, 3, 1]);
    let back = wide.squeeze(1);
    assert_eq!(back.shape(), &vec![2, 3]);
    assert_eq!(back.flat_cells(), cells(&[1, 2, 3, 4, 5, 6]));
    assert_eq!(x.t().unsqueeze(0).squeeze(0).flat_cells(), cells(&[1, 4, 2, 5, 3, 6]));
}

#[test]
fn squeeze_of_an_empty_axis() {
    let empty = Tensor::<i32>::from_vec(vec![], vec![0, 0, 2]).unwrap();
    let less = empty.squeeze(0);
    assert_eq!(less.shape(), &vec![0, 2]);
    assert!(less.flat_cells().is_empty());
    assert_eq!(less.unsqueeze(0).shape(), &vec![1, 0, 2]);
}

#[test]
fn reshape_and_flatten_keep_the_row_major_order() {
    let x = matrix();
    let r = x.reshape(&vec![3, 2]);
    assert_eq!(r.shape(), &vec![3, 2]);
    assert_eq!(r.flat_cells(), cells(&[1, 2, 3, 4, 5, 6]));
    let t = x.t().reshape(&vec![6]);
    assert_eq!(t.flat_cells(), cells(&[1, 4, 2, 5, 3, 6]));
    let f = x.invert_axis(1).flatten();
    assert_eq!(f.shape(), &vec![6]);
    assert_eq!(f.flat_cells(), cells(&[3, 2, 1, 6, 5, 4]));
    // a reshaped transpose is laid out afresh: transposing it again reads the new layout
    assert_eq!(x.t().reshape(&vec![2, 3]).t().flat_cells(), cells(&[1, 5, 4, 3, 2, 6]));
}

#[test]
fn as_shape_checks_the_rank() {
    let x = matrix();
    assert_eq!(x.as_shape(2).unwrap().flat_cells(), cells(&[1, 2, 3, 4, 5, 6]));
    match x.as_shape(3) {
        Err(TensorError::Rank { expected, found }) => {
            assert_eq!(expected, 3);
            assert_eq!(found, 2);
        }
        other => panic!("{:?}", other),
    }
    assert_eq!(x.as_dyn().shape(), &vec![2, 3]);
}

#[test]
fn broadcast_to_repeats_along_new_and_unit_axes() {
    let row = Tensor::from_vec(vec![1, 2, 3], vec![3]).unwrap();
    let b = row.broadcast_to(&vec![2, 3]).unwrap();
    assert_eq!(b.shape(), &vec![2, 3]);
    assert_eq!(b.flat_cells(), cells(&[1, 2, 3, 1, 2, 3]));
    let column = Tensor::from_vec(vec![1, 2], vec![2, 1]).unwrap();
    let c = column.broadcast_to(&vec![2, 3]).unwrap();
    assert_eq!(c.flat_cells(), cells(&[1, 1, 1, 2, 2, 2]));
    let same = matrix().broadcast_to(&vec![2, 3]).unwrap();
    assert_eq!(same.flat_cells(), cells(&[1, 2, 3, 4, 5, 6]));
    let deep = column.broadcast_to(&vec![2, 2, 2]).unwrap();
    assert_eq!(deep.flat_cells(), cells(&[1, 1, 2, 2, 1, 1, 2, 2]));
}

#[test]
fn broadcast_to_refuses_what_does_not_fit() {
    let x = matrix();
    match x.broadcast_to(&vec![3]) {
        Err(TensorError::Broadcast { from, to }) => {
            assert_eq!(from, vec![2, 3]);
            assert_eq!(to, vec![3]);
        }
        other => panic!("{:?}", other),
    }
    assert!(matches!(x.broadcast_to(&vec![2, 4]), Err(TensorError::Broadcast { .. })));
    assert!(matches!(x.broadcast_to(&vec![3, 3]), Err(TensorError::Broadcast { .. })));
    let one = Tensor::from_vec(vec![1], vec![1]).unwrap();
    match one.broadcast_to(&vec![usize::MAX, 2]) {
        Err(TensorError::TooLarge { shape }) => assert_eq!(shape, vec![usize::MAX, 2]),
        other => panic!("{:?}", other),
    }
    assert!(fits(&vec![usize::MAX, 0]));
    assert!(!fits(&vec![usize::MAX, 2]));
    assert!(fits(&vec![isize::MAX as usize]));
    assert!(!fits(&vec![isize::MAX as usize, 2]));
}

#[test]
fn broadcast_with_finds_the_common_shape() {
    let column = Tensor::from_vec(vec![1, 2], vec![2, 1]).unwrap();
    let row = Tensor::from_vec(vec![10i64, 20, 30], vec![3]).unwrap();
    let (a, b) = column.broadcast_with(&row).unwrap();
    assert_eq!(a.shape(), &vec![2, 3]);
    assert_eq!(b.shape(), &vec![2, 3]);
    assert_eq!(a.flat_cells(), cells(&[1, 1, 1, 2, 2, 2]));
    assert_eq!(
        b.flat_cells(),
        vec![Some(10i64), Some(20), Some(30), Some(10), Some(20), Some(30)]
    );
    let (c, d) = matrix().broadcast_with(&matrix()).unwrap();
    assert_eq!(c.flat_cells(), d.flat_cells());
    let pair = Tensor::from_vec(vec![1, 2], vec![2]).unwrap();
    match matrix().broadcast_with(&pair) {
        Err(TensorError::Broadcast { from, to }) => {
            assert_eq!(from, vec![2, 3]);
            assert_eq!(to, vec![2]);
        }
        other => panic!("{:?}", other),
    }
}
