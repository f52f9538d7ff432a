use synapse::tensor::{AsMask, Tensor};

fn matrix() -> Tensor<i32> {
    Tensor::from_vec(vec![1, 2, 3, 4, 5, 6], vec![2, 3]).unwrap()
}

fn bits(values: &[bool]) -> Tensor<bool> {
    Tensor::from_vec(values.to_vec(), vec![2, 3]).unwrap()
}

#[test]
fn with_mask_hides_the_cells_whose_bit_is_off() {
    let x = matrix();
    let m = bits(&[true, false, true, false, true, false]);
    let masked = x.with_mask(&m);
    assert!(masked.is_masked());
    assert_eq!(
        masked.flat_cells(),
        vec![Some(1), None, Some(3), None, Some(5), None]
    );
    assert!(!x.is_masked());
}

#[test]
fn with_mask_follows_the_layout_of_both() {
    let x = matrix().t();
    let m = Tensor::from_vec(vec![true, true, false, false, true, true], vec![3, 2]).unwrap();
    let masked = x.with_mask(&m);
    // x reads 1 4 2 5 3 6; the mask hides the third and fourth cell
    assert_eq!(
        masked.flat_cells(),
        vec![Some(1), Some(4), None, None, Some(3), Some(6)]
    );
    // the transposed mask reads on, off, on in both rows
    let turned = matrix().with_mask(&m.t());
    assert_eq!(
        turned.flat_cells(),
        vec![Some(1), None, Some(3), Some(4), None, Some(6)]
    );
}

#[test]
fn mask_reports_validity() {
    let x = matrix();
    let all = x.mask().into_tensor();
    assert_eq!(all.flat_cells(), vec![Some(true); 6]);
    let m = bits(&[true, false, true, false, true, false]);
    let masked = x.with_mask(&m);
    let seen = masked.mask().into_tensor();
    assert_eq!(
        seen.flat_cells(),
        vec![Some(true), Some(false), Some(true), Some(false), Some(true), Some(false)]
    );
    // a mask taken from a mask is the same mask
    let again = x.with_mask(&masked.mask());
    assert_eq!(again.flat_cells(), masked.flat_cells());
    let copy = masked.mask().as_mask().into_tensor();
    assert_eq!(copy.flat_cells(), seen.flat_cells());
}

#[test]
fn fill_masked_and_drop_mask() {
    let x = matrix();
    let m = bits(&[true, false, true, false, true, false]);
    let masked = x.with_mask(&m);
    let filled = masked.fill_masked(0);
    assert!(!filled.is_masked());
    assert_eq!(
        filled.flat_cells(),
        vec![Some(1), Some(0), Some(3), Some(0), Some(5), Some(0)]
    );
    let dropped = masked.drop_mask();
    assert!(!dropped.is_masked());
    assert_eq!(
        dropped.flat_cells(),
        vec![Some(1), Some(2), Some(3), Some(4), Some(5), Some(6)]
    );
    assert_eq!(x.fill_masked(9).flat_cells(), x.flat_cells());
    assert_eq!(
        masked.t().fill_masked(-1).flat_cells(),
        vec![Some(1), Some(-1), Some(-1), Some(5), Some(3), Some(-1)]
    );
}

#[test]
fn compress_keeps_the_valid_values_in_order() {
    let x = matrix();
    let m = bits(&[true, false, true, false, true, true]);
    let masked = x.with_mask(&m);
    let c = masked.compress();
    assert_eq!(c.shape(), &vec![4]);
    assert_eq!(c.flat_cells(), vec![Some(1), Some(3), Some(5), Some(6)]);
    let t = masked.t().compress();
    assert_eq!(t.flat_cells(), vec![Some(1), Some(5), Some(3), Some(6)]);
    assert_eq!(x.compress().shape(), &vec![6]);
    let none = x.with_mask(&bits(&[false; 6])).compress();
    assert_eq!(none.shape(), &vec![0]);
    assert!(none.flat_cells().is_empty());
}

#[test]
fn a_masked_tensor_of_bits_is_on_where_it_holds_true() {
    let values = bits(&[true, true, false, false, true, true]);
    let hidden = values.with_mask(&bits(&[true, false, true, false, true, false]));
    let m = hidden.as_mask().into_tensor();
    assert_eq!(
        m.flat_cells(),
        vec![Some(true), Some(false), Some(false), Some(false), Some(true), Some(false)]
    );
    // hidden cells neither count as true nor as false
    assert!(!hidden.all());
    assert!(values.with_mask(&values).all());
}

#[test]
fn views_of_a_masked_tensor_carry_the_mask() {
    let x = matrix();
    let masked = x.with_mask(&bits(&[true, false, true, false, true, false]));
    assert_eq!(
        masked.invert_axis(1).flat_cells(),
        vec![Some(3), None, Some(1), None, Some(5), None]
    );
    assert_eq!(
        masked.t().flat_cells(),
        vec![Some(1), None, None, Some(5), Some(3), None]
    );
    assert_eq!(
        masked.reshape(&vec![3, 2]).flat_cells(),
        vec![Some(1), None, Some(3), None, Some(5), None]
    );
    assert_eq!(
        masked.unsqueeze(0).broadcast_to(&vec![2, 2, 3]).unwrap().flat_cells().len(),
        12
    );
}
