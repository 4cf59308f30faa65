use ndarray::darray::DArray;
use ndarray::ndarray::NDArray;
use ndarray::ndarray_builder::NDArrayBuilder;
use ndarray::scalar::{One, Zero};

#[test]
fn reshape_keeps_flat_positions() {
    let mut a = NDArray::<usize>::new_with_shape(&[3, 4]);
    a.count();
    let before: Vec<usize> = (0..12).map(|p| *a.get_unchecked(&a.unravel_index(p))).collect();
    a.reshape(&[4, 3]);
    assert_eq!(a.shape(), &[4, 3]);
    assert_eq!(a.len(), 12);
    for p in 0..12 {
        let idx = a.unravel_index(p);
        assert_eq!(a.ravel_index(&idx), p);
        assert_eq!(*a.get_unchecked(&idx), before[p]);
        assert_eq!(*a.get_unchecked(&idx), p);
    }
    assert_eq!(a.get_unchecked(&[1, 0]), &3);
    assert_eq!(a.get_unchecked(&[3, 2]), &11);
}

#[test]
fn ravel_unravel_round_trip() {
    let a = NDArray::<u8>::new_with_shape(&[2, 3, 4]);
    for x in 0..a.len() {
        assert_eq!(a.ravel_index(&a.unravel_index(x)), x);
    }
    assert_eq!(a.ravel_index(&[1, 2, 3]), 23);
    assert_eq!(a.ravel_index(&[1, 0, 0]), 12);
    assert_eq!(&*a.unravel_index(17), &[1, 1, 1]);
}

#[test]
fn strides_follow_the_shape() {
    let mut a = NDArray::<u32>::new();
    a.set_shape(&[5, 2, 3]);
    assert_eq!(a.ravel_index(&[1, 0, 0]), 6);
    assert_eq!(a.ravel_index(&[0, 1, 0]), 3);
    assert_eq!(a.ravel_index(&[0, 0, 1]), 1);
    a.reshape(&[3, 10]);
    assert_eq!(a.ravel_index(&[1, 0]), 10);
    assert_eq!(a.ravel_index(&[0, 1]), 1);
}

#[test]
fn size_follows_the_shape() {
    let mut a = NDArray::<i64>::new();
    assert_eq!(a.len(), 1);
    assert_eq!(a.rank(), 1);
    assert_eq!(a.ndim(), 1);
    a.set_shape(&[4, 5]);
    assert_eq!(a.len(), 20);
    a.set_shape(&[2]);
    assert_eq!(a.len(), 2);
    a.set_shape(&[3, 0, 7]);
    assert_eq!(a.len(), 0);
    let b = NDArray::<i64>::new_with_shape(&[]);
    assert_eq!(b.rank(), 0);
    assert_eq!(b.len(), 1);
    assert_eq!(b.ravel_index(&[]), 0);
}

#[test]
fn set_shape_keeps_leading_elements() {
    let mut a = NDArray::<usize>::new_with_shape(&[2, 2]);
    a.count();
    a.set_shape(&[2, 3]);
    assert_eq!(&*a, &[0, 1, 2, 3, 0, 0]);
    a.set_shape(&[3]);
    assert_eq!(&*a, &[0, 1, 2]);
}

#[test]
fn set_size_leaves_the_shape() {
    let mut a = NDArray::<usize>::new_with_shape(&[2, 2]);
    a.count();
    a.set_size(6);
    assert_eq!(a.shape(), &[2, 2]);
    assert_eq!(&*a, &[0, 1, 2, 3, 0, 0]);
    a.set_size(1);
    assert_eq!(&*a, &[0]);
}

#[test]
fn checked_access() {
    let mut a = NDArray::<usize>::new_with_shape(&[2, 3]);
    a.count();
    assert_eq!(a.get(&[1, 2]), Some(&5));
    assert_eq!(a.get(&[2, 0]), None);
    assert_eq!(a.get(&[0, 7]), None);
    // an out-of-range coordinate that still lands inside the buffer
    assert_eq!(a.get(&[0, 4]), Some(&4));
    assert_eq!(a.get(&[usize::MAX, usize::MAX]), None);
    *a.get_mut(&[1, 1]).unwrap() = 40;
    assert_eq!(a.get(&[1, 1]), Some(&40));
    assert!(a.get_mut(&[5, 5]).is_none());
    *a.get_unchecked_mut(&[0, 0]) = 9;
    assert_eq!(&*a, &[9, 1, 2, 3, 40, 5]);
}

#[test]
fn fills() {
    let mut a = NDArray::<i32>::new_with_shape(&[2, 2]);
    a.one();
    assert_eq!(&*a, &[1, 1, 1, 1]);
    a.zero();
    assert_eq!(&*a, &[0, 0, 0, 0]);
    a.count();
    assert_eq!(&*a, &[0, 1, 2, 3]);
    assert_eq!(<u8 as Zero>::zero(), 0);
    assert_eq!(<i128 as One>::one(), 1);
}

#[test]
fn count_reaches_the_type_limit() {
    let mut a = NDArray::<u8>::new_with_shape(&[16, 16]);
    a.count();
    assert_eq!(a.get_unchecked(&[15, 15]), &255);
    assert_eq!(a.get_unchecked(&[8, 1]), &129);
}

#[test]
fn elementwise_uses_the_shorter_length() {
    let mut a = NDArray::<i32>::new_with_shape(&[2, 3]);
    let mut b = NDArray::<i32>::new_with_shape(&[2]);
    a.count();
    b.one();
    let c = a + b;
    assert_eq!(c.shape(), &[2, 3]);
    assert_eq!(&*c, &[1, 2, 2, 3, 4, 5]);
}

#[test]
fn combine_assign_in_place() {
    let mut a = NDArray::<i32>::new_with_shape(&[3]);
    let mut b = NDArray::<i32>::new_with_shape(&[2]);
    a.count();
    b.one();
    a.combine_assign(&b, &|x: &i32, y: &i32| x * 10 + y);
    assert_eq!(&*a, &[1, 11, 2]);
    let d = a.combine(&b, &|x: &i32, y: &i32| x - y);
    assert_eq!(&*d, &[0, 10, 2]);
}

#[test]
fn elementwise_division_truncates() {
    let mut a = NDArray::<i32>::new_with_shape(&[3]);
    a.count();
    let mut b = NDArray::<i32>::new_with_shape(&[3]);
    b.one();
    let b = b + NDArray::<i32>::new_with_shape(&[3]);
    let mut seven = NDArray::<i32>::new_with_shape(&[3]);
    seven.one();
    let mut two = NDArray::<i32>::new_with_shape(&[3]);
    two.one();
    let two = two.combine(&b, &|x: &i32, y: &i32| x + y);
    let seven = seven.combine(&two, &|x: &i32, y: &i32| x + 3 * y);
    assert_eq!(&*seven, &[7, 7, 7]);
    assert_eq!(&*(seven / two), &[3, 3, 3]);
    assert_eq!(&*(a * b), &[0, 1, 2]);
}

fn darray(values: &[i64]) -> DArray<i64> {
    let mut d = DArray::new(values.len());
    for (i, v) in values.iter().enumerate() {
        d[i] = *v;
    }
    d
}

#[test]
fn darray_operators() {
    let a = darray(&[12, 7, -9, 6]);
    let b = darray(&[5, 3, 2]);
    assert_eq!(&*(a.clone() + b.clone()), &[17, 10, -7]);
    assert_eq!(&*(a.clone() - b.clone()), &[7, 4, -11]);
    assert_eq!(&*(a.clone() * b.clone()), &[60, 21, -18]);
    assert_eq!(&*(a.clone() / b.clone()), &[2, 2, -4]);
    assert_eq!(&*(a.clone() % b.clone()), &[2, 1, -1]);
    assert_eq!(&*(a.clone() & b.clone()), &[4, 3, 2]);
    assert_eq!(&*(a.clone() | b.clone()), &[13, 7, -9]);
    assert_eq!(&*(a.clone() ^ b.clone()), &[9, 4, -11]);
    assert_eq!(&*(a.clone() << b.clone()), &[384, 56, -36]);
    assert_eq!(&*(a.clone() >> b.clone()), &[0, 0, -3]);
    assert_eq!(&*(-a.clone()), &[-12, -7, 9, -6]);
    assert_eq!(&*(!a.clone()), &[-13, -8, 8, -7]);
    assert_eq!(a.len(), 4);
    assert_eq!((a + b).len(), 3);
}

#[test]
fn darray_combine_assign_keeps_the_tail() {
    let mut a = darray(&[1, 2, 3]);
    let b = darray(&[10]);
    a.combine_assign(&b, &|x: &i64, y: &i64| x + y);
    assert_eq!(&*a, &[11, 2, 3]);
    let m = a.map(&|x: &i64| x * 2);
    assert_eq!(&*m, &[22, 4, 6]);
    assert_eq!(DArray::<i64>::default().len(), 0);
}

#[test]
fn builder_explicit_values() {
    let mut builder = NDArrayBuilder::<usize>::new();
    builder.size(4, 3).values((0..12).collect());
    assert_eq!(builder.len(), 12);
    let (width, height, rows) = builder.build_raw();
    assert_eq!(width, 4);
    assert_eq!(height, 3);
    assert_eq!(rows.len(), 3);
    for r in 0..3 {
        assert_eq!(rows[r].len(), 4);
        for c in 0..4 {
            assert_eq!(rows[r][c], r * 4 + c);
        }
    }
}

#[test]
fn builder_counts_by_default() {
    let mut builder = NDArrayBuilder::<u16>::new();
    assert_eq!(builder.len(), 1);
    builder.size(2, 3);
    let (width, height, rows) = builder.build_raw();
    assert_eq!((width, height), (2, 3));
    assert_eq!(rows, vec![vec![0, 1], vec![2, 3], vec![4, 5]]);
    let array = builder.build();
    assert_eq!(array.shape(), &[3, 2]);
    assert_eq!(&*array, &[0, 1, 2, 3, 4, 5]);
    assert_eq!(array.get_unchecked(&[2, 1]), &5);
}

#[test]
fn builder_with_too_few_values() {
    let mut builder = NDArrayBuilder::<i32>::new();
    builder.size(3, 2).values(vec![7, 8, 9, 10]);
    let (_, _, rows) = builder.build_raw();
    assert_eq!(rows, vec![vec![7, 8, 9], vec![10, 0, 0]]);
    let array = builder.build();
    assert_eq!(&*array, &[7, 8, 9, 10, 0, 0]);
}

#[test]
fn builder_with_too_many_values() {
    let mut builder = NDArrayBuilder::<i32>::new();
    builder.size(2, 1).values(vec![7, 8, 9]);
    let (_, _, rows) = builder.build_raw();
    assert_eq!(rows, vec![vec![7, 8]]);
    assert_eq!(&*builder.build(), &[7, 8]);
}

#[test]
fn borrowed_operands() {
    let mut a = NDArray::<u64>::new_with_shape(&[3]);
    let mut b = NDArray::<u64>::new_with_shape(&[2]);
    a.count();
    b.one();
    let sum = &a + &b;
    assert_eq!(&*sum, &[1, 2, 2]);
    assert_eq!(&*(&sum - &b), &[0, 1, 2]);
    assert_eq!(&*(&a * &b), &[0, 1, 2]);
    assert_eq!(&*(&sum / &sum), &[1, 1, 1]);
    assert_eq!(&*a, &[0, 1, 2]);
    assert_eq!(sum.shape(), &[3]);
}
