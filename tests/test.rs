use ndarray::darray::DArray;
use ndarray::ndarray::NDArray;

#[test]
fn test_add() {
    let mut a = NDArray::<usize>::new_with_shape(&[2, 2]);
    let mut b = NDArray::<usize>::new_with_shape(&[2, 2]);
    a.one();
    b.one();
    let c = a + b;
    assert_eq!(c.shape(), &[2, 2]);
    assert_eq!(&*c, &[2, 2, 2, 2]);
}

#[test]
fn test_sub() {
    let mut a = NDArray::<usize>::new_with_shape(&[2, 2]);
    let mut b = NDArray::<usize>::new_with_shape(&[2, 2]);
    a.one();
    b.one();
    let c = a - b;
    assert_eq!(&*c, &[0, 0, 0, 0]);
}

#[test]
fn test_mul() {
    let mut a = NDArray::<usize>::new_with_shape(&[2, 2]);
    let mut b = NDArray::<usize>::new_with_shape(&[2, 2]);
    a.one();
    b.one();
    let c = a * b;
    assert_eq!(&*c, &[1, 1, 1, 1]);
}

#[test]
fn test_div() {
    let mut a = NDArray::<usize>::new_with_shape(&[2, 2]);
    let mut b = NDArray::<usize>::new_with_shape(&[2, 2]);
    a.one();
    b.one();
    let c = a / b;
    assert_eq!(&*c, &[1, 1, 1, 1]);
}

#[test]
fn test_ndarray() {
    let mut ndarray = NDArray::<usize>::new();

    ndarray.set_shape(&[3, 4]).count();

    assert_eq!(ndarray.dim(0), 3);
    assert_eq!(ndarray.dim(1), 4);
    assert_eq!(ndarray.len(), 12);
    assert_eq!(ndarray.rank(), 2);

    assert_eq!(ndarray.get_unchecked(&[0, 3]), &3);
    assert_eq!(ndarray.get_unchecked(&[1, 3]), &7);
    assert_eq!(ndarray.get_unchecked(&[2, 3]), &11);

    assert_eq!(&*ndarray.unravel_index(3), &[0, 3]);
    assert_eq!(&*ndarray.unravel_index(7), &[1, 3]);
    assert_eq!(&*ndarray.unravel_index(11), &[2, 3]);
}

#[test]
fn test_ndarray_string() {
    let mut ndarray = NDArray::<String>::new();

    ndarray.set_shape(&[3, 3]).string();

    assert_eq!(ndarray.get_unchecked(&[1, 1]), &"");

    assert_eq!(ndarray.dim(0), 3);
    assert_eq!(ndarray.dim(1), 3);
}

#[test]
fn test_deep_ndarray() {
    let mut ndarray = NDArray::<usize>::new();

    ndarray.set_shape(&[2, 3, 4, 5, 6, 7, 8, 9, 10]).count();

    assert_eq!(ndarray.len(), 3628800);
    assert_eq!(ndarray.rank(), 9);

    assert_eq!(ndarray.get_unchecked(&[0, 0, 0, 0, 0, 0, 0, 0, 0]), &0);
    assert_eq!(ndarray.get_unchecked(&[0, 0, 0, 2, 4, 5, 2, 5, 3]), &84473);
    assert_eq!(ndarray.get_unchecked(&[1, 0, 0, 0, 0, 0, 0, 0, 0]), &1814400);
    assert_eq!(ndarray.get_unchecked(&[1, 2, 3, 4, 5, 6, 7, 8, 9]), &3628799);

    assert_eq!(&*ndarray.unravel_index(0), &[0, 0, 0, 0, 0, 0, 0, 0, 0]);
    assert_eq!(&*ndarray.unravel_index(84473), &[0, 0, 0, 2, 4, 5, 2, 5, 3]);
    assert_eq!(&*ndarray.unravel_index(1814400), &[1, 0, 0, 0, 0, 0, 0, 0, 0]);
    assert_eq!(&*ndarray.unravel_index(3628799), &[1, 2, 3, 4, 5, 6, 7, 8, 9]);
}

fn vec3_identity() -> DArray<isize> {
    let mut vec3 = DArray::new(3);

    vec3[0] = 1;
    vec3[1] = 1;
    vec3[2] = 1;

    vec3
}

fn mat3_identity() -> DArray<DArray<isize>> {
    let mut mat3 = DArray::new(3);
    mat3[0] = DArray::new(3);
    mat3[1] = DArray::new(3);
    mat3[2] = DArray::new(3);

    mat3[0][0] = 1;
    mat3[0][1] = 0;
    mat3[0][2] = 0;

    mat3[1][0] = 0;
    mat3[1][1] = 1;
    mat3[1][2] = 0;

    mat3[2][0] = 0;
    mat3[2][1] = 0;
    mat3[2][2] = 1;

    mat3
}

#[test]
fn test_add_1dim() {
    let a = vec3_identity();
    let b = vec3_identity();
    let c = a + b;

    assert_eq!(c[0], 2);
    assert_eq!(c[1], 2);
    assert_eq!(c[2], 2);
}

#[test]
fn test_add_2dim() {
    let a = mat3_identity();
    let b = mat3_identity();
    let c = a + b;

    assert_eq!(c[0][0], 2);
    assert_eq!(c[0][1], 0);
    assert_eq!(c[0][2], 0);

    assert_eq!(c[1][0], 0);
    assert_eq!(c[1][1], 2);
    assert_eq!(c[1][2], 0);

    assert_eq!(c[2][0], 0);
    assert_eq!(c[2][1], 0);
    assert_eq!(c[2][2], 2);
}
