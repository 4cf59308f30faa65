//! The shaped array: a flat buffer of elements addressed by multi-indices
//! under a row-major layout.

use vstd::prelude::*;

verus! {

use crate::scalar::{Zero, One, counting, can_count};
use crate::elementwise::{can_zip, zipped, zip_with, zip_with_assign};
use vstd::std_specs::ops::{AddSpec, SubSpec, MulSpec, DivSpec};
use crate::shape::{
    product, suffix_product, stride, fits, all_positive, is_row_major, dot, ravel, unravel,
    lemma_suffix_product_step, lemma_suffix_product_end, lemma_suffix_product_start,
    lemma_row_major_strides, lemma_dot_monotone,
};

/// A dense array with a shape, its derived row-major strides, and a flat buffer.
pub struct NDArray<T> {
    shape: Vec<usize>,
    multipliers: Vec<usize>,
    data: Vec<T>,
}

impl<T> View for NDArray<T> {
    type V = Seq<T>;

    /// The elements, in flat (row-major) order.
    closed spec fn view(&self) -> Seq<T> {
        self.data@
    }
}

/// `after` is `before` with its length set to `n`: cut to its first `n` elements,
/// or kept whole as the start of a longer sequence.
pub open spec fn resized<T>(before: Seq<T>, after: Seq<T>, n: nat) -> bool {
    &&& after.len() == n
    &&& forall|i: int| 0 <= i < n && i < before.len() ==> #[trigger] after[i] == before[i]
}

/// Sets the length of `v` to `n`, keeping the first elements and filling
/// new places with `T::default()`.
fn resize_default<T: Default>(v: &mut Vec<T>, n: usize)
    ensures
        resized(old(v)@, final(v)@, n as nat),
{
    if n <= v.len() {
        v.truncate(n);
    } else {
        while v.len() < n
            invariant
                v.len() <= n,
                forall|i: int| 0 <= i < old(v).len() ==> #[trigger] v@[i] == old(v)@[i],
                old(v).len() <= v.len(),
            decreases n - v.len(),
        {
            v.push(T::default());
        }
    }
}

/// An owned copy of `dims`.
fn copy_dims(dims: &[usize]) -> (r: Vec<usize>)
    ensures
        r@ == dims@,
{
    let mut shape: Vec<usize> = Vec::new();
    let mut i: usize = 0;
    while i < dims.len()
        invariant
            i <= dims.len(),
            shape@ == dims@.subrange(0, i as int),
        decreases dims.len() - i,
    {
        shape.push(dims[i]);
        i = i + 1;
    }
    assert(shape@ =~= dims@);
    shape
}

impl<T> NDArray<T> {
    /// The dimensions.
    pub closed spec fn spec_shape(&self) -> Seq<usize> {
        self.shape@
    }

    /// The per-axis strides.
    pub closed spec fn spec_multipliers(&self) -> Seq<usize> {
        self.multipliers@
    }

    /// The strides are the row-major strides of the shape, and every stride
    /// fits in a `usize`.
    pub open spec fn wf(&self) -> bool {
        &&& is_row_major(self.spec_shape(), self.spec_multipliers())
        &&& fits(self.spec_shape())
    }

    /// The buffer holds exactly as many elements as the shape describes.
    pub open spec fn sized(&self) -> bool {
        self@.len() == product(self.spec_shape())
    }

    /// Element count of `dims`, computed from the last axis to the first so
    /// that every partial product is a suffix product.
    fn size_from_dims(dims: &[usize]) -> (r: usize)
        requires
            fits(dims@),
        ensures
            r == product(dims@),
    {
        let n = dims.len();
        let mut size: usize = 1;
        let mut i: usize = n;
        proof {
            lemma_suffix_product_end(dims@);
        }
        while i > 0
            invariant
                i <= n == dims@.len(),
                fits(dims@),
                size == suffix_product(dims@, i as int),
            decreases i,
        {
            proof {
                lemma_suffix_product_step(dims@, i - 1);
                assert(suffix_product(dims@, i - 1) <= usize::MAX);
            }
            size = dims[i - 1] * size;
            i = i - 1;
        }
        proof {
            lemma_suffix_product_start(dims@);
        }
        size
    }

    /// Row-major strides of `shape`.
    fn calculate_multipliers(shape: &[usize]) -> (r: Vec<usize>)
        requires
            fits(shape@),
        ensures
            is_row_major(shape@, r@),
    {
        let rank = shape.len();
        let mut multipliers: Vec<usize> = Vec::new();
        while multipliers.len() < rank
            invariant
                multipliers.len() <= rank,
                forall|j: int| 0 <= j < multipliers.len() ==> #[trigger] multipliers@[j] == 1,
            decreases rank - multipliers.len(),
        {
            multipliers.push(1);
        }
        if rank == 0 {
            return multipliers;
        }
        let mut i: usize = rank - 1;
        proof {
            lemma_suffix_product_end(shape@);
        }
        while i > 0
            invariant
                0 <= i < rank == shape@.len() == multipliers@.len(),
                fits(shape@),
                multipliers@[rank - 1] == 1,
                forall|j: int| i <= j < rank ==> #[trigger] multipliers@[j] == stride(shape@, j),
                forall|j: int|
                    i <= j < rank - 1 ==> #[trigger] multipliers@[j] == multipliers@[j + 1]
                        * shape@[j + 1],
            decreases i,
        {
            proof {
                lemma_suffix_product_step(shape@, i as int);
                assert(suffix_product(shape@, i as int) <= usize::MAX);
                let a = multipliers@[i as int] as int;
                let b = shape@[i as int] as int;
                assert(a == suffix_product(shape@, i + 1));
                assert(a * b == b * a) by (nonlinear_arith);
            }
            let m = multipliers[i] * shape[i];
            multipliers.set(i - 1, m);
            i = i - 1;
        }
        multipliers
    }
}

impl<T: Default> NDArray<T> {
    /// A one-element array of rank 1.
    pub fn new() -> (r: Self)
        ensures
            r.wf(),
            r.sized(),
            r.spec_shape() == seq![1usize],
    {
        let dims: [usize; 1] = [1];
        proof {
            lemma_suffix_product_end(dims@);
            lemma_suffix_product_step(dims@, 0);
            assert(dims@[0] == 1usize);
            assert(suffix_product(dims@, 1) == 1);
            assert(suffix_product(dims@, 0) == 1 * 1);
            assert forall|k: int| 0 <= k <= dims@.len() implies #[trigger] suffix_product(
                dims@,
                k,
            ) <= usize::MAX by {}
        }
        Self::new_with_shape(&dims)
    }

    /// An array of the given shape with default elements.
    pub fn new_with_shape(dims: &[usize]) -> (r: Self)
        requires
            fits(dims@),
        ensures
            r.wf(),
            r.sized(),
            r.spec_shape() == dims@,
    {
        let size = Self::size_from_dims(dims);
        let multipliers = Self::calculate_multipliers(dims);
        let shape = copy_dims(dims);
        let mut data: Vec<T> = Vec::new();
        resize_default(&mut data, size);
        NDArray { shape, multipliers, data }
    }
}

impl<T> NDArray<T> {
    /// Number of dimensions.
    pub fn rank(&self) -> (r: usize)
        ensures
            r == self.spec_shape().len(),
    {
        self.shape.len()
    }

    /// Number of dimensions (same as `rank`).
    pub fn ndim(&self) -> (r: usize)
        ensures
            r == self.spec_shape().len(),
    {
        self.rank()
    }

    /// Number of elements in the buffer.
    pub fn len(&self) -> (r: usize)
        ensures
            r == self@.len(),
    {
        self.data.len()
    }

    /// Size of dimension `dim`.
    pub fn dim(&self, dim: usize) -> (r: usize)
        requires
            dim < self.spec_shape().len(),
        ensures
            r == self.spec_shape()[dim as int],
    {
        self.shape[dim]
    }

    /// The dimensions.
    pub fn shape(&self) -> (r: &[usize])
        ensures
            r@ == self.spec_shape(),
    {
        self.shape.as_slice()
    }

    /// Flat offset of `indices`: the sum of `indices[i] * multipliers[i]`.
    /// Coordinates are not checked against their dimensions.
    pub fn ravel_index(&self, indices: &[usize]) -> (r: usize)
        requires
            self.wf(),
            indices@.len() == self.spec_shape().len(),
            ravel(indices@, self.spec_multipliers()) <= usize::MAX,
        ensures
            r == ravel(indices@, self.spec_multipliers()),
    {
        let rank = self.rank();
        let mut index: usize = 0;
        let mut i: usize = 0;
        while i < rank
            invariant
                self.wf(),
                rank == self.spec_shape().len() == self.spec_multipliers().len() == indices@.len(),
                i <= rank,
                ravel(indices@, self.spec_multipliers()) <= usize::MAX,
                index == dot(indices@, self.spec_multipliers(), i as int),
            decreases rank - i,
        {
            proof {
                lemma_dot_monotone(indices@, self.spec_multipliers(), i + 1, rank as int);
                lemma_dot_monotone(indices@, self.spec_multipliers(), i as int, i as int);
            }
            index = index + indices[i] * self.multipliers[i];
            i = i + 1;
        }
        index
    }

    /// Flat offset of `indices`, or `None` where it exceeds `usize::MAX`.
    fn checked_ravel_index(&self, indices: &[usize]) -> (r: Option<usize>)
        requires
            self.wf(),
            indices@.len() == self.spec_shape().len(),
        ensures
            r matches Some(k) ==> k == ravel(indices@, self.spec_multipliers()),
            r is None ==> ravel(indices@, self.spec_multipliers()) > usize::MAX,
    {
        let rank = self.rank();
        let mut index: usize = 0;
        let mut i: usize = 0;
        while i < rank
            invariant
                self.wf(),
                rank == self.spec_shape().len() == self.spec_multipliers().len() == indices@.len(),
                i <= rank,
                index == dot(indices@, self.spec_multipliers(), i as int),
            decreases rank - i,
        {
            proof {
                lemma_dot_monotone(indices@, self.spec_multipliers(), i + 1, rank as int);
                lemma_dot_monotone(indices@, self.spec_multipliers(), i as int, i as int);
            }
            match indices[i].checked_mul(self.multipliers[i]) {
                Some(term) => match index.checked_add(term) {
                    Some(next) => {
                        index = next;
                    },
                    None => {
                        return None;
                    },
                },
                None => {
                    return None;
                },
            }
            i = i + 1;
        }
        Some(index)
    }

    /// Multi-index of the flat offset `index`: coordinate `i` is
    /// `(index / multipliers[i]) % shape[i]`.
    pub fn unravel_index(&self, index: usize) -> (r: Vec<usize>)
        requires
            self.wf(),
            all_positive(self.spec_shape()),
        ensures
            r@ == unravel(index as nat, self.spec_shape(), self.spec_multipliers()),
    {
        let rank = self.rank();
        let mut indices: Vec<usize> = Vec::new();
        let mut i: usize = 0;
        proof {
            lemma_row_major_strides(self.spec_shape(), self.spec_multipliers());
            assert forall|j: int| 0 <= j < rank implies #[trigger] self.spec_multipliers()[j] > 0 by {
                crate::shape::lemma_suffix_product_positive(self.spec_shape(), j + 1);
            }
        }
        while i < rank
            invariant
                self.wf(),
                all_positive(self.spec_shape()),
                rank == self.spec_shape().len() == self.spec_multipliers().len(),
                forall|j: int| 0 <= j < rank ==> #[trigger] self.spec_multipliers()[j] > 0,
                i <= rank,
                indices@ == unravel(index as nat, self.spec_shape(), self.spec_multipliers()).subrange(0, i as int),
            decreases rank - i,
        {
            assert(self.spec_shape()[i as int] > 0);
            indices.push((index / self.multipliers[i]) % self.shape[i]);
            i = i + 1;
        }
        assert(indices@ =~= unravel(index as nat, self.spec_shape(), self.spec_multipliers()));
        indices
    }

    /// The element at `indices`, with no check beyond the caller's promise
    /// that the flat offset is in range.
    pub fn get_unchecked(&self, indices: &[usize]) -> (r: &T)
        requires
            self.wf(),
            indices@.len() == self.spec_shape().len(),
            ravel(indices@, self.spec_multipliers()) < self@.len(),
        ensures
            *r == self@[ravel(indices@, self.spec_multipliers())],
    {
        let len = self.len();
        let index = self.ravel_index(indices);
        assert(index < len);
        &self.data[index]
    }

    /// Mutable access to the element at `indices`, with no check beyond the
    /// caller's promise that the flat offset is in range.
    pub fn get_unchecked_mut(&mut self, indices: &[usize]) -> (r: &mut T)
        requires
            old(self).wf(),
            indices@.len() == old(self).spec_shape().len(),
            ravel(indices@, old(self).spec_multipliers()) < old(self)@.len(),
        ensures
            *r == old(self)@[ravel(indices@, old(self).spec_multipliers())],
            final(self).spec_shape() == old(self).spec_shape(),
            final(self).spec_multipliers() == old(self).spec_multipliers(),
            final(self)@ == old(self)@.update(
                ravel(indices@, old(self).spec_multipliers()),
                *final(r),
            ),
    {
        let len = self.len();
        let index = self.ravel_index(indices);
        assert(index < len);
        &mut self.data[index]
    }

    /// The element at `indices` if its flat offset is below `len()`.
    pub fn get(&self, indices: &[usize]) -> (r: Option<&T>)
        requires
            self.wf(),
            indices@.len() == self.spec_shape().len(),
        ensures
            r is Some <==> ravel(indices@, self.spec_multipliers()) < self@.len(),
            r matches Some(v) ==> *v == self@[ravel(indices@, self.spec_multipliers())],
    {
        let len = self.len();
        match self.checked_ravel_index(indices) {
            Some(index) => {
                if index < len {
                    Some(&self.data[index])
                } else {
                    None
                }
            },
            None => None,
        }
    }
}

impl<T> NDArray<T> {
    /// Mutable access to the element at `indices` if its flat offset is below `len()`.
    pub fn get_mut(&mut self, indices: &[usize]) -> (r: Option<&mut T>)
        requires
            old(self).wf(),
            indices@.len() == old(self).spec_shape().len(),
        ensures
            r is Some <==> ravel(indices@, old(self).spec_multipliers()) < old(self)@.len(),
            final(self).spec_shape() == old(self).spec_shape(),
            final(self).spec_multipliers() == old(self).spec_multipliers(),
            r is None ==> final(self)@ == old(self)@,
            r matches Some(v) ==> {
                &&& *v == old(self)@[ravel(indices@, old(self).spec_multipliers())]
                &&& final(self)@ == old(self)@.update(
                    ravel(indices@, old(self).spec_multipliers()),
                    *final(v),
                )
            },
    {
        let len = self.len();
        match self.checked_ravel_index(indices) {
            Some(index) => {
                if index < len {
                    Some(&mut self.data[index])
                } else {
                    None
                }
            },
            None => None,
        }
    }

    /// Gives the array the shape `dims`, with its row-major strides, and sets
    /// the buffer's length to the new element count (keeping the leading
    /// elements, filling new places with default values).
    pub fn set_shape(&mut self, dims: &[usize]) -> (r: &mut Self)
        where T: Default
        requires
            fits(dims@),
        ensures
            r.wf(),
            r.sized(),
            r.spec_shape() == dims@,
            resized(old(self)@, r@, product(dims@)),
            *final(self) == *final(r),
    {
        let size = Self::size_from_dims(dims);
        self.shape = copy_dims(dims);
        self.multipliers = Self::calculate_multipliers(dims);
        self.set_size(size)
    }

    /// Gives the array the shape `dims`, with its row-major strides, keeping
    /// the buffer as it is: the new shape must describe as many elements as
    /// the buffer holds.
    pub fn reshape(&mut self, dims: &[usize]) -> (r: &mut Self)
        requires
            fits(dims@),
            product(dims@) == old(self)@.len(),
        ensures
            r.wf(),
            r.sized(),
            r.spec_shape() == dims@,
            r@ == old(self)@,
            *final(self) == *final(r),
    {
        self.shape = copy_dims(dims);
        self.multipliers = Self::calculate_multipliers(dims);
        self
    }

    /// Sets the buffer's length to `size`, keeping the leading elements and
    /// filling new places with default values. The shape is left as it is.
    pub fn set_size(&mut self, size: usize) -> (r: &mut Self)
        where T: Default
        ensures
            r.spec_shape() == old(self).spec_shape(),
            r.spec_multipliers() == old(self).spec_multipliers(),
            resized(old(self)@, r@, size as nat),
            *final(self) == *final(r),
    {
        if self.data.len() != size {
            resize_default(&mut self.data, size);
        }
        self
    }
}

impl<T: Copy + Zero + One + core::ops::Add<Output = T>> NDArray<T> {
    /// Fills the buffer with the ascending sequence zero, one, one + one, ...
    pub fn count(&mut self) -> (r: &mut Self)
        requires
            T::obeys_add_spec(),
            old(self)@.len() > 0 ==> can_count::<T>((old(self)@.len() - 1) as nat),
        ensures
            r.spec_shape() == old(self).spec_shape(),
            r.spec_multipliers() == old(self).spec_multipliers(),
            r@.len() == old(self)@.len(),
            forall|i: int| 0 <= i < r@.len() ==> #[trigger] r@[i] == counting::<T>(i as nat),
            *final(self) == *final(r),
    {
        let n = self.data.len();
        let mut value = T::zero();
        let mut i: usize = 0;
        while i < n
            invariant
                T::obeys_add_spec(),
                n > 0 ==> can_count::<T>((n - 1) as nat),
                n == self.data@.len() == old(self)@.len(),
                self.shape == old(self).shape,
                self.multipliers == old(self).multipliers,
                i <= n,
                i < n ==> value == counting::<T>(i as nat),
                forall|j: int| 0 <= j < i ==> #[trigger] self.data@[j] == counting::<T>(j as nat),
            decreases n - i,
        {
            self.data.set(i, value);
            if i + 1 < n {
                assert(counting::<T>(i as nat).add_req(T::spec_one()));
                value = value + T::one();
            }
            i = i + 1;
        }
        self
    }
}

impl<T: Copy + Zero> NDArray<T> {
    /// Sets every element to zero.
    pub fn zero(&mut self) -> (r: &mut Self)
        ensures
            r.spec_shape() == old(self).spec_shape(),
            r.spec_multipliers() == old(self).spec_multipliers(),
            r@ == Seq::new(old(self)@.len(), |i: int| T::spec_zero()),
            *final(self) == *final(r),
    {
        let n = self.data.len();
        let mut i: usize = 0;
        while i < n
            invariant
                n == self.data@.len() == old(self)@.len(),
                self.shape == old(self).shape,
                self.multipliers == old(self).multipliers,
                i <= n,
                forall|j: int| 0 <= j < i ==> #[trigger] self.data@[j] == T::spec_zero(),
            decreases n - i,
        {
            self.data.set(i, T::zero());
            i = i + 1;
        }
        assert(self.data@ =~= Seq::new(n as nat, |i: int| T::spec_zero()));
        self
    }
}

impl<T: Copy + One> NDArray<T> {
    /// Sets every element to one.
    pub fn one(&mut self) -> (r: &mut Self)
        ensures
            r.spec_shape() == old(self).spec_shape(),
            r.spec_multipliers() == old(self).spec_multipliers(),
            r@ == Seq::new(old(self)@.len(), |i: int| T::spec_one()),
            *final(self) == *final(r),
    {
        let n = self.data.len();
        let mut i: usize = 0;
        while i < n
            invariant
                n == self.data@.len() == old(self)@.len(),
                self.shape == old(self).shape,
                self.multipliers == old(self).multipliers,
                i <= n,
                forall|j: int| 0 <= j < i ==> #[trigger] self.data@[j] == T::spec_one(),
            decreases n - i,
        {
            self.data.set(i, T::one());
            i = i + 1;
        }
        assert(self.data@ =~= Seq::new(n as nat, |i: int| T::spec_one()));
        self
    }
}

impl NDArray<String> {
    /// Sets every element to the empty string.
    pub fn string(&mut self) -> (r: &mut Self)
        ensures
            r.spec_shape() == old(self).spec_shape(),
            r.spec_multipliers() == old(self).spec_multipliers(),
            r@.len() == old(self)@.len(),
            forall|i: int| 0 <= i < r@.len() ==> (#[trigger] r@[i])@ == Seq::<char>::empty(),
            *final(self) == *final(r),
    {
        let n = self.data.len();
        let mut i: usize = 0;
        while i < n
            invariant
                n == self.data@.len() == old(self)@.len(),
                self.shape == old(self).shape,
                self.multipliers == old(self).multipliers,
                i <= n,
                forall|j: int| 0 <= j < i ==> (#[trigger] self.data@[j])@ == Seq::<char>::empty(),
            decreases n - i,
        {
            self.data.set(i, String::new());
            i = i + 1;
        }
        self
    }
}

impl<T> NDArray<T> {
    /// Replaces `self[i]` by `f(self[i], other[i])` at each flat position that
    /// both arrays have; trailing elements of `self`, and its shape, are left
    /// as they are. The shapes are not compared.
    pub fn combine_assign<F: Fn(&T, &T) -> T>(&mut self, other: &NDArray<T>, f: &F)
        requires
            can_zip(old(self)@, other@, *f),
        ensures
            final(self).spec_shape() == old(self).spec_shape(),
            final(self).spec_multipliers() == old(self).spec_multipliers(),
            final(self)@.len() == old(self)@.len(),
            zipped(
                old(self)@,
                other@,
                *f,
                final(self)@,
                vstd::math::min(old(self)@.len() as int, other@.len() as int),
            ),
            forall|i: int|
                other@.len() <= i < old(self)@.len() ==> #[trigger] final(self)@[i] == old(
                    self,
                )@[i],
    {
        zip_with_assign(&mut self.data, other.data.as_slice(), f);
    }

    /// A new array with the shape of `self` holding `f(self[i], other[i])` at
    /// each flat position that both arrays have, and clones of the trailing
    /// elements of `self`. The shapes are not compared.
    pub fn combine<F: Fn(&T, &T) -> T>(&self, other: &NDArray<T>, f: &F) -> (r: NDArray<T>)
        where T: Clone
        requires
            can_zip(self@, other@, *f),
        ensures
            r.spec_shape() == self.spec_shape(),
            r.spec_multipliers() == self.spec_multipliers(),
            r@.len() == self@.len(),
            zipped(
                self@,
                other@,
                *f,
                r@,
                vstd::math::min(self@.len() as int, other@.len() as int),
            ),
            forall|i: int| other@.len() <= i < self@.len() ==> cloned(self@[i], #[trigger] r@[i]),
    {
        let mut data = zip_with(self.data.as_slice(), other.data.as_slice(), f);
        let n = self.data.len();
        let mut i: usize = data.len();
        while i < n
            invariant
                n == self@.len(),
                vstd::math::min(self@.len() as int, other@.len() as int) <= i <= n,
                data@.len() == i,
                zipped(
                    self@,
                    other@,
                    *f,
                    data@,
                    vstd::math::min(self@.len() as int, other@.len() as int),
                ),
                forall|j: int|
                    other@.len() <= j < i ==> cloned(self@[j], #[trigger] data@[j]),
            decreases n - i,
        {
            let x = self.data[i].clone();
            assert(cloned(self@[i as int], x));
            data.push(x);
            i = i + 1;
        }
        NDArray {
            shape: copy_dims(self.shape.as_slice()),
            multipliers: copy_dims(self.multipliers.as_slice()),
            data,
        }
    }
}

impl<T> core::ops::Deref for NDArray<T> {
    type Target = [T];

    fn deref(&self) -> (r: &[T])
        ensures
            r@ == self@,
    {
        self.data.as_slice()
    }
}

impl<T> core::ops::DerefMut for NDArray<T> {
    fn deref_mut(&mut self) -> (r: &mut [T])
        ensures
            r@ == old(self)@,
            final(self).spec_shape() == old(self).spec_shape(),
            final(self).spec_multipliers() == old(self).spec_multipliers(),
            final(self)@ == final(r)@,
    {
        self.data.as_mut_slice()
    }
}

/// Every clone of `a` may be added to every clone of `b`.
pub open spec fn clones_add<T: Clone + core::ops::Add<Output = T>>(a: T, b: T) -> bool {
    forall|x: T, y: T| #[trigger] cloned(a, x) && #[trigger] cloned(b, y) ==> x.add_req(y)
}

/// `c` is the sum of a clone of `a` and a clone of `b`, as far as
/// the element type states its operator.
pub open spec fn add_of<T: Clone + core::ops::Add<Output = T>>(a: T, b: T, c: T) -> bool {
    exists|x: T, y: T|
        #[trigger] cloned(a, x) && #[trigger] cloned(b, y) && (T::obeys_add_spec() ==> c
            == x.add_spec(y))
}

/// Elementwise `+`: the result has the shape of the left operand.
impl<T: Clone + core::ops::Add<Output = T>> core::ops::Add for NDArray<T> {
    type Output = NDArray<T>;

    fn add(self, other: NDArray<T>) -> (r: NDArray<T>)
        ensures
            r.spec_shape() == self.spec_shape(),
            r.spec_multipliers() == self.spec_multipliers(),
            r@.len() == self@.len(),
            forall|i: int|
                0 <= i < r@.len() && i < other@.len() ==> add_of(
                    self@[i],
                    other@[i],
                    #[trigger] r@[i],
                ),
            forall|i: int| other@.len() <= i < r@.len() ==> #[trigger] r@[i] == self@[i],
    {
        let mut out = self;
        out.combine_assign(&other, &|a: &T, b: &T| -> (c: T)
            requires
                clones_add(*a, *b),
            ensures
                add_of(*a, *b, c),
            {
                let x = a.clone();
                let y = b.clone();
                assert(cloned(*a, x) && cloned(*b, y));
                let c = x + y;
                assert(cloned(*a, x) && cloned(*b, y) && (T::obeys_add_spec() ==> c == x.add_spec(y)));
                c
            });
        out
    }
}

impl<T: Clone + core::ops::Add<Output = T>> vstd::std_specs::ops::AddSpecImpl for NDArray<T> {
    open spec fn obeys_add_spec() -> bool {
        false
    }

    open spec fn add_req(self, rhs: NDArray<T>) -> bool {
        forall|i: int| 0 <= i < self@.len() && i < rhs@.len() ==> clones_add(self@[i], rhs@[i])
    }

    open spec fn add_spec(self, rhs: NDArray<T>) -> NDArray<T> {
        self
    }
}

/// Elementwise `+` on borrowed operands: the result has the shape of the
/// left operand, and clones of its trailing elements.
impl<'a, T: Clone + core::ops::Add<Output = T>> core::ops::Add<&'a NDArray<T>> for &'a NDArray<T> {
    type Output = NDArray<T>;

    fn add(self, other: &'a NDArray<T>) -> (r: NDArray<T>)
        ensures
            r.spec_shape() == self.spec_shape(),
            r.spec_multipliers() == self.spec_multipliers(),
            r@.len() == self@.len(),
            forall|i: int|
                0 <= i < r@.len() && i < other@.len() ==> add_of(
                    self@[i],
                    other@[i],
                    #[trigger] r@[i],
                ),
            forall|i: int| other@.len() <= i < r@.len() ==> cloned(self@[i], #[trigger] r@[i]),
    {
        self.combine(other, &|a: &T, b: &T| -> (c: T)
            requires
                clones_add(*a, *b),
            ensures
                add_of(*a, *b, c),
            {
                let x = a.clone();
                let y = b.clone();
                assert(cloned(*a, x) && cloned(*b, y));
                let c = x + y;
                assert(cloned(*a, x) && cloned(*b, y) && (T::obeys_add_spec() ==> c == x.add_spec(y)));
                c
            })
    }
}

impl<'a, T: Clone + core::ops::Add<Output = T>> vstd::std_specs::ops::AddSpecImpl<&'a NDArray<T>> for &'a NDArray<T> {
    open spec fn obeys_add_spec() -> bool {
        false
    }

    open spec fn add_req(self, rhs: &'a NDArray<T>) -> bool {
        forall|i: int| 0 <= i < self@.len() && i < rhs@.len() ==> clones_add(self@[i], rhs@[i])
    }

    open spec fn add_spec(self, rhs: &'a NDArray<T>) -> NDArray<T> {
        *self
    }
}

/// Every clone of `a` may be reduced by every clone of `b`.
pub open spec fn clones_sub<T: Clone + core::ops::Sub<Output = T>>(a: T, b: T) -> bool {
    forall|x: T, y: T| #[trigger] cloned(a, x) && #[trigger] cloned(b, y) ==> x.sub_req(y)
}

/// `c` is the difference of a clone of `a` and a clone of `b`, as far as
/// the element type states its operator.
pub open spec fn sub_of<T: Clone + core::ops::Sub<Output = T>>(a: T, b: T, c: T) -> bool {
    exists|x: T, y: T|
        #[trigger] cloned(a, x) && #[trigger] cloned(b, y) && (T::obeys_sub_spec() ==> c
            == x.sub_spec(y))
}

/// Elementwise `-`: the result has the shape of the left operand.
impl<T: Clone + core::ops::Sub<Output = T>> core::ops::Sub for NDArray<T> {
    type Output = NDArray<T>;

    fn sub(self, other: NDArray<T>) -> (r: NDArray<T>)
        ensures
            r.spec_shape() == self.spec_shape(),
            r.spec_multipliers() == self.spec_multipliers(),
            r@.len() == self@.len(),
            forall|i: int|
                0 <= i < r@.len() && i < other@.len() ==> sub_of(
                    self@[i],
                    other@[i],
                    #[trigger] r@[i],
                ),
            forall|i: int| other@.len() <= i < r@.len() ==> #[trigger] r@[i] == self@[i],
    {
        let mut out = self;
        out.combine_assign(&other, &|a: &T, b: &T| -> (c: T)
            requires
                clones_sub(*a, *b),
            ensures
                sub_of(*a, *b, c),
            {
                let x = a.clone();
                let y = b.clone();
                assert(cloned(*a, x) && cloned(*b, y));
                let c = x - y;
                assert(cloned(*a, x) && cloned(*b, y) && (T::obeys_sub_spec() ==> c == x.sub_spec(y)));
                c
            });
        out
    }
}

impl<T: Clone + core::ops::Sub<Output = T>> vstd::std_specs::ops::SubSpecImpl for NDArray<T> {
    open spec fn obeys_sub_spec() -> bool {
        false
    }

    open spec fn sub_req(self, rhs: NDArray<T>) -> bool {
        forall|i: int| 0 <= i < self@.len() && i < rhs@.len() ==> clones_sub(self@[i], rhs@[i])
    }

    open spec fn sub_spec(self, rhs: NDArray<T>) -> NDArray<T> {
        self
    }
}

/// Elementwise `-` on borrowed operands: the result has the shape of the
/// left operand, and clones of its trailing elements.
impl<'a, T: Clone + core::ops::Sub<Output = T>> core::ops::Sub<&'a NDArray<T>> for &'a NDArray<T> {
    type Output = NDArray<T>;

    fn sub(self, other: &'a NDArray<T>) -> (r: NDArray<T>)
        ensures
            r.spec_shape() == self.spec_shape(),
            r.spec_multipliers() == self.spec_multipliers(),
            r@.len() == self@.len(),
            forall|i: int|
                0 <= i < r@.len() && i < other@.len() ==> sub_of(
                    self@[i],
                    other@[i],
                    #[trigger] r@[i],
                ),
            forall|i: int| other@.len() <= i < r@.len() ==> cloned(self@[i], #[trigger] r@[i]),
    {
        self.combine(other, &|a: &T, b: &T| -> (c: T)
            requires
                clones_sub(*a, *b),
            ensures
                sub_of(*a, *b, c),
            {
                let x = a.clone();
                let y = b.clone();
                assert(cloned(*a, x) && cloned(*b, y));
                let c = x - y;
                assert(cloned(*a, x) && cloned(*b, y) && (T::obeys_sub_spec() ==> c == x.sub_spec(y)));
                c
            })
    }
}

impl<'a, T: Clone + core::ops::Sub<Output = T>> vstd::std_specs::ops::SubSpecImpl<&'a NDArray<T>> for &'a NDArray<T> {
    open spec fn obeys_sub_spec() -> bool {
        false
    }

    open spec fn sub_req(self, rhs: &'a NDArray<T>) -> bool {
        forall|i: int| 0 <= i < self@.len() && i < rhs@.len() ==> clones_sub(self@[i], rhs@[i])
    }

    open spec fn sub_spec(self, rhs: &'a NDArray<T>) -> NDArray<T> {
        *self
    }
}

/// Every clone of `a` may be multiplied by every clone of `b`.
pub open spec fn clones_mul<T: Clone + core::ops::Mul<Output = T>>(a: T, b: T) -> bool {
    forall|x: T, y: T| #[trigger] cloned(a, x) && #[trigger] cloned(b, y) ==> x.mul_req(y)
}

/// `c` is the product of a clone of `a` and a clone of `b`, as far as
/// the element type states its operator.
pub open spec fn mul_of<T: Clone + core::ops::Mul<Output = T>>(a: T, b: T, c: T) -> bool {
    exists|x: T, y: T|
        #[trigger] cloned(a, x) && #[trigger] cloned(b, y) && (T::obeys_mul_spec() ==> c
            == x.mul_spec(y))
}

/// Elementwise `*`: the result has the shape of the left operand.
impl<T: Clone + core::ops::Mul<Output = T>> core::ops::Mul for NDArray<T> {
    type Output = NDArray<T>;

    fn mul(self, other: NDArray<T>) -> (r: NDArray<T>)
        ensures
            r.spec_shape() == self.spec_shape(),
            r.spec_multipliers() == self.spec_multipliers(),
            r@.len() == self@.len(),
            forall|i: int|
                0 <= i < r@.len() && i < other@.len() ==> mul_of(
                    self@[i],
                    other@[i],
                    #[trigger] r@[i],
                ),
            forall|i: int| other@.len() <= i < r@.len() ==> #[trigger] r@[i] == self@[i],
    {
        let mut out = self;
        out.combine_assign(&other, &|a: &T, b: &T| -> (c: T)
            requires
                clones_mul(*a, *b),
            ensures
                mul_of(*a, *b, c),
            {
                let x = a.clone();
                let y = b.clone();
                assert(cloned(*a, x) && cloned(*b, y));
                let c = x * y;
                assert(cloned(*a, x) && cloned(*b, y) && (T::obeys_mul_spec() ==> c == x.mul_spec(y)));
                c
            });
        out
    }
}

impl<T: Clone + core::ops::Mul<Output = T>> vstd::std_specs::ops::MulSpecImpl for NDArray<T> {
    open spec fn obeys_mul_spec() -> bool {
        false
    }

    open spec fn mul_req(self, rhs: NDArray<T>) -> bool {
        forall|i: int| 0 <= i < self@.len() && i < rhs@.len() ==> clones_mul(self@[i], rhs@[i])
    }

    open spec fn mul_spec(self, rhs: NDArray<T>) -> NDArray<T> {
        self
    }
}

/// Elementwise `*` on borrowed operands: the result has the shape of the
/// left operand, and clones of its trailing elements.
impl<'a, T: Clone + core::ops::Mul<Output = T>> core::ops::Mul<&'a NDArray<T>> for &'a NDArray<T> {
    type Output = NDArray<T>;

    fn mul(self, other: &'a NDArray<T>) -> (r: NDArray<T>)
        ensures
            r.spec_shape() == self.spec_shape(),
            r.spec_multipliers() == self.spec_multipliers(),
            r@.len() == self@.len(),
            forall|i: int|
                0 <= i < r@.len() && i < other@.len() ==> mul_of(
                    self@[i],
                    other@[i],
                    #[trigger] r@[i],
                ),
            forall|i: int| other@.len() <= i < r@.len() ==> cloned(self@[i], #[trigger] r@[i]),
    {
        self.combine(other, &|a: &T, b: &T| -> (c: T)
            requires
                clones_mul(*a, *b),
            ensures
                mul_of(*a, *b, c),
            {
                let x = a.clone();
                let y = b.clone();
                assert(cloned(*a, x) && cloned(*b, y));
                let c = x * y;
                assert(cloned(*a, x) && cloned(*b, y) && (T::obeys_mul_spec() ==> c == x.mul_spec(y)));
                c
            })
    }
}

impl<'a, T: Clone + core::ops::Mul<Output = T>> vstd::std_specs::ops::MulSpecImpl<&'a NDArray<T>> for &'a NDArray<T> {
    open spec fn obeys_mul_spec() -> bool {
        false
    }

    open spec fn mul_req(self, rhs: &'a NDArray<T>) -> bool {
        forall|i: int| 0 <= i < self@.len() && i < rhs@.len() ==> clones_mul(self@[i], rhs@[i])
    }

    open spec fn mul_spec(self, rhs: &'a NDArray<T>) -> NDArray<T> {
        *self
    }
}

/// Every clone of `a` may be divided by every clone of `b`.
pub open spec fn clones_div<T: Clone + core::ops::Div<Output = T>>(a: T, b: T) -> bool {
    forall|x: T, y: T| #[trigger] cloned(a, x) && #[trigger] cloned(b, y) ==> x.div_req(y)
}

/// `c` is the quotient of a clone of `a` and a clone of `b`, as far as
/// the element type states its operator.
pub open spec fn div_of<T: Clone + core::ops::Div<Output = T>>(a: T, b: T, c: T) -> bool {
    exists|x: T, y: T|
        #[trigger] cloned(a, x) && #[trigger] cloned(b, y) && (T::obeys_div_spec() ==> c
            == x.div_spec(y))
}

/// Elementwise `/`: the result has the shape of the left operand.
impl<T: Clone + core::ops::Div<Output = T>> core::ops::Div for NDArray<T> {
    type Output = NDArray<T>;

    fn div(self, other: NDArray<T>) -> (r: NDArray<T>)
        ensures
            r.spec_shape() == self.spec_shape(),
            r.spec_multipliers() == self.spec_multipliers(),
            r@.len() == self@.len(),
            forall|i: int|
                0 <= i < r@.len() && i < other@.len() ==> div_of(
                    self@[i],
                    other@[i],
                    #[trigger] r@[i],
                ),
            forall|i: int| other@.len() <= i < r@.len() ==> #[trigger] r@[i] == self@[i],
    {
        let mut out = self;
        out.combine_assign(&other, &|a: &T, b: &T| -> (c: T)
            requires
                clones_div(*a, *b),
            ensures
                div_of(*a, *b, c),
            {
                let x = a.clone();
                let y = b.clone();
                assert(cloned(*a, x) && cloned(*b, y));
                let c = x / y;
                assert(cloned(*a, x) && cloned(*b, y) && (T::obeys_div_spec() ==> c == x.div_spec(y)));
                c
            });
        out
    }
}

impl<T: Clone + core::ops::Div<Output = T>> vstd::std_specs::ops::DivSpecImpl for NDArray<T> {
    open spec fn obeys_div_spec() -> bool {
        false
    }

    open spec fn div_req(self, rhs: NDArray<T>) -> bool {
        forall|i: int| 0 <= i < self@.len() && i < rhs@.len() ==> clones_div(self@[i], rhs@[i])
    }

    open spec fn div_spec(self, rhs: NDArray<T>) -> NDArray<T> {
        self
    }
}

/// Elementwise `/` on borrowed operands: the result has the shape of the
/// left operand, and clones of its trailing elements.
impl<'a, T: Clone + core::ops::Div<Output = T>> core::ops::Div<&'a NDArray<T>> for &'a NDArray<T> {
    type Output = NDArray<T>;

    fn div(self, other: &'a NDArray<T>) -> (r: NDArray<T>)
        ensures
            r.spec_shape() == self.spec_shape(),
            r.spec_multipliers() == self.spec_multipliers(),
            r@.len() == self@.len(),
            forall|i: int|
                0 <= i < r@.len() && i < other@.len() ==> div_of(
                    self@[i],
                    other@[i],
                    #[trigger] r@[i],
                ),
            forall|i: int| other@.len() <= i < r@.len() ==> cloned(self@[i], #[trigger] r@[i]),
    {
        self.combine(other, &|a: &T, b: &T| -> (c: T)
            requires
                clones_div(*a, *b),
            ensures
                div_of(*a, *b, c),
            {
                let x = a.clone();
                let y = b.clone();
                assert(cloned(*a, x) && cloned(*b, y));
                let c = x / y;
                assert(cloned(*a, x) && cloned(*b, y) && (T::obeys_div_spec() ==> c == x.div_spec(y)));
                c
            })
    }
}

impl<'a, T: Clone + core::ops::Div<Output = T>> vstd::std_specs::ops::DivSpecImpl<&'a NDArray<T>> for &'a NDArray<T> {
    open spec fn obeys_div_spec() -> bool {
        false
    }

    open spec fn div_req(self, rhs: &'a NDArray<T>) -> bool {
        forall|i: int| 0 <= i < self@.len() && i < rhs@.len() ==> clones_div(self@[i], rhs@[i])
    }

    open spec fn div_spec(self, rhs: &'a NDArray<T>) -> NDArray<T> {
        *self
    }
}

} // verus!
