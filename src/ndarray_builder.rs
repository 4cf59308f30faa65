//! A builder for two-dimensional arrays, seeded either with explicit values
//! or with the ascending sequence zero, one, two, ...

use vstd::prelude::*;

verus! {

use crate::ndarray::NDArray;
use crate::scalar::{Zero, One, counting, can_count};
use crate::shape::{product, suffix_product, lemma_suffix_product_step, lemma_suffix_product_end};
use vstd::std_specs::ops::AddSpec;

/// Width, height and, optionally, the values of a two-dimensional array to build.
pub struct NDArrayBuilder<T> {
    width: usize,
    height: usize,
    values: Option<Vec<T>>,
}

/// `x` is what the builder puts at flat position `k`: the `k`-th explicit
/// value where there are values and `k` is in range (nothing is said of a
/// position past the values), else the `k`-th step of counting from zero.
pub open spec fn seeded<T: Zero + One + core::ops::Add<Output = T>>(
    values: Option<Seq<T>>,
    k: int,
    x: T,
) -> bool {
    match values {
        None => x == counting::<T>(k as nat),
        Some(v) => k < v.len() ==> x == v[k],
    }
}

/// What counting needs to fill `n` places: addition is the plain one, and
/// every step before the last can be taken.
pub open spec fn can_fill<T: Zero + One + core::ops::Add<Output = T>>(n: nat) -> bool {
    &&& T::obeys_add_spec()
    &&& n > 0 ==> can_count::<T>((n - 1) as nat)
}

impl<T> NDArrayBuilder<T> {
    pub closed spec fn spec_width(&self) -> usize {
        self.width
    }

    pub closed spec fn spec_height(&self) -> usize {
        self.height
    }

    /// The explicit values, if any were given.
    pub closed spec fn spec_values(&self) -> Option<Seq<T>> {
        match self.values {
            Some(v) => Some(v@),
            None => None,
        }
    }

    /// A builder for a 1 by 1 array with no explicit values.
    pub fn new() -> (r: Self)
        ensures
            r.spec_width() == 1,
            r.spec_height() == 1,
            r.spec_values() is None,
    {
        NDArrayBuilder { width: 1usize, height: 1usize, values: None }
    }

    /// Number of elements: width times height.
    pub fn len(&self) -> (r: usize)
        requires
            self.spec_width() * self.spec_height() <= usize::MAX,
        ensures
            r == self.spec_width() * self.spec_height(),
    {
        self.width * self.height
    }

    /// Sets the width (length of each row) and height (number of rows).
    pub fn size(&mut self, width: usize, height: usize) -> (r: &mut Self)
        ensures
            r.spec_width() == width,
            r.spec_height() == height,
            r.spec_values() == old(self).spec_values(),
            *final(self) == *final(r),
    {
        self.width = width;
        self.height = height;
        self
    }

    /// Sets the explicit values, laid out row by row.
    pub fn values(&mut self, values: Vec<T>) -> (r: &mut Self)
        ensures
            r.spec_width() == old(self).spec_width(),
            r.spec_height() == old(self).spec_height(),
            r.spec_values() == Some(values@),
            *final(self) == *final(r),
    {
        self.values = Some(values);
        self
    }
}

impl<T: Default + Copy + Zero + One + core::ops::Add<Output = T>> NDArrayBuilder<T> {
    /// Rows of `width` elements, `height` of them, filled row by row from
    /// the explicit values (as far as they go) or by counting from zero.
    pub fn build_raw(&self) -> (r: (usize, usize, Vec<Vec<T>>))
        requires
            self.spec_width() * self.spec_height() <= usize::MAX,
            self.spec_values() is None ==> can_fill::<T>(
                (self.spec_width() * self.spec_height()) as nat,
            ),
        ensures
            r.0 == self.spec_width(),
            r.1 == self.spec_height(),
            r.2@.len() == self.spec_height(),
            forall|i: int| 0 <= i < r.2@.len() ==> (#[trigger] r.2@[i])@.len() == self.spec_width(),
            forall|i: int, j: int|
                0 <= i < self.spec_height() && 0 <= j < self.spec_width() ==> seeded(
                    self.spec_values(),
                    i * self.spec_width() + j,
                    #[trigger] r.2@[i]@[j],
                ),
    {
        let width = self.width;
        let height = self.height;
        let n = width * height;
        let mut rows: Vec<Vec<T>> = Vec::new();
        let mut value = T::zero();
        let mut k: usize = 0;
        let mut i: usize = 0;
        while i < height
            invariant
                width == self.spec_width(),
                height == self.spec_height(),
                n == width * height,
                self.spec_values() is None ==> can_fill::<T>(n as nat),
                i <= height,
                k == i * width,
                k <= n,
                self.spec_values() is None && k < n ==> value == counting::<T>(k as nat),
                rows@.len() == i,
                forall|a: int| 0 <= a < i ==> (#[trigger] rows@[a])@.len() == width,
                forall|a: int, b: int|
                    0 <= a < i && 0 <= b < width ==> seeded(
                        self.spec_values(),
                        a * width + b,
                        #[trigger] rows@[a]@[b],
                    ),
            decreases height - i,
        {
            proof {
                assert((i + 1) * width == i * width + width) by (nonlinear_arith);
                assert((i + 1) * width <= height * width) by (nonlinear_arith)
                    requires
                        i + 1 <= height,
                ;
            }
            let mut row: Vec<T> = Vec::new();
            let mut j: usize = 0;
            while j < width
                invariant
                    width == self.spec_width(),
                    height == self.spec_height(),
                    n == width * height,
                    self.spec_values() is None ==> can_fill::<T>(n as nat),
                    i < height,
                    i * width + width <= n,
                    j <= width,
                    k == i * width + j,
                    self.spec_values() is None && k < n ==> value == counting::<T>(k as nat),
                    row@.len() == j,
                    forall|b: int|
                        0 <= b < j ==> seeded(
                            self.spec_values(),
                            i * width + b,
                            #[trigger] row@[b],
                        ),
                decreases width - j,
            {
                let x = match &self.values {
                    Some(v) => {
                        if k < v.len() {
                            v[k]
                        } else {
                            T::default()
                        }
                    },
                    None => value,
                };
                row.push(x);
                if self.values.is_none() && k + 1 < n {
                    assert(counting::<T>(k as nat).add_req(T::spec_one()));
                    value = value + T::one();
                }
                k = k + 1;
                j = j + 1;
            }
            rows.push(row);
            i = i + 1;
        }
        (width, height, rows)
    }

    /// A `height` by `width` shaped array holding, in flat order, what
    /// `build_raw` lays out row by row.
    pub fn build(&self) -> (r: NDArray<T>)
        requires
            self.spec_width() * self.spec_height() <= usize::MAX,
            self.spec_values() is None ==> can_fill::<T>(
                (self.spec_width() * self.spec_height()) as nat,
            ),
        ensures
            r.wf(),
            r.sized(),
            r.spec_shape() == seq![self.spec_height(), self.spec_width()],
            forall|k: int| 0 <= k < r@.len() ==> seeded(self.spec_values(), k, #[trigger] r@[k]),
    {
        let dims: [usize; 2] = [self.height, self.width];
        proof {
            lemma_suffix_product_end(dims@);
            lemma_suffix_product_step(dims@, 1);
            lemma_suffix_product_step(dims@, 0);
            assert(suffix_product(dims@, 2) == 1);
            assert(suffix_product(dims@, 1) == self.spec_width());
            assert(suffix_product(dims@, 0) == self.spec_height() * self.spec_width());
            assert(self.spec_height() * self.spec_width() == self.spec_width() * self.spec_height())
                by (nonlinear_arith);
            assert forall|k: int| 0 <= k <= dims@.len() implies #[trigger] suffix_product(
                dims@,
                k,
            ) <= usize::MAX by {}
            assert(product(dims@) == suffix_product(dims@, 0)) by {
                assert(dims@.subrange(0, 2) =~= dims@);
            }
        }
        let mut array = NDArray::new_with_shape(&dims);
        let n = array.len();
        match &self.values {
            Some(v) => {
                let mut k: usize = 0;
                while k < n
                    invariant
                        array.wf(),
                        array.sized(),
                        array.spec_shape() == dims@,
                        n == array@.len(),
                        self.spec_values() == Some(v@),
                        k <= n,
                        forall|a: int| 0 <= a < k ==> seeded(self.spec_values(), a, #[trigger] array@[a]),
                    decreases n - k,
                {
                    if k < v.len() {
                        let flat: &mut [T] = &mut array;
                        flat[k] = v[k];
                    }
                    k = k + 1;
                }
            },
            None => {
                array.count();
            },
        }
        array
    }
}

} // verus!
