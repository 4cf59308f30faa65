//! A plain owned vector of values with elementwise operators; an array of
//! arrays models a matrix.

use vstd::prelude::*;

verus! {

use crate::elementwise::{can_zip, zipped, zip_with, zip_with_assign, map_with};
use vstd::std_specs::ops::{
    AddSpec, BitAndSpec, BitOrSpec, BitXorSpec, DivSpec, MulSpec, NegSpec, NotSpec, RemSpec,
    ShlSpec, ShrSpec, SubSpec,
};

/// An owned flat buffer with no shape.
#[derive(Clone)]
pub struct DArray<T> {
    array: Vec<T>,
}

impl<T> View for DArray<T> {
    type V = Seq<T>;

    closed spec fn view(&self) -> Seq<T> {
        self.array@
    }
}

impl<T> Default for DArray<T> {
    /// The empty array.
    fn default() -> (r: Self)
        ensures
            r@.len() == 0,
    {
        DArray { array: Vec::new() }
    }
}

impl<T: Default> DArray<T> {
    /// A buffer of `size` default values.
    pub fn new(size: usize) -> (r: Self)
        ensures
            r@.len() == size,
    {
        let mut array: Vec<T> = Vec::new();
        while array.len() < size
            invariant
                array@.len() <= size,
            decreases size - array@.len(),
        {
            array.push(T::default());
        }
        DArray { array }
    }
}

impl<T> DArray<T> {
    /// Number of elements.
    pub fn len(&self) -> (r: usize)
        ensures
            r == self@.len(),
    {
        self.array.len()
    }

    /// A new array, as long as the shorter operand, holding `f(self[i], other[i])`.
    pub fn combine<F: Fn(&T, &T) -> T>(&self, other: &DArray<T>, f: &F) -> (r: DArray<T>)
        requires
            can_zip(self@, other@, *f),
        ensures
            r@.len() == vstd::math::min(self@.len() as int, other@.len() as int),
            zipped(self@, other@, *f, r@, r@.len() as int),
    {
        DArray { array: zip_with(self.array.as_slice(), other.array.as_slice(), f) }
    }

    /// Replaces `self[i]` by `f(self[i], other[i])` where both have a position
    /// `i`; trailing elements of `self` are left as they are.
    pub fn combine_assign<F: Fn(&T, &T) -> T>(&mut self, other: &DArray<T>, f: &F)
        requires
            can_zip(old(self)@, other@, *f),
        ensures
            final(self)@.len() == old(self)@.len(),
            zipped(
                old(self)@,
                other@,
                *f,
                final(self)@,
                vstd::math::min(old(self)@.len() as int, other@.len() as int),
            ),
            forall|i: int|
                other@.len() <= i < old(self)@.len() ==> #[trigger] final(self)@[i] == old(
                    self,
                )@[i],
    {
        zip_with_assign(&mut self.array, other.array.as_slice(), f);
    }

    /// A new array holding `f(self[i])` for each element.
    pub fn map<F: Fn(&T) -> T>(&self, f: &F) -> (r: DArray<T>)
        requires
            forall|i: int| 0 <= i < self@.len() ==> f.requires((&self@[i],)),
        ensures
            r@.len() == self@.len(),
            forall|i: int| 0 <= i < self@.len() ==> f.ensures((&self@[i],), #[trigger] r@[i]),
    {
        let v = self.array.as_slice();
        assert(v@ == self@);
        DArray { array: map_with(v, f) }
    }
}

impl<T> core::ops::Deref for DArray<T> {
    type Target = [T];

    fn deref(&self) -> (r: &[T])
        ensures
            r@ == self@,
    {
        self.array.as_slice()
    }
}

impl<T> core::ops::DerefMut for DArray<T> {
    fn deref_mut(&mut self) -> (r: &mut [T])
        ensures
            r@ == old(self)@,
            final(self)@ == final(r)@,
    {
        self.array.as_mut_slice()
    }
}

/// Every clone of `a` may be added to every clone of `b`.
pub open spec fn clones_add<T: Clone + core::ops::Add<Output = T>>(a: T, b: T) -> bool {
    forall|x: T, y: T| #[trigger] cloned(a, x) && #[trigger] cloned(b, y) ==> x.add_req(y)
}

/// `c` is the sum of a clone of `a` and a clone of `b`, as far as
/// the element type states its operator.
pub open spec fn add_of<T: Clone + core::ops::Add<Output = T>>(a: T, b: T, c: T) -> bool {
    exists|x: T, y: T|
        #[trigger] cloned(a, x) && #[trigger] cloned(b, y) && (T::obeys_add_spec() ==> c
            == x.add_spec(y))
}

/// Elementwise `+` over the positions both operands have.
impl<T: Clone + core::ops::Add<Output = T>> core::ops::Add for DArray<T> {
    type Output = DArray<T>;

    fn add(self, other: DArray<T>) -> (r: DArray<T>)
        ensures
            r@.len() == vstd::math::min(self@.len() as int, other@.len() as int),
            forall|i: int| 0 <= i < r@.len() ==> add_of(self@[i], other@[i], #[trigger] r@[i]),
    {
        self.combine(&other, &|a: &T, b: &T| -> (c: T)
            requires
                clones_add(*a, *b),
            ensures
                add_of(*a, *b, c),
            {
                let x = a.clone();
                let y = b.clone();
                assert(cloned(*a, x) && cloned(*b, y));
                let c = x + y;
                assert(cloned(*a, x) && cloned(*b, y) && (T::obeys_add_spec() ==> c == x.add_spec(y)));
                c
            })
    }
}

impl<T: Clone + core::ops::Add<Output = T>> vstd::std_specs::ops::AddSpecImpl for DArray<T> {
    open spec fn obeys_add_spec() -> bool {
        false
    }

    open spec fn add_req(self, rhs: DArray<T>) -> bool {
        forall|i: int| 0 <= i < self@.len() && i < rhs@.len() ==> clones_add(self@[i], rhs@[i])
    }

    open spec fn add_spec(self, rhs: DArray<T>) -> DArray<T> {
        self
    }
}

/// Every clone of `a` may be and-ed with every clone of `b`.
pub open spec fn clones_bitand<T: Clone + core::ops::BitAnd<Output = T>>(a: T, b: T) -> bool {
    forall|x: T, y: T| #[trigger] cloned(a, x) && #[trigger] cloned(b, y) ==> x.bitand_req(y)
}

/// `c` is the bitwise and of a clone of `a` and a clone of `b`, as far as
/// the element type states its operator.
pub open spec fn bitand_of<T: Clone + core::ops::BitAnd<Output = T>>(a: T, b: T, c: T) -> bool {
    exists|x: T, y: T|
        #[trigger] cloned(a, x) && #[trigger] cloned(b, y) && (T::obeys_bitand_spec() ==> c
            == x.bitand_spec(y))
}

/// Elementwise `&` over the positions both operands have.
impl<T: Clone + core::ops::BitAnd<Output = T>> core::ops::BitAnd for DArray<T> {
    type Output = DArray<T>;

    fn bitand(self, other: DArray<T>) -> (r: DArray<T>)
        ensures
            r@.len() == vstd::math::min(self@.len() as int, other@.len() as int),
            forall|i: int| 0 <= i < r@.len() ==> bitand_of(self@[i], other@[i], #[trigger] r@[i]),
    {
        self.combine(&other, &|a: &T, b: &T| -> (c: T)
            requires
                clones_bitand(*a, *b),
            ensures
                bitand_of(*a, *b, c),
            {
                let x = a.clone();
                let y = b.clone();
                assert(cloned(*a, x) && cloned(*b, y));
                let c = x & y;
                assert(cloned(*a, x) && cloned(*b, y) && (T::obeys_bitand_spec() ==> c == x.bitand_spec(y)));
                c
            })
    }
}

impl<T: Clone + core::ops::BitAnd<Output = T>> vstd::std_specs::ops::BitAndSpecImpl for DArray<T> {
    open spec fn obeys_bitand_spec() -> bool {
        false
    }

    open spec fn bitand_req(self, rhs: DArray<T>) -> bool {
        forall|i: int| 0 <= i < self@.len() && i < rhs@.len() ==> clones_bitand(self@[i], rhs@[i])
    }

    open spec fn bitand_spec(self, rhs: DArray<T>) -> DArray<T> {
        self
    }
}

/// Every clone of `a` may be or-ed with every clone of `b`.
pub open spec fn clones_bitor<T: Clone + core::ops::BitOr<Output = T>>(a: T, b: T) -> bool {
    forall|x: T, y: T| #[trigger] cloned(a, x) && #[trigger] cloned(b, y) ==> x.bitor_req(y)
}

/// `c` is the bitwise or of a clone of `a` and a clone of `b`, as far as
/// the element type states its operator.
pub open spec fn bitor_of<T: Clone + core::ops::BitOr<Output = T>>(a: T, b: T, c: T) -> bool {
    exists|x: T, y: T|
        #[trigger] cloned(a, x) && #[trigger] cloned(b, y) && (T::obeys_bitor_spec() ==> c
            == x.bitor_spec(y))
}

/// Elementwise `|` over the positions both operands have.
impl<T: Clone + core::ops::BitOr<Output = T>> core::ops::BitOr for DArray<T> {
    type Output = DArray<T>;

    fn bitor(self, other: DArray<T>) -> (r: DArray<T>)
        ensures
            r@.len() == vstd::math::min(self@.len() as int, other@.len() as int),
            forall|i: int| 0 <= i < r@.len() ==> bitor_of(self@[i], other@[i], #[trigger] r@[i]),
    {
        self.combine(&other, &|a: &T, b: &T| -> (c: T)
            requires
                clones_bitor(*a, *b),
            ensures
                bitor_of(*a, *b, c),
            {
                let x = a.clone();
                let y = b.clone();
                assert(cloned(*a, x) && cloned(*b, y));
                let c = x | y;
                assert(cloned(*a, x) && cloned(*b, y) && (T::obeys_bitor_spec() ==> c == x.bitor_spec(y)));
                c
            })
    }
}

impl<T: Clone + core::ops::BitOr<Output = T>> vstd::std_specs::ops::BitOrSpecImpl for DArray<T> {
    open spec fn obeys_bitor_spec() -> bool {
        false
    }

    open spec fn bitor_req(self, rhs: DArray<T>) -> bool {
        forall|i: int| 0 <= i < self@.len() && i < rhs@.len() ==> clones_bitor(self@[i], rhs@[i])
    }

    open spec fn bitor_spec(self, rhs: DArray<T>) -> DArray<T> {
        self
    }
}

/// Every clone of `a` may be xor-ed with every clone of `b`.
pub open spec fn clones_bitxor<T: Clone + core::ops::BitXor<Output = T>>(a: T, b: T) -> bool {
    forall|x: T, y: T| #[trigger] cloned(a, x) && #[trigger] cloned(b, y) ==> x.bitxor_req(y)
}

/// `c` is the bitwise exclusive or of a clone of `a` and a clone of `b`, as far as
/// the element type states its operator.
pub open spec fn bitxor_of<T: Clone + core::ops::BitXor<Output = T>>(a: T, b: T, c: T) -> bool {
    exists|x: T, y: T|
        #[trigger] cloned(a, x) && #[trigger] cloned(b, y) && (T::obeys_bitxor_spec() ==> c
            == x.bitxor_spec(y))
}

/// Elementwise `^` over the positions both operands have.
impl<T: Clone + core::ops::BitXor<Output = T>> core::ops::BitXor for DArray<T> {
    type Output = DArray<T>;

    fn bitxor(self, other: DArray<T>) -> (r: DArray<T>)
        ensures
            r@.len() == vstd::math::min(self@.len() as int, other@.len() as int),
            forall|i: int| 0 <= i < r@.len() ==> bitxor_of(self@[i], other@[i], #[trigger] r@[i]),
    {
        self.combine(&other, &|a: &T, b: &T| -> (c: T)
            requires
                clones_bitxor(*a, *b),
            ensures
                bitxor_of(*a, *b, c),
            {
                let x = a.clone();
                let y = b.clone();
                assert(cloned(*a, x) && cloned(*b, y));
                let c = x ^ y;
                assert(cloned(*a, x) && cloned(*b, y) && (T::obeys_bitxor_spec() ==> c == x.bitxor_spec(y)));
                c
            })
    }
}

impl<T: Clone + core::ops::BitXor<Output = T>> vstd::std_specs::ops::BitXorSpecImpl for DArray<T> {
    open spec fn obeys_bitxor_spec() -> bool {
        false
    }

    open spec fn bitxor_req(self, rhs: DArray<T>) -> bool {
        forall|i: int| 0 <= i < self@.len() && i < rhs@.len() ==> clones_bitxor(self@[i], rhs@[i])
    }

    open spec fn bitxor_spec(self, rhs: DArray<T>) -> DArray<T> {
        self
    }
}

/// Every clone of `a` may be divided by every clone of `b`.
pub open spec fn clones_div<T: Clone + core::ops::Div<Output = T>>(a: T, b: T) -> bool {
    forall|x: T, y: T| #[trigger] cloned(a, x) && #[trigger] cloned(b, y) ==> x.div_req(y)
}

/// `c` is the quotient of a clone of `a` and a clone of `b`, as far as
/// the element type states its operator.
pub open spec fn div_of<T: Clone + core::ops::Div<Output = T>>(a: T, b: T, c: T) -> bool {
    exists|x: T, y: T|
        #[trigger] cloned(a, x) && #[trigger] cloned(b, y) && (T::obeys_div_spec() ==> c
            == x.div_spec(y))
}

/// Elementwise `/` over the positions both operands have.
impl<T: Clone + core::ops::Div<Output = T>> core::ops::Div for DArray<T> {
    type Output = DArray<T>;

    fn div(self, other: DArray<T>) -> (r: DArray<T>)
        ensures
            r@.len() == vstd::math::min(self@.len() as int, other@.len() as int),
            forall|i: int| 0 <= i < r@.len() ==> div_of(self@[i], other@[i], #[trigger] r@[i]),
    {
        self.combine(&other, &|a: &T, b: &T| -> (c: T)
            requires
                clones_div(*a, *b),
            ensures
                div_of(*a, *b, c),
            {
                let x = a.clone();
                let y = b.clone();
                assert(cloned(*a, x) && cloned(*b, y));
                let c = x / y;
                assert(cloned(*a, x) && cloned(*b, y) && (T::obeys_div_spec() ==> c == x.div_spec(y)));
                c
            })
    }
}

impl<T: Clone + core::ops::Div<Output = T>> vstd::std_specs::ops::DivSpecImpl for DArray<T> {
    open spec fn obeys_div_spec() -> bool {
        false
    }

    open spec fn div_req(self, rhs: DArray<T>) -> bool {
        forall|i: int| 0 <= i < self@.len() && i < rhs@.len() ==> clones_div(self@[i], rhs@[i])
    }

    open spec fn div_spec(self, rhs: DArray<T>) -> DArray<T> {
        self
    }
}

/// Every clone of `a` may be multiplied by every clone of `b`.
pub open spec fn clones_mul<T: Clone + core::ops::Mul<Output = T>>(a: T, b: T) -> bool {
    forall|x: T, y: T| #[trigger] cloned(a, x) && #[trigger] cloned(b, y) ==> x.mul_req(y)
}

/// `c` is the product of a clone of `a` and a clone of `b`, as far as
/// the element type states its operator.
pub open spec fn mul_of<T: Clone + core::ops::Mul<Output = T>>(a: T, b: T, c: T) -> bool {
    exists|x: T, y: T|
        #[trigger] cloned(a, x) && #[trigger] cloned(b, y) && (T::obeys_mul_spec() ==> c
            == x.mul_spec(y))
}

/// Elementwise `*` over the positions both operands have.
impl<T: Clone + core::ops::Mul<Output = T>> core::ops::Mul for DArray<T> {
    type Output = DArray<T>;

    fn mul(self, other: DArray<T>) -> (r: DArray<T>)
        ensures
            r@.len() == vstd::math::min(self@.len() as int, other@.len() as int),
            forall|i: int| 0 <= i < r@.len() ==> mul_of(self@[i], other@[i], #[trigger] r@[i]),
    {
        self.combine(&other, &|a: &T, b: &T| -> (c: T)
            requires
                clones_mul(*a, *b),
            ensures
                mul_of(*a, *b, c),
            {
                let x = a.clone();
                let y = b.clone();
                assert(cloned(*a, x) && cloned(*b, y));
                let c = x * y;
                assert(cloned(*a, x) && cloned(*b, y) && (T::obeys_mul_spec() ==> c == x.mul_spec(y)));
                c
            })
    }
}

impl<T: Clone + core::ops::Mul<Output = T>> vstd::std_specs::ops::MulSpecImpl for DArray<T> {
    open spec fn obeys_mul_spec() -> bool {
        false
    }

    open spec fn mul_req(self, rhs: DArray<T>) -> bool {
        forall|i: int| 0 <= i < self@.len() && i < rhs@.len() ==> clones_mul(self@[i], rhs@[i])
    }

    open spec fn mul_spec(self, rhs: DArray<T>) -> DArray<T> {
        self
    }
}

/// Every clone of `a` may be reduced modulo every clone of `b`.
pub open spec fn clones_rem<T: Clone + core::ops::Rem<Output = T>>(a: T, b: T) -> bool {
    forall|x: T, y: T| #[trigger] cloned(a, x) && #[trigger] cloned(b, y) ==> x.rem_req(y)
}

/// `c` is the remainder of a clone of `a` and a clone of `b`, as far as
/// the element type states its operator.
pub open spec fn rem_of<T: Clone + core::ops::Rem<Output = T>>(a: T, b: T, c: T) -> bool {
    exists|x: T, y: T|
        #[trigger] cloned(a, x) && #[trigger] cloned(b, y) && (T::obeys_rem_spec() ==> c
            == x.rem_spec(y))
}

/// Elementwise `%` over the positions both operands have.
impl<T: Clone + core::ops::Rem<Output = T>> core::ops::Rem for DArray<T> {
    type Output = DArray<T>;

    fn rem(self, other: DArray<T>) -> (r: DArray<T>)
        ensures
            r@.len() == vstd::math::min(self@.len() as int, other@.len() as int),
            forall|i: int| 0 <= i < r@.len() ==> rem_of(self@[i], other@[i], #[trigger] r@[i]),
    {
        self.combine(&other, &|a: &T, b: &T| -> (c: T)
            requires
                clones_rem(*a, *b),
            ensures
                rem_of(*a, *b, c),
            {
                let x = a.clone();
                let y = b.clone();
                assert(cloned(*a, x) && cloned(*b, y));
                let c = x % y;
                assert(cloned(*a, x) && cloned(*b, y) && (T::obeys_rem_spec() ==> c == x.rem_spec(y)));
                c
            })
    }
}

impl<T: Clone + core::ops::Rem<Output = T>> vstd::std_specs::ops::RemSpecImpl for DArray<T> {
    open spec fn obeys_rem_spec() -> bool {
        false
    }

    open spec fn rem_req(self, rhs: DArray<T>) -> bool {
        forall|i: int| 0 <= i < self@.len() && i < rhs@.len() ==> clones_rem(self@[i], rhs@[i])
    }

    open spec fn rem_spec(self, rhs: DArray<T>) -> DArray<T> {
        self
    }
}

/// Every clone of `a` may be shifted left by every clone of `b`.
pub open spec fn clones_shl<T: Clone + core::ops::Shl<Output = T>>(a: T, b: T) -> bool {
    forall|x: T, y: T| #[trigger] cloned(a, x) && #[trigger] cloned(b, y) ==> x.shl_req(y)
}

/// `c` is the left shift of a clone of `a` and a clone of `b`, as far as
/// the element type states its operator.
pub open spec fn shl_of<T: Clone + core::ops::Shl<Output = T>>(a: T, b: T, c: T) -> bool {
    exists|x: T, y: T|
        #[trigger] cloned(a, x) && #[trigger] cloned(b, y) && (T::obeys_shl_spec() ==> c
            == x.shl_spec(y))
}

/// Elementwise `<<` over the positions both operands have.
impl<T: Clone + core::ops::Shl<Output = T>> core::ops::Shl for DArray<T> {
    type Output = DArray<T>;

    fn shl(self, other: DArray<T>) -> (r: DArray<T>)
        ensures
            r@.len() == vstd::math::min(self@.len() as int, other@.len() as int),
            forall|i: int| 0 <= i < r@.len() ==> shl_of(self@[i], other@[i], #[trigger] r@[i]),
    {
        self.combine(&other, &|a: &T, b: &T| -> (c: T)
            requires
                clones_shl(*a, *b),
            ensures
                shl_of(*a, *b, c),
            {
                let x = a.clone();
                let y = b.clone();
                assert(cloned(*a, x) && cloned(*b, y));
                let c = x << y;
                assert(cloned(*a, x) && cloned(*b, y) && (T::obeys_shl_spec() ==> c == x.shl_spec(y)));
                c
            })
    }
}

impl<T: Clone + core::ops::Shl<Output = T>> vstd::std_specs::ops::ShlSpecImpl for DArray<T> {
    open spec fn obeys_shl_spec() -> bool {
        false
    }

    open spec fn shl_req(self, rhs: DArray<T>) -> bool {
        forall|i: int| 0 <= i < self@.len() && i < rhs@.len() ==> clones_shl(self@[i], rhs@[i])
    }

    open spec fn shl_spec(self, rhs: DArray<T>) -> DArray<T> {
        self
    }
}

/// Every clone of `a` may be shifted right by every clone of `b`.
pub open spec fn clones_shr<T: Clone + core::ops::Shr<Output = T>>(a: T, b: T) -> bool {
    forall|x: T, y: T| #[trigger] cloned(a, x) && #[trigger] cloned(b, y) ==> x.shr_req(y)
}

/// `c` is the right shift of a clone of `a` and a clone of `b`, as far as
/// the element type states its operator.
pub open spec fn shr_of<T: Clone + core::ops::Shr<Output = T>>(a: T, b: T, c: T) -> bool {
    exists|x: T, y: T|
        #[trigger] cloned(a, x) && #[trigger] cloned(b, y) && (T::obeys_shr_spec() ==> c
            == x.shr_spec(y))
}

/// Elementwise `>>` over the positions both operands have.
impl<T: Clone + core::ops::Shr<Output = T>> core::ops::Shr for DArray<T> {
    type Output = DArray<T>;

    fn shr(self, other: DArray<T>) -> (r: DArray<T>)
        ensures
            r@.len() == vstd::math::min(self@.len() as int, other@.len() as int),
            forall|i: int| 0 <= i < r@.len() ==> shr_of(self@[i], other@[i], #[trigger] r@[i]),
    {
        self.combine(&other, &|a: &T, b: &T| -> (c: T)
            requires
                clones_shr(*a, *b),
            ensures
                shr_of(*a, *b, c),
            {
                let x = a.clone();
                let y = b.clone();
                assert(cloned(*a, x) && cloned(*b, y));
                let c = x >> y;
                assert(cloned(*a, x) && cloned(*b, y) && (T::obeys_shr_spec() ==> c == x.shr_spec(y)));
                c
            })
    }
}

impl<T: Clone + core::ops::Shr<Output = T>> vstd::std_specs::ops::ShrSpecImpl for DArray<T> {
    open spec fn obeys_shr_spec() -> bool {
        false
    }

    open spec fn shr_req(self, rhs: DArray<T>) -> bool {
        forall|i: int| 0 <= i < self@.len() && i < rhs@.len() ==> clones_shr(self@[i], rhs@[i])
    }

    open spec fn shr_spec(self, rhs: DArray<T>) -> DArray<T> {
        self
    }
}

/// Every clone of `a` may be reduced by every clone of `b`.
pub open spec fn clones_sub<T: Clone + core::ops::Sub<Output = T>>(a: T, b: T) -> bool {
    forall|x: T, y: T| #[trigger] cloned(a, x) && #[trigger] cloned(b, y) ==> x.sub_req(y)
}

/// `c` is the difference of a clone of `a` and a clone of `b`, as far as
/// the element type states its operator.
pub open spec fn sub_of<T: Clone + core::ops::Sub<Output = T>>(a: T, b: T, c: T) -> bool {
    exists|x: T, y: T|
        #[trigger] cloned(a, x) && #[trigger] cloned(b, y) && (T::obeys_sub_spec() ==> c
            == x.sub_spec(y))
}

/// Elementwise `-` over the positions both operands have.
impl<T: Clone + core::ops::Sub<Output = T>> core::ops::Sub for DArray<T> {
    type Output = DArray<T>;

    fn sub(self, other: DArray<T>) -> (r: DArray<T>)
        ensures
            r@.len() == vstd::math::min(self@.len() as int, other@.len() as int),
            forall|i: int| 0 <= i < r@.len() ==> sub_of(self@[i], other@[i], #[trigger] r@[i]),
    {
        self.combine(&other, &|a: &T, b: &T| -> (c: T)
            requires
                clones_sub(*a, *b),
            ensures
                sub_of(*a, *b, c),
            {
                let x = a.clone();
                let y = b.clone();
                assert(cloned(*a, x) && cloned(*b, y));
                let c = x - y;
                assert(cloned(*a, x) && cloned(*b, y) && (T::obeys_sub_spec() ==> c == x.sub_spec(y)));
                c
            })
    }
}

impl<T: Clone + core::ops::Sub<Output = T>> vstd::std_specs::ops::SubSpecImpl for DArray<T> {
    open spec fn obeys_sub_spec() -> bool {
        false
    }

    open spec fn sub_req(self, rhs: DArray<T>) -> bool {
        forall|i: int| 0 <= i < self@.len() && i < rhs@.len() ==> clones_sub(self@[i], rhs@[i])
    }

    open spec fn sub_spec(self, rhs: DArray<T>) -> DArray<T> {
        self
    }
}

/// Every clone of `a` may be negated.
pub open spec fn clones_neg<T: Clone + core::ops::Neg<Output = T>>(a: T) -> bool {
    forall|x: T| #[trigger] cloned(a, x) ==> x.neg_req()
}

/// `c` is the negation of a clone of `a`, as far as the element type
/// states its operator.
pub open spec fn neg_of<T: Clone + core::ops::Neg<Output = T>>(a: T, c: T) -> bool {
    exists|x: T| #[trigger] cloned(a, x) && (T::obeys_neg_spec() ==> c == x.neg_spec())
}

/// Elementwise unary `-`.
impl<T: Clone + core::ops::Neg<Output = T>> core::ops::Neg for DArray<T> {
    type Output = DArray<T>;

    fn neg(self) -> (r: DArray<T>)
        ensures
            r@.len() == self@.len(),
            forall|i: int| 0 <= i < r@.len() ==> neg_of(self@[i], #[trigger] r@[i]),
    {
        self.map(&|a: &T| -> (c: T)
            requires
                clones_neg(*a),
            ensures
                neg_of(*a, c),
            {
                let x = a.clone();
                assert(cloned(*a, x));
                let c = core::ops::Neg::neg(x);
                assert(cloned(*a, x) && (T::obeys_neg_spec() ==> c == x.neg_spec()));
                c
            })
    }
}

impl<T: Clone + core::ops::Neg<Output = T>> vstd::std_specs::ops::NegSpecImpl for DArray<T> {
    open spec fn obeys_neg_spec() -> bool {
        false
    }

    open spec fn neg_req(self) -> bool {
        forall|i: int| 0 <= i < self@.len() ==> clones_neg(self@[i])
    }

    open spec fn neg_spec(self) -> DArray<T> {
        self
    }
}

/// Every clone of `a` may be complemented.
pub open spec fn clones_not<T: Clone + core::ops::Not<Output = T>>(a: T) -> bool {
    forall|x: T| #[trigger] cloned(a, x) ==> x.not_req()
}

/// `c` is the bitwise complement of a clone of `a`, as far as the element type
/// states its operator.
pub open spec fn not_of<T: Clone + core::ops::Not<Output = T>>(a: T, c: T) -> bool {
    exists|x: T| #[trigger] cloned(a, x) && (T::obeys_not_spec() ==> c == x.not_spec())
}

/// Elementwise unary `!`.
impl<T: Clone + core::ops::Not<Output = T>> core::ops::Not for DArray<T> {
    type Output = DArray<T>;

    fn not(self) -> (r: DArray<T>)
        ensures
            r@.len() == self@.len(),
            forall|i: int| 0 <= i < r@.len() ==> not_of(self@[i], #[trigger] r@[i]),
    {
        self.map(&|a: &T| -> (c: T)
            requires
                clones_not(*a),
            ensures
                not_of(*a, c),
            {
                let x = a.clone();
                assert(cloned(*a, x));
                let c = core::ops::Not::not(x);
                assert(cloned(*a, x) && (T::obeys_not_spec() ==> c == x.not_spec()));
                c
            })
    }
}

impl<T: Clone + core::ops::Not<Output = T>> vstd::std_specs::ops::NotSpecImpl for DArray<T> {
    open spec fn obeys_not_spec() -> bool {
        false
    }

    open spec fn not_req(self) -> bool {
        forall|i: int| 0 <= i < self@.len() ==> clones_not(self@[i])
    }

    open spec fn not_spec(self) -> DArray<T> {
        self
    }
}

} // verus!
