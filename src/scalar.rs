//! Identity elements of the numeric element types.

use vstd::prelude::*;

verus! {

use vstd::std_specs::ops::AddSpec;

/// Types with an additive identity.
pub trait Zero: Sized {
    /// The additive identity.
    spec fn spec_zero() -> Self;

    fn zero() -> (r: Self)
        ensures
            r == Self::spec_zero(),
    ;
}

/// Types with a unit (multiplicative identity).
pub trait One: Sized {
    /// The unit.
    spec fn spec_one() -> Self;

    fn one() -> (r: Self)
        ensures
            r == Self::spec_one(),
    ;
}

/// The `n`-th value of the ascending sequence that starts at zero and steps by one.
pub open spec fn counting<T: Zero + One + core::ops::Add<Output = T>>(n: nat) -> T
    decreases n,
{
    if n == 0 {
        T::spec_zero()
    } else {
        counting::<T>((n - 1) as nat).add_spec(T::spec_one())
    }
}

/// Counting from zero can take `n` steps of one without the addition failing.
pub open spec fn can_count<T: Zero + One + core::ops::Add<Output = T>>(n: nat) -> bool {
    forall|k: nat| k < n ==> (#[trigger] counting::<T>(k)).add_req(T::spec_one())
}

impl Zero for u8 {
    open spec fn spec_zero() -> u8 {
        0
    }

    fn zero() -> (r: u8) {
        0
    }
}

impl One for u8 {
    open spec fn spec_one() -> u8 {
        1
    }

    fn one() -> (r: u8) {
        1
    }
}

impl Zero for u16 {
    open spec fn spec_zero() -> u16 {
        0
    }

    fn zero() -> (r: u16) {
        0
    }
}

impl One for u16 {
    open spec fn spec_one() -> u16 {
        1
    }

    fn one() -> (r: u16) {
        1
    }
}

impl Zero for u32 {
    open spec fn spec_zero() -> u32 {
        0
    }

    fn zero() -> (r: u32) {
        0
    }
}

impl One for u32 {
    open spec fn spec_one() -> u32 {
        1
    }

    fn one() -> (r: u32) {
        1
    }
}

impl Zero for u64 {
    open spec fn spec_zero() -> u64 {
        0
    }

    fn zero() -> (r: u64) {
        0
    }
}

impl One for u64 {
    open spec fn spec_one() -> u64 {
        1
    }

    fn one() -> (r: u64) {
        1
    }
}

impl Zero for u128 {
    open spec fn spec_zero() -> u128 {
        0
    }

    fn zero() -> (r: u128) {
        0
    }
}

impl One for u128 {
    open spec fn spec_one() -> u128 {
        1
    }

    fn one() -> (r: u128) {
        1
    }
}

impl Zero for usize {
    open spec fn spec_zero() -> usize {
        0
    }

    fn zero() -> (r: usize) {
        0
    }
}

impl One for usize {
    open spec fn spec_one() -> usize {
        1
    }

    fn one() -> (r: usize) {
        1
    }
}

impl Zero for i8 {
    open spec fn spec_zero() -> i8 {
        0
    }

    fn zero() -> (r: i8) {
        0
    }
}

impl One for i8 {
    open spec fn spec_one() -> i8 {
        1
    }

    fn one() -> (r: i8) {
        1
    }
}

impl Zero for i16 {
    open spec fn spec_zero() -> i16 {
        0
    }

    fn zero() -> (r: i16) {
        0
    }
}

impl One for i16 {
    open spec fn spec_one() -> i16 {
        1
    }

    fn one() -> (r: i16) {
        1
    }
}

impl Zero for i32 {
    open spec fn spec_zero() -> i32 {
        0
    }

    fn zero() -> (r: i32) {
        0
    }
}

impl One for i32 {
    open spec fn spec_one() -> i32 {
        1
    }

    fn one() -> (r: i32) {
        1
    }
}

impl Zero for i64 {
    open spec fn spec_zero() -> i64 {
        0
    }

    fn zero() -> (r: i64) {
        0
    }
}

impl One for i64 {
    open spec fn spec_one() -> i64 {
        1
    }

    fn one() -> (r: i64) {
        1
    }
}

impl Zero for i128 {
    open spec fn spec_zero() -> i128 {
        0
    }

    fn zero() -> (r: i128) {
        0
    }
}

impl One for i128 {
    open spec fn spec_one() -> i128 {
        1
    }

    fn one() -> (r: i128) {
        1
    }
}

impl Zero for isize {
    open spec fn spec_zero() -> isize {
        0
    }

    fn zero() -> (r: isize) {
        0
    }
}

impl One for isize {
    open spec fn spec_one() -> isize {
        1
    }

    fn one() -> (r: isize) {
        1
    }
}

/// Counting in `usize` gives the step number itself, as far as it is representable.
pub proof fn lemma_counting_usize(n: nat)
    requires
        n <= usize::MAX,
    ensures
        counting::<usize>(n) == n as usize,
        can_count::<usize>(n),
    decreases n,
{
    if n > 0 {
        lemma_counting_usize((n - 1) as nat);
    }
    assert forall|k: nat| k < n implies (#[trigger] counting::<usize>(k)).add_req(1usize) by {
        lemma_counting_usize(k);
    }
}

} // verus!
