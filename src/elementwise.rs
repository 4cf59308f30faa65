//! Elementwise combination of flat buffers, parameterised by the operation.

use vstd::prelude::*;

verus! {

/// `f` may be applied to each pair of elements at a position that both
/// sequences have.
pub open spec fn can_zip<T, F: Fn(&T, &T) -> T>(lhs: Seq<T>, rhs: Seq<T>, f: F) -> bool {
    forall|i: int| 0 <= i < lhs.len() && i < rhs.len() ==> f.requires((&lhs[i], &rhs[i]))
}

/// `out[i]` is what `f` gave for `(lhs[i], rhs[i])`, at each of the first `n` positions.
pub open spec fn zipped<T, F: Fn(&T, &T) -> T>(
    lhs: Seq<T>,
    rhs: Seq<T>,
    f: F,
    out: Seq<T>,
    n: int,
) -> bool {
    forall|i: int| 0 <= i < n ==> f.ensures((&lhs[i], &rhs[i]), #[trigger] out[i])
}

/// A new buffer, as long as the shorter operand, holding `f(lhs[i], rhs[i])`.
pub fn zip_with<T, F: Fn(&T, &T) -> T>(lhs: &[T], rhs: &[T], f: &F) -> (r: Vec<T>)
    requires
        can_zip(lhs@, rhs@, *f),
    ensures
        r@.len() == vstd::math::min(lhs@.len() as int, rhs@.len() as int),
        zipped(lhs@, rhs@, *f, r@, r@.len() as int),
{
    let n = if lhs.len() < rhs.len() {
        lhs.len()
    } else {
        rhs.len()
    };
    let mut out: Vec<T> = Vec::new();
    let mut i: usize = 0;
    while i < n
        invariant
            n <= lhs@.len(),
            n <= rhs@.len(),
            i <= n,
            out@.len() == i,
            can_zip(lhs@, rhs@, *f),
            zipped(lhs@, rhs@, *f, out@, i as int),
        decreases n - i,
    {
        let v = f(&lhs[i], &rhs[i]);
        out.push(v);
        i = i + 1;
    }
    out
}

/// Replaces `lhs[i]` by `f(lhs[i], rhs[i])` over the positions both have;
/// the rest of `lhs` is left as it is.
pub fn zip_with_assign<T, F: Fn(&T, &T) -> T>(lhs: &mut Vec<T>, rhs: &[T], f: &F)
    requires
        can_zip(old(lhs)@, rhs@, *f),
    ensures
        final(lhs)@.len() == old(lhs)@.len(),
        zipped(
            old(lhs)@,
            rhs@,
            *f,
            final(lhs)@,
            vstd::math::min(old(lhs)@.len() as int, rhs@.len() as int),
        ),
        forall|i: int|
            rhs@.len() <= i < old(lhs)@.len() ==> #[trigger] final(lhs)@[i] == old(lhs)@[i],
{
    let n = if lhs.len() < rhs.len() {
        lhs.len()
    } else {
        rhs.len()
    };
    let mut i: usize = 0;
    while i < n
        invariant
            n <= old(lhs)@.len(),
            n <= rhs@.len(),
            n == vstd::math::min(old(lhs)@.len() as int, rhs@.len() as int),
            i <= n,
            lhs@.len() == old(lhs)@.len(),
            can_zip(old(lhs)@, rhs@, *f),
            zipped(old(lhs)@, rhs@, *f, lhs@, i as int),
            forall|j: int| i <= j < old(lhs)@.len() ==> #[trigger] lhs@[j] == old(lhs)@[j],
        decreases n - i,
    {
        let v = f(&lhs[i], &rhs[i]);
        lhs.set(i, v);
        i = i + 1;
    }
}

/// A new buffer holding `f(v[i])` for each element.
pub fn map_with<T, F: Fn(&T) -> T>(v: &[T], f: &F) -> (r: Vec<T>)
    requires
        forall|i: int| 0 <= i < v@.len() ==> f.requires((&v@[i],)),
    ensures
        r@.len() == v@.len(),
        forall|i: int| 0 <= i < v@.len() ==> f.ensures((&v@[i],), #[trigger] r@[i]),
{
    let mut out: Vec<T> = Vec::new();
    let mut i: usize = 0;
    while i < v.len()
        invariant
            i <= v@.len(),
            out@.len() == i,
            forall|j: int| 0 <= j < v@.len() ==> f.requires((&v@[j],)),
            forall|j: int| 0 <= j < i ==> f.ensures((&v@[j],), #[trigger] out@[j]),
        decreases v@.len() - i,
    {
        let x = f(&v[i]);
        out.push(x);
        i = i + 1;
    }
    out
}

} // verus!
