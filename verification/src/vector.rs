//! Dense column vectors over an abstract scalar.

use vstd::prelude::*;

use crate::scalar::Scalar;

verus! {

/// The left fold the executable inner product computes:
/// `(((0 + a0 b0) + a1 b1) + ...)`, over the scalar hooks.
pub open spec fn dot_spec<T: Scalar>(a: Seq<T>, b: Seq<T>) -> T
    decreases a.len(),
{
    if a.len() == 0 {
        T::spec_zero()
    } else {
        dot_spec(a.drop_last(), b.drop_last()).spec_add(a.last().spec_mul(b.last()))
    }
}

/// The Euclidean norm over the scalar hooks: the square root of the inner
/// product of a sequence with itself.
pub open spec fn norm_spec<T: Scalar>(a: Seq<T>) -> T {
    dot_spec(a, a).spec_sqrt()
}

/// A dense vector. Its view is the sequence of its entries.
pub struct Vector<T> {
    pub elems: Vec<T>,
}

impl<T> View for Vector<T> {
    type V = Seq<T>;

    open spec fn view(&self) -> Seq<T> {
        self.elems@
    }
}

impl<T: Scalar> Vector<T> {
    /// Wraps a list of entries as a vector.
    pub fn from_elems(elems: Vec<T>) -> (r: Self)
        ensures
            r@ == elems@,
    {
        Vector { elems }
    }

    /// The dimension.
    pub fn dim(&self) -> (r: usize)
        ensures
            r == self@.len(),
    {
        self.elems.len()
    }

    /// The entry at position `i`.
    pub fn get(&self, i: usize) -> (r: T)
        requires
            i < self@.len(),
        ensures
            r == self@[i as int],
    {
        self.elems[i]
    }

    /// An entry-for-entry copy.
    pub fn duplicate(&self) -> (r: Self)
        ensures
            r@ == self@,
    {
        let n = self.elems.len();
        let mut out: Vec<T> = Vec::new();
        for i in 0..n
            invariant
                n == self@.len(),
                out@ == self@.subrange(0, i as int),
        {
            out.push(self.elems[i]);
            proof {
                assert(out@ =~= self@.subrange(0, i + 1));
            }
        }
        proof {
            assert(out@ =~= self@);
        }
        Vector { elems: out }
    }

    /// The zero vector of dimension `n`.
    pub fn zeros(n: usize) -> (r: Self)
        ensures
            r@.len() == n,
            forall|k: int| 0 <= k < n ==> r@[k] == T::spec_zero(),
    {
        let mut out: Vec<T> = Vec::new();
        for i in 0..n
            invariant
                out@.len() == i,
                forall|k: int| 0 <= k < i ==> out@[k] == T::spec_zero(),
        {
            out.push(T::zero());
        }
        Vector { elems: out }
    }

    /// Entrywise sum.
    pub fn add(&self, other: &Self) -> (r: Self)
        requires
            self@.len() == other@.len(),
        ensures
            r@.len() == self@.len(),
            forall|k: int| 0 <= k < r@.len() ==> r@[k] == self@[k].spec_add(other@[k]),
    {
        let n = self.elems.len();
        let mut out: Vec<T> = Vec::new();
        for i in 0..n
            invariant
                n == self@.len(),
                n == other@.len(),
                out@.len() == i,
                forall|k: int| 0 <= k < i ==> out@[k] == self@[k].spec_add(other@[k]),
        {
            out.push(self.elems[i].add(other.elems[i]));
        }
        Vector { elems: out }
    }

    /// Entrywise difference.
    pub fn sub(&self, other: &Self) -> (r: Self)
        requires
            self@.len() == other@.len(),
        ensures
            r@.len() == self@.len(),
            forall|k: int| 0 <= k < r@.len() ==> r@[k] == self@[k].spec_sub(other@[k]),
    {
        let n = self.elems.len();
        let mut out: Vec<T> = Vec::new();
        for i in 0..n
            invariant
                n == self@.len(),
                n == other@.len(),
                out@.len() == i,
                forall|k: int| 0 <= k < i ==> out@[k] == self@[k].spec_sub(other@[k]),
        {
            out.push(self.elems[i].sub(other.elems[i]));
        }
        Vector { elems: out }
    }

    /// Every entry multiplied by `c`.
    pub fn scale(&self, c: T) -> (r: Self)
        ensures
            r@.len() == self@.len(),
            forall|k: int| 0 <= k < r@.len() ==> r@[k] == self@[k].spec_mul(c),
    {
        let n = self.elems.len();
        let mut out: Vec<T> = Vec::new();
        for i in 0..n
            invariant
                n == self@.len(),
                out@.len() == i,
                forall|k: int| 0 <= k < i ==> out@[k] == self@[k].spec_mul(c),
        {
            out.push(self.elems[i].mul(c));
        }
        Vector { elems: out }
    }

    /// Every entry divided by `c`.
    pub fn scale_div(&self, c: T) -> (r: Self)
        ensures
            r@.len() == self@.len(),
            forall|k: int| 0 <= k < r@.len() ==> r@[k] == self@[k].spec_div(c),
    {
        let n = self.elems.len();
        let mut out: Vec<T> = Vec::new();
        for i in 0..n
            invariant
                n == self@.len(),
                out@.len() == i,
                forall|k: int| 0 <= k < i ==> out@[k] == self@[k].spec_div(c),
        {
            out.push(self.elems[i].div(c));
        }
        Vector { elems: out }
    }

    /// The inner product with `other`.
    pub fn dot(&self, other: &Self) -> (r: T)
        requires
            self@.len() == other@.len(),
        ensures
            r == dot_spec(self@, other@),
    {
        let n = self.elems.len();
        let mut acc = T::zero();
        for i in 0..n
            invariant
                n == self@.len(),
                n == other@.len(),
                acc == dot_spec(self@.subrange(0, i as int), other@.subrange(0, i as int)),
        {
            acc = acc.add(self.elems[i].mul(other.elems[i]));
            proof {
                assert(self@.subrange(0, i + 1).drop_last() =~= self@.subrange(0, i as int));
                assert(other@.subrange(0, i + 1).drop_last() =~= other@.subrange(0, i as int));
                assert(self@.subrange(0, i + 1).last() == self@[i as int]);
                assert(other@.subrange(0, i + 1).last() == other@[i as int]);
            }
        }
        proof {
            assert(self@.subrange(0, n as int) =~= self@);
            assert(other@.subrange(0, n as int) =~= other@);
        }
        acc
    }

    /// The Euclidean norm: the square root of the inner product with itself.
    pub fn norm(&self) -> (r: T)
        ensures
            r == norm_spec(self@),
    {
        self.dot(self).sqrt()
    }
}

} // verus!
