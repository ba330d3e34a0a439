//! The `IdVec` type, a vector indexed by a newtype around a `usize`.

use vstd::prelude::*;
use std::marker::PhantomData;

verus! {

broadcast use
    vstd::std_specs::vec::group_vec_axioms,
    vstd::seq::group_seq_axioms;

/// The trait for types that can index an [`IdVec`]: newtypes around `usize`
/// that convert back and forth.
pub trait IdVecIndex: Sized + Copy {
    /// The index the value denotes.
    spec fn as_index(self) -> int;

    /// Convert to a plain index.
    fn to_usize(self) -> (r: usize)
        ensures
            r as int == self.as_index(),
    ;

    /// Wrap a plain index.
    fn from_usize(size: usize) -> (r: Self)
        ensures
            r.as_index() == size as int,
    ;
}

/// An `IdVec<I, T>` is like a `Vec<T>` that uses `I` as its index type, so
/// that differently-labeled tables cannot be confused.
pub struct IdVec<I, T>(pub Vec<T>, pub PhantomData<I>);

impl<I: IdVecIndex, T> IdVec<I, T> {
    pub fn new() -> (r: IdVec<I, T>)
        ensures
            r.0@ == Seq::<T>::empty(),
    {
        let r = IdVec(Vec::new(), PhantomData);
        proof {
            assert(r.0@ =~= Seq::<T>::empty());
        }
        r
    }

    pub fn with_capacity(capacity: usize) -> (r: IdVec<I, T>)
        ensures
            r.0@ == Seq::<T>::empty(),
    {
        let r = IdVec(Vec::with_capacity(capacity), PhantomData);
        proof {
            assert(r.0@ =~= Seq::<T>::empty());
        }
        r
    }

    /// Push `value` onto the end of `self`; `index` must be the position it
    /// will occupy, so tables are built densely and in order.
    pub fn push_at(&mut self, index: I, value: T)
        requires
            index.as_index() == old(self).0@.len(),
        ensures
            final(self).0@ == old(self).0@.push(value),
    {
        self.0.push(value)
    }

    /// How many entries have been assigned.
    pub fn len(&self) -> (r: usize)
        ensures
            r == self.0@.len(),
    {
        self.0.len()
    }

    /// The entry at a given id.
    pub fn get(&self, index: I) -> (r: &T)
        requires
            0 <= index.as_index() < self.0@.len(),
        ensures
            *r == self.0@[index.as_index()],
    {
        let i = index.to_usize();
        &self.0[i]
    }
}

} // verus!
