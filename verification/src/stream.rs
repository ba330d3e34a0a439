//! The stream kernel: a fallible, cloneable sequence of values.
//!
//! A stream owns its items up front (every operator of the query language
//! yields finitely many) and deals them out one at a time; an error takes
//! the place of the item whose production failed. The items are shared
//! read-only behind a reference count, and the cursor is a plain field, so
//! a copied stream advances independently of the original.

use vstd::prelude::*;
use std::rc::Rc;
use crate::value::{deep_view_items, Error, ErrorV, Value, ValueV};

verus! {

broadcast use
    vstd::std_specs::vec::group_vec_axioms,
    vstd::seq::group_seq_axioms;

/// One step's outcome held in a stream: a value, or the error that arose
/// producing it.
pub type StreamItem = Result<Value, Error>;

/// A fallible, cloneable sequence of values.
pub struct Stream {
    pub items: Rc<Vec<StreamItem>>,
    pub pos: usize,
}

/// The mathematical content of a [`Stream`]: its items and its cursor.
#[verifier::ext_equal]
pub struct StreamV {
    pub items: Seq<Result<ValueV, ErrorV>>,
    pub pos: int,
}

impl StreamV {
    /// What one step yields: the item under the cursor, or `None` past the
    /// end; an error item surfaces as the step's error.
    pub open spec fn step(self) -> (StreamV, Result<Option<ValueV>, ErrorV>) {
        if 0 <= self.pos < self.items.len() {
            (
                StreamV { items: self.items, pos: self.pos + 1 },
                match self.items[self.pos] {
                    Ok(v) => Ok(Some(v)),
                    Err(e) => Err(e),
                },
            )
        } else {
            (self, Ok(None))
        }
    }
}

impl Stream {
    /// The mathematical content of the stream.
    pub open spec fn deep_view(&self) -> StreamV {
        StreamV { items: deep_view_items(self.items@), pos: self.pos as int }
    }

    /// A stream over the given items, positioned at the start.
    pub fn new(items: Vec<StreamItem>) -> (r: Stream)
        ensures
            r.deep_view() == (StreamV { items: deep_view_items(items@), pos: 0int }),
    {
        Stream { items: Rc::new(items), pos: 0 }
    }

    /// An independent stream positioned where this one is: consuming either
    /// does not affect the other.
    pub fn duplicate(&self) -> (r: Stream)
        ensures
            r.deep_view() == self.deep_view(),
    {
        Stream { items: crate::shim::rc_dup(&self.items), pos: self.pos }
    }

    /// Draw the next value, advancing the cursor. `Ok(None)` at the end;
    /// an error ends meaningful use of this stream, though the cursor has
    /// still advanced past the failed item.
    pub fn next(&mut self) -> (r: Result<Option<Value>, Error>)
        ensures
            final(self).deep_view() == old(self).deep_view().step().0,
            match (r, old(self).deep_view().step().1) {
                (Ok(Some(v)), Ok(rv)) => rv == Some(v.deep_view()),
                (Ok(None), Ok(rv)) => rv is None,
                (Err(e), Err(ev)) => e@ == ev,
                _ => false,
            },
    {
        if self.pos < self.items.len() {
            let item = &self.items[self.pos];
            self.pos = self.pos + 1;
            match item {
                Ok(v) => Ok(Some(v.duplicate())),
                Err(e) => Err(e.duplicate()),
            }
        } else {
            Ok(None)
        }
    }
}

} // verus!
