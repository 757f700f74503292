//! Errors gathered one after another, to be reported together.
use vstd::prelude::*;

verus! {

/// The errors met so far, in the order they were met.
#[derive(Debug, Clone)]
pub struct MultipleErrors<E> {
    errors: Vec<E>,
}

impl<E> View for MultipleErrors<E> {
    type V = Seq<E>;

    closed spec fn view(&self) -> Seq<E> {
        self.errors@
    }
}

impl<E> MultipleErrors<E> {
    /// No error yet.
    pub fn new() -> (r: Self)
        ensures
            r@ == Seq::<E>::empty(),
    {
        MultipleErrors { errors: Vec::new() }
    }

    /// Adds an error after those met so far.
    pub fn combine(&mut self, error: E)
        ensures
            final(self)@ == old(self)@.push(error),
    {
        self.errors.push(error);
    }

    /// No error has been met.
    pub fn is_empty(&self) -> (r: bool)
        ensures
            r == (self@.len() == 0),
    {
        self.errors.len() == 0
    }

    /// The errors met, or `None` where there are none.
    pub fn into_inner(self) -> (r: Option<Vec<E>>)
        ensures
            self@.len() == 0 ==> r is None,
            self@.len() > 0 ==> (r matches Some(errors) && errors@ == self@),
    {
        if self.errors.len() == 0 {
            None
        } else {
            Some(self.errors)
        }
    }
}

} // verus!
