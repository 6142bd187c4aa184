//! The envelope of every listing endpoint.

use vstd::prelude::*;

verus! {

/// An ordered list of results, sent as `{ results: [...] }`.
#[derive(Debug)]
pub struct Response<T> {
    pub results: Vec<T>,
}

impl<T> Response<T> {
    /// The empty envelope.
    pub fn new() -> (r: Self)
        ensures
            r.results@ == Seq::<T>::empty(),
    {
        Response { results: Vec::new() }
    }
}

} // verus!
