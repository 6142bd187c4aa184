//! What a handler hands back: a status and, where there is one, a body.

use vstd::prelude::*;

verus! {

/// The statuses that the service answers with.
#[derive(Clone, Copy, Debug, PartialEq, Eq, Structural)]
pub enum Status {
    Okay,
    Created,
    NoContent,
}

impl Status {
    /// The HTTP status code.
    pub open spec fn spec_code(self) -> u16 {
        match self {
            Status::Okay => 200,
            Status::Created => 201,
            Status::NoContent => 204,
        }
    }

    /// The HTTP status code.
    pub fn code(&self) -> (c: u16)
        ensures
            c == self.spec_code(),
    {
        match self {
            Status::Okay => 200,
            Status::Created => 201,
            Status::NoContent => 204,
        }
    }
}

/// A handler's answer. The body is sent as JSON; `None` is an empty body.
#[derive(Debug)]
pub struct Reply<T> {
    pub status: Status,
    pub body: Option<T>,
}

} // verus!
