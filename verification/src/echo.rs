//! The encode endpoint: a request that carries a URL is answered with that
//! URL under both of the answer's fields.

use vstd::prelude::*;

verus! {

/// The answer to an encode request.
#[derive(Debug)]
pub struct MyResponse {
    pub id: String,
    pub url: String,
}

/// An encode request.
#[derive(Debug)]
pub struct MyRequest {
    pub url: String,
}

impl MyRequest {
    /// The answer to this request: its URL, as identifier and as URL.
    pub fn to_response(&self) -> (r: MyResponse)
        ensures
            r.id@ == self.url@,
            r.url@ == self.url@,
    {
        MyResponse { id: self.url.clone(), url: self.url.clone() }
    }
}

} // verus!
