//! Core of a small tweet service: tweets, the likes attached to them, the
//! tables that hold both, and the decisions behind each endpoint of the
//! service, from a request to a status and a body.
//!
//! Everything here works on plain values. Identifiers are 128-bit numbers
//! whose text form is that of a UUID; instants are seconds and nanoseconds
//! since the Unix epoch.

pub mod clock;
pub mod echo;
pub mod ident;
pub mod laws;
pub mod like;
pub mod reply;
pub mod response;
pub mod store;
pub mod tweet;

