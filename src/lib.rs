//! A proof-of-existence claim registry: an actor records that it holds a
//! piece of data, identified by its digest, at a given sequence number, and
//! may later give that record up again.

pub mod laws;
pub mod registry;
pub mod types;
