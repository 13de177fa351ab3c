//! Requests handled one call at a time: the state of each request, and of
//! all the requests of a server.

pub mod batch;
pub mod batches;
