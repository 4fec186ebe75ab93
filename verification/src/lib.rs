//! Challenge-response generation: a request names a list of resource
//! identifiers; for each one the responder proves possession of the named
//! resource by hashing its first line together with the identifier. When any
//! identifier cannot be resolved, the whole response is replaced by a random
//! fallback string of fixed shape, so the response leaks nothing about which
//! identifier failed.

pub mod store;
pub mod util;
pub mod challenge;
pub mod respond;
