//! Persistence port values: the content address of a stored artifact, the
//! cache key an index searches by, and the payload-free store errors.

pub mod contract;
pub mod hex;
pub mod resume;
pub mod store;
