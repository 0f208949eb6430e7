//! The `SubtitleRenderer` port: drawing a subtitle document on a surface, the
//! one optional capability a surface may add, and the kit that checks it.

pub mod capability;
pub mod contract;
pub mod error;
pub mod fake;
pub mod surface;
