//! The `PlaybackEngine` port's value types and the rules that hold for every engine.

pub mod capability;
pub mod contract;
pub mod engine;
pub mod error;
pub mod fake;
pub mod event;
pub mod geometry;
pub mod media;
pub mod track;
