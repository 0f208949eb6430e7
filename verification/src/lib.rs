//! The portable core of Nen Player: port types, their validation rules, the
//! deterministic fakes and the decision logic of the provider adapters.

pub mod playback;
pub mod providers;
pub mod credentials;
pub mod filename_normalization;
pub mod http;
pub mod identity;
pub mod json;
pub mod subtitle;
pub mod subtitle_candidates;
pub mod subtitle_download;
pub mod persistence;
pub mod renderer;
pub mod text;
pub mod translation;

