//! Provider adapters: the rules each one applies to what it sends and to
//! what comes back.

pub mod opensubtitles;
pub mod translation_http;
pub mod filename_normalization;
pub mod openai;
pub mod openrouter;
pub mod translation_mock;
pub mod wire;
