//! The resume-checkpoint store: the validated prefix of a translation run,
//! kept between process runs apart from published artifacts.
use crate::persistence::hex::CacheKey;
use crate::text::{decimal, decimal_text};
use vstd::prelude::*;

verus! {

/// A defensive upper bound for one resume snapshot read from untrusted disk.
pub const MAX_RESUME_BYTES: usize = 16777216;

/// One persisted translated cue. The text is private dialogue.
#[derive(Clone, PartialEq, Eq)]
pub struct ResumeCue {
    pub cue_id: u32,
    pub text: String,
}

impl ResumeCue {
    /// Diagnostic text: the cue id and the text's length in characters.
    pub fn debug_text(&self) -> (text: String)
        ensures
            text@ == "ResumeCue { cue_id: "@ + decimal(self.cue_id as nat) + ", text_len: "@ + decimal(
                self.text@.len(),
            ) + " }"@,
    {
        let chars = crate::text::chars_of(self.text.as_str());
        let mut text = String::from_str("ResumeCue { cue_id: ");
        text.append(decimal_text(self.cue_id as u64).as_str());
        text.append(", text_len: ");
        text.append(decimal_text(chars.len() as u64).as_str());
        text.append(" }");
        text
    }
}

/// One fully validated block, as stored between process runs.
#[derive(Clone, PartialEq, Eq)]
pub struct ResumeBlock {
    pub block_index: u32,
    pub cues: Vec<ResumeCue>,
}

impl ResumeBlock {
    /// Diagnostic text: the block index and how many cues it holds.
    pub fn debug_text(&self) -> (text: String)
        ensures
            text@ == "ResumeBlock { block_index: "@ + decimal(self.block_index as nat) + ", cue_count: "@
                + decimal(self.cues@.len()) + " }"@,
    {
        let mut text = String::from_str("ResumeBlock { block_index: ");
        text.append(decimal_text(self.block_index as u64).as_str());
        text.append(", cue_count: ");
        text.append(decimal_text(self.cues.len() as u64).as_str());
        text.append(" }");
        text
    }
}

/// A complete snapshot of the validated prefix of one translation run.
#[derive(Clone, PartialEq, Eq)]
pub struct ResumeRecord {
    pub cache_key: CacheKey,
    pub total_blocks: u32,
    pub blocks: Vec<ResumeBlock>,
}

impl ResumeRecord {
    /// Diagnostic text: the key redacted, the block counts.
    pub fn debug_text(&self) -> (text: String)
        ensures
            text@ == "ResumeRecord { cache_key: CacheKey(<redacted>), total_blocks: "@ + decimal(
                self.total_blocks as nat,
            ) + ", checkpointed_blocks: "@ + decimal(self.blocks@.len()) + " }"@,
    {
        let mut text = String::from_str("ResumeRecord { cache_key: CacheKey(<redacted>), total_blocks: ");
        text.append(decimal_text(self.total_blocks as u64).as_str());
        text.append(", checkpointed_blocks: ");
        text.append(decimal_text(self.blocks.len() as u64).as_str());
        text.append(" }");
        text
    }
}

/// Why the separate resume area refused an operation. No variant carries a
/// path.
#[derive(Debug, Clone, Copy, PartialEq, Eq, Structural)]
pub enum ResumeStoreError {
    Io,
    Corrupt,
    OutsideRoot,
    TooLarge,
}

impl ResumeStoreError {
    /// The human-readable text of the error.
    pub fn display_text(self) -> (text: &'static str)
        ensures
            text@ == (match self {
                ResumeStoreError::Io => "the resume store could not complete a filesystem operation"@,
                ResumeStoreError::Corrupt => "the stored resume record is not well-formed"@,
                ResumeStoreError::OutsideRoot => "the resume address resolves outside the store root"@,
                ResumeStoreError::TooLarge => "the stored resume record is larger than the read bound"@,
            }),
    {
        match self {
            ResumeStoreError::Io => "the resume store could not complete a filesystem operation",
            ResumeStoreError::Corrupt => "the stored resume record is not well-formed",
            ResumeStoreError::OutsideRoot => "the resume address resolves outside the store root",
            ResumeStoreError::TooLarge => "the stored resume record is larger than the read bound",
        }
    }
}

/// Separate persistence for incomplete, never-publishable translation state.
pub trait ResumeStore {
    fn load(&self, key: CacheKey) -> Result<Option<ResumeRecord>, ResumeStoreError>;

    fn save(&self, record: &ResumeRecord) -> Result<(), ResumeStoreError>;

    fn delete(&self, key: CacheKey) -> Result<(), ResumeStoreError>;
}

} // verus!
