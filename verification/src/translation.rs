//! Provider-neutral translation port.
//!
//! The port is synchronous and runtime-free. The caller owns the worker and
//! the job; a provider receives a [`TranslationCall`] that guards progress and
//! the returned result against cancellation. A call's forks share its
//! cancellation, so cancelling any of them cancels them all.
//!
//! Language tags are carried as text; cue ids as numbers.
pub mod contract;

use crate::text::{all_white_space, chars_of, decimal, decimal_text, lemma_trimmed_empty, trimmed};
use std::sync::Arc;
use vstd::cell::invcell::InvCell;
use vstd::predicate::Predicate;
use vstd::rwlock::{RwLock, RwLockPredicate};
use vstd::prelude::*;

verus! {

/// The prompt contract version shared by pipeline and provider adapters.
pub const PROMPT_VERSION: u32 = 2;

/// The response-schema contract version shared by pipeline and provider
/// adapters.
pub const SCHEMA_VERSION: u32 = 2;

/// Why a provider call failed, without any payload.
#[derive(Debug, Clone, Copy, PartialEq, Eq, Structural)]
pub enum TranslationProviderError {
    Cancelled,
    Transient,
    Permanent,
    ResponseTooLarge,
}

impl TranslationProviderError {
    /// The human-readable text of the error.
    pub fn display_text(self) -> (text: &'static str)
        ensures
            text@ == (match self {
                TranslationProviderError::Cancelled => "translation cancelled"@,
                TranslationProviderError::Transient => "translation provider temporarily unavailable"@,
                TranslationProviderError::Permanent => "translation provider failed"@,
                TranslationProviderError::ResponseTooLarge => "translation provider response was too large"@,
            }),
    {
        match self {
            TranslationProviderError::Cancelled => "translation cancelled",
            TranslationProviderError::Transient => "translation provider temporarily unavailable",
            TranslationProviderError::Permanent => "translation provider failed",
            TranslationProviderError::ResponseTooLarge => "translation provider response was too large",
        }
    }
}

/// Which provider and model produced a translation.
#[derive(Clone, PartialEq, Eq, Hash)]
pub struct TranslationProviderIdentity {
    provider: String,
    model: String,
}

impl View for TranslationProviderIdentity {
    type V = (Seq<char>, Seq<char>);

    closed spec fn view(&self) -> (Seq<char>, Seq<char>) {
        (self.provider@, self.model@)
    }
}

/// Whether a text is blank: empty once trimmed.
pub open spec fn blank(text: Seq<char>) -> bool {
    trimmed(text).len() == 0
}

/// Whether `text` is blank.
pub fn is_blank(text: &str) -> (is: bool)
    ensures
        is == blank(text@),
{
    let chars = chars_of(text);
    let mut i: usize = 0;
    while i < chars.len()
        invariant
            i <= chars@.len(),
            chars@ == text@,
            forall|k: int| 0 <= k < i ==> crate::text::is_white_space(#[trigger] chars@[k]),
        decreases chars@.len() - i,
    {
        if !crate::text::char_is_white_space(chars[i]) {
            proof {
                lemma_trimmed_empty(text@);
            }
            return false;
        }
        i = i + 1;
    }
    proof {
        lemma_trimmed_empty(text@);
    }
    true
}

impl TranslationProviderIdentity {
    /// An identity; a blank provider or model name is refused.
    pub fn new(provider: &str, model: &str) -> (identity: Result<
        TranslationProviderIdentity,
        TranslationProviderError,
    >)
        ensures
            identity is Ok <==> (!blank(provider@) && !blank(model@)),
            identity matches Ok(i) ==> i@ == (provider@, model@),
            identity matches Err(e) ==> e == TranslationProviderError::Permanent,
    {
        if is_blank(provider) || is_blank(model) {
            return Err(TranslationProviderError::Permanent);
        }
        Ok(TranslationProviderIdentity { provider: provider.to_owned(), model: model.to_owned() })
    }

    /// A copy of the identity.
    pub fn copy(&self) -> (copy: TranslationProviderIdentity)
        ensures
            copy@ == self@,
    {
        TranslationProviderIdentity { provider: self.provider.clone(), model: self.model.clone() }
    }

    pub fn provider(&self) -> (provider: &str)
        ensures
            provider@ == self@.0,
    {
        self.provider.as_str()
    }

    pub fn model(&self) -> (model: &str)
        ensures
            model@ == self@.1,
    {
        self.model.as_str()
    }

    /// Diagnostic text: the lengths of the names only.
    pub fn debug_text(&self) -> (text: String)
        ensures
            text@ == "TranslationProviderIdentity { provider_len: "@ + decimal(self@.0.len())
                + ", model_len: "@ + decimal(self@.1.len()) + " }"@,
    {
        let provider = chars_of(self.provider.as_str());
        let model = chars_of(self.model.as_str());
        let mut text = String::from_str("TranslationProviderIdentity { provider_len: ");
        text.append(decimal_text(provider.len() as u64).as_str());
        text.append(", model_len: ");
        text.append(decimal_text(model.len() as u64).as_str());
        text.append(" }");
        text
    }
}

/// One source cue handed to a provider.
#[derive(Clone, PartialEq, Eq)]
pub struct TranslationCue {
    pub cue_id: u32,
    pub text: String,
}

/// A character the document analysis found.
#[derive(Clone, PartialEq, Eq)]
pub struct AnalysisCharacter {
    pub name: String,
    pub description: String,
}

/// A glossary entry the document analysis fixed.
#[derive(Clone, PartialEq, Eq)]
pub struct AnalysisGlossaryEntry {
    pub source: String,
    pub target: String,
    pub note: String,
}

/// What a provider learned about a whole document before translating it.
#[derive(Clone, PartialEq, Eq)]
pub struct DocumentAnalysis {
    pub summary: String,
    pub characters: Vec<AnalysisCharacter>,
    pub glossary: Vec<AnalysisGlossaryEntry>,
}

/// Why a document analysis cannot become block context.
#[derive(Debug, Clone, Copy, PartialEq, Eq, Structural)]
pub enum DocumentAnalysisValidationError {
    EmptySummary,
    EmptyCharacterField,
    EmptyGlossaryField,
}

impl DocumentAnalysisValidationError {
    /// The human-readable text of the error.
    pub fn display_text(self) -> (text: &'static str)
        ensures
            text@ == (match self {
                DocumentAnalysisValidationError::EmptySummary => "document analysis summary is empty"@,
                DocumentAnalysisValidationError::EmptyCharacterField => "document analysis character field is empty"@,
                DocumentAnalysisValidationError::EmptyGlossaryField => "document analysis glossary field is empty"@,
            }),
    {
        match self {
            DocumentAnalysisValidationError::EmptySummary => "document analysis summary is empty",
            DocumentAnalysisValidationError::EmptyCharacterField => "document analysis character field is empty",
            DocumentAnalysisValidationError::EmptyGlossaryField => "document analysis glossary field is empty",
        }
    }
}

/// Some character has a blank name or description.
pub open spec fn blank_character(characters: Seq<AnalysisCharacter>) -> bool {
    exists|i: int|
        0 <= i < characters.len() && (blank(#[trigger] characters[i].name@) || blank(
            characters[i].description@,
        ))
}

/// Some glossary entry has a blank source, target or note.
pub open spec fn blank_glossary_entry(glossary: Seq<AnalysisGlossaryEntry>) -> bool {
    exists|i: int|
        0 <= i < glossary.len() && (blank(#[trigger] glossary[i].source@) || blank(
            glossary[i].target@,
        ) || blank(glossary[i].note@))
}

/// The first rule an analysis breaks, in the order they are checked.
pub open spec fn analysis_verdict(analysis: DocumentAnalysis) -> Result<
    (),
    DocumentAnalysisValidationError,
> {
    if blank(analysis.summary@) {
        Err(DocumentAnalysisValidationError::EmptySummary)
    } else if blank_character(analysis.characters@) {
        Err(DocumentAnalysisValidationError::EmptyCharacterField)
    } else if blank_glossary_entry(analysis.glossary@) {
        Err(DocumentAnalysisValidationError::EmptyGlossaryField)
    } else {
        Ok(())
    }
}

impl DocumentAnalysis {
    /// Re-validates provider and disk data before it can become block
    /// context: no required text field may be blank.
    pub fn validate(&self) -> (result: Result<(), DocumentAnalysisValidationError>)
        ensures
            result == analysis_verdict(*self),
    {
        if is_blank(self.summary.as_str()) {
            return Err(DocumentAnalysisValidationError::EmptySummary);
        }
        let mut i: usize = 0;
        while i < self.characters.len()
            invariant
                i <= self.characters@.len(),
                !blank(self.summary@),
                forall|k: int|
                    0 <= k < i ==> !blank(#[trigger] self.characters@[k].name@) && !blank(
                        self.characters@[k].description@,
                    ),
            decreases self.characters@.len() - i,
        {
            if is_blank(self.characters[i].name.as_str()) || is_blank(
                self.characters[i].description.as_str(),
            ) {
                proof {
                    let c = self.characters@[i as int];
                    assert(blank(c.name@) || blank(c.description@));

                }
                return Err(DocumentAnalysisValidationError::EmptyCharacterField);
            }
            i = i + 1;
        }
        let mut j: usize = 0;
        while j < self.glossary.len()
            invariant
                j <= self.glossary@.len(),
                !blank(self.summary@),
                !blank_character(self.characters@),
                forall|k: int|
                    0 <= k < j ==> !blank(#[trigger] self.glossary@[k].source@) && !blank(
                        self.glossary@[k].target@,
                    ) && !blank(self.glossary@[k].note@),
            decreases self.glossary@.len() - j,
        {
            if is_blank(self.glossary[j].source.as_str()) || is_blank(
                self.glossary[j].target.as_str(),
            ) || is_blank(self.glossary[j].note.as_str()) {
                proof {
                    let g = self.glossary@[j as int];
                    assert(blank(g.source@) || blank(g.target@) || blank(g.note@));
                }
                return Err(DocumentAnalysisValidationError::EmptyGlossaryField);
            }
            j = j + 1;
        }
        Ok(())
    }
}

/// What a document analysis is asked about.
#[derive(Clone, PartialEq, Eq)]
pub struct DocumentAnalysisRequest {
    pub source_language: String,
    pub target_language: String,
    pub transcript: Vec<TranslationCue>,
    pub context_terms: Vec<String>,
}

/// What a translation request asks for: a first attempt, a repair of the
/// cues that failed validation, or a retry of the whole block.
#[derive(Debug, Clone, Copy, PartialEq, Eq, Structural)]
pub enum TranslationMode {
    Initial,
    TargetedRepair,
    FullRetry,
}

/// One block of cues to translate.
#[derive(Clone, PartialEq, Eq)]
pub struct TranslationRequest {
    pub source_language: String,
    pub target_language: String,
    pub context_cues: Vec<TranslationCue>,
    pub output_cue_ids: Vec<u32>,
    pub analysis: DocumentAnalysis,
    pub block_index: u32,
    pub block_count: u32,
    pub mode: TranslationMode,
}

/// One translated cue.
#[derive(Clone, PartialEq, Eq)]
pub struct TranslatedCue {
    pub cue_id: u32,
    pub text: String,
}

/// A provider's answer to a [`TranslationRequest`].
#[derive(Clone, PartialEq, Eq)]
pub struct TranslationResponse {
    pub cues: Vec<TranslatedCue>,
}

/// The character count of a text, written in decimal.
fn char_count_text(text: &str) -> (count: String)
    ensures
        count@ == decimal(text@.len()),
{
    let chars = chars_of(text);
    decimal_text(chars.len() as u64)
}

impl TranslationCue {
    /// Diagnostic text: the id and the text's length, never the dialogue.
    pub fn debug_text(&self) -> (text: String)
        ensures
            text@ == "TranslationCue { cue_id: "@ + decimal(self.cue_id as nat) + ", text_len: "@
                + decimal(self.text@.len()) + " }"@,
    {
        let mut text = String::from_str("TranslationCue { cue_id: ");
        text.append(decimal_text(self.cue_id as u64).as_str());
        text.append(", text_len: ");
        text.append(char_count_text(self.text.as_str()).as_str());
        text.append(" }");
        text
    }
}

impl TranslatedCue {
    /// Diagnostic text: the id and the text's length, never the dialogue.
    pub fn debug_text(&self) -> (text: String)
        ensures
            text@ == "TranslatedCue { cue_id: "@ + decimal(self.cue_id as nat) + ", text_len: "@
                + decimal(self.text@.len()) + " }"@,
    {
        let mut text = String::from_str("TranslatedCue { cue_id: ");
        text.append(decimal_text(self.cue_id as u64).as_str());
        text.append(", text_len: ");
        text.append(char_count_text(self.text.as_str()).as_str());
        text.append(" }");
        text
    }
}

impl TranslationResponse {
    /// Diagnostic text: how many cues, nothing of their text.
    pub fn debug_text(&self) -> (text: String)
        ensures
            text@ == "TranslationResponse { cue_count: "@ + decimal(self.cues@.len()) + " }"@,
    {
        let mut text = String::from_str("TranslationResponse { cue_count: ");
        text.append(decimal_text(self.cues.len() as u64).as_str());
        text.append(" }");
        text
    }
}

impl AnalysisCharacter {
    /// Diagnostic text: the lengths of the fields only.
    pub fn debug_text(&self) -> (text: String)
        ensures
            text@ == "AnalysisCharacter { name_len: "@ + decimal(self.name@.len())
                + ", description_len: "@ + decimal(self.description@.len()) + " }"@,
    {
        let mut text = String::from_str("AnalysisCharacter { name_len: ");
        text.append(char_count_text(self.name.as_str()).as_str());
        text.append(", description_len: ");
        text.append(char_count_text(self.description.as_str()).as_str());
        text.append(" }");
        text
    }
}

impl AnalysisGlossaryEntry {
    /// Diagnostic text: the lengths of the fields only.
    pub fn debug_text(&self) -> (text: String)
        ensures
            text@ == "AnalysisGlossaryEntry { source_len: "@ + decimal(self.source@.len())
                + ", target_len: "@ + decimal(self.target@.len()) + ", note_len: "@ + decimal(
                self.note@.len(),
            ) + " }"@,
    {
        let mut text = String::from_str("AnalysisGlossaryEntry { source_len: ");
        text.append(char_count_text(self.source.as_str()).as_str());
        text.append(", target_len: ");
        text.append(char_count_text(self.target.as_str()).as_str());
        text.append(", note_len: ");
        text.append(char_count_text(self.note.as_str()).as_str());
        text.append(" }");
        text
    }
}

/// The diagnostic text of a document analysis: lengths and counts only.
pub open spec fn analysis_debug(analysis: DocumentAnalysis) -> Seq<char> {
    "DocumentAnalysis { summary_len: "@ + decimal(analysis.summary@.len())
        + ", character_count: "@ + decimal(analysis.characters@.len()) + ", glossary_count: "@
        + decimal(analysis.glossary@.len()) + " }"@
}

impl DocumentAnalysis {
    /// Diagnostic text: lengths and counts only.
    pub fn debug_text(&self) -> (text: String)
        ensures
            text@ == analysis_debug(*self),
    {
        let mut text = String::from_str("DocumentAnalysis { summary_len: ");
        text.append(char_count_text(self.summary.as_str()).as_str());
        text.append(", character_count: ");
        text.append(decimal_text(self.characters.len() as u64).as_str());
        text.append(", glossary_count: ");
        text.append(decimal_text(self.glossary.len() as u64).as_str());
        text.append(" }");
        text
    }
}

/// The name of a translation mode, as its variant is written.
pub open spec fn mode_name(mode: TranslationMode) -> Seq<char> {
    match mode {
        TranslationMode::Initial => "Initial"@,
        TranslationMode::TargetedRepair => "TargetedRepair"@,
        TranslationMode::FullRetry => "FullRetry"@,
    }
}

impl TranslationMode {
    /// The variant's name.
    pub fn debug_name(&self) -> (name: &'static str)
        ensures
            name@ == mode_name(*self),
    {
        proof {
            reveal_strlit("Initial");
            reveal_strlit("TargetedRepair");
            reveal_strlit("FullRetry");
        }
        match self {
            TranslationMode::Initial => "Initial",
            TranslationMode::TargetedRepair => "TargetedRepair",
            TranslationMode::FullRetry => "FullRetry",
        }
    }
}

impl DocumentAnalysisRequest {
    /// Diagnostic text: the languages and counts, never the transcript.
    pub fn debug_text(&self) -> (text: String)
        ensures
            text@ == "DocumentAnalysisRequest { source_language: \""@ + self.source_language@
                + "\", target_language: \""@ + self.target_language@ + "\", transcript_cue_count: "@
                + decimal(self.transcript@.len()) + ", context_term_count: "@ + decimal(
                self.context_terms@.len(),
            ) + " }"@,
    {
        let mut text = String::from_str("DocumentAnalysisRequest { source_language: \"");
        text.append(self.source_language.as_str());
        text.append("\", target_language: \"");
        text.append(self.target_language.as_str());
        text.append("\", transcript_cue_count: ");
        text.append(decimal_text(self.transcript.len() as u64).as_str());
        text.append(", context_term_count: ");
        text.append(decimal_text(self.context_terms.len() as u64).as_str());
        text.append(" }");
        text
    }
}

impl TranslationRequest {
    /// Diagnostic text: languages, counts, the analysis's shape and the block
    /// coordinates, never a cue's text.
    pub fn debug_text(&self) -> (text: String)
        ensures
            text@ == "TranslationRequest { source_language: \""@ + self.source_language@
                + "\", target_language: \""@ + self.target_language@ + "\", context_cue_count: "@
                + decimal(self.context_cues@.len()) + ", output_cue_count: "@ + decimal(
                self.output_cue_ids@.len(),
            ) + ", analysis: "@ + analysis_debug(self.analysis) + ", block_index: "@ + decimal(
                self.block_index as nat,
            ) + ", block_count: "@ + decimal(self.block_count as nat) + ", mode: "@ + mode_name(
                self.mode,
            ) + " }"@,
    {
        let mut text = String::from_str("TranslationRequest { source_language: \"");
        text.append(self.source_language.as_str());
        text.append("\", target_language: \"");
        text.append(self.target_language.as_str());
        text.append("\", context_cue_count: ");
        text.append(decimal_text(self.context_cues.len() as u64).as_str());
        text.append(", output_cue_count: ");
        text.append(decimal_text(self.output_cue_ids.len() as u64).as_str());
        text.append(", analysis: ");
        text.append(self.analysis.debug_text().as_str());
        text.append(", block_index: ");
        text.append(decimal_text(self.block_index as u64).as_str());
        text.append(", block_count: ");
        text.append(decimal_text(self.block_count as u64).as_str());
        text.append(", mode: ");
        text.append(self.mode.debug_name());
        text.append(" }");
        text
    }
}

/// The phase a provider reports progress in; phases only move forward.
#[derive(Debug, Clone, Copy, PartialEq, Eq, PartialOrd, Ord, Structural)]
pub enum TranslationProgressPhase {
    Preparing,
    Translating,
    Finalizing,
}

/// The position of a phase in the order phases go through.
pub open spec fn phase_rank(phase: TranslationProgressPhase) -> int {
    match phase {
        TranslationProgressPhase::Preparing => 0,
        TranslationProgressPhase::Translating => 1,
        TranslationProgressPhase::Finalizing => 2,
    }
}

fn rank(phase: TranslationProgressPhase) -> (r: u8)
    ensures
        r == phase_rank(phase),
{
    match phase {
        TranslationProgressPhase::Preparing => 0,
        TranslationProgressPhase::Translating => 1,
        TranslationProgressPhase::Finalizing => 2,
    }
}

/// A progress report: `done` of `total` output cues, in a phase.
#[derive(Debug, Clone, Copy, PartialEq, Eq, Structural)]
pub struct TranslationProgress {
    pub phase: TranslationProgressPhase,
    pub done: u32,
    pub total: u32,
}

/// Whether a provider may report `progress` after `last`: the count stays
/// within the total, the total never changes, the phase never goes back and
/// within a phase the count never goes back.
pub open spec fn progress_accepted(last: Option<TranslationProgress>, progress: TranslationProgress) -> bool {
    &&& progress.done <= progress.total
    &&& last matches Some(previous) ==> {
        &&& progress.total == previous.total
        &&& phase_rank(progress.phase) >= phase_rank(previous.phase)
        &&& (progress.phase == previous.phase ==> progress.done >= previous.done)
    }
}

/// Phases only go forward: after a finalizing report only finalizing
/// reports are accepted, and after a translating report no preparing one;
/// every report that keeps the total, stays within it, and moves to the
/// same or a later phase (with no fewer cues done within one phase) is
/// accepted.
pub proof fn law_phases_never_go_back(previous: TranslationProgress, progress: TranslationProgress)
    ensures
        previous.phase == TranslationProgressPhase::Finalizing && progress.phase
            != TranslationProgressPhase::Finalizing ==> !progress_accepted(Some(previous), progress),
        previous.phase == TranslationProgressPhase::Translating && progress.phase
            == TranslationProgressPhase::Preparing ==> !progress_accepted(Some(previous), progress),
        progress.done <= progress.total && progress.total == previous.total && (previous.phase
            == TranslationProgressPhase::Preparing || progress.phase == TranslationProgressPhase::Finalizing || (
        previous.phase == TranslationProgressPhase::Translating && progress.phase
            == TranslationProgressPhase::Translating)) && (progress.phase == previous.phase ==> progress.done
            >= previous.done) ==> progress_accepted(Some(previous), progress),
        progress.done > progress.total ==> !progress_accepted(Some(previous), progress),
        progress.total != previous.total ==> !progress_accepted(Some(previous), progress),
{
}

/// Checks one provider progress report against the provider's previous one.
pub fn check_provider_progress(last: Option<TranslationProgress>, progress: TranslationProgress) -> (result:
    Result<(), TranslationProviderError>)
    ensures
        result is Ok <==> progress_accepted(last, progress),
        result matches Err(e) ==> e == TranslationProviderError::Permanent,
        last matches Some(previous) && previous.phase == TranslationProgressPhase::Finalizing && progress.phase
            != TranslationProgressPhase::Finalizing ==> result == Err::<(), TranslationProviderError>(
            TranslationProviderError::Permanent,
        ),
        last matches Some(previous) && previous.phase == TranslationProgressPhase::Translating && progress.phase
            == TranslationProgressPhase::Preparing ==> result == Err::<(), TranslationProviderError>(
            TranslationProviderError::Permanent,
        ),
{
    if progress.done > progress.total {
        return Err(TranslationProviderError::Permanent);
    }
    match last {
        Some(previous) => {
            if progress.total != previous.total || rank(progress.phase) < rank(previous.phase) || (
            rank(progress.phase) == rank(previous.phase) && progress.done < previous.done) {
                return Err(TranslationProviderError::Permanent);
            }
        },
        None => {},
    }
    Ok(())
}

/// Where one block's output cues sit in a whole document: `offset` cues
/// precede the block, `total` is the document's output cue count.
#[derive(Debug, Clone, Copy, PartialEq, Eq, Structural)]
pub struct DocumentProgressScope {
    pub offset: u32,
    pub total: u32,
}

/// What a document-scoped call does with a provider's block-local report:
/// the document-wide report to deliver (if it says something new), and the
/// document high-water mark after it.
pub open spec fn document_mapping(
    scope: DocumentProgressScope,
    last: Option<TranslationProgress>,
    progress: TranslationProgress,
) -> Result<(Option<TranslationProgress>, Option<TranslationProgress>), TranslationProviderError> {
    let candidate = scope.offset + progress.done;
    if candidate > u32::MAX || candidate > scope.total {
        Err(TranslationProviderError::Permanent)
    } else if last matches Some(previous) && previous.total != scope.total {
        Err(TranslationProviderError::Permanent)
    } else {
        let done: u32 = match last {
            Some(previous) => if previous.done >= candidate {
                previous.done
            } else {
                candidate as u32
            },
            None => candidate as u32,
        };
        let delivered = TranslationProgress { phase: progress.phase, done, total: scope.total };
        if last == Some(delivered) {
            Ok((last, None))
        } else {
            Ok((Some(delivered), Some(delivered)))
        }
    }
}

/// Maps a block-local report onto the document: the offset is added, the
/// total becomes the document's, and a retry can never lower what the sink
/// was already told.
pub fn map_document_progress(
    scope: DocumentProgressScope,
    last: Option<TranslationProgress>,
    progress: TranslationProgress,
) -> (result: Result<(Option<TranslationProgress>, Option<TranslationProgress>), TranslationProviderError>)
    ensures
        result == document_mapping(scope, last, progress),
{
    let candidate = match scope.offset.checked_add(progress.done) {
        Some(c) => c,
        None => return Err(TranslationProviderError::Permanent),
    };
    if candidate > scope.total {
        return Err(TranslationProviderError::Permanent);
    }
    match last {
        Some(previous) => {
            if previous.total != scope.total {
                return Err(TranslationProviderError::Permanent);
            }
        },
        None => {},
    }
    let done = match last {
        Some(previous) => if previous.done >= candidate {
            previous.done
        } else {
            candidate
        },
        None => candidate,
    };
    let delivered = TranslationProgress { phase: progress.phase, done, total: scope.total };
    if last == Some(delivered) {
        Ok((last, None))
    } else {
        Ok((Some(delivered), Some(delivered)))
    }
}

/// Document progress only moves forward: what a scoped call delivers is
/// never below the previous high-water mark, never above the document total,
/// and always counts the block's preceding cues.
pub proof fn law_document_progress_never_regresses(
    scope: DocumentProgressScope,
    last: Option<TranslationProgress>,
    progress: TranslationProgress,
)
    requires
        document_mapping(scope, last, progress) is Ok,
        last matches Some(previous) ==> previous.done <= previous.total,
    ensures
        ({
            let (mark, _) = document_mapping(scope, last, progress)->Ok_0;
            &&& mark is Some
            &&& mark->0.total == scope.total
            &&& mark->0.done <= scope.total
            &&& mark->0.done >= scope.offset + progress.done
            &&& (last matches Some(previous) ==> mark->0.done >= previous.done)
        }),
{
}

/// A scope for a block: `offset` may not exceed `total`.
pub fn document_scope(offset: u32, total: u32) -> (scope: Result<DocumentProgressScope, TranslationProviderError>)
    ensures
        scope is Ok <==> offset <= total,
        scope matches Ok(s) ==> s.offset == offset && s.total == total,
        scope matches Err(e) ==> e == TranslationProviderError::Permanent,
{
    if offset > total {
        return Err(TranslationProviderError::Permanent);
    }
    Ok(DocumentProgressScope { offset, total })
}

/// Receives the progress of a call. Implemented by the caller.
pub trait TranslationProgressSink {
    fn on_progress(&self, progress: TranslationProgress);
}

/// Any value is allowed in the cancellation gate.
pub struct AnyFlag;

impl RwLockPredicate<bool> for AnyFlag {
    open spec fn inv(self, v: bool) -> bool {
        true
    }
}

/// A remembered report never counts past its total.
pub struct WithinTotal;

impl Predicate<Option<TranslationProgress>> for WithinTotal {
    open spec fn predicate(&self, v: Option<TranslationProgress>) -> bool {
        v matches Some(p) ==> p.done <= p.total
    }
}

/// The shared handle a provider reports through.
///
/// The cancellation lock and the document high-water mark are shared with
/// every fork; the provider's own progress sequence belongs to one call.
/// Progress, results and commits are delivered while holding that lock, so
/// a cancel waits for a delivery in flight and no delivery follows a cancel
/// that has returned.
pub struct TranslationCall<S: TranslationProgressSink> {
    cancelled: Arc<RwLock<bool, AnyFlag>>,
    sink: Option<Arc<S>>,
    last_progress: Arc<InvCell<Option<TranslationProgress>, WithinTotal>>,
    document_progress: Arc<InvCell<Option<TranslationProgress>, WithinTotal>>,
    document_scope: Option<DocumentProgressScope>,
}

#[verifier::external_body]
pub(crate) fn share<T: ?Sized>(value: &Arc<T>) -> (copy: Arc<T>)
    ensures
        copy == *value,
{
    value.clone()
}

impl<S: TranslationProgressSink> TranslationCall<S> {
    #[verifier::type_invariant]
    spec fn well_formed(self) -> bool {
        &&& self.last_progress.predicate() == WithinTotal
        &&& self.document_progress.predicate() == WithinTotal
    }

    /// The document scope of the call, if it has one.
    pub closed spec fn scope(&self) -> Option<DocumentProgressScope> {
        self.document_scope
    }

    /// Whether two calls share one cancellation gate, one sink and one
    /// document-wide progress counter: cancelling either cancels both.
    pub closed spec fn shares_delivery_with(&self, other: &TranslationCall<S>) -> bool {
        &&& self.cancelled == other.cancelled
        &&& self.sink == other.sink
        &&& self.document_progress == other.document_progress
    }

    /// A call that reports to `sink`.
    pub fn new(sink: Arc<S>) -> (call: TranslationCall<S>)
        ensures
            call.scope() is None,
    {
        Self::from_sink(Some(sink))
    }

    fn from_sink(sink: Option<Arc<S>>) -> (call: TranslationCall<S>)
        ensures
            call.scope() is None,
    {
        TranslationCall {
            cancelled: Arc::new(RwLock::new(false, Ghost(AnyFlag))),
            sink,
            last_progress: Arc::new(InvCell::new(None, Ghost(WithinTotal))),
            document_progress: Arc::new(InvCell::new(None, Ghost(WithinTotal))),
            document_scope: None,
        }
    }

    /// A retry call: it shares cancellation, the sink and the document
    /// high-water mark, but starts a fresh provider progress sequence.
    pub fn fork(&self) -> (call: TranslationCall<S>)
        ensures
            call.scope() == self.scope(),
            call.shares_delivery_with(self),
    {
        proof {
            use_type_invariant(self);
        }
        TranslationCall {
            cancelled: share(&self.cancelled),
            sink: match &self.sink {
                Some(s) => Some(share(s)),
                None => None,
            },
            last_progress: Arc::new(InvCell::new(None, Ghost(WithinTotal))),
            document_progress: share(&self.document_progress),
            document_scope: self.document_scope,
        }
    }

    /// A fork that reports into one document-wide counter: `offset` output
    /// cues precede this block, `total` is the document's count.
    pub fn with_document_progress(&self, offset: u32, total: u32) -> (call: Result<
        TranslationCall<S>,
        TranslationProviderError,
    >)
        ensures
            call is Ok <==> offset <= total,
            call matches Ok(c) ==> c.scope() == Some(DocumentProgressScope { offset, total }),
            call matches Ok(c) ==> c.shares_delivery_with(self),
            call matches Err(e) ==> e == TranslationProviderError::Permanent,
    {
        let scope = match document_scope(offset, total) {
            Ok(s) => s,
            Err(e) => return Err(e),
        };
        let mut scoped = self.fork();
        scoped.document_scope = Some(scope);
        Ok(scoped)
    }

    /// Cancels this call and every fork of it. Waits for a delivery in
    /// flight; once it returns, nothing more is delivered.
    pub fn cancel(&self) {
        let (_, gate) = self.cancelled.acquire_write();
        gate.release_write(true);
    }

    /// Whether the call is cancelled.
    pub fn is_cancelled(&self) -> bool {
        let gate = self.cancelled.acquire_read();
        let closed = *gate.borrow();
        gate.release_read();
        closed
    }

    /// `Err(Cancelled)` once the call is cancelled.
    pub fn checkpoint(&self) -> (result: Result<(), TranslationProviderError>)
        ensures
            result matches Err(e) ==> e == TranslationProviderError::Cancelled,
    {
        if self.is_cancelled() {
            Err(TranslationProviderError::Cancelled)
        } else {
            Ok(())
        }
    }

    /// Accepts a provider progress report.
    ///
    /// A cancelled call refuses it with `Cancelled`. A report that breaks the
    /// provider's own sequence ([`progress_accepted`]), or that cannot be
    /// mapped onto the document ([`document_mapping`]), is `Permanent` and
    /// changes nothing. Otherwise it is remembered and the sink receives the
    /// provider's report, or on a scoped call the mapped document report when
    /// it is new.
    pub fn progress(&self, progress: TranslationProgress) -> (result: Result<(), TranslationProviderError>)
        ensures
            result matches Err(e) ==> e == TranslationProviderError::Cancelled || e
                == TranslationProviderError::Permanent,
            self.scope() matches Some(s) && document_mapping(s, None, progress) is Err
                ==> result is Err,
            progress.done > progress.total ==> result is Err,
    {
        proof {
            use_type_invariant(self);
        }
        let (closed, gate) = self.cancelled.acquire_write();
        if closed {
            gate.release_write(closed);
            return Err(TranslationProviderError::Cancelled);
        }
        let last = self.last_progress.get();
        match check_provider_progress(last, progress) {
            Ok(()) => {},
            Err(e) => {
                gate.release_write(closed);
                return Err(e);
            },
        }
        let delivered = match self.document_scope {
            Some(scope) => {
                let mark = self.document_progress.get();
                match map_document_progress(scope, mark, progress) {
                    Ok((new_mark, delivered)) => {
                        proof {
                            law_document_progress_never_regresses(scope, mark, progress);
                        }
                        self.document_progress.set(new_mark);
                        delivered
                    },
                    Err(e) => {
                        proof {
                            lemma_mapping_failure_persists(scope, mark, progress);
                        }
                        gate.release_write(closed);
                        return Err(e);
                    },
                }
            },
            None => Some(progress),
        };
        self.last_progress.set(Some(progress));
        match (&self.sink, delivered) {
            (Some(sink), Some(report)) => sink.on_progress(report),
            _ => {},
        }
        gate.release_write(closed);
        Ok(())
    }

    /// Hands a result back: `Err(Cancelled)` once the call is
    /// cancelled, the response otherwise.
    pub fn finish<R>(&self, response: R) -> (result: Result<R, TranslationProviderError>)
        ensures
            result matches Err(e) ==> e == TranslationProviderError::Cancelled,
            result matches Ok(r) ==> r == response,
    {
        let (closed, gate) = self.cancelled.acquire_write();
        let result = if closed {
            Err(TranslationProviderError::Cancelled)
        } else {
            Ok(response)
        };
        gate.release_write(closed);
        result
    }

    /// Runs `f` only while the call is not cancelled; once it is, `f` never
    /// runs and the result is `Err(Cancelled)`. While `f` runs the
    /// cancellation lock is held, so a concurrent cancel waits for it; `f`
    /// must not call back into this call.
    pub fn commit<T, F: FnOnce() -> T>(&self, f: F) -> (result: Result<T, TranslationProviderError>)
        requires
            f.requires(()),
        ensures
            result matches Err(e) ==> e == TranslationProviderError::Cancelled,
            result matches Ok(v) ==> f.ensures((), v),
    {
        let (closed, gate) = self.cancelled.acquire_write();
        if closed {
            gate.release_write(closed);
            Err(TranslationProviderError::Cancelled)
        } else {
            let value = f();
            gate.release_write(closed);
            Ok(value)
        }
    }

    /// Diagnostic text: whether the call is cancelled, nothing else.
    pub fn debug_text(&self) -> (text: &'static str) {
        if self.is_cancelled() {
            "TranslationCall { cancelled: true, .. }"
        } else {
            "TranslationCall { cancelled: false, .. }"
        }
    }
}

/// The sink of a call nobody listens to.
pub struct NoSink;

impl TranslationProgressSink for NoSink {
    fn on_progress(&self, progress: TranslationProgress) {
    }
}

impl TranslationCall<NoSink> {
    /// A call nobody listens to.
    pub fn without_progress() -> (call: TranslationCall<NoSink>)
        ensures
            call.scope() is None,
    {
        Self::from_sink(None)
    }
}

/// A report that cannot be mapped with no high-water mark cannot be mapped
/// with one either.
proof fn lemma_mapping_failure_persists(
    scope: DocumentProgressScope,
    last: Option<TranslationProgress>,
    progress: TranslationProgress,
)
    ensures
        document_mapping(scope, None, progress) is Err ==> document_mapping(scope, last, progress) is Err,
{
}

/// A translation provider: who it is, and the two calls it answers. Both go
/// through the caller's [`TranslationCall`].
pub trait TranslationProvider {
    fn identity(&self) -> TranslationProviderIdentity;

    fn analyze_document<S: TranslationProgressSink>(
        &mut self,
        request: &DocumentAnalysisRequest,
        call: &TranslationCall<S>,
    ) -> Result<DocumentAnalysis, TranslationProviderError>;

    fn translate<S: TranslationProgressSink>(
        &mut self,
        request: &TranslationRequest,
        call: &TranslationCall<S>,
    ) -> Result<TranslationResponse, TranslationProviderError>;
}

} // verus!
