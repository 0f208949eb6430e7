use nen_core::translation::{
    map_document_progress, AnalysisCharacter, AnalysisGlossaryEntry, DocumentAnalysis, DocumentAnalysisValidationError,
    DocumentProgressScope, TranslationCall, TranslationProgress, TranslationProgressPhase, TranslationProgressSink,
    TranslationProviderError, TranslationProviderIdentity, TranslationResponse,
};
use std::sync::{Arc, Mutex};

struct NoopSink;

impl TranslationProgressSink for NoopSink {
    fn on_progress(&self, _progress: TranslationProgress) {}
}

#[test]
fn cancellation_closes_progress_and_result_delivery() {
    let call = TranslationCall::new(Arc::new(NoopSink));
    call.cancel();
    assert_eq!(call.checkpoint(), Err(TranslationProviderError::Cancelled));
    assert_eq!(
        call.progress(TranslationProgress { phase: TranslationProgressPhase::Preparing, done: 0, total: 1 }),
        Err(TranslationProviderError::Cancelled)
    );
    assert!(call.finish(TranslationResponse { cues: Vec::new() }).is_err());
}

#[test]
fn progress_rejects_regression_and_out_of_bounds_counts() {
    let call = TranslationCall::without_progress();
    call.progress(TranslationProgress { phase: TranslationProgressPhase::Translating, done: 1, total: 2 })
        .expect("first progress");
    assert_eq!(
        call.progress(TranslationProgress { phase: TranslationProgressPhase::Translating, done: 0, total: 2 }),
        Err(TranslationProviderError::Permanent)
    );
    assert_eq!(
        TranslationCall::without_progress().progress(TranslationProgress {
            phase: TranslationProgressPhase::Preparing,
            done: 2,
            total: 1,
        }),
        Err(TranslationProviderError::Permanent)
    );
}

#[test]
fn fork_resets_progress_sequence_but_shares_cancellation() {
    let call = TranslationCall::without_progress();
    call.progress(TranslationProgress { phase: TranslationProgressPhase::Finalizing, done: 3, total: 3 })
        .expect("initial call completes");
    let retry = call.fork();
    retry
        .progress(TranslationProgress { phase: TranslationProgressPhase::Preparing, done: 0, total: 1 })
        .expect("retry starts a fresh sequence");
    call.cancel();
    assert_eq!(retry.checkpoint(), Err(TranslationProviderError::Cancelled));
    assert_eq!(
        retry.progress(TranslationProgress { phase: TranslationProgressPhase::Finalizing, done: 1, total: 1 }),
        Err(TranslationProviderError::Cancelled)
    );
}

#[derive(Default)]
struct RecordingSink {
    updates: Mutex<Vec<TranslationProgress>>,
}

impl TranslationProgressSink for RecordingSink {
    fn on_progress(&self, progress: TranslationProgress) {
        self.updates.lock().expect("lock").push(progress);
    }
}

#[test]
fn document_progress_maps_offsets_and_clamps_retry_regressions() {
    let sink = Arc::new(RecordingSink::default());
    let call = TranslationCall::new(sink.clone());
    let scoped = call.with_document_progress(4, 10).expect("valid document progress scope");
    scoped
        .progress(TranslationProgress { phase: TranslationProgressPhase::Translating, done: 3, total: 3 })
        .expect("initial block progress");
    scoped
        .fork()
        .progress(TranslationProgress { phase: TranslationProgressPhase::Preparing, done: 0, total: 1 })
        .expect("retry starts a fresh provider sequence");
    let updates = sink.updates.lock().expect("lock").clone();
    assert_eq!(updates[0].done, 7, "offset is added to local progress");
    assert_eq!(updates[0].total, 10, "sink receives the document total");
    assert_eq!(updates[1].done, 7, "retry cannot lower document progress");
    assert_eq!(updates[1].total, 10);
    assert!(call.with_document_progress(11, 10).is_err());
}

#[test]
fn document_mapping_is_exact() {
    let scope = DocumentProgressScope { offset: 4, total: 10 };
    let first = TranslationProgress { phase: TranslationProgressPhase::Translating, done: 3, total: 3 };
    let mapped = TranslationProgress { phase: TranslationProgressPhase::Translating, done: 7, total: 10 };
    assert_eq!(map_document_progress(scope, None, first), Ok((Some(mapped), Some(mapped))));
    assert_eq!(map_document_progress(scope, Some(mapped), first), Ok((Some(mapped), None)));
    let too_far = TranslationProgress { phase: TranslationProgressPhase::Translating, done: 7, total: 7 };
    assert_eq!(map_document_progress(scope, None, too_far), Err(TranslationProviderError::Permanent));
}

#[test]
fn document_analysis_rejects_every_empty_required_text_field() {
    let valid = DocumentAnalysis {
        summary: "summary".into(),
        characters: vec![AnalysisCharacter { name: "name".into(), description: "description".into() }],
        glossary: vec![AnalysisGlossaryEntry { source: "source".into(), target: "target".into(), note: "note".into() }],
    };
    assert_eq!(valid.validate(), Ok(()));
    let mut empty_summary = valid.clone();
    empty_summary.summary = " \n ".into();
    let mut empty_character = valid.clone();
    empty_character.characters[0].description.clear();
    let mut empty_glossary = valid;
    empty_glossary.glossary[0].target.clear();
    assert_eq!(empty_summary.validate(), Err(DocumentAnalysisValidationError::EmptySummary));
    assert_eq!(empty_character.validate(), Err(DocumentAnalysisValidationError::EmptyCharacterField));
    assert_eq!(empty_glossary.validate(), Err(DocumentAnalysisValidationError::EmptyGlossaryField));
}

#[test]
fn derived_debug_would_really_expose_the_guard_sentinel() {
    #[derive(Debug)]
    #[allow(dead_code)]
    struct LeakyCue {
        text: String,
    }
    let secret = "PRIVATE SUBTITLE DIALOGUE";
    let output = format!("{:?}", LeakyCue { text: secret.into() });
    assert!(output.contains(secret));
}

#[test]
fn commit_after_cancel_never_runs_the_closure() {
    let call = TranslationCall::without_progress();
    call.cancel();
    let mut ran = false;
    let result = call.commit(|| {
        ran = true;
    });
    assert_eq!(result, Err(TranslationProviderError::Cancelled));
    assert!(!ran, "commit closure must not run once the call is cancelled");
    let open = TranslationCall::without_progress();
    assert_eq!(open.commit(|| 5), Ok(5));
}

#[test]
fn identity_rejects_blank_names_and_never_prints_them() {
    assert!(TranslationProviderIdentity::new(" ", "model").is_err());
    assert!(TranslationProviderIdentity::new("openai", "").is_err());
    let identity = TranslationProviderIdentity::new("openai", "gpt").expect("valid");
    assert_eq!(identity.provider(), "openai");
    assert_eq!(identity.model(), "gpt");
    assert_eq!(identity.debug_text(), "TranslationProviderIdentity { provider_len: 6, model_len: 3 }");
}
