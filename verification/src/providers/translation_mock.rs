//! A deterministic, network-free translation provider.
//!
//! Every requested cue comes back as the target language tag in brackets
//! followed by the source text, so the same request always gets the same
//! answer and the same progress.
use crate::translation::{
    DocumentAnalysis, DocumentAnalysisRequest, TranslatedCue, TranslationCall, TranslationCue, TranslationProgress,
    TranslationProgressPhase, TranslationProgressSink, TranslationProvider, TranslationProviderError,
    TranslationProviderIdentity, TranslationRequest, TranslationResponse,
};
use std::sync::Arc;
use vstd::prelude::*;

verus! {

/// The provider id of the mock.
pub const PROVIDER_ID: &'static str = "nen-mock";

/// The model id of the mock.
pub const MODEL_ID: &'static str = "deterministic-v1";

/// A point where a test can hold a translation in flight: the provider
/// arrives and waits until the test releases it. Implemented by the caller.
pub trait ArrivalGate {
    fn arrive_and_wait(&self);
}

/// The arrival point of a mock nobody holds.
pub struct NoGate;

impl ArrivalGate for NoGate {
    fn arrive_and_wait(&self) {
    }
}

/// The deterministic provider. It counts its calls.
pub struct MockTranslationProvider<G: ArrivalGate> {
    calls: usize,
    call_gate: Option<Arc<G>>,
}

/// The first context cue with the given id.
pub open spec fn source_cue(cues: Seq<TranslationCue>, id: u32) -> Option<TranslationCue>
    decreases cues.len(),
{
    if cues.len() == 0 {
        None
    } else if cues[0].cue_id == id {
        Some(cues[0])
    } else {
        source_cue(cues.drop_first(), id)
    }
}

/// The mock's rendering of a cue: the target tag in brackets, a space, the
/// source text.
pub open spec fn mock_text(target: Seq<char>, source: Seq<char>) -> Seq<char> {
    "["@ + target + "] "@ + source
}

/// Whether every requested id has a context cue.
pub open spec fn all_sources_present(request: TranslationRequest) -> bool {
    forall|i: int| 0 <= i < request.output_cue_ids@.len() ==> source_cue(request.context_cues@, #[trigger] request.output_cue_ids@[i]) is Some
}

/// The mock's answer to a request: one cue per requested id, in order.
pub open spec fn mock_answer(request: TranslationRequest) -> Seq<(u32, Seq<char>)> {
    request.output_cue_ids@.map_values(
        |id: u32| (id, mock_text(request.target_language@, source_cue(request.context_cues@, id)->0.text@)),
    )
}

impl MockTranslationProvider<NoGate> {
    /// A mock nobody holds.
    pub fn new() -> (provider: MockTranslationProvider<NoGate>)
        ensures
            provider.calls_spec() == 0,
    {
        MockTranslationProvider { calls: 0, call_gate: None }
    }
}

fn find_source<'r>(cues: &'r Vec<TranslationCue>, id: u32) -> (found: Option<&'r TranslationCue>)
    ensures
        match found {
            Some(c) => source_cue(cues@, id) == Some(*c),
            None => source_cue(cues@, id) is None,
        },
{
    let mut i: usize = 0;
    assert(cues@.subrange(0, cues@.len() as int) =~= cues@);
    while i < cues.len()
        invariant
            i <= cues@.len(),
            source_cue(cues@, id) == source_cue(cues@.subrange(i as int, cues@.len() as int), id),
        decreases cues@.len() - i,
    {
        let ghost rest = cues@.subrange(i as int, cues@.len() as int);
        assert(rest.drop_first() =~= cues@.subrange(i + 1, cues@.len() as int));
        assert(rest[0] == cues@[i as int]);
        if cues[i].cue_id == id {
            return Some(&cues[i]);
        }
        i = i + 1;
    }
    None
}

impl<G: ArrivalGate> MockTranslationProvider<G> {
    pub closed spec fn calls_spec(&self) -> nat {
        self.calls as nat
    }

    /// A mock that waits at the given arrival point once per translation, after its
    /// first progress report.
    pub fn with_call_gate(call_gate: Arc<G>) -> (provider: MockTranslationProvider<G>)
        ensures
            provider.calls_spec() == 0,
    {
        MockTranslationProvider { calls: 0, call_gate: Some(call_gate) }
    }

    /// How many translations were asked for (saturating).
    pub fn calls(&self) -> (calls: usize)
        ensures
            calls == self.calls_spec(),
    {
        self.calls
    }
}

impl<G: ArrivalGate> TranslationProvider for MockTranslationProvider<G> {
    fn identity(&self) -> (identity: TranslationProviderIdentity)
        ensures
            identity@ == (PROVIDER_ID@, MODEL_ID@),
    {
        proof {
            reveal_strlit("nen-mock");
            reveal_strlit("deterministic-v1");
            assert(!crate::translation::blank(PROVIDER_ID@)) by {
                crate::text::lemma_trimmed_empty(PROVIDER_ID@);
                assert(!crate::text::is_white_space(PROVIDER_ID@[0]));
            }
            assert(!crate::translation::blank(MODEL_ID@)) by {
                crate::text::lemma_trimmed_empty(MODEL_ID@);
                assert(!crate::text::is_white_space(MODEL_ID@[0]));
            }
        }
        match TranslationProviderIdentity::new(PROVIDER_ID, MODEL_ID) {
            Ok(identity) => identity,
            Err(_) => {
                assert(false);
                TranslationProviderIdentity::new(PROVIDER_ID, MODEL_ID).unwrap()
            },
        }
    }

    /// The mock offers no document analysis.
    fn analyze_document<S: TranslationProgressSink>(
        &mut self,
        request: &DocumentAnalysisRequest,
        call: &TranslationCall<S>,
    ) -> (analysis: Result<DocumentAnalysis, TranslationProviderError>)
        ensures
            analysis == Err::<DocumentAnalysis, TranslationProviderError>(TranslationProviderError::Permanent),
    {
        Err(TranslationProviderError::Permanent)
    }

    /// Answers every requested cue from its context cue. An empty request or
    /// a requested id without a context cue is a permanent failure.
    fn translate<S: TranslationProgressSink>(
        &mut self,
        request: &TranslationRequest,
        call: &TranslationCall<S>,
    ) -> (response: Result<TranslationResponse, TranslationProviderError>)
        ensures
            response matches Ok(r) ==> r.cues@.map_values(|c: TranslatedCue| (c.cue_id, c.text@))
                == mock_answer(*request) && all_sources_present(*request),
            response matches Err(e) ==> e == TranslationProviderError::Cancelled || e
                == TranslationProviderError::Permanent,
            request.output_cue_ids@.len() == 0 ==> response is Err,
            !all_sources_present(*request) ==> response is Err,
            final(self).calls_spec() == (if old(self).calls_spec() < usize::MAX {
                old(self).calls_spec() + 1
            } else {
                old(self).calls_spec()
            }),
    {
        if self.calls < usize::MAX {
            self.calls = self.calls + 1;
        }
        match call.checkpoint() {
            Ok(()) => {},
            Err(e) => return Err(e),
        }
        if request.output_cue_ids.len() > u32::MAX as usize || request.output_cue_ids.len() == 0 {
            return Err(TranslationProviderError::Permanent);
        }
        let total = request.output_cue_ids.len() as u32;
        match call.progress(TranslationProgress { phase: TranslationProgressPhase::Preparing, done: 0, total }) {
            Ok(()) => {},
            Err(e) => return Err(e),
        }
        match &self.call_gate {
            Some(gate) => gate.arrive_and_wait(),
            None => {},
        }
        let mut cues: Vec<TranslatedCue> = Vec::new();
        let mut position: usize = 0;
        while position < request.output_cue_ids.len()
            invariant
                position <= request.output_cue_ids@.len(),
                self.calls_spec() == (if old(self).calls_spec() < usize::MAX {
                    old(self).calls_spec() + 1
                } else {
                    old(self).calls_spec()
                }),
                request.output_cue_ids@.len() <= u32::MAX,
                total == request.output_cue_ids@.len(),
                cues@.map_values(|c: TranslatedCue| (c.cue_id, c.text@)) == mock_answer(*request).subrange(
                    0,
                    position as int,
                ),
                forall|i: int| 0 <= i < position ==> source_cue(request.context_cues@, #[trigger] request.output_cue_ids@[i]) is Some,
            decreases request.output_cue_ids@.len() - position,
        {
            match call.checkpoint() {
                Ok(()) => {},
                Err(e) => return Err(e),
            }
            let cue_id = request.output_cue_ids[position];
            let source = match find_source(&request.context_cues, cue_id) {
                Some(s) => s,
                None => return Err(TranslationProviderError::Permanent),
            };
            let mut text = String::from_str("[");
            text.append(request.target_language.as_str());
            text.append("] ");
            text.append(source.text.as_str());
            let ghost before = cues@;
            cues.push(TranslatedCue { cue_id, text });
            proof {
                reveal_strlit("[");
                reveal_strlit("] ");
                assert(cues@.map_values(|c: TranslatedCue| (c.cue_id, c.text@)) =~= before.map_values(
                    |c: TranslatedCue| (c.cue_id, c.text@),
                ).push((cue_id, text@)));
                assert(mock_answer(*request).subrange(0, position + 1) =~= mock_answer(*request).subrange(
                    0,
                    position as int,
                ).push(mock_answer(*request)[position as int]));
            }
            match call.progress(
                TranslationProgress {
                    phase: TranslationProgressPhase::Translating,
                    done: (position + 1) as u32,
                    total,
                },
            ) {
                Ok(()) => {},
                Err(e) => return Err(e),
            }
            position = position + 1;
        }
        match call.progress(TranslationProgress { phase: TranslationProgressPhase::Finalizing, done: total, total }) {
            Ok(()) => {},
            Err(e) => return Err(e),
        }
        assert(mock_answer(*request).subrange(0, request.output_cue_ids@.len() as int) =~= mock_answer(*request));
        call.finish(TranslationResponse { cues })
    }
}

} // verus!
