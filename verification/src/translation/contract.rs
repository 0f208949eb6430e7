//! The shared contract kit every translation provider must pass: it returns
//! exactly the requested cues, reports progress from a preparing start to a
//! finalized end, and answers an already cancelled call with `Cancelled`.
use crate::translation::{
    share, NoSink, TranslationCall, TranslationProgress, TranslationProgressPhase, TranslationProgressSink,
    TranslationProvider, TranslationProviderError, TranslationRequest,
};
use std::sync::Arc;
use vstd::cell::invcell::InvCell;
use vstd::predicate::Predicate;
use vstd::prelude::*;

verus! {

/// A violation of the provider contract.
#[derive(Debug, Clone, Copy, PartialEq, Eq, Structural)]
pub enum ContractViolation {
    /// The call failed.
    CallFailed,
    /// The response's cue ids are not the requested ones.
    ResponseCueIds,
    /// No progress was reported.
    MissingProgress,
    /// Progress did not start preparing at zero or end finalized and complete.
    ProgressBoundaries,
    /// An already cancelled call was not answered with `Cancelled`.
    Cancellation,
}

/// How often `id` occurs in `ids`.
pub open spec fn id_occurrences(ids: Seq<u32>, id: u32) -> nat
    decreases ids.len(),
{
    if ids.len() == 0 {
        0
    } else {
        id_occurrences(ids.drop_last(), id) + if ids.last() == id {
            1nat
        } else {
            0nat
        }
    }
}

/// Whether two id lists hold the same ids, each as often, in any order.
pub open spec fn same_ids(a: Seq<u32>, b: Seq<u32>) -> bool {
    forall|id: u32| id_occurrences(a, id) == id_occurrences(b, id)
}

proof fn lemma_absent_id(ids: Seq<u32>, id: u32)
    requires
        !ids.contains(id),
    ensures
        id_occurrences(ids, id) == 0,
    decreases ids.len(),
{
    if ids.len() > 0 {
        assert(!ids.drop_last().contains(id)) by {
            if ids.drop_last().contains(id) {
                let k = choose|k: int| 0 <= k < ids.drop_last().len() && ids.drop_last()[k] == id;
                assert(ids[k] == id);
            }
        }
        assert(ids.last() == ids[ids.len() - 1]);
        lemma_absent_id(ids.drop_last(), id);
    }
}

fn count_id(ids: &Vec<u32>, id: u32) -> (count: usize)
    ensures
        count == id_occurrences(ids@, id),
{
    let mut count: usize = 0;
    let mut i: usize = 0;
    while i < ids.len()
        invariant
            i <= ids@.len(),
            count == id_occurrences(ids@.subrange(0, i as int), id),
            count <= i,
        decreases ids@.len() - i,
    {
        assert(ids@.subrange(0, i + 1).drop_last() =~= ids@.subrange(0, i as int));
        if ids[i] == id {
            count = count + 1;
        }
        i = i + 1;
    }
    assert(ids@.subrange(0, ids@.len() as int) =~= ids@);
    count
}

/// Whether two id lists hold the same ids, each as often, in any order.
pub fn same_id_lists(a: &Vec<u32>, b: &Vec<u32>) -> (same: bool)
    ensures
        same == same_ids(a@, b@),
{
    let mut i: usize = 0;
    while i < a.len()
        invariant
            i <= a@.len(),
            forall|k: int| 0 <= k < i ==> id_occurrences(a@, #[trigger] a@[k]) == id_occurrences(b@, a@[k]),
        decreases a@.len() - i,
    {
        if count_id(a, a[i]) != count_id(b, a[i]) {
            return false;
        }
        i = i + 1;
    }
    let mut j: usize = 0;
    while j < b.len()
        invariant
            j <= b@.len(),
            forall|k: int| 0 <= k < a@.len() ==> id_occurrences(a@, #[trigger] a@[k]) == id_occurrences(b@, a@[k]),
            forall|k: int| 0 <= k < j ==> id_occurrences(a@, #[trigger] b@[k]) == id_occurrences(b@, b@[k]),
        decreases b@.len() - j,
    {
        if count_id(a, b[j]) != count_id(b, b[j]) {
            return false;
        }
        j = j + 1;
    }
    assert forall|id: u32| id_occurrences(a@, id) == id_occurrences(b@, id) by {
        if a@.contains(id) {
            let k = choose|k: int| 0 <= k < a@.len() && a@[k] == id;
            assert(id_occurrences(a@, a@[k]) == id_occurrences(b@, a@[k]));
        } else if b@.contains(id) {
            let k = choose|k: int| 0 <= k < b@.len() && b@[k] == id;
            assert(id_occurrences(a@, b@[k]) == id_occurrences(b@, b@[k]));
        } else {
            lemma_absent_id(a@, id);
            lemma_absent_id(b@, id);
        }
    }
    true
}

/// Whether reported progress starts preparing at zero and ends finalized
/// with every cue done.
pub open spec fn progress_bounded(updates: Seq<TranslationProgress>) -> bool {
    &&& updates[0].phase == TranslationProgressPhase::Preparing
    &&& updates[0].done == 0
    &&& updates.last().phase == TranslationProgressPhase::Finalizing
    &&& updates.last().done == updates.last().total
}

/// The violations a provider's answers show, in the order the kit finds
/// them: the response, the progress, then the cancelled call.
pub open spec fn provider_violations(
    returned: Option<Seq<u32>>,
    expected: Seq<u32>,
    updates: Seq<TranslationProgress>,
    cancelled_refused: bool,
) -> Seq<ContractViolation> {
    let response = match returned {
        Some(ids) => if same_ids(ids, expected) {
            Seq::empty()
        } else {
            seq![ContractViolation::ResponseCueIds]
        },
        None => seq![ContractViolation::CallFailed],
    };
    let progress = if updates.len() == 0 {
        response.push(ContractViolation::MissingProgress)
    } else if !progress_bounded(updates) {
        response.push(ContractViolation::ProgressBoundaries)
    } else {
        response
    };
    if cancelled_refused {
        progress
    } else {
        progress.push(ContractViolation::Cancellation)
    }
}

/// The contract's verdict on a list of violations: success exactly when
/// there are none.
pub open spec fn verdict_of(result: Result<(), Vec<ContractViolation>>, violations: Seq<ContractViolation>) -> bool {
    match result {
        Ok(()) => violations.len() == 0,
        Err(v) => v@ == violations && violations.len() > 0,
    }
}

/// Judges a provider's answers: the ids it returned (`None` when the call
/// failed), the progress it reported, and whether a cancelled call was
/// answered with `Cancelled`.
pub fn judge_provider(
    returned: Option<&Vec<u32>>,
    expected: &Vec<u32>,
    updates: &Vec<TranslationProgress>,
    cancelled_refused: bool,
) -> (result: Result<(), Vec<ContractViolation>>)
    ensures
        verdict_of(
            result,
            provider_violations(
                match returned {
                    Some(ids) => Some(ids@),
                    None => None,
                },
                expected@,
                updates@,
                cancelled_refused,
            ),
        ),
{
    let mut violations: Vec<ContractViolation> = Vec::new();
    match returned {
        Some(ids) => {
            if !same_id_lists(ids, expected) {
                violations.push(ContractViolation::ResponseCueIds);
            }
        },
        None => violations.push(ContractViolation::CallFailed),
    }
    if updates.len() == 0 {
        violations.push(ContractViolation::MissingProgress);
    } else {
        let first = updates[0];
        let last = updates[updates.len() - 1];
        if first.phase != TranslationProgressPhase::Preparing || first.done != 0 || last.phase
            != TranslationProgressPhase::Finalizing || last.done != last.total {
            violations.push(ContractViolation::ProgressBoundaries);
        }
    }
    if !cancelled_refused {
        violations.push(ContractViolation::Cancellation);
    }
    if violations.len() == 0 {
        Ok(())
    } else {
        Err(violations)
    }
}

/// Any list of reports may be held.
pub struct AnyReports;

impl Predicate<Vec<TranslationProgress>> for AnyReports {
    open spec fn predicate(&self, v: Vec<TranslationProgress>) -> bool {
        true
    }
}

/// A sink that keeps every report it receives, in order.
pub struct ProgressRecorder {
    updates: InvCell<Vec<TranslationProgress>, AnyReports>,
}

impl ProgressRecorder {
    pub fn new() -> (recorder: ProgressRecorder) {
        ProgressRecorder { updates: InvCell::new(Vec::new(), Ghost(AnyReports)) }
    }

    /// Takes every report received so far.
    pub fn take(&self) -> (updates: Vec<TranslationProgress>) {
        self.updates.replace(Vec::new())
    }
}

impl TranslationProgressSink for ProgressRecorder {
    fn on_progress(&self, progress: TranslationProgress) {
        let mut updates = self.updates.replace(Vec::new());
        updates.push(progress);
        self.updates.set(updates);
    }
}

fn response_ids(cues: &Vec<crate::translation::TranslatedCue>) -> (ids: Vec<u32>)
    ensures
        ids@.len() == cues@.len(),
        forall|k: int| 0 <= k < cues@.len() ==> ids@[k] == #[trigger] cues@[k].cue_id,
{
    let mut ids: Vec<u32> = Vec::new();
    let mut i: usize = 0;
    while i < cues.len()
        invariant
            i <= cues@.len(),
            ids@.len() == i,
            forall|k: int| 0 <= k < i ==> ids@[k] == #[trigger] cues@[k].cue_id,
        decreases cues@.len() - i,
    {
        ids.push(cues[i].cue_id);
        i = i + 1;
    }
    ids
}

/// Runs the provider contract: one translation watched by a recording sink,
/// then a translation on a call cancelled before it starts.
pub fn check<P: TranslationProvider>(provider: &mut P, request: &TranslationRequest) -> (result: Result<
    (),
    Vec<ContractViolation>,
>)
    ensures
        exists|returned: Option<Seq<u32>>, updates: Seq<TranslationProgress>, refused: bool|
            verdict_of(result, provider_violations(returned, request.output_cue_ids@, updates, refused)),
{
    let recorder = Arc::new(ProgressRecorder::new());
    let call = TranslationCall::new(share(&recorder));
    let returned = match provider.translate(request, &call) {
        Ok(response) => Some(response_ids(&response.cues)),
        Err(_) => None,
    };
    let updates = recorder.take();
    let cancelled = TranslationCall::<NoSink>::without_progress();
    cancelled.cancel();
    let cancelled_refused = match provider.translate(request, &cancelled) {
        Err(TranslationProviderError::Cancelled) => true,
        _ => false,
    };
    match &returned {
        Some(ids) => judge_provider(Some(ids), &request.output_cue_ids, &updates, cancelled_refused),
        None => judge_provider(None, &request.output_cue_ids, &updates, cancelled_refused),
    }
}

} // verus!
