use nen_core::playback::capability::{Capabilities, Capability};
use nen_core::playback::contract::{
    applicable_count, run_all, scenarios, Applicability, ContractInputs, Failure, NoPause,
};
use nen_core::playback::engine::{EngineCommand, PlaybackEngine};
use nen_core::playback::error::{Operation, PlaybackError};
use nen_core::playback::event::{guard_reentrancy, CallbackMark, EventQueue, PlaybackEvent, PlaybackState};
use nen_core::playback::fake::{fake_inputs, fake_inputs_without_video, FakeEngine};
use nen_core::playback::geometry::VideoGeometry;
use nen_core::playback::media::MediaSource;
use nen_core::playback::track::{TrackDescriptor, TrackId, TrackKind};
use nen_core::subtitle::SubtitleDocument;
use std::cell::{Cell, RefCell};

fn report(failures: &[Failure]) -> String {
    failures.iter().map(|f| f.render()).collect::<Vec<_>>().join("\n")
}

#[test]
fn a_fully_capable_engine_passes_every_applicable_scenario() {
    let inputs = fake_inputs();
    let failures = run_all(FakeEngine::full, &inputs, &NoPause);
    assert!(failures.is_empty(), "{}", report(&failures));
}

#[test]
fn a_base_only_engine_passes_every_applicable_scenario() {
    let inputs = fake_inputs();
    let failures = run_all(FakeEngine::minimal, &inputs, &NoPause);
    assert!(failures.is_empty(), "{}", report(&failures));
}

#[test]
fn a_medium_with_no_video_passes_every_applicable_scenario() {
    let inputs = fake_inputs_without_video();
    let failures = run_all(FakeEngine::without_video, &inputs, &NoPause);
    assert!(failures.is_empty(), "{}", report(&failures));
}

#[test]
fn the_geometry_scenario_really_distinguishes_the_two_media() {
    let with_video = run_all(FakeEngine::full, &fake_inputs_without_video(), &NoPause);
    assert!(!with_video.is_empty(), "an engine with a picture passed a fixture that declares none");

    let without_video = run_all(FakeEngine::without_video, &fake_inputs(), &NoPause);
    assert!(!without_video.is_empty(), "an engine with no picture passed a fixture that declares one");
}

#[test]
fn every_partial_capability_set_passes() {
    let inputs = fake_inputs();
    for bits in 0..(1u8 << Capability::ALL.len()) {
        let declared: Vec<Capability> = Capability::ALL
            .into_iter()
            .enumerate()
            .filter(|(index, _)| bits & (1 << index) != 0)
            .map(|(_, capability)| capability)
            .collect();
        let capabilities = Capabilities::new(&declared);
        let failures = run_all(|| FakeEngine::new(capabilities), &inputs, &NoPause);
        assert!(failures.is_empty(), "capabilities {declared:?}:\n{}", report(&failures));
    }
}

#[test]
fn contract_fake_the_run_is_not_vacuous() {
    let total = scenarios().len();
    let full = applicable_count(Capabilities::all());
    let minimal = applicable_count(Capabilities::none());

    assert!(total >= 20, "the kit only has {total} scenarios");
    assert!(full >= 15, "only {full} scenarios apply to a full engine");
    assert!(minimal >= 15, "only {minimal} apply to a minimal engine");
    assert_eq!(
        full + minimal,
        total + scenarios().iter().filter(|scenario| scenario.applies == Applicability::Always).count(),
        "some scenario applies to neither a full nor a minimal engine"
    );
}

#[test]
fn contract_fake_every_capability_is_covered_in_both_directions() {
    let all = scenarios();
    for capability in Capability::ALL {
        assert!(
            all.iter().any(|s| s.applies == Applicability::WithCapability(capability)),
            "no scenario exercises {capability:?} when present"
        );
        assert!(
            all.iter().any(|s| s.applies == Applicability::WithoutCapability(capability)),
            "no scenario exercises {capability:?} when absent"
        );
    }
}

#[test]
fn contract_fake_the_fake_declares_what_it_was_built_with() {
    assert!(FakeEngine::full().capabilities() == Capabilities::all());
    assert!(FakeEngine::minimal().capabilities() == Capabilities::none());
}

#[test]
fn an_engine_with_a_real_loading_window_still_passes_every_applicable_scenario() {
    let inputs = fake_inputs();
    let failures = run_all(LoadingWindowEngine::new, &inputs, &NoPause);
    assert!(failures.is_empty(), "{}", report(&failures));
}

/// A fake whose `state()` answers `Buffering` for a few polls after every
/// load, and holds a seek issued meanwhile instead of losing it.
struct LoadingWindowEngine {
    inner: RefCell<FakeEngine>,
    events: RefCell<EventQueue>,
    window: Cell<u32>,
    deferred_seek: RefCell<Option<u64>>,
}

const LOADING_WINDOW_POLLS: u32 = 3;

impl LoadingWindowEngine {
    fn new() -> Self {
        Self {
            inner: RefCell::new(FakeEngine::full()),
            events: RefCell::new(EventQueue::default()),
            window: Cell::new(0),
            deferred_seek: RefCell::new(None),
        }
    }

    fn forward_pending(&self) {
        let pending = self.inner.borrow_mut().events().drain();
        let mut events = self.events.borrow_mut();
        for event in pending {
            events.push(event);
        }
    }
}

impl PlaybackEngine<SubtitleDocument> for LoadingWindowEngine {
    fn commands(&self) -> vstd::seq::Seq<EngineCommand> {
        vstd::seq::Seq::empty()
    }

    fn position_answers(&self, _mark: CallbackMark, _answer: Result<u64, PlaybackError>) -> bool {
        true
    }

    fn duration_answers(&self, _mark: CallbackMark, _answer: Result<Option<u64>, PlaybackError>) -> bool {
        true
    }

    fn state_answers(&self, _state: PlaybackState) -> bool {
        true
    }

    fn geometry_answers(&self, _mark: CallbackMark, _answer: Result<Option<VideoGeometry>, PlaybackError>) -> bool {
        true
    }

    fn tracks_answers(
        &self,
        _mark: CallbackMark,
        _kind: TrackKind,
        _answer: Result<Vec<TrackDescriptor>, PlaybackError>,
    ) -> bool {
        true
    }

    fn selected_answers(&self, _mark: CallbackMark, _kind: TrackKind, _answer: Result<Option<TrackId>, PlaybackError>) -> bool {
        true
    }

    fn text_answers(&self, _mark: CallbackMark, _track: TrackId, _text: vstd::seq::Seq<char>) -> bool {
        true
    }

    fn capabilities(&self) -> Capabilities {
        self.inner.borrow().capabilities()
    }

    fn load(&mut self, mark: &CallbackMark, source: &MediaSource) -> Result<(), PlaybackError> {
        self.inner.borrow_mut().load(mark, source)?;
        self.window.set(LOADING_WINDOW_POLLS);
        *self.deferred_seek.borrow_mut() = None;
        self.forward_pending();
        Ok(())
    }

    fn play(&mut self, mark: &CallbackMark) -> Result<(), PlaybackError> {
        let result = self.inner.borrow_mut().play(mark);
        self.forward_pending();
        result
    }

    fn pause(&mut self, mark: &CallbackMark) -> Result<(), PlaybackError> {
        let result = self.inner.borrow_mut().pause(mark);
        self.forward_pending();
        result
    }

    fn stop(&mut self, mark: &CallbackMark) -> Result<(), PlaybackError> {
        let result = self.inner.borrow_mut().stop(mark);
        self.window.set(0);
        *self.deferred_seek.borrow_mut() = None;
        self.forward_pending();
        result
    }

    fn seek(&mut self, mark: &CallbackMark, to_ms: u64) -> Result<(), PlaybackError> {
        guard_reentrancy(mark, Operation::Seek)?;
        if self.window.get() > 0 {
            *self.deferred_seek.borrow_mut() = Some(to_ms);
            return Ok(());
        }
        let result = self.inner.borrow_mut().seek(mark, to_ms);
        self.forward_pending();
        result
    }

    fn position(&self, mark: &CallbackMark) -> Result<u64, PlaybackError> {
        self.inner.borrow().position(mark)
    }

    fn duration(&self, mark: &CallbackMark) -> Result<Option<u64>, PlaybackError> {
        self.inner.borrow().duration(mark)
    }

    fn state(&self) -> PlaybackState {
        let remaining = self.window.get();
        if remaining == 0 {
            return self.inner.borrow().state();
        }
        self.window.set(remaining - 1);
        if remaining == 1 {
            if let Some(target) = self.deferred_seek.borrow_mut().take() {
                let _ = self.inner.borrow_mut().seek(&CallbackMark::new(), target);
                self.forward_pending();
            }
        }
        PlaybackState::Buffering
    }

    fn video_geometry(&self, mark: &CallbackMark) -> Result<Option<VideoGeometry>, PlaybackError> {
        self.inner.borrow().video_geometry(mark)
    }

    fn tracks(&self, mark: &CallbackMark, kind: TrackKind) -> Result<Vec<TrackDescriptor>, PlaybackError> {
        self.inner.borrow().tracks(mark, kind)
    }

    fn select_track(&mut self, mark: &CallbackMark, kind: TrackKind, track: Option<TrackId>) -> Result<(), PlaybackError> {
        let result = self.inner.borrow_mut().select_track(mark, kind, track);
        self.forward_pending();
        result
    }

    fn selected_track(&self, mark: &CallbackMark, kind: TrackKind) -> Result<Option<TrackId>, PlaybackError> {
        self.inner.borrow().selected_track(mark, kind)
    }

    fn events(&mut self) -> &mut EventQueue {
        self.events.get_mut()
    }

    fn shutdown(&mut self, mark: &CallbackMark) -> Result<(), PlaybackError> {
        let result = self.inner.borrow_mut().shutdown(mark);
        self.window.set(0);
        *self.deferred_seek.borrow_mut() = None;
        result
    }

    fn set_subtitle_bottom_inset(&mut self, mark: &CallbackMark, thousandths: u32) -> Result<(), PlaybackError> {
        self.inner.borrow_mut().set_subtitle_bottom_inset(mark, thousandths)
    }

    fn set_rate(&mut self, mark: &CallbackMark, rate_thousandths: i32) -> Result<(), PlaybackError> {
        self.inner.borrow_mut().set_rate(mark, rate_thousandths)
    }

    fn set_volume(&mut self, mark: &CallbackMark, volume_thousandths: i32) -> Result<(), PlaybackError> {
        self.inner.borrow_mut().set_volume(mark, volume_thousandths)
    }

    fn extract_text(&mut self, mark: &CallbackMark, track: TrackId) -> Result<String, PlaybackError> {
        self.inner.borrow_mut().extract_text(mark, track)
    }

    fn inject_subtitle(&mut self, mark: &CallbackMark, document: &SubtitleDocument) -> Result<(), PlaybackError> {
        let result = self.inner.borrow_mut().inject_subtitle(mark, document);
        self.forward_pending();
        result
    }

    fn rendered_subtitle_text(&self, mark: &CallbackMark) -> Result<Option<String>, PlaybackError> {
        self.inner.borrow().rendered_subtitle_text(mark)
    }
}

/// Which single thing a twin gets wrong.
#[derive(Clone, Copy, PartialEq)]
enum Defect {
    SeekDriftsFarther,
    NeverBecomesReady,
    SwallowsSeekCompleted,
    AnswersSeekWithAStalePosition,
    ReportsSeekCompletionOutOfOrder,
    ReportsAnUnaskedFailure,
    AcceptsAnyTrackId,
    SwallowsVideoGeometryChanged,
    ReportsTheWrongVideoGeometry,
    RefusesASeekWhileLoading,
}

/// A fake engine with exactly one thing wrong.
struct BrokenEngine {
    inner: FakeEngine,
    defect: Defect,
    events: EventQueue,
    loaded: bool,
    loading_window: Cell<u32>,
}

impl BrokenEngine {
    fn new(defect: Defect) -> Self {
        Self { inner: FakeEngine::full(), defect, events: EventQueue::default(), loaded: false, loading_window: Cell::new(0) }
    }

    fn forward_events(&mut self) {
        let mut pending = self.inner.events().drain();
        match self.defect {
            Defect::SwallowsSeekCompleted => {
                pending.retain(|event| !matches!(event, PlaybackEvent::SeekCompleted { .. }));
            }
            Defect::ReportsSeekCompletionOutOfOrder => {
                if let Some(at) = pending.iter().position(|event| matches!(event, PlaybackEvent::SeekCompleted { .. })) {
                    let completion = pending.remove(at);
                    pending.push(completion);
                }
            }
            Defect::AnswersSeekWithAStalePosition => {
                for event in pending.iter_mut() {
                    if let PlaybackEvent::SeekCompleted { position_ms } = event {
                        *position_ms = 0;
                    }
                }
            }
            Defect::SwallowsVideoGeometryChanged => {
                pending.retain(|event| !matches!(event, PlaybackEvent::VideoGeometryChanged));
            }
            Defect::ReportsAnUnaskedFailure => {
                pending.push(PlaybackEvent::Failed { error: PlaybackError::EngineFailure { code: 7 } });
            }
            _ => {}
        }
        for event in pending {
            self.events.push(event);
        }
    }
}

impl PlaybackEngine<SubtitleDocument> for BrokenEngine {
    fn commands(&self) -> vstd::seq::Seq<EngineCommand> {
        vstd::seq::Seq::empty()
    }

    fn position_answers(&self, _mark: CallbackMark, _answer: Result<u64, PlaybackError>) -> bool {
        true
    }

    fn duration_answers(&self, _mark: CallbackMark, _answer: Result<Option<u64>, PlaybackError>) -> bool {
        true
    }

    fn state_answers(&self, _state: PlaybackState) -> bool {
        true
    }

    fn geometry_answers(&self, _mark: CallbackMark, _answer: Result<Option<VideoGeometry>, PlaybackError>) -> bool {
        true
    }

    fn tracks_answers(
        &self,
        _mark: CallbackMark,
        _kind: TrackKind,
        _answer: Result<Vec<TrackDescriptor>, PlaybackError>,
    ) -> bool {
        true
    }

    fn selected_answers(&self, _mark: CallbackMark, _kind: TrackKind, _answer: Result<Option<TrackId>, PlaybackError>) -> bool {
        true
    }

    fn text_answers(&self, _mark: CallbackMark, _track: TrackId, _text: vstd::seq::Seq<char>) -> bool {
        true
    }

    fn capabilities(&self) -> Capabilities {
        self.inner.capabilities()
    }

    fn load(&mut self, mark: &CallbackMark, source: &MediaSource) -> Result<(), PlaybackError> {
        self.inner.load(mark, source)?;
        self.loaded = true;
        if self.defect == Defect::RefusesASeekWhileLoading {
            self.loading_window.set(LOADING_WINDOW_POLLS);
        }
        self.forward_events();
        Ok(())
    }

    fn play(&mut self, mark: &CallbackMark) -> Result<(), PlaybackError> {
        self.inner.play(mark)?;
        self.forward_events();
        Ok(())
    }

    fn pause(&mut self, mark: &CallbackMark) -> Result<(), PlaybackError> {
        self.inner.pause(mark)?;
        self.forward_events();
        Ok(())
    }

    fn stop(&mut self, mark: &CallbackMark) -> Result<(), PlaybackError> {
        self.inner.stop(mark)?;
        self.loaded = false;
        self.loading_window.set(0);
        self.forward_events();
        Ok(())
    }

    fn seek(&mut self, mark: &CallbackMark, to_ms: u64) -> Result<(), PlaybackError> {
        if self.defect == Defect::RefusesASeekWhileLoading && self.loading_window.get() > 0 {
            return Err(PlaybackError::EngineFailure { code: -12 });
        }
        let target = if self.defect == Defect::SeekDriftsFarther { to_ms + 2000 } else { to_ms };
        self.inner.seek(mark, target)?;
        self.forward_events();
        Ok(())
    }

    fn position(&self, mark: &CallbackMark) -> Result<u64, PlaybackError> {
        self.inner.position(mark)
    }

    fn duration(&self, mark: &CallbackMark) -> Result<Option<u64>, PlaybackError> {
        self.inner.duration(mark)
    }

    fn video_geometry(&self, mark: &CallbackMark) -> Result<Option<VideoGeometry>, PlaybackError> {
        let geometry = self.inner.video_geometry(mark)?;
        if self.defect == Defect::ReportsTheWrongVideoGeometry {
            return Ok(geometry.and_then(|size| VideoGeometry::new(size.height(), size.width())));
        }
        Ok(geometry)
    }

    fn state(&self) -> PlaybackState {
        let state = self.inner.state();
        if self.defect == Defect::NeverBecomesReady && self.loaded {
            return PlaybackState::Buffering;
        }
        if self.defect == Defect::RefusesASeekWhileLoading {
            let remaining = self.loading_window.get();
            if remaining > 0 {
                self.loading_window.set(remaining - 1);
                return PlaybackState::Buffering;
            }
        }
        state
    }

    fn tracks(&self, mark: &CallbackMark, kind: TrackKind) -> Result<Vec<TrackDescriptor>, PlaybackError> {
        self.inner.tracks(mark, kind)
    }

    fn select_track(&mut self, mark: &CallbackMark, kind: TrackKind, track: Option<TrackId>) -> Result<(), PlaybackError> {
        if self.defect == Defect::AcceptsAnyTrackId {
            return Ok(());
        }
        self.inner.select_track(mark, kind, track)
    }

    fn selected_track(&self, mark: &CallbackMark, kind: TrackKind) -> Result<Option<TrackId>, PlaybackError> {
        self.inner.selected_track(mark, kind)
    }

    fn events(&mut self) -> &mut EventQueue {
        &mut self.events
    }

    fn shutdown(&mut self, mark: &CallbackMark) -> Result<(), PlaybackError> {
        self.inner.shutdown(mark)
    }

    fn set_subtitle_bottom_inset(&mut self, mark: &CallbackMark, thousandths: u32) -> Result<(), PlaybackError> {
        self.inner.set_subtitle_bottom_inset(mark, thousandths)
    }

    fn set_rate(&mut self, mark: &CallbackMark, rate_thousandths: i32) -> Result<(), PlaybackError> {
        self.inner.set_rate(mark, rate_thousandths)
    }

    fn set_volume(&mut self, mark: &CallbackMark, volume_thousandths: i32) -> Result<(), PlaybackError> {
        self.inner.set_volume(mark, volume_thousandths)
    }

    fn extract_text(&mut self, mark: &CallbackMark, track: TrackId) -> Result<String, PlaybackError> {
        self.inner.extract_text(mark, track)
    }

    fn inject_subtitle(&mut self, mark: &CallbackMark, document: &SubtitleDocument) -> Result<(), PlaybackError> {
        self.inner.inject_subtitle(mark, document)
    }
}

const REALISTIC_TOLERANCE_MS: u64 = 250;

fn realistic_inputs() -> ContractInputs<SubtitleDocument> {
    fake_inputs().with_seek_tolerance_ms(REALISTIC_TOLERANCE_MS).with_settle_timeout_ms(120)
}

fn failures_for(defect: Defect) -> Vec<Failure> {
    run_all(|| BrokenEngine::new(defect), &realistic_inputs(), &NoPause)
}

#[test]
fn a_correct_engine_still_passes_under_a_real_tolerance() {
    let failures = run_all(FakeEngine::full, &realistic_inputs(), &NoPause);
    assert!(failures.is_empty(), "{}", report(&failures));
}

#[test]
fn a_seek_landing_outside_the_tolerance_is_caught() {
    let failures = failures_for(Defect::SeekDriftsFarther);
    assert!(!failures.is_empty(), "a seek 2 s off passed a {REALISTIC_TOLERANCE_MS} ms tolerance");
}

#[test]
fn a_seek_answered_with_a_stale_position_is_caught() {
    let failures = failures_for(Defect::AnswersSeekWithAStalePosition);
    assert!(!failures.is_empty(), "a seek answered at 0 ms passed while the engine's own position was right");
}

#[test]
fn an_engine_that_never_becomes_ready_is_caught() {
    let failures = failures_for(Defect::NeverBecomesReady);
    assert!(!failures.is_empty(), "a never-ready engine passed");
    assert!(
        failures.iter().any(|failure| failure.detail.contains("never reached")),
        "it failed, but not on settling:\n{}",
        report(&failures)
    );
}

#[test]
fn a_dropped_critical_event_is_caught() {
    let failures = failures_for(Defect::SwallowsSeekCompleted);
    assert!(!failures.is_empty(), "a swallowed SeekCompleted passed");
}

#[test]
fn events_arriving_out_of_order_are_caught() {
    let failures = failures_for(Defect::ReportsSeekCompletionOutOfOrder);
    assert!(!failures.is_empty(), "reordered events passed");
}

#[test]
fn an_unasked_failure_event_is_caught() {
    let failures = failures_for(Defect::ReportsAnUnaskedFailure);
    assert!(!failures.is_empty(), "an unasked Failed event passed");
    assert!(
        failures.iter().any(|failure| failure.detail.contains("unasked")),
        "it failed, but not on the unasked event:\n{}",
        report(&failures)
    );
}

#[test]
fn a_display_size_that_is_never_announced_is_caught() {
    let failures = failures_for(Defect::SwallowsVideoGeometryChanged);
    assert!(!failures.is_empty(), "an engine that answers the right size but never announces it passed");
}

#[test]
fn a_display_size_that_is_the_wrong_size_is_caught() {
    let failures = failures_for(Defect::ReportsTheWrongVideoGeometry);
    assert!(!failures.is_empty(), "a transposed display size passed");
}

#[test]
fn a_selection_that_accepts_any_id_is_caught() {
    let failures = failures_for(Defect::AcceptsAnyTrackId);
    assert!(!failures.is_empty(), "an engine accepting any id passed");
}

#[test]
fn a_seek_refused_while_loading_is_caught() {
    let failures = failures_for(Defect::RefusesASeekWhileLoading);
    assert!(!failures.is_empty(), "a seek refused merely because the medium was still opening passed");
}
