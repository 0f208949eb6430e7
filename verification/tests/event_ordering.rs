use nen_core::playback::engine::PlaybackEngine;
use nen_core::playback::event::{deliver_all, CallbackMark, EventQueue, EventSink, PlaybackEvent, PlaybackState};
use nen_core::playback::fake::{fake_inputs, FakeEngine};
use nen_core::subtitle::SubtitleDocument;

#[derive(Default)]
struct RecordingSink {
    seen: Vec<PlaybackEvent>,
}

impl RecordingSink {
    fn taken(&mut self) -> Vec<PlaybackEvent> {
        std::mem::take(&mut self.seen)
    }
}

impl EventSink for RecordingSink {
    fn deliver(&mut self, event: PlaybackEvent, _mark: &CallbackMark) {
        self.seen.push(event);
    }
}

fn outside() -> CallbackMark {
    CallbackMark::new()
}

fn loaded() -> FakeEngine {
    let mut engine = FakeEngine::full();
    engine.load(&outside(), &fake_inputs().media).expect("load");
    PlaybackEngine::<SubtitleDocument>::events(&mut engine).drain();
    engine
}

fn events(engine: &mut FakeEngine) -> &mut EventQueue {
    PlaybackEngine::<SubtitleDocument>::events(engine)
}

#[test]
fn state_transitions_reach_the_consumer_in_the_order_they_happened() {
    let engine = &mut loaded();
    let mut sink = RecordingSink::default();
    let mark = outside();

    engine.play(&mark).expect("play");
    engine.pause(&mark).expect("pause");
    engine.play(&mark).expect("play");
    let mut delivery_mark = CallbackMark::new();
    deliver_all(events(engine), &mut delivery_mark, &mut sink);

    assert_eq!(
        sink.taken(),
        vec![
            PlaybackEvent::StateChanged { state: PlaybackState::Playing },
            PlaybackEvent::StateChanged { state: PlaybackState::Paused },
            PlaybackEvent::StateChanged { state: PlaybackState::Playing },
        ]
    );
}

#[test]
fn a_suspended_consumer_loses_positions_but_no_state_transitions() {
    let engine = &mut loaded();
    let mark = outside();

    for step in 1..=200u64 {
        engine.seek(&mark, step * 100).expect("seek");
    }

    let pending = events(engine).drain();
    let positions = pending.iter().filter(|event| matches!(event, PlaybackEvent::PositionChanged { .. })).count();
    assert_eq!(positions, 1, "only the newest position may survive");

    let last = pending
        .iter()
        .rev()
        .find_map(|event| match event {
            PlaybackEvent::PositionChanged { position_ms } => Some(*position_ms),
            _ => None,
        })
        .expect("a position survived");
    assert_eq!(last, 20_000, "the surviving position must be the newest, not the oldest");
}

#[test]
fn overflow_tells_the_consumer_instead_of_lying_to_it() {
    let mut queue = EventQueue::new(8);
    for _ in 0..64 {
        queue.push(PlaybackEvent::TracksChanged);
    }

    let mut sink = RecordingSink::default();
    let mut mark = CallbackMark::new();
    deliver_all(&mut queue, &mut mark, &mut sink);
    let seen = sink.taken();

    let PlaybackEvent::EventsLost { dropped } = seen[0] else {
        panic!("overflow must announce itself first, got {seen:?}");
    };
    assert_eq!(dropped as usize + (seen.len() - 1), 64);
    assert!(
        !seen[1..].iter().any(|event| matches!(event, PlaybackEvent::EventsLost { .. })),
        "only one marker per overflow burst: {seen:?}"
    );
}

#[test]
fn after_a_loss_the_engine_can_still_be_resynced() {
    let engine = &mut loaded();
    let mark = outside();
    engine.play(&mark).expect("play");
    engine.seek(&mark, 30_000).expect("seek");

    events(engine).drain();

    assert_eq!(PlaybackEngine::<SubtitleDocument>::state(engine), PlaybackState::Playing);
    assert_eq!(engine.position(&mark).expect("position"), 30_000);
    assert_eq!(engine.duration(&mark).expect("duration"), Some(120_000));
}

#[test]
fn seek_completion_survives_a_burst_of_positions() {
    let engine = &mut loaded();
    let mark = outside();

    engine.seek(&mark, 1_000).expect("seek");
    engine.seek(&mark, 2_000).expect("seek");
    engine.seek(&mark, 3_000).expect("seek");

    let pending = events(engine).drain();
    let completions = pending.iter().filter(|event| matches!(event, PlaybackEvent::SeekCompleted { .. })).count();
    assert_eq!(completions, 3, "every seek must report its own completion");
}

#[test]
fn reaching_the_end_reports_the_state_before_the_end_marker() {
    let engine = &mut loaded();
    let mark = outside();
    engine.play(&mark).expect("play");
    events(engine).drain();

    engine.seek(&mark, 9_999_000).expect("seek");

    let shapes: Vec<PlaybackEvent> = events(engine).drain();
    let ended_at = shapes
        .iter()
        .position(|event| matches!(event, PlaybackEvent::StateChanged { state: PlaybackState::Ended }))
        .expect("an ended transition");
    let marker_at = shapes.iter().position(|event| matches!(event, PlaybackEvent::EndReached)).expect("an end marker");
    assert!(ended_at < marker_at, "the state must be current before the marker arrives: {shapes:?}");
}
