use nen_core::playback::capability::{Capabilities, Capability};
use nen_core::playback::error::{LoadFailure, Operation, PlaybackError};
use nen_core::playback::event::{
    deliver_all, guard_reentrancy, CallbackMark, CallbackScope, DeliveryClass, EventQueue, EventSink, PlaybackEvent,
    PlaybackState,
};
use nen_core::playback::geometry::VideoGeometry;
use nen_core::playback::media::MediaSource;
use nen_core::playback::track::{subtitle_carries_text, TrackDescriptor, TrackId, TrackKind};
use nen_core::renderer::capability::{Capabilities as RenderCapabilities, Capability as RenderCapability};
use std::time::Duration;

fn position(secs: u64) -> PlaybackEvent {
    PlaybackEvent::PositionChanged { position_ms: Duration::from_secs(secs).as_millis() as u64 }
}

fn state(state: PlaybackState) -> PlaybackEvent {
    PlaybackEvent::StateChanged { state }
}

#[test]
fn capability_empty_set_contains_nothing() {
    for capability in Capability::ALL {
        assert!(!Capabilities::none().contains(capability));
    }
    assert!(Capabilities::none().is_empty());
}

#[test]
fn all_set_contains_everything() {
    for capability in Capability::ALL {
        assert!(Capabilities::all().contains(capability));
    }
    assert_eq!(Capabilities::all().iter().len(), Capability::ALL.len());
    for capability in RenderCapability::ALL {
        assert!(RenderCapabilities::all().contains(capability));
    }
    assert_eq!(RenderCapabilities::all().iter().len(), RenderCapability::ALL.len());
}

#[test]
fn capability_with_and_without_are_inverses() {
    let set = Capabilities::none().with(Capability::Volume);
    assert!(set.contains(Capability::Volume));
    assert!(!set.without(Capability::Volume).contains(Capability::Volume));
}

#[test]
fn capability_each_capability_occupies_its_own_bit() {
    for capability in Capability::ALL {
        let set = Capabilities::new(&[capability]);
        for other in Capability::ALL {
            assert_eq!(set.contains(other), other == capability, "{} leaked into {}", capability.as_str(), other.as_str());
        }
    }
}

#[test]
fn iteration_follows_declaration_order() {
    let set = Capabilities::new(&[Capability::Volume, Capability::EmbeddedTextExtraction]);
    assert_eq!(set.iter(), vec![Capability::EmbeddedTextExtraction, Capability::Volume]);
}

#[test]
fn capability_debug_prints_names_not_bits() {
    let set = Capabilities::new(&[Capability::PlaybackRate]);
    assert_eq!(set.debug_text(), "{PlaybackRate}");
    assert_eq!(Capabilities::new(&[Capability::Volume, Capability::PlaybackRate]).debug_text(), "{PlaybackRate, Volume}");
    assert_eq!(Capabilities::none().debug_text(), "{}");
}

#[test]
fn nested_scopes_restore_the_previous_mark() {
    let mut mark = CallbackMark::new();
    assert!(!mark.in_callback());
    {
        let outer = CallbackScope::enter(&mut mark);
        assert!(mark.in_callback());
        {
            let inner = CallbackScope::enter(&mut mark);
            assert!(mark.in_callback());
            inner.exit(&mut mark);
        }
        assert!(mark.in_callback(), "the outer scope is still active");
        outer.exit(&mut mark);
    }
    assert!(!mark.in_callback());
}

#[test]
fn a_call_from_inside_a_callback_is_refused() {
    let mut mark = CallbackMark::new();
    assert!(guard_reentrancy(&mark, Operation::Play).is_ok());
    let scope = CallbackScope::enter(&mut mark);
    assert_eq!(
        guard_reentrancy(&mark, Operation::Play),
        Err(PlaybackError::ReentrantCall { operation: Operation::Play })
    );
    scope.exit(&mut mark);
    assert!(guard_reentrancy(&mark, Operation::Play).is_ok());
}

#[test]
fn position_events_coalesce_to_the_newest_value() {
    let mut queue = EventQueue::default();
    queue.push(position(1));
    queue.push(position(2));
    queue.push(position(3));
    assert_eq!(queue.drain(), vec![position(3)]);
}

#[test]
fn critical_events_keep_their_order_and_are_never_coalesced() {
    let mut queue = EventQueue::default();
    queue.push(state(PlaybackState::Buffering));
    queue.push(state(PlaybackState::Ready));
    queue.push(state(PlaybackState::Playing));
    assert_eq!(
        queue.drain(),
        vec![state(PlaybackState::Buffering), state(PlaybackState::Ready), state(PlaybackState::Playing)]
    );
}

#[test]
fn a_coalesced_event_moves_behind_the_critical_events_produced_after_it() {
    let mut queue = EventQueue::default();
    queue.push(position(1));
    queue.push(state(PlaybackState::Paused));
    queue.push(position(2));
    assert_eq!(queue.drain(), vec![state(PlaybackState::Paused), position(2)]);
}

#[test]
fn geometry_events_coalesce_among_themselves_only() {
    let mut queue = EventQueue::default();
    queue.push(PlaybackEvent::VideoGeometryChanged);
    queue.push(position(4));
    queue.push(PlaybackEvent::VideoGeometryChanged);
    assert_eq!(queue.drain(), vec![position(4), PlaybackEvent::VideoGeometryChanged]);
}

#[test]
fn a_dropped_geometry_event_is_not_counted_as_a_loss() {
    let mut queue = EventQueue::new(2);
    queue.push(PlaybackEvent::VideoGeometryChanged);
    queue.push(PlaybackEvent::TracksChanged);
    queue.push(PlaybackEvent::EndReached);
    assert_eq!(queue.drain()[0], PlaybackEvent::EventsLost { dropped: 1 });
}

#[test]
fn seek_completed_does_not_coalesce_with_position() {
    let mut queue = EventQueue::default();
    let seek = PlaybackEvent::SeekCompleted { position_ms: 10_000 };
    queue.push(seek);
    queue.push(position(11));
    queue.push(position(12));
    assert_eq!(queue.drain(), vec![seek, position(12)]);
}

#[test]
fn overflow_reports_the_loss_instead_of_dropping_silently() {
    let mut queue = EventQueue::new(4);
    for _ in 0..4 {
        queue.push(PlaybackEvent::TracksChanged);
    }
    queue.push(state(PlaybackState::Ended));
    assert_eq!(queue.drain(), vec![PlaybackEvent::EventsLost { dropped: 4 }, state(PlaybackState::Ended)]);
}

#[test]
fn repeated_overflow_accumulates_the_loss_count() {
    let mut queue = EventQueue::new(2);
    for _ in 0..6 {
        queue.push(PlaybackEvent::TracksChanged);
    }
    let drained = queue.drain();
    let PlaybackEvent::EventsLost { dropped } = drained[0] else {
        panic!("expected a loss marker first, got {drained:?}");
    };
    let delivered = drained.len() - 1;
    assert_eq!(dropped as usize + delivered, 6);
}

#[test]
fn coalesced_losses_are_not_counted_as_lost_events() {
    let mut queue = EventQueue::new(2);
    queue.push(position(1));
    queue.push(PlaybackEvent::TracksChanged);
    queue.push(PlaybackEvent::EndReached);
    assert_eq!(queue.drain()[0], PlaybackEvent::EventsLost { dropped: 1 });
}

#[test]
fn capacity_below_two_is_raised_so_overflow_can_be_reported() {
    let mut queue = EventQueue::new(0);
    assert_eq!(queue.capacity(), 2);
    queue.push(PlaybackEvent::TracksChanged);
    queue.push(PlaybackEvent::EndReached);
    queue.push(PlaybackEvent::TracksChanged);
    let drained = queue.drain();
    assert_eq!(drained[0], PlaybackEvent::EventsLost { dropped: 2 });
    assert_eq!(drained[1], PlaybackEvent::TracksChanged);
}

#[test]
fn pop_takes_the_oldest_and_pending_shows_the_rest() {
    let mut queue = EventQueue::default();
    assert_eq!(queue.pop(), None);
    queue.push(state(PlaybackState::Ready));
    queue.push(PlaybackEvent::EndReached);
    assert_eq!(queue.len(), 2);
    assert_eq!(queue.pop(), Some(state(PlaybackState::Ready)));
    assert_eq!(queue.pending(), &[PlaybackEvent::EndReached]);
    assert!(!queue.is_empty());
    assert_eq!(PlaybackEvent::EndReached.delivery_class(), DeliveryClass::Critical);
    assert_eq!(position(1).delivery_class(), DeliveryClass::Coalescing);
}

#[test]
fn a_size_keeps_both_dimensions() {
    let geometry = VideoGeometry::new(1_024, 576).expect("a valid size");
    assert_eq!((geometry.width(), geometry.height()), (1_024, 576));
}

#[test]
fn a_zero_dimension_is_refused_rather_than_repaired() {
    assert_eq!(VideoGeometry::new(0, 576), None);
    assert_eq!(VideoGeometry::new(1_024, 0), None);
    assert_eq!(VideoGeometry::new(0, 0), None);
}

#[test]
fn debug_prints_the_numbers_it_carries() {
    let printed = format!("{:?}", VideoGeometry::new(1_024, 576).expect("a valid size"));
    assert!(printed.contains("1024"), "width missing: {printed}");
    assert!(printed.contains("576"), "height missing: {printed}");
}

#[test]
fn debug_prints_no_part_of_the_locator() {
    let source = MediaSource::new("https://cdn.example.com/movie.mkv?token=SECRET");
    let printed = source.debug_text();
    for forbidden in ["cdn.example.com", "movie.mkv", "token", "SECRET", "https"] {
        assert!(!printed.contains(forbidden), "{forbidden} leaked: {printed}");
    }
    assert!(printed.contains("locator_len"));
}

#[test]
fn a_private_path_is_equally_hidden() {
    let source = MediaSource::new("/Users/someone/Movies/Private Folder/film.mkv");
    let printed = source.debug_text();
    for forbidden in ["Users", "someone", "Private", "film.mkv"] {
        assert!(!printed.contains(forbidden), "{forbidden} leaked: {printed}");
    }
}

#[test]
fn the_locator_is_still_available_to_the_adapter() {
    let source = MediaSource::new("/tmp/a.mkv");
    assert_eq!(source.locator(), "/tmp/a.mkv");
    assert!(!source.is_empty());
    assert_eq!(source.debug_text(), "MediaSource { locator_len: 10 }");
}

#[test]
fn operation_is_reported_where_it_applies() {
    assert_eq!(PlaybackError::NotLoaded { operation: Operation::Play }.operation(), Some(Operation::Play));
    assert_eq!(PlaybackError::LoadFailed { reason: LoadFailure::NotFound }.operation(), None);
}

#[test]
fn rate_error_carries_the_bounds_so_a_caller_can_clamp() {
    let error = PlaybackError::RateOutOfRange { requested: 4_000, min: 500, max: 2_000 };
    let PlaybackError::RateOutOfRange { min, max, .. } = error else {
        panic!("wrong variant");
    };
    assert_eq!((min as f32 / 1000.0, max as f32 / 1000.0), (0.5, 2.0));
    assert_eq!(error.display_text(), "rate 4 outside [0.5, 2]");
}

#[test]
fn engine_failure_code_never_reaches_the_display_text() {
    let shown = PlaybackError::EngineFailure { code: -12345 }.display_text();
    assert!(!shown.contains("12345"), "engine code leaked: {shown}");
    assert_eq!(
        PlaybackError::Unsupported { operation: Operation::SetRate, capability: Capability::PlaybackRate }.display_text(),
        "set_rate needs the playback_rate capability"
    );
}

#[test]
fn text_subtitle_codecs_are_recognized() {
    for codec in ["subrip", "ass", "ssa", "webvtt", "mov_text"] {
        let track = TrackDescriptor::new(TrackId(1), TrackKind::Subtitle, codec);
        assert!(track.is_text(), "{codec} was not taken for text");
    }
    for codec in ["hdmv_pgs_subtitle", "dvd_subtitle", "dvb_subtitle", "xsub"] {
        assert!(!TrackDescriptor::new(TrackId(1), TrackKind::Subtitle, codec).is_text());
    }
    assert!(!subtitle_carries_text(""));
    assert!(!TrackDescriptor::new(TrackId(0), TrackKind::Audio, "text").is_text());
}

#[test]
fn a_new_descriptor_declares_no_language_and_no_title() {
    let track = TrackDescriptor::new(TrackId(0), TrackKind::Subtitle, "subrip");
    assert_eq!(track.language(), None);
    assert_eq!(track.title(), None);
    assert!(!track.is_default());
    assert!(track.is_text());
    let track = track.with_title(Some("Türkçe".into())).with_language(Some("tr".into())).with_default(true);
    assert_eq!(track.title(), Some("Türkçe"));
    assert_eq!(track.language(), Some("tr"));
    assert_eq!(track.id().index(), 0);
    assert_eq!(track.kind(), TrackKind::Subtitle);
    assert_eq!(track.codec(), "subrip");
    assert!(track.is_default());
    assert_eq!(TrackId(7).display_text(), "#7");
    assert_eq!(TrackKind::Audio.as_str(), "audio");
    assert_eq!(PlaybackState::Buffering.as_str(), "buffering");
    assert!(!PlaybackState::Idle.has_media());
}

#[test]
fn capability_all_set_contains_everything() {
    for capability in Capability::ALL {
        assert!(Capabilities::all().contains(capability));
    }
    assert_eq!(Capabilities::all().iter().len(), Capability::ALL.len());
    for capability in RenderCapability::ALL {
        assert!(RenderCapabilities::all().contains(capability));
    }
    assert_eq!(RenderCapabilities::all().iter().len(), RenderCapability::ALL.len());
}

#[test]
fn variants_are_inspectable_without_parsing_strings() {
    let error = PlaybackError::Unsupported { operation: Operation::SetRate, capability: Capability::PlaybackRate };
    match error {
        PlaybackError::Unsupported { capability, .. } => {
            assert_eq!(capability, Capability::PlaybackRate);
        }
        other => panic!("wrong variant: {other:?}"),
    }
}

struct ReentrantSink {
    delivered: usize,
}

impl EventSink for ReentrantSink {
    fn deliver(&mut self, _event: PlaybackEvent, mark: &CallbackMark) {
        assert!(mark.in_callback(), "the mark must be set during delivery");
        assert_eq!(
            guard_reentrancy(mark, Operation::Play),
            Err(PlaybackError::ReentrantCall { operation: Operation::Play })
        );
        self.delivered += 1;
    }
}

#[test]
fn delivery_marks_the_thread_and_clears_it_afterwards() {
    let mut queue = EventQueue::default();
    queue.push(PlaybackEvent::EndReached);
    let mut mark = CallbackMark::new();
    let mut sink = ReentrantSink { delivered: 0 };
    assert!(!mark.in_callback());
    deliver_all(&mut queue, &mut mark, &mut sink);
    assert_eq!(sink.delivered, 1);
    assert!(!mark.in_callback(), "the mark must be cleared after delivery");
    assert!(guard_reentrancy(&mark, Operation::Play).is_ok());
}

#[derive(Default)]
struct RecordingSink {
    seen: Vec<PlaybackEvent>,
}

impl EventSink for RecordingSink {
    fn deliver(&mut self, event: PlaybackEvent, _mark: &CallbackMark) {
        self.seen.push(event);
    }
}

#[test]
fn delivery_preserves_order_and_empties_the_queue() {
    let mut sink = RecordingSink::default();
    let mut queue = EventQueue::default();
    queue.push(state(PlaybackState::Ready));
    queue.push(position(5));
    queue.push(PlaybackEvent::EndReached);
    let mut mark = CallbackMark::new();

    deliver_all(&mut queue, &mut mark, &mut sink);

    assert!(queue.is_empty());
    assert_eq!(sink.seen, vec![state(PlaybackState::Ready), position(5), PlaybackEvent::EndReached]);
}

struct NeverCalled;

impl EventSink for NeverCalled {
    fn deliver(&mut self, _event: PlaybackEvent, _mark: &CallbackMark) {
        panic!("nothing was queued");
    }
}

#[test]
fn an_empty_queue_never_enters_a_callback_scope() {
    let mut queue = EventQueue::default();
    let mut mark = CallbackMark::new();
    deliver_all(&mut queue, &mut mark, &mut NeverCalled);
    assert!(!mark.in_callback());
}

#[test]
fn builders_keep_identity() {
    let track = TrackDescriptor::new(TrackId(3), TrackKind::Audio, "aac")
        .with_language(Some("tr".to_string()))
        .with_title(Some("Türkçe".into()))
        .with_default(true);
    assert_eq!(track.id(), TrackId(3));
    assert_eq!(track.kind(), TrackKind::Audio);
    assert_eq!(track.language(), Some("tr"));
    assert_eq!(track.title(), Some("Türkçe"));
    assert!(track.is_default());
}

#[test]
fn bitmap_tracks_are_marked_as_carrying_no_text() {
    for codec in ["hdmv_pgs_subtitle", "dvd_subtitle", "dvb_subtitle", "xsub"] {
        let track = TrackDescriptor::new(TrackId(1), TrackKind::Subtitle, codec);
        assert!(!track.is_text(), "{codec} was taken for text");
    }
}

#[test]
fn an_unknown_codec_is_not_taken_for_text() {
    let track = TrackDescriptor::new(TrackId(1), TrackKind::Subtitle, "some_future_format");
    assert!(!track.is_text());
    assert!(!subtitle_carries_text(""));
}

#[test]
fn an_audio_track_never_carries_subtitle_text() {
    for codec in ["aac", "opus", "text"] {
        let track = TrackDescriptor::new(TrackId(0), TrackKind::Audio, codec);
        assert!(!track.is_text(), "audio/{codec} claimed to carry text");
    }
}

#[test]
fn debug_does_not_print_the_title() {
    let track = TrackDescriptor::new(TrackId(0), TrackKind::Subtitle, "subrip")
        .with_title(Some("The.Movie.2019.1080p.PRIVATE-GROUP".into()));
    let printed = track.debug_text();
    assert!(!printed.contains("PRIVATE-GROUP"), "title leaked: {printed}");
    assert!(printed.contains("has_title: true"));
    assert!(printed.contains("subrip"));
}

#[test]
fn track_debug_text_has_the_exact_shape() {
    let track = TrackDescriptor::new(TrackId(2), TrackKind::Audio, "aac").with_language(Some("en".to_string())).with_default(true);
    assert_eq!(
        track.debug_text(),
        "TrackDescriptor { id: TrackId(2), kind: Audio, language: Some(\"en\"), codec: \"aac\", is_default: true, is_text: false, has_title: false }"
    );
}

#[test]
fn every_critical_event_of_a_mixed_run_is_pending_or_counted() {
    let mut queue = EventQueue::new(3);
    let run = [
        PlaybackEvent::TracksChanged,
        position(1),
        PlaybackEvent::EndReached,
        PlaybackEvent::VideoGeometryChanged,
        position(2),
        PlaybackEvent::TracksChanged,
        PlaybackEvent::TracksChanged,
        position(3),
        PlaybackEvent::EndReached,
        PlaybackEvent::TracksChanged,
    ];
    let mut critical = 0u32;
    for event in run {
        if event.delivery_class() == DeliveryClass::Critical {
            critical += 1;
        }
        queue.push(event);
        assert!(queue.len() <= queue.capacity());
        let counted: u32 = queue
            .pending()
            .iter()
            .map(|pending| match pending {
                PlaybackEvent::EventsLost { dropped } => *dropped,
                other if other.delivery_class() == DeliveryClass::Critical => 1,
                _ => 0,
            })
            .sum();
        assert_eq!(counted, critical);
    }
}
