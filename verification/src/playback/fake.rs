//! A deterministic in-memory `PlaybackEngine`, and the reference for what the
//! contract requires.
//!
//! No decoding, no I/O, no time: the position moves only when something
//! moves it, and every state is reached inside the call that causes it. That
//! is what makes the kit's expectations exact against it.
use crate::playback::capability::{Capabilities, Capability};
use crate::playback::contract::ContractInputs;
use crate::playback::engine::{command, EngineCommand, EngineOrder, PlaybackEngine};
use crate::playback::error::{LoadFailure, Operation, PlaybackError};
use crate::playback::event::{
    pushed, CallbackMark, EventQueue, PlaybackEvent, PlaybackState,
};
use crate::playback::geometry::VideoGeometry;
use crate::playback::media::MediaSource;
use crate::playback::track::{text_subtitle_codec, TrackDescriptor, TrackId, TrackKind, TrackModel};
use crate::subtitle::{drawn_at, text_at, Cue, CueView, SubtitleDocument};
use vstd::prelude::*;

verus! {

/// The duration of the medium the fake pretends to play.
pub const FAKE_DURATION_MS: u64 = 120000;

/// The lowest rate the fake accepts, in thousandths.
pub const FAKE_RATE_MIN: i32 = 500;

/// The highest rate the fake accepts, in thousandths.
pub const FAKE_RATE_MAX: i32 = 2000;

/// How many audio tracks the fake medium has.
pub const FAKE_AUDIO_TRACKS: usize = 1;

/// How many subtitle tracks the fake medium has.
pub const FAKE_SUBTITLE_TRACKS: usize = 2;

/// The index of an audio track the fake medium has.
pub const FAKE_AUDIO_TRACK: u32 = 2;

/// The index of a subtitle track the fake medium has.
pub const FAKE_SUBTITLE_TRACK: u32 = 1;

/// An index no fake track of any kind has.
pub const FAKE_UNKNOWN_TRACK: u32 = 9999;

/// The display width of the fake medium.
pub const FAKE_VIDEO_WIDTH: u32 = 160;

/// The display height of the fake medium.
pub const FAKE_VIDEO_HEIGHT: u32 = 90;

/// The text the fake extracts from any subtitle track it has.
pub const FAKE_EXTRACTED_TEXT: &'static str = "1\n00:00:01,000 --> 00:00:02,000\nfake cue\n";

/// A fake engine whose capability set is chosen by the caller.
pub struct FakeEngine {
    capabilities: Capabilities,
    state: PlaybackState,
    position_ms: u64,
    rate: i32,
    volume: i32,
    selected_audio: Option<TrackId>,
    selected_subtitle: Option<TrackId>,
    injected: Option<SubtitleDocument>,
    showing_injected: bool,
    subtitle_bottom_inset: u32,
    video_geometry: Option<VideoGeometry>,
    shut_down: bool,
    events: EventQueue,
    commands: Ghost<Seq<EngineCommand>>,
}

/// The model of a fake engine.
pub struct FakeView {
    pub capabilities: Capabilities,
    pub state: PlaybackState,
    pub position_ms: u64,
    pub rate: i32,
    pub volume: i32,
    pub selected_audio: Option<TrackId>,
    pub selected_subtitle: Option<TrackId>,
    pub injected: Option<Seq<CueView>>,
    pub showing_injected: bool,
    pub subtitle_bottom_inset: u32,
    pub video_geometry: Option<VideoGeometry>,
    pub shut_down: bool,
    pub events: Seq<PlaybackEvent>,
    pub capacity: nat,
}

impl View for FakeEngine {
    type V = FakeView;

    closed spec fn view(&self) -> FakeView {
        FakeView {
            capabilities: self.capabilities,
            state: self.state,
            position_ms: self.position_ms,
            rate: self.rate,
            volume: self.volume,
            selected_audio: self.selected_audio,
            selected_subtitle: self.selected_subtitle,
            injected: match self.injected {
                Some(d) => Some(d@),
                None => None,
            },
            showing_injected: self.showing_injected,
            subtitle_bottom_inset: self.subtitle_bottom_inset,
            video_geometry: self.video_geometry,
            shut_down: self.shut_down,
            events: self.events.pending_spec(),
            capacity: self.events.capacity_spec(),
        }
    }
}

/// A fresh engine: idle at zero, rate and volume 1, nothing selected.
pub open spec fn fresh(capabilities: Capabilities, geometry: Option<VideoGeometry>) -> FakeView {
    FakeView {
        capabilities,
        state: PlaybackState::Idle,
        position_ms: 0,
        rate: 1000,
        volume: 1000,
        selected_audio: None,
        selected_subtitle: None,
        injected: None,
        showing_injected: false,
        subtitle_bottom_inset: 0,
        video_geometry: geometry,
        shut_down: false,
        events: Seq::empty(),
        capacity: 64,
    }
}

/// The fake medium's display size.
pub open spec fn fake_geometry(geometry: Option<VideoGeometry>) -> bool {
    geometry matches Some(g) && g@ == (FAKE_VIDEO_WIDTH, FAKE_VIDEO_HEIGHT)
}

/// The refusal every live operation checks first: a call from inside a
/// callback, then a shut-down engine.
pub open spec fn live_refusal(inside: bool, shut_down: bool, operation: Operation) -> Option<PlaybackError> {
    if inside {
        Some(PlaybackError::ReentrantCall { operation })
    } else if shut_down {
        Some(PlaybackError::ShutDown { operation })
    } else {
        None
    }
}

/// The refusal of an operation that needs loaded media.
pub open spec fn loaded_refusal(inside: bool, v: FakeView, operation: Operation) -> Option<PlaybackError> {
    match live_refusal(inside, v.shut_down, operation) {
        Some(e) => Some(e),
        None => if v.state == PlaybackState::Idle {
            Some(PlaybackError::NotLoaded { operation })
        } else {
            None
        },
    }
}

/// The refusal of an operation that needs a capability: liveness, then the
/// capability.
pub open spec fn gated_refusal(inside: bool, v: FakeView, capability: Capability, operation: Operation) -> Option<
    PlaybackError,
> {
    match live_refusal(inside, v.shut_down, operation) {
        Some(e) => Some(e),
        None => if !v.capabilities@.contains(capability) {
            Some(PlaybackError::Unsupported { operation, capability })
        } else {
            None
        },
    }
}

/// Events pushed one after another.
pub open spec fn push_all(events: Seq<PlaybackEvent>, capacity: nat, more: Seq<PlaybackEvent>) -> Seq<
    PlaybackEvent,
>
    decreases more.len(),
{
    if more.len() == 0 {
        events
    } else {
        pushed(push_all(events, capacity, more.drop_last()), capacity, more.last())
    }
}

/// What a load reports: buffering, ready, a new track list and, for a medium
/// with a picture, a new display size.
pub open spec fn load_events(geometry: Option<VideoGeometry>) -> Seq<PlaybackEvent> {
    let base = seq![
        PlaybackEvent::StateChanged { state: PlaybackState::Buffering },
        PlaybackEvent::StateChanged { state: PlaybackState::Ready },
        PlaybackEvent::TracksChanged,
    ];
    if geometry is Some {
        base.push(PlaybackEvent::VideoGeometryChanged)
    } else {
        base
    }
}

/// The engine after a successful load.
pub open spec fn after_load(v: FakeView) -> FakeView {
    FakeView {
        position_ms: 0,
        selected_audio: None,
        selected_subtitle: None,
        state: PlaybackState::Ready,
        events: push_all(v.events, v.capacity, load_events(v.video_geometry)),
        ..v
    }
}

/// The engine after a state transition.
pub open spec fn after_state(v: FakeView, state: PlaybackState) -> FakeView {
    FakeView { state, events: pushed(v.events, v.capacity, PlaybackEvent::StateChanged { state }), ..v }
}

/// What a seek reports: where it landed, the new position and, past the end,
/// the end of playback.
pub open spec fn seek_events(landed: u64, ended: bool) -> Seq<PlaybackEvent> {
    let base = seq![
        PlaybackEvent::SeekCompleted { position_ms: landed },
        PlaybackEvent::PositionChanged { position_ms: landed },
    ];
    if ended {
        base + seq![PlaybackEvent::StateChanged { state: PlaybackState::Ended }, PlaybackEvent::EndReached]
    } else {
        base
    }
}

/// The engine after a seek to `to_ms`: clamped at the end, which it reaches
/// when the seek goes that far.
pub open spec fn after_seek(v: FakeView, to_ms: u64) -> FakeView {
    let ended = to_ms >= FAKE_DURATION_MS;
    let landed = if ended {
        FAKE_DURATION_MS
    } else {
        to_ms
    };
    FakeView {
        position_ms: landed,
        state: if ended {
            PlaybackState::Ended
        } else {
            v.state
        },
        events: push_all(v.events, v.capacity, seek_events(landed, ended)),
        ..v
    }
}

/// The tracks of the fake medium. Ids are disjoint across kinds.
pub open spec fn fake_tracks(kind: TrackKind) -> Seq<TrackModel> {
    match kind {
        TrackKind::Subtitle => seq![
            TrackModel {
                id: TrackId(0),
                kind: TrackKind::Subtitle,
                language: Some("en"@),
                title: Some("English"@),
                codec: "subrip"@,
                is_default: true,
                is_text: true,
            },
            TrackModel {
                id: TrackId(1),
                kind: TrackKind::Subtitle,
                language: Some("tr"@),
                title: None,
                codec: "hdmv_pgs_subtitle"@,
                is_default: false,
                is_text: false,
            },
        ],
        TrackKind::Audio => seq![
            TrackModel {
                id: TrackId(2),
                kind: TrackKind::Audio,
                language: Some("en"@),
                title: None,
                codec: "aac"@,
                is_default: true,
                is_text: false,
            },
        ],
    }
}

/// Whether the fake medium has a track of this kind with this id.
pub open spec fn has_fake_track(kind: TrackKind, id: TrackId) -> bool {
    exists|i: int| 0 <= i < fake_tracks(kind).len() && (#[trigger] fake_tracks(kind)[i]).id == id
}

/// Whether a selection names a track the medium has, or nothing.
pub open spec fn known_selection(kind: TrackKind, track: Option<TrackId>) -> bool {
    match track {
        Some(id) => has_fake_track(kind, id),
        None => true,
    }
}

/// The engine after a selection.
pub open spec fn after_select(v: FakeView, kind: TrackKind, track: Option<TrackId>) -> FakeView {
    match kind {
        TrackKind::Audio => FakeView { selected_audio: track, ..v },
        TrackKind::Subtitle => FakeView { selected_subtitle: track, showing_injected: false, ..v },
    }
}

/// The selection of a kind.
pub open spec fn selection(v: FakeView, kind: TrackKind) -> Option<TrackId> {
    match kind {
        TrackKind::Audio => v.selected_audio,
        TrackKind::Subtitle => v.selected_subtitle,
    }
}

/// A volume clamped to `0..=1000`.
pub open spec fn clamped_volume(volume: i32) -> i32 {
    if volume < 0 {
        0
    } else if volume > 1000 {
        1000
    } else {
        volume
    }
}

/// What the engine draws now: nothing unless an injected document is on
/// screen; the position is read as a `u32`, saturating.
pub open spec fn fake_drawn(v: FakeView) -> Option<Seq<char>> {
    if !v.showing_injected {
        None
    } else {
        match v.injected {
            Some(cues) => drawn_at(cues, if v.position_ms > u32::MAX {
                u32::MAX
            } else {
                v.position_ms as u32
            }),
            None => None,
        }
    }
}

/// The result of an operation refused with `refusal`, or of one that
/// returns `value`.
pub open spec fn answer<T>(refusal: Option<PlaybackError>, value: T) -> Result<T, PlaybackError> {
    match refusal {
        Some(e) => Err(e),
        None => Ok(value),
    }
}

impl FakeEngine {
    /// An engine with the given capabilities, over a medium with `geometry`.
    fn build(capabilities: Capabilities, geometry: Option<VideoGeometry>) -> (engine: FakeEngine)
        ensures
            engine@ == fresh(capabilities, geometry),
    {
        FakeEngine {
            capabilities,
            state: PlaybackState::Idle,
            position_ms: 0,
            rate: 1000,
            volume: 1000,
            selected_audio: None,
            selected_subtitle: None,
            injected: None,
            showing_injected: false,
            subtitle_bottom_inset: 0,
            video_geometry: geometry,
            shut_down: false,
            events: EventQueue::default(),
            commands: Ghost(Seq::empty()),
        }
    }

    /// An engine declaring the given capabilities, over the fake medium.
    pub fn new(capabilities: Capabilities) -> (engine: FakeEngine)
        ensures
            engine@ == fresh(capabilities, engine@.video_geometry),
            fake_geometry(engine@.video_geometry),
    {
        Self::build(capabilities, VideoGeometry::new(FAKE_VIDEO_WIDTH, FAKE_VIDEO_HEIGHT))
    }

    /// An engine declaring every optional capability.
    pub fn full() -> (engine: FakeEngine)
        ensures
            engine@ == fresh(engine@.capabilities, engine@.video_geometry),
            engine@.capabilities@ == Set::<Capability>::full(),
            fake_geometry(engine@.video_geometry),
    {
        Self::new(Capabilities::all())
    }

    /// An engine providing only the mandatory base.
    pub fn minimal() -> (engine: FakeEngine)
        ensures
            engine@ == fresh(engine@.capabilities, engine@.video_geometry),
            engine@.capabilities@ == Set::<Capability>::empty(),
            fake_geometry(engine@.video_geometry),
    {
        Self::new(Capabilities::none())
    }

    /// A fully capable engine whose medium has no picture at all.
    pub fn without_video() -> (engine: FakeEngine)
        ensures
            engine@ == fresh(engine@.capabilities, None),
            engine@.capabilities@ == Set::<Capability>::full(),
    {
        Self::build(Capabilities::all(), None)
    }

    /// The current rate, in thousandths.
    pub fn rate(&self) -> (rate: i32)
        ensures
            rate == self@.rate,
    {
        self.rate
    }

    /// The current volume, in thousandths.
    pub fn volume(&self) -> (volume: i32)
        ensures
            volume == self@.volume,
    {
        self.volume
    }

    /// The inset the engine was last told about, in thousandths.
    pub fn subtitle_bottom_inset(&self) -> (inset: u32)
        ensures
            inset == self@.subtitle_bottom_inset,
    {
        self.subtitle_bottom_inset
    }

    /// How many cues the last injected document carried, if any.
    pub fn injected_cues(&self) -> (count: Option<usize>)
        ensures
            match (count, self@.injected) {
                (Some(n), Some(cues)) => n == cues.len(),
                (None, None) => true,
                _ => false,
            },
    {
        match &self.injected {
            Some(document) => Some(document.len()),
            None => None,
        }
    }

    fn descriptors(kind: TrackKind) -> (tracks: Vec<TrackDescriptor>)
        ensures
            tracks@.map_values(|t: TrackDescriptor| t@) == fake_tracks(kind),
    {
        let tracks = match kind {
            TrackKind::Subtitle => vec![
                TrackDescriptor::new(TrackId(0), TrackKind::Subtitle, "subrip").with_language(
                    Some(String::from_str("en")),
                ).with_title(Some(String::from_str("English"))).with_default(true),
                TrackDescriptor::new(TrackId(1), TrackKind::Subtitle, "hdmv_pgs_subtitle").with_language(
                    Some(String::from_str("tr")),
                ),
            ],
            TrackKind::Audio => vec![
                TrackDescriptor::new(TrackId(2), TrackKind::Audio, "aac").with_language(
                    Some(String::from_str("en")),
                ).with_default(true),
            ],
        };
        proof {
            reveal_strlit("subrip");
            reveal_strlit("hdmv_pgs_subtitle");
            reveal_strlit("aac");
            reveal_strlit("en");
            reveal_strlit("tr");
            reveal_strlit("English");
            reveal_strlit("srt");
            reveal_strlit("ass");
            reveal_strlit("ssa");
            reveal_strlit("webvtt");
            reveal_strlit("text");
            reveal_strlit("mov_text");
            reveal_strlit("microdvd");
            reveal_strlit("eia_608");
            reveal_strlit("subviewer");
            reveal_strlit("subviewer1");
            reveal_strlit("sami");
            reveal_strlit("stl");
            assert(text_subtitle_codec("subrip"@));
            assert("hdmv_pgs_subtitle"@.len() != "subrip"@.len());
            assert("hdmv_pgs_subtitle"@.len() != "srt"@.len());
            assert("hdmv_pgs_subtitle"@.len() != "ass"@.len());
            assert("hdmv_pgs_subtitle"@.len() != "ssa"@.len());
            assert("hdmv_pgs_subtitle"@.len() != "webvtt"@.len());
            assert("hdmv_pgs_subtitle"@.len() != "text"@.len());
            assert("hdmv_pgs_subtitle"@.len() != "mov_text"@.len());
            assert("hdmv_pgs_subtitle"@.len() != "microdvd"@.len());
            assert("hdmv_pgs_subtitle"@.len() != "eia_608"@.len());
            assert("hdmv_pgs_subtitle"@.len() != "subviewer"@.len());
            assert("hdmv_pgs_subtitle"@.len() != "subviewer1"@.len());
            assert("hdmv_pgs_subtitle"@.len() != "sami"@.len());
            assert("hdmv_pgs_subtitle"@.len() != "stl"@.len());
            assert(!text_subtitle_codec("hdmv_pgs_subtitle"@));
        }
        assert(tracks@.map_values(|t: TrackDescriptor| t@) =~= fake_tracks(kind));
        tracks
    }

    fn has_track(kind: TrackKind, track: TrackId) -> (has: bool)
        ensures
            has == has_fake_track(kind, track),
    {
        let tracks = Self::descriptors(kind);
        let ghost model = tracks@.map_values(|t: TrackDescriptor| t@);
        let mut i: usize = 0;
        while i < tracks.len()
            invariant
                i <= tracks@.len(),
                model == tracks@.map_values(|t: TrackDescriptor| t@),
                model == fake_tracks(kind),
                forall|k: int| 0 <= k < i ==> (#[trigger] model[k]).id != track,
            decreases tracks@.len() - i,
        {
            if tracks[i].id() == track {
                assert(model[i as int].id == track);
                return true;
            }
            i = i + 1;
        }
        false
    }

    /// Records `order` with its answer and gives the answer back.
    fn answer(&mut self, order: Ghost<EngineOrder>, result: Result<(), PlaybackError>) -> (answered: Result<
        (),
        PlaybackError,
    >)
        ensures
            answered == result,
            final(self)@ == old(self)@,
            final(self).commands@ == old(self).commands@.push(command(order@, result)),
    {
        proof {
            self.commands@ = self.commands@.push(command(order@, result));
        }
        result
    }

    fn ensure_live(&self, mark: &CallbackMark, operation: Operation) -> (result: Result<(), PlaybackError>)
        ensures
            result == answer(live_refusal(mark.inside_spec(), self@.shut_down, operation), ()),
    {
        if mark.in_callback() {
            return Err(PlaybackError::ReentrantCall { operation });
        }
        if self.shut_down {
            return Err(PlaybackError::ShutDown { operation });
        }
        Ok(())
    }

    fn ensure_loaded(&self, mark: &CallbackMark, operation: Operation) -> (result: Result<(), PlaybackError>)
        ensures
            result == answer(loaded_refusal(mark.inside_spec(), self@, operation), ()),
    {
        match self.ensure_live(mark, operation) {
            Ok(()) => {},
            Err(e) => return Err(e),
        }
        if !self.state.has_media() {
            return Err(PlaybackError::NotLoaded { operation });
        }
        Ok(())
    }

    fn ensure_capable(&self, mark: &CallbackMark, capability: Capability, operation: Operation) -> (result: Result<
        (),
        PlaybackError,
    >)
        ensures
            result == answer(gated_refusal(mark.inside_spec(), self@, capability, operation), ()),
    {
        match self.ensure_live(mark, operation) {
            Ok(()) => {},
            Err(e) => return Err(e),
        }
        if !self.capabilities.contains(capability) {
            return Err(PlaybackError::Unsupported { operation, capability });
        }
        Ok(())
    }

    fn set_state(&mut self, state: PlaybackState)
        ensures
            final(self)@ == after_state(old(self)@, state),
            final(self).commands == old(self).commands,
    {
        self.state = state;
        self.events.push(PlaybackEvent::StateChanged { state });
    }
}

impl PlaybackEngine<SubtitleDocument> for FakeEngine {
    closed spec fn commands(&self) -> Seq<EngineCommand> {
        self.commands@
    }

    open spec fn position_answers(&self, mark: CallbackMark, given: Result<u64, PlaybackError>) -> bool {
        given == answer(loaded_refusal(mark.inside_spec(), self@, Operation::Position), self@.position_ms)
    }

    open spec fn duration_answers(&self, mark: CallbackMark, given: Result<Option<u64>, PlaybackError>) -> bool {
        given == answer(loaded_refusal(mark.inside_spec(), self@, Operation::Duration), Some(FAKE_DURATION_MS))
    }

    open spec fn state_answers(&self, state: PlaybackState) -> bool {
        state == self@.state
    }

    open spec fn geometry_answers(&self, mark: CallbackMark, given: Result<Option<VideoGeometry>, PlaybackError>) -> bool {
        given == answer(loaded_refusal(mark.inside_spec(), self@, Operation::VideoGeometry), self@.video_geometry)
    }

    open spec fn tracks_answers(
        &self,
        mark: CallbackMark,
        kind: TrackKind,
        answer: Result<Vec<TrackDescriptor>, PlaybackError>,
    ) -> bool {
        match loaded_refusal(mark.inside_spec(), self@, Operation::Tracks) {
            Some(e) => answer == Err::<Vec<TrackDescriptor>, PlaybackError>(e),
            None => answer matches Ok(tracks) && tracks@.map_values(|t: TrackDescriptor| t@) == fake_tracks(kind),
        }
    }

    open spec fn selected_answers(&self, mark: CallbackMark, kind: TrackKind, given: Result<Option<TrackId>, PlaybackError>) -> bool {
        given == answer(loaded_refusal(mark.inside_spec(), self@, Operation::SelectTrack), selection(self@, kind))
    }

    open spec fn text_answers(&self, mark: CallbackMark, track: TrackId, text: Seq<char>) -> bool {
        &&& gated_refusal(mark.inside_spec(), self@, Capability::EmbeddedTextExtraction, Operation::ExtractText) is None
        &&& has_fake_track(TrackKind::Subtitle, track)
        &&& text == FAKE_EXTRACTED_TEXT@
    }

    fn capabilities(&self) -> (capabilities: Capabilities)
        ensures
            capabilities == self@.capabilities,
    {
        self.capabilities
    }

    /// An empty locator is not found. Loading reports buffering, ready, the
    /// track list and, with a picture, its size; nothing is selected.
    fn load(&mut self, mark: &CallbackMark, source: &MediaSource) -> (result: Result<(), PlaybackError>)
        ensures
            match live_refusal(mark.inside_spec(), old(self)@.shut_down, Operation::Load) {
                Some(e) => result == Err::<(), PlaybackError>(e) && final(self)@ == old(self)@,
                None => if source@.len() == 0 {
                    result == Err::<(), PlaybackError>(PlaybackError::LoadFailed { reason: LoadFailure::NotFound })
                        && final(self)@ == old(self)@
                } else {
                    result is Ok && final(self)@ == after_load(old(self)@)
                },
            },
    {
        let ghost order = EngineOrder::Load { source: *source };
        match self.ensure_live(mark, Operation::Load) {
            Ok(()) => {},
            Err(e) => return self.answer(Ghost(order), Err(e)),
        }
        if source.is_empty() {
            return self.answer(Ghost(order), Err(PlaybackError::LoadFailed { reason: LoadFailure::NotFound }));
        }
        let ghost before = self@;
        self.position_ms = 0;
        self.selected_audio = None;
        self.selected_subtitle = None;
        self.set_state(PlaybackState::Buffering);
        self.set_state(PlaybackState::Ready);
        self.events.push(PlaybackEvent::TracksChanged);
        if self.video_geometry.is_some() {
            self.events.push(PlaybackEvent::VideoGeometryChanged);
        }
        proof {
            let evs = load_events(before.video_geometry);
            assert(evs.subrange(0, 3).drop_last() =~= seq![
                PlaybackEvent::StateChanged { state: PlaybackState::Buffering },
                PlaybackEvent::StateChanged { state: PlaybackState::Ready },
            ]);
            reveal_with_fuel(push_all, 5);
            if before.video_geometry is Some {
                assert(evs.drop_last() =~= seq![
                    PlaybackEvent::StateChanged { state: PlaybackState::Buffering },
                    PlaybackEvent::StateChanged { state: PlaybackState::Ready },
                    PlaybackEvent::TracksChanged,
                ]);
                assert(evs.drop_last().drop_last() =~= seq![
                    PlaybackEvent::StateChanged { state: PlaybackState::Buffering },
                    PlaybackEvent::StateChanged { state: PlaybackState::Ready },
                ]);
                assert(evs.drop_last().drop_last().drop_last() =~= seq![
                    PlaybackEvent::StateChanged { state: PlaybackState::Buffering },
                ]);
                assert(evs.drop_last().drop_last().drop_last().drop_last() =~= Seq::<PlaybackEvent>::empty());
            } else {
                assert(evs.drop_last() =~= seq![
                    PlaybackEvent::StateChanged { state: PlaybackState::Buffering },
                    PlaybackEvent::StateChanged { state: PlaybackState::Ready },
                ]);
                assert(evs.drop_last().drop_last() =~= seq![
                    PlaybackEvent::StateChanged { state: PlaybackState::Buffering },
                ]);
                assert(evs.drop_last().drop_last().drop_last() =~= Seq::<PlaybackEvent>::empty());
            }
        }
        self.answer(Ghost(order), Ok(()))
    }

    fn play(&mut self, mark: &CallbackMark) -> (result: Result<(), PlaybackError>)
        ensures
            match loaded_refusal(mark.inside_spec(), old(self)@, Operation::Play) {
                Some(e) => result == Err::<(), PlaybackError>(e) && final(self)@ == old(self)@,
                None => result is Ok && final(self)@ == after_state(old(self)@, PlaybackState::Playing),
            },
    {
        let ghost order = EngineOrder::Play;
        match self.ensure_loaded(mark, Operation::Play) {
            Ok(()) => {},
            Err(e) => return self.answer(Ghost(order), Err(e)),
        }
        self.set_state(PlaybackState::Playing);
        self.answer(Ghost(order), Ok(()))
    }

    fn pause(&mut self, mark: &CallbackMark) -> (result: Result<(), PlaybackError>)
        ensures
            match loaded_refusal(mark.inside_spec(), old(self)@, Operation::Pause) {
                Some(e) => result == Err::<(), PlaybackError>(e) && final(self)@ == old(self)@,
                None => result is Ok && final(self)@ == after_state(old(self)@, PlaybackState::Paused),
            },
    {
        let ghost order = EngineOrder::Pause;
        match self.ensure_loaded(mark, Operation::Pause) {
            Ok(()) => {},
            Err(e) => return self.answer(Ghost(order), Err(e)),
        }
        self.set_state(PlaybackState::Paused);
        self.answer(Ghost(order), Ok(()))
    }

    /// Back to idle at zero with nothing selected.
    fn stop(&mut self, mark: &CallbackMark) -> (result: Result<(), PlaybackError>)
        ensures
            match loaded_refusal(mark.inside_spec(), old(self)@, Operation::Stop) {
                Some(e) => result == Err::<(), PlaybackError>(e) && final(self)@ == old(self)@,
                None => result is Ok && final(self)@ == after_state(
                    FakeView { position_ms: 0, selected_audio: None, selected_subtitle: None, ..old(self)@ },
                    PlaybackState::Idle,
                ),
            },
    {
        let ghost order = EngineOrder::Stop;
        match self.ensure_loaded(mark, Operation::Stop) {
            Ok(()) => {},
            Err(e) => return self.answer(Ghost(order), Err(e)),
        }
        self.position_ms = 0;
        self.selected_audio = None;
        self.selected_subtitle = None;
        self.set_state(PlaybackState::Idle);
        self.answer(Ghost(order), Ok(()))
    }

    /// Lands where asked, or at the end, which then ends playback.
    fn seek(&mut self, mark: &CallbackMark, to_ms: u64) -> (result: Result<(), PlaybackError>)
        ensures
            match loaded_refusal(mark.inside_spec(), old(self)@, Operation::Seek) {
                Some(e) => result == Err::<(), PlaybackError>(e) && final(self)@ == old(self)@,
                None => result is Ok && final(self)@ == after_seek(old(self)@, to_ms),
            },
    {
        let ghost order = EngineOrder::Seek { to_ms };
        match self.ensure_loaded(mark, Operation::Seek) {
            Ok(()) => {},
            Err(e) => {
                let r = self.answer(Ghost(order), Err(e));
                assert(self.commands() == old(self).commands().push(command(EngineOrder::Seek { to_ms }, r)));
                return r;
            },
        }
        let ghost before = self@;
        let ended = to_ms >= FAKE_DURATION_MS;
        let landed = if ended {
            FAKE_DURATION_MS
        } else {
            to_ms
        };
        self.position_ms = landed;
        self.events.push(PlaybackEvent::SeekCompleted { position_ms: landed });
        self.events.push(PlaybackEvent::PositionChanged { position_ms: landed });
        if ended {
            self.set_state(PlaybackState::Ended);
            self.events.push(PlaybackEvent::EndReached);
        }
        proof {
            let evs = seek_events(landed, ended);
            reveal_with_fuel(push_all, 5);
            if ended {
                assert(evs.drop_last() =~= seq![
                    PlaybackEvent::SeekCompleted { position_ms: landed },
                    PlaybackEvent::PositionChanged { position_ms: landed },
                    PlaybackEvent::StateChanged { state: PlaybackState::Ended },
                ]);
                assert(evs.drop_last().drop_last() =~= seq![
                    PlaybackEvent::SeekCompleted { position_ms: landed },
                    PlaybackEvent::PositionChanged { position_ms: landed },
                ]);
                assert(evs.drop_last().drop_last().drop_last() =~= seq![
                    PlaybackEvent::SeekCompleted { position_ms: landed },
                ]);
                assert(evs.drop_last().drop_last().drop_last().drop_last() =~= Seq::<PlaybackEvent>::empty());
            } else {
                assert(evs.drop_last() =~= seq![PlaybackEvent::SeekCompleted { position_ms: landed }]);
                assert(evs.drop_last().drop_last() =~= Seq::<PlaybackEvent>::empty());
            }
        }
        self.answer(Ghost(order), Ok(()))
    }

    fn position(&self, mark: &CallbackMark) -> (result: Result<u64, PlaybackError>)
        ensures
            result == answer(loaded_refusal(mark.inside_spec(), self@, Operation::Position), self@.position_ms),
    {
        let result = match self.ensure_loaded(mark, Operation::Position) {
            Ok(()) => Ok(self.position_ms),
            Err(e) => Err(e),
        };
        assert(self.position_answers(*mark, result));
        result
    }

    fn duration(&self, mark: &CallbackMark) -> (result: Result<Option<u64>, PlaybackError>)
        ensures
            result == answer(
                loaded_refusal(mark.inside_spec(), self@, Operation::Duration),
                Some(FAKE_DURATION_MS),
            ),
    {
        match self.ensure_loaded(mark, Operation::Duration) {
            Ok(()) => {},
            Err(e) => return Err(e),
        }
        Ok(Some(FAKE_DURATION_MS))
    }

    fn state(&self) -> (state: PlaybackState)
        ensures
            state == self@.state,
    {
        self.state
    }

    /// Needs loaded media: an idle engine holds no picture to measure.
    fn video_geometry(&self, mark: &CallbackMark) -> (result: Result<Option<VideoGeometry>, PlaybackError>)
        ensures
            result == answer(
                loaded_refusal(mark.inside_spec(), self@, Operation::VideoGeometry),
                self@.video_geometry,
            ),
    {
        match self.ensure_loaded(mark, Operation::VideoGeometry) {
            Ok(()) => {},
            Err(e) => return Err(e),
        }
        Ok(self.video_geometry)
    }

    fn tracks(&self, mark: &CallbackMark, kind: TrackKind) -> (result: Result<Vec<TrackDescriptor>, PlaybackError>)
        ensures
            match loaded_refusal(mark.inside_spec(), self@, Operation::Tracks) {
                Some(e) => result == Err::<Vec<TrackDescriptor>, PlaybackError>(e),
                None => result matches Ok(tracks) && tracks@.map_values(|t: TrackDescriptor| t@)
                    == fake_tracks(kind),
            },
    {
        match self.ensure_loaded(mark, Operation::Tracks) {
            Ok(()) => {},
            Err(e) => return Err(e),
        }
        Ok(Self::descriptors(kind))
    }

    /// An id the medium does not have for this kind is refused and changes
    /// nothing. Selecting a subtitle takes an injected document off screen.
    fn select_track(&mut self, mark: &CallbackMark, kind: TrackKind, track: Option<TrackId>) -> (result: Result<
        (),
        PlaybackError,
    >)
        ensures
            match loaded_refusal(mark.inside_spec(), old(self)@, Operation::SelectTrack) {
                Some(e) => result == Err::<(), PlaybackError>(e) && final(self)@ == old(self)@,
                None => if !known_selection(kind, track) {
                    result == Err::<(), PlaybackError>(PlaybackError::UnknownTrack { kind })
                        && final(self)@ == old(self)@
                } else {
                    result is Ok && final(self)@ == after_select(old(self)@, kind, track)
                },
            },
    {
        let ghost order = EngineOrder::SelectTrack { kind, track };
        match self.ensure_loaded(mark, Operation::SelectTrack) {
            Ok(()) => {},
            Err(e) => return self.answer(Ghost(order), Err(e)),
        }
        match track {
            Some(id) => {
                if !Self::has_track(kind, id) {
                    return self.answer(Ghost(order), Err(PlaybackError::UnknownTrack { kind }));
                }
            },
            None => {},
        }
        match kind {
            TrackKind::Audio => self.selected_audio = track,
            TrackKind::Subtitle => {
                self.selected_subtitle = track;
                self.showing_injected = false;
            },
        }
        self.answer(Ghost(order), Ok(()))
    }

    fn selected_track(&self, mark: &CallbackMark, kind: TrackKind) -> (result: Result<Option<TrackId>, PlaybackError>)
        ensures
            result == answer(
                loaded_refusal(mark.inside_spec(), self@, Operation::SelectTrack),
                selection(self@, kind),
            ),
    {
        match self.ensure_loaded(mark, Operation::SelectTrack) {
            Ok(()) => {},
            Err(e) => return Err(e),
        }
        match kind {
            TrackKind::Audio => Ok(self.selected_audio),
            TrackKind::Subtitle => Ok(self.selected_subtitle),
        }
    }

    /// The fake's own queue: what is taken from it is gone from the fake,
    /// and nothing else of the fake changes.
    fn events(&mut self) -> (events: &mut EventQueue)
        ensures
            events.pending_spec() == old(self)@.events,
            events.capacity_spec() == old(self)@.capacity,
            final(self)@ == (FakeView {
                events: final(events).pending_spec(),
                capacity: final(events).capacity_spec(),
                ..old(self)@
            }),
    {
        &mut self.events
    }

    /// Idempotent: afterwards every operation is refused.
    fn shutdown(&mut self, mark: &CallbackMark) -> (result: Result<(), PlaybackError>)
        ensures
            mark.inside_spec() ==> result == Err::<(), PlaybackError>(
                PlaybackError::ReentrantCall { operation: Operation::Shutdown },
            ) && final(self)@ == old(self)@,
            !mark.inside_spec() ==> result is Ok && final(self)@ == (FakeView {
                shut_down: true,
                state: PlaybackState::Idle,
                ..old(self)@
            }),
    {
        let ghost order = EngineOrder::Shutdown;
        if mark.in_callback() {
            return self.answer(Ghost(order), Err(PlaybackError::ReentrantCall { operation: Operation::Shutdown }));
        }
        self.shut_down = true;
        self.state = PlaybackState::Idle;
        self.answer(Ghost(order), Ok(()))
    }

    /// Base, needing no capability: the engine remembers what it was told.
    fn set_subtitle_bottom_inset(&mut self, mark: &CallbackMark, thousandths: u32) -> (result: Result<
        (),
        PlaybackError,
    >)
        ensures
            match live_refusal(mark.inside_spec(), old(self)@.shut_down, Operation::SetSubtitleBottomInset) {
                Some(e) => result == Err::<(), PlaybackError>(e) && final(self)@ == old(self)@,
                None => result is Ok && final(self)@ == (FakeView {
                    subtitle_bottom_inset: thousandths,
                    ..old(self)@
                }),
            },
    {
        let ghost order = EngineOrder::SetSubtitleBottomInset { thousandths };
        match self.ensure_live(mark, Operation::SetSubtitleBottomInset) {
            Ok(()) => {},
            Err(e) => return self.answer(Ghost(order), Err(e)),
        }
        self.subtitle_bottom_inset = thousandths;
        self.answer(Ghost(order), Ok(()))
    }

    /// A rate outside the fake's range is refused with the range.
    fn set_rate(&mut self, mark: &CallbackMark, rate_thousandths: i32) -> (result: Result<(), PlaybackError>)
        ensures
            match gated_refusal(mark.inside_spec(), old(self)@, Capability::PlaybackRate, Operation::SetRate) {
                Some(e) => result == Err::<(), PlaybackError>(e) && final(self)@ == old(self)@,
                None => if rate_thousandths < FAKE_RATE_MIN || rate_thousandths > FAKE_RATE_MAX {
                    result == Err::<(), PlaybackError>(
                        PlaybackError::RateOutOfRange {
                            requested: rate_thousandths,
                            min: FAKE_RATE_MIN,
                            max: FAKE_RATE_MAX,
                        },
                    ) && final(self)@ == old(self)@
                } else {
                    result is Ok && final(self)@ == (FakeView { rate: rate_thousandths, ..old(self)@ })
                },
            },
    {
        match self.ensure_capable(mark, Capability::PlaybackRate, Operation::SetRate) {
            Ok(()) => {},
            Err(e) => return Err(e),
        }
        if rate_thousandths < FAKE_RATE_MIN || rate_thousandths > FAKE_RATE_MAX {
            return Err(
                PlaybackError::RateOutOfRange { requested: rate_thousandths, min: FAKE_RATE_MIN, max: FAKE_RATE_MAX },
            );
        }
        self.rate = rate_thousandths;
        Ok(())
    }

    /// The volume is clamped to `0..=1000`.
    fn set_volume(&mut self, mark: &CallbackMark, volume_thousandths: i32) -> (result: Result<(), PlaybackError>)
        ensures
            match gated_refusal(mark.inside_spec(), old(self)@, Capability::Volume, Operation::SetVolume) {
                Some(e) => result == Err::<(), PlaybackError>(e) && final(self)@ == old(self)@,
                None => result is Ok && final(self)@ == (FakeView {
                    volume: clamped_volume(volume_thousandths),
                    ..old(self)@
                }),
            },
    {
        match self.ensure_capable(mark, Capability::Volume, Operation::SetVolume) {
            Ok(()) => {},
            Err(e) => return Err(e),
        }
        self.volume = if volume_thousandths < 0 {
            0
        } else if volume_thousandths > 1000 {
            1000
        } else {
            volume_thousandths
        };
        Ok(())
    }

    /// Any subtitle track the medium has yields the same fixed text.
    fn extract_text(&mut self, mark: &CallbackMark, track: TrackId) -> (result: Result<String, PlaybackError>)
        ensures
            final(self)@ == old(self)@,
            match gated_refusal(
                mark.inside_spec(),
                old(self)@,
                Capability::EmbeddedTextExtraction,
                Operation::ExtractText,
            ) {
                Some(e) => result == Err::<String, PlaybackError>(e),
                None => if !has_fake_track(TrackKind::Subtitle, track) {
                    result == Err::<String, PlaybackError>(PlaybackError::UnknownTrack { kind: TrackKind::Subtitle })
                } else {
                    result matches Ok(text) && text@ == FAKE_EXTRACTED_TEXT@
                },
            },
    {
        match self.ensure_capable(mark, Capability::EmbeddedTextExtraction, Operation::ExtractText) {
            Ok(()) => {},
            Err(e) => return Err(e),
        }
        if !Self::has_track(TrackKind::Subtitle, track) {
            return Err(PlaybackError::UnknownTrack { kind: TrackKind::Subtitle });
        }
        Ok(String::from_str(FAKE_EXTRACTED_TEXT))
    }

    /// What the injected document draws at the current position, when it is
    /// on screen.
    fn rendered_subtitle_text(&self, mark: &CallbackMark) -> (result: Result<Option<String>, PlaybackError>)
        ensures
            match gated_refusal(
                mark.inside_spec(),
                self@,
                Capability::RenderedTextObservation,
                Operation::RenderedText,
            ) {
                Some(e) => result == Err::<Option<String>, PlaybackError>(e),
                None => match (result, fake_drawn(self@)) {
                    (Ok(Some(t)), Some(expected)) => t@ == expected,
                    (Ok(None), None) => true,
                    _ => false,
                },
            },
    {
        match self.ensure_capable(mark, Capability::RenderedTextObservation, Operation::RenderedText) {
            Ok(()) => {},
            Err(e) => return Err(e),
        }
        if !self.showing_injected {
            return Ok(None);
        }
        let at_ms: u32 = if self.position_ms > u32::MAX as u64 {
            u32::MAX
        } else {
            self.position_ms as u32
        };
        match &self.injected {
            Some(document) => Ok(text_at(document, at_ms)),
            None => Ok(None),
        }
    }

    /// The document is kept whole and put on screen; no embedded subtitle
    /// stays selected.
    fn inject_subtitle(&mut self, mark: &CallbackMark, document: &SubtitleDocument) -> (result: Result<
        (),
        PlaybackError,
    >)
        ensures
            match gated_refusal(
                mark.inside_spec(),
                old(self)@,
                Capability::ExternalSubtitleInjection,
                Operation::InjectSubtitle,
            ) {
                Some(e) => result == Err::<(), PlaybackError>(e) && final(self)@ == old(self)@,
                None => result is Ok && final(self)@ == (FakeView {
                    injected: Some(document@),
                    showing_injected: true,
                    selected_subtitle: None,
                    ..old(self)@
                }),
            },
    {
        match self.ensure_capable(mark, Capability::ExternalSubtitleInjection, Operation::InjectSubtitle) {
            Ok(()) => {},
            Err(e) => return Err(e),
        }
        self.injected = Some(document.copy());
        self.showing_injected = true;
        self.selected_subtitle = None;
        Ok(())
    }
}

/// The inputs the contract kit needs to drive a [`FakeEngine`]: its medium,
/// a one-cue document, and exact answers (no tolerance).
pub fn fake_inputs() -> (inputs: ContractInputs<SubtitleDocument>)
    ensures
        inputs.media@ == "fake://medium"@,
        inputs.document@.len() == 1,
        inputs.document@[0].id == 1 && inputs.document@[0].start_ms == 0 && inputs.document@[0].end_ms == 1000,
        inputs.document@[0].lines == seq!["contract"@],
        inputs.duration_ms == Some(FAKE_DURATION_MS),
        inputs.audio_track_count == FAKE_AUDIO_TRACKS,
        inputs.subtitle_track_count == FAKE_SUBTITLE_TRACKS,
        inputs.audio_track == TrackId(FAKE_AUDIO_TRACK),
        inputs.subtitle_track == TrackId(FAKE_SUBTITLE_TRACK),
        inputs.unknown_track == TrackId(FAKE_UNKNOWN_TRACK),
        inputs.seek_tolerance_ms == 0,
        inputs.settle_timeout_ms == 5000,
        fake_geometry(inputs.video_geometry),
{
    let lines = vec![String::from_str("contract")];
    let document = SubtitleDocument::new(vec![Cue::new(1, 0, 1000, lines)]);
    let inputs = ContractInputs::new(MediaSource::new("fake://medium"), document).with_duration_ms(
        Some(FAKE_DURATION_MS),
    ).with_track_counts(FAKE_AUDIO_TRACKS, FAKE_SUBTITLE_TRACKS).with_tracks(
        TrackId(FAKE_AUDIO_TRACK),
        TrackId(FAKE_SUBTITLE_TRACK),
        TrackId(FAKE_UNKNOWN_TRACK),
    ).with_video_geometry(VideoGeometry::new(FAKE_VIDEO_WIDTH, FAKE_VIDEO_HEIGHT));
    assert(inputs.document@[0].lines =~= seq!["contract"@]);
    inputs
}

/// The same inputs for a medium with no picture, to drive
/// [`FakeEngine::without_video`].
pub fn fake_inputs_without_video() -> (inputs: ContractInputs<SubtitleDocument>)
    ensures
        inputs.media@ == "fake://medium"@,
        inputs.document@.len() == 1,
        inputs.duration_ms == Some(FAKE_DURATION_MS),
        inputs.audio_track_count == FAKE_AUDIO_TRACKS,
        inputs.subtitle_track_count == FAKE_SUBTITLE_TRACKS,
        inputs.audio_track == TrackId(FAKE_AUDIO_TRACK),
        inputs.subtitle_track == TrackId(FAKE_SUBTITLE_TRACK),
        inputs.unknown_track == TrackId(FAKE_UNKNOWN_TRACK),
        inputs.seek_tolerance_ms == 0,
        inputs.settle_timeout_ms == 5000,
        inputs.video_geometry is None,
{
    fake_inputs().with_video_geometry(None)
}

} // verus!
