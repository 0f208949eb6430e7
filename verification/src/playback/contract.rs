//! The shared contract kit every `PlaybackEngine` adapter must pass.
//!
//! The scenarios are data, not code: a scenario is a list of steps, each an
//! [`Action`] paired with the [`Outcome`] the contract requires, and it
//! declares when it applies ([`Applicability`]). One list therefore covers
//! engines with different capability sets.
//!
//! Nothing here is a number an adapter chose. Durations, track counts and
//! ids live in [`ContractInputs`]; a step names what it means
//! ([`TrackRef::Known`], [`Outcome::FixtureDuration`]). A real engine loads
//! asynchronously, so [`Action::Settle`] waits for a state, a seek may land
//! within a declared tolerance, and [`Outcome::Events`] matches a
//! subsequence: an engine may report more than the contract requires, never
//! less, never out of order, and never an unasked `Failed` or `EventsLost`.
use crate::playback::capability::{Capabilities, Capability};
use crate::playback::engine::{command, EngineCommand, EngineOrder, PlaybackEngine};
use crate::playback::error::{playback_error_debug, PlaybackError};
use crate::playback::event::{
    state_debug, state_name, CallbackMark, CallbackScope, PlaybackEvent, PlaybackState,
};
use crate::playback::geometry::VideoGeometry;
use crate::playback::media::MediaSource;
use crate::playback::track::{track_kind_debug, track_kind_debug_name, track_kind_name, TrackDescriptor, TrackId, TrackKind};
use crate::text::{decimal, decimal_text, signed_decimal, signed_decimal_text};
use vstd::prelude::*;

verus! {

/// Which track a step means, without naming the adapter's numbers.
#[derive(Debug, Clone, Copy, PartialEq, Eq, Structural)]
pub enum TrackRef {
    /// An id of a track of this kind that the fixture really has.
    Known(TrackKind),
    /// An id no track of any kind has.
    Unknown,
}

/// One port operation, as data. Rates and volumes are in thousandths.
#[derive(Debug, Clone, Copy, PartialEq, Eq, Structural)]
pub enum Action {
    Load,
    Play,
    Pause,
    Stop,
    Seek { to_ms: u64 },
    SeekRelative { delta_ms: i64 },
    Position,
    Duration,
    State,
    VideoGeometry,
    Tracks { kind: TrackKind },
    SelectTrack { kind: TrackKind, track: Option<TrackRef> },
    SelectedTrack { kind: TrackKind },
    SetRate { rate_thousandths: i32 },
    SetVolume { volume_thousandths: i32 },
    ExtractText { track: TrackRef },
    InjectSubtitle,
    /// What the engine draws now; needs `RenderedTextObservation`.
    RenderedText,
    Shutdown,
    /// Waits until an event of this shape has been reported, or gives up.
    AwaitEvent { shape: EventShape },
    /// Waits for a `SeekCompleted` and checks the position it carries.
    AwaitSeekLanding { near_ms: u64 },
    /// Waits until the engine reaches a state, or gives up.
    Settle { until: PlaybackState },
    /// Takes everything pending, so the next expectation describes only
    /// what follows.
    DrainEvents,
}

/// The variant of a [`PlaybackError`], without its payload.
#[derive(Debug, Clone, Copy, PartialEq, Eq, Structural)]
pub enum ErrorKind {
    Unsupported,
    ReentrantCall,
    NotLoaded,
    ShutDown,
    UnknownTrack,
    TrackCarriesNoText,
    RateOutOfRange,
    LoadFailed,
    InsetOutOfRange,
    EngineFailure,
}

/// The kind of a playback error.
pub open spec fn kind_of(error: PlaybackError) -> ErrorKind {
    match error {
        PlaybackError::Unsupported { .. } => ErrorKind::Unsupported,
        PlaybackError::ReentrantCall { .. } => ErrorKind::ReentrantCall,
        PlaybackError::NotLoaded { .. } => ErrorKind::NotLoaded,
        PlaybackError::ShutDown { .. } => ErrorKind::ShutDown,
        PlaybackError::UnknownTrack { .. } => ErrorKind::UnknownTrack,
        PlaybackError::TrackCarriesNoText => ErrorKind::TrackCarriesNoText,
        PlaybackError::RateOutOfRange { .. } => ErrorKind::RateOutOfRange,
        PlaybackError::LoadFailed { .. } => ErrorKind::LoadFailed,
        PlaybackError::InsetOutOfRange { .. } => ErrorKind::InsetOutOfRange,
        PlaybackError::EngineFailure { .. } => ErrorKind::EngineFailure,
    }
}

impl ErrorKind {
    pub fn of(error: &PlaybackError) -> (kind: ErrorKind)
        ensures
            kind == kind_of(*error),
    {
        match error {
            PlaybackError::Unsupported { .. } => ErrorKind::Unsupported,
            PlaybackError::ReentrantCall { .. } => ErrorKind::ReentrantCall,
            PlaybackError::NotLoaded { .. } => ErrorKind::NotLoaded,
            PlaybackError::ShutDown { .. } => ErrorKind::ShutDown,
            PlaybackError::UnknownTrack { .. } => ErrorKind::UnknownTrack,
            PlaybackError::TrackCarriesNoText => ErrorKind::TrackCarriesNoText,
            PlaybackError::RateOutOfRange { .. } => ErrorKind::RateOutOfRange,
            PlaybackError::LoadFailed { .. } => ErrorKind::LoadFailed,
            PlaybackError::InsetOutOfRange { .. } => ErrorKind::InsetOutOfRange,
            PlaybackError::EngineFailure { .. } => ErrorKind::EngineFailure,
        }
    }
}

/// The shape of an event, without values that legitimately differ per engine.
#[derive(Debug, Clone, Copy, PartialEq, Eq, Structural)]
pub enum EventShape {
    PositionChanged,
    StateChanged(PlaybackState),
    SeekCompleted,
    TracksChanged,
    VideoGeometryChanged,
    EndReached,
    Failed,
    EventsLost,
}

/// The shape of an event.
pub open spec fn shape_of(event: PlaybackEvent) -> EventShape {
    match event {
        PlaybackEvent::PositionChanged { .. } => EventShape::PositionChanged,
        PlaybackEvent::StateChanged { state } => EventShape::StateChanged(state),
        PlaybackEvent::SeekCompleted { .. } => EventShape::SeekCompleted,
        PlaybackEvent::TracksChanged => EventShape::TracksChanged,
        PlaybackEvent::VideoGeometryChanged => EventShape::VideoGeometryChanged,
        PlaybackEvent::EndReached => EventShape::EndReached,
        PlaybackEvent::Failed { .. } => EventShape::Failed,
        PlaybackEvent::EventsLost { .. } => EventShape::EventsLost,
    }
}

impl EventShape {
    pub fn of(event: &PlaybackEvent) -> (shape: EventShape)
        ensures
            shape == shape_of(*event),
    {
        match event {
            PlaybackEvent::PositionChanged { .. } => EventShape::PositionChanged,
            PlaybackEvent::StateChanged { state } => EventShape::StateChanged(*state),
            PlaybackEvent::SeekCompleted { .. } => EventShape::SeekCompleted,
            PlaybackEvent::TracksChanged => EventShape::TracksChanged,
            PlaybackEvent::VideoGeometryChanged => EventShape::VideoGeometryChanged,
            PlaybackEvent::EndReached => EventShape::EndReached,
            PlaybackEvent::Failed { .. } => EventShape::Failed,
            PlaybackEvent::EventsLost { .. } => EventShape::EventsLost,
        }
    }
}

/// What the contract requires an action to produce.
#[derive(Debug, Clone, PartialEq, Eq)]
pub enum Outcome {
    /// Succeeded; the returned value is not what this step is about.
    Success,
    Error(ErrorKind),
    State(PlaybackState),
    /// Within [`ContractInputs::seek_tolerance_ms`] of this position.
    PositionNear(u64),
    /// The duration the fixture declares.
    FixtureDuration,
    /// The display size the fixture declares.
    FixtureGeometry,
    /// A new display size announced exactly when the fixture has a picture.
    GeometryAnnounced,
    /// As many tracks of this kind as the fixture declares.
    FixtureTrackCount(TrackKind),
    SelectedTrack(Option<TrackRef>),
    /// These shapes, in this order, as a subsequence of what was reported.
    Events(Vec<EventShape>),
    /// Text came back and is not empty. The text is never compared or shown.
    NonEmptyText,
}

/// The model of an outcome: the expected shapes as a sequence.
pub enum OutcomeView {
    Success,
    Error(ErrorKind),
    State(PlaybackState),
    PositionNear(u64),
    FixtureDuration,
    FixtureGeometry,
    GeometryAnnounced,
    FixtureTrackCount(TrackKind),
    SelectedTrack(Option<TrackRef>),
    Events(Seq<EventShape>),
    NonEmptyText,
}

impl View for Outcome {
    type V = OutcomeView;

    open spec fn view(&self) -> OutcomeView {
        match self {
            Outcome::Success => OutcomeView::Success,
            Outcome::Error(k) => OutcomeView::Error(*k),
            Outcome::State(s) => OutcomeView::State(*s),
            Outcome::PositionNear(p) => OutcomeView::PositionNear(*p),
            Outcome::FixtureDuration => OutcomeView::FixtureDuration,
            Outcome::FixtureGeometry => OutcomeView::FixtureGeometry,
            Outcome::GeometryAnnounced => OutcomeView::GeometryAnnounced,
            Outcome::FixtureTrackCount(k) => OutcomeView::FixtureTrackCount(*k),
            Outcome::SelectedTrack(t) => OutcomeView::SelectedTrack(*t),
            Outcome::Events(v) => OutcomeView::Events(v@),
            Outcome::NonEmptyText => OutcomeView::NonEmptyText,
        }
    }
}

fn copy_shapes(shapes: &Vec<EventShape>) -> (copy: Vec<EventShape>)
    ensures
        copy@ == shapes@,
{
    let mut copy: Vec<EventShape> = Vec::new();
    let mut i: usize = 0;
    while i < shapes.len()
        invariant
            i <= shapes@.len(),
            copy@ == shapes@.subrange(0, i as int),
        decreases shapes@.len() - i,
    {
        copy.push(shapes[i]);
        i = i + 1;
    }
    assert(shapes@.subrange(0, shapes@.len() as int) =~= shapes@);
    copy
}

impl Outcome {
    /// A copy of the outcome.
    pub fn copy(&self) -> (copy: Outcome)
        ensures
            copy@ == self@,
    {
        match self {
            Outcome::Success => Outcome::Success,
            Outcome::Error(k) => Outcome::Error(*k),
            Outcome::State(s) => Outcome::State(*s),
            Outcome::PositionNear(p) => Outcome::PositionNear(*p),
            Outcome::FixtureDuration => Outcome::FixtureDuration,
            Outcome::FixtureGeometry => Outcome::FixtureGeometry,
            Outcome::GeometryAnnounced => Outcome::GeometryAnnounced,
            Outcome::FixtureTrackCount(k) => Outcome::FixtureTrackCount(*k),
            Outcome::SelectedTrack(t) => Outcome::SelectedTrack(*t),
            Outcome::Events(v) => Outcome::Events(copy_shapes(v)),
            Outcome::NonEmptyText => Outcome::NonEmptyText,
        }
    }
}

/// One step of a scenario.
#[derive(Debug, Clone, PartialEq, Eq)]
pub struct Step {
    pub action: Action,
    pub expect: Outcome,
    /// Run this action with the thread marked as inside an event callback.
    pub inside_callback: bool,
}

impl Step {
    pub fn new(action: Action, expect: Outcome) -> (step: Step)
        ensures
            step.action == action && step.expect@ == expect@ && !step.inside_callback,
    {
        Step { action, expect, inside_callback: false }
    }

    pub fn from_callback(action: Action, expect: Outcome) -> (step: Step)
        ensures
            step.action == action && step.expect@ == expect@ && step.inside_callback,
    {
        Step { action, expect, inside_callback: true }
    }

    /// Wait for a state before asserting anything about it.
    pub fn settle(until: PlaybackState) -> (step: Step)
        ensures
            step.action == (Action::Settle { until }) && step.expect@ == OutcomeView::Success
                && !step.inside_callback,
    {
        Step::new(Action::Settle { until }, Outcome::Success)
    }

    /// Wait for an event before asserting anything about its consequences.
    pub fn awaits(shape: EventShape) -> (step: Step)
        ensures
            step.action == (Action::AwaitEvent { shape }) && step.expect@ == OutcomeView::Success
                && !step.inside_callback,
    {
        Step::new(Action::AwaitEvent { shape }, Outcome::Success)
    }

    /// Wait for a seek's answer and require it to name the right position.
    pub fn awaits_seek_landing(near_ms: u64) -> (step: Step)
        ensures
            step.action == (Action::AwaitSeekLanding { near_ms }) && step.expect@ == OutcomeView::Success
                && !step.inside_callback,
    {
        Step::new(Action::AwaitSeekLanding { near_ms }, Outcome::Success)
    }
}

/// When a scenario applies to an engine.
#[derive(Debug, Clone, Copy, PartialEq, Eq, Structural)]
pub enum Applicability {
    /// Base behaviour: every engine, always.
    Always,
    /// Only for engines that declare the capability.
    WithCapability(Capability),
    /// Only for engines that do not: where the typed refusal is proven.
    WithoutCapability(Capability),
}

/// Whether a scenario with this applicability runs against an engine with
/// these capabilities.
pub open spec fn applies(applicability: Applicability, capabilities: Set<Capability>) -> bool {
    match applicability {
        Applicability::Always => true,
        Applicability::WithCapability(c) => capabilities.contains(c),
        Applicability::WithoutCapability(c) => !capabilities.contains(c),
    }
}

impl Applicability {
    pub fn applies_to(self, capabilities: Capabilities) -> (applies_here: bool)
        ensures
            applies_here == applies(self, capabilities@),
    {
        match self {
            Applicability::Always => true,
            Applicability::WithCapability(capability) => capabilities.contains(capability),
            Applicability::WithoutCapability(capability) => !capabilities.contains(capability),
        }
    }
}

/// A named sequence of steps.
#[derive(Debug, Clone, PartialEq, Eq)]
pub struct Scenario {
    pub name: &'static str,
    pub applies: Applicability,
    pub steps: Vec<Step>,
}

/// A step that did not produce what the contract requires.
#[derive(Debug, Clone, PartialEq, Eq)]
pub struct Failure {
    pub scenario: &'static str,
    pub step: usize,
    pub action: Action,
    pub expected: Outcome,
    pub detail: String,
}

/// What a runner needs besides the engine: a medium it can load, a document
/// it can inject, and what that medium is. The only place an adapter's own
/// numbers enter the kit.
pub struct ContractInputs<D> {
    pub media: MediaSource,
    pub document: D,
    /// The medium's duration, or `None` for a live stream.
    pub duration_ms: Option<u64>,
    pub audio_track_count: usize,
    pub subtitle_track_count: usize,
    /// An audio track the medium really has.
    pub audio_track: TrackId,
    /// A subtitle track the medium really has.
    pub subtitle_track: TrackId,
    /// An id no track of any kind has.
    pub unknown_track: TrackId,
    /// How far a seek may land from where it was asked to.
    pub seek_tolerance_ms: u64,
    /// How long a wait lasts before it counts as a failure.
    pub settle_timeout_ms: u64,
    /// The medium's display size, or `None` when it has no picture.
    pub video_geometry: Option<VideoGeometry>,
}

impl<D> ContractInputs<D> {
    /// Inputs for an engine that answers instantly and exactly: zero
    /// tolerance, a five-second wait, and a medium of no tracks and no
    /// picture until the builders say otherwise.
    pub fn new(media: MediaSource, document: D) -> (inputs: ContractInputs<D>)
        ensures
            inputs.media@ == media@,
            inputs.document == document,
            inputs.duration_ms == Some(0u64),
            inputs.audio_track_count == 0,
            inputs.subtitle_track_count == 0,
            inputs.audio_track == TrackId(0),
            inputs.subtitle_track == TrackId(0),
            inputs.unknown_track == TrackId(u32::MAX),
            inputs.seek_tolerance_ms == 0,
            inputs.settle_timeout_ms == 5000,
            inputs.video_geometry is None,
    {
        ContractInputs {
            media,
            document,
            duration_ms: Some(0),
            audio_track_count: 0,
            subtitle_track_count: 0,
            audio_track: TrackId(0),
            subtitle_track: TrackId(0),
            unknown_track: TrackId(u32::MAX),
            seek_tolerance_ms: 0,
            settle_timeout_ms: 5000,
            video_geometry: None,
        }
    }

    pub fn with_duration_ms(self, duration_ms: Option<u64>) -> (inputs: ContractInputs<D>)
        ensures
            inputs == (ContractInputs { duration_ms, ..self }),
    {
        ContractInputs { duration_ms, ..self }
    }

    pub fn with_track_counts(self, audio: usize, subtitle: usize) -> (inputs: ContractInputs<D>)
        ensures
            inputs == (ContractInputs { audio_track_count: audio, subtitle_track_count: subtitle, ..self }),
    {
        ContractInputs { audio_track_count: audio, subtitle_track_count: subtitle, ..self }
    }

    pub fn with_tracks(self, audio: TrackId, subtitle: TrackId, unknown: TrackId) -> (inputs: ContractInputs<D>)
        ensures
            inputs == (ContractInputs {
                audio_track: audio,
                subtitle_track: subtitle,
                unknown_track: unknown,
                ..self
            }),
    {
        ContractInputs { audio_track: audio, subtitle_track: subtitle, unknown_track: unknown, ..self }
    }

    pub fn with_seek_tolerance_ms(self, tolerance_ms: u64) -> (inputs: ContractInputs<D>)
        ensures
            inputs == (ContractInputs { seek_tolerance_ms: tolerance_ms, ..self }),
    {
        ContractInputs { seek_tolerance_ms: tolerance_ms, ..self }
    }

    pub fn with_settle_timeout_ms(self, timeout_ms: u64) -> (inputs: ContractInputs<D>)
        ensures
            inputs == (ContractInputs { settle_timeout_ms: timeout_ms, ..self }),
    {
        ContractInputs { settle_timeout_ms: timeout_ms, ..self }
    }

    pub fn with_video_geometry(self, geometry: Option<VideoGeometry>) -> (inputs: ContractInputs<D>)
        ensures
            inputs == (ContractInputs { video_geometry: geometry, ..self }),
    {
        ContractInputs { video_geometry: geometry, ..self }
    }

    /// How many tracks of a kind the medium has.
    pub fn track_count(&self, kind: TrackKind) -> (count: usize)
        ensures
            count == fixture_track_count(*self, kind),
    {
        match kind {
            TrackKind::Audio => self.audio_track_count,
            TrackKind::Subtitle => self.subtitle_track_count,
        }
    }
}

/// How many tracks of a kind the fixture declares.
pub open spec fn fixture_track_count<D>(inputs: ContractInputs<D>, kind: TrackKind) -> usize {
    match kind {
        TrackKind::Audio => inputs.audio_track_count,
        TrackKind::Subtitle => inputs.subtitle_track_count,
    }
}

/// The id a track reference means in this fixture.
pub open spec fn resolved<D>(reference: TrackRef, inputs: ContractInputs<D>) -> TrackId {
    match reference {
        TrackRef::Known(TrackKind::Audio) => inputs.audio_track,
        TrackRef::Known(TrackKind::Subtitle) => inputs.subtitle_track,
        TrackRef::Unknown => inputs.unknown_track,
    }
}

impl TrackRef {
    pub fn resolve<D>(self, inputs: &ContractInputs<D>) -> (id: TrackId)
        ensures
            id == resolved(self, *inputs),
    {
        match self {
            TrackRef::Known(TrackKind::Audio) => inputs.audio_track,
            TrackRef::Known(TrackKind::Subtitle) => inputs.subtitle_track,
            TrackRef::Unknown => inputs.unknown_track,
        }
    }
}

/// The debug name of an error kind.
pub open spec fn kind_debug(value: ErrorKind) -> Seq<char> {
    match value {
        ErrorKind::Unsupported => "Unsupported"@,
        ErrorKind::ReentrantCall => "ReentrantCall"@,
        ErrorKind::NotLoaded => "NotLoaded"@,
        ErrorKind::ShutDown => "ShutDown"@,
        ErrorKind::UnknownTrack => "UnknownTrack"@,
        ErrorKind::TrackCarriesNoText => "TrackCarriesNoText"@,
        ErrorKind::RateOutOfRange => "RateOutOfRange"@,
        ErrorKind::LoadFailed => "LoadFailed"@,
        ErrorKind::InsetOutOfRange => "InsetOutOfRange"@,
        ErrorKind::EngineFailure => "EngineFailure"@,
    }
}

/// The debug name of an error kind.
pub fn kind_debug_name(value: ErrorKind) -> (name: &'static str)
    ensures
        name@ == kind_debug(value),
{
    proof {
        reveal_strlit("Unsupported");
        reveal_strlit("ReentrantCall");
        reveal_strlit("NotLoaded");
        reveal_strlit("ShutDown");
        reveal_strlit("UnknownTrack");
        reveal_strlit("TrackCarriesNoText");
        reveal_strlit("RateOutOfRange");
        reveal_strlit("LoadFailed");
        reveal_strlit("InsetOutOfRange");
        reveal_strlit("EngineFailure");
    }
    match value {
        ErrorKind::Unsupported => "Unsupported",
        ErrorKind::ReentrantCall => "ReentrantCall",
        ErrorKind::NotLoaded => "NotLoaded",
        ErrorKind::ShutDown => "ShutDown",
        ErrorKind::UnknownTrack => "UnknownTrack",
        ErrorKind::TrackCarriesNoText => "TrackCarriesNoText",
        ErrorKind::RateOutOfRange => "RateOutOfRange",
        ErrorKind::LoadFailed => "LoadFailed",
        ErrorKind::InsetOutOfRange => "InsetOutOfRange",
        ErrorKind::EngineFailure => "EngineFailure",
    }
}

/// The debug text of a track reference.
pub open spec fn track_ref_debug(reference: TrackRef) -> Seq<char> {
    match reference {
        TrackRef::Known(kind) => "Known("@ + track_kind_debug(kind) + ")"@,
        TrackRef::Unknown => "Unknown"@,
    }
}

/// The debug text of an optional track reference.
pub open spec fn opt_track_ref_debug(reference: Option<TrackRef>) -> Seq<char> {
    match reference {
        Some(r) => "Some("@ + track_ref_debug(r) + ")"@,
        None => "None"@,
    }
}

/// The debug text of an optional track id.
pub open spec fn opt_track_id_debug(id: Option<TrackId>) -> Seq<char> {
    match id {
        Some(t) => "Some(TrackId("@ + decimal(t.0 as nat) + "))"@,
        None => "None"@,
    }
}

/// The debug text of an optional number of milliseconds.
pub open spec fn opt_ms_debug(ms: Option<u64>) -> Seq<char> {
    match ms {
        Some(n) => "Some("@ + decimal(n as nat) + ")"@,
        None => "None"@,
    }
}

/// The debug text of an optional display size.
pub open spec fn opt_geometry_debug(geometry: Option<VideoGeometry>) -> Seq<char> {
    match geometry {
        Some(g) => "Some(VideoGeometry { width: "@ + decimal(g@.0 as nat) + ", height: "@ + decimal(g@.1 as nat)
            + " })"@,
        None => "None"@,
    }
}

/// The debug text of an event shape.
pub open spec fn shape_debug(shape: EventShape) -> Seq<char> {
    match shape {
        EventShape::PositionChanged => "PositionChanged"@,
        EventShape::StateChanged(state) => "StateChanged("@ + state_debug(state) + ")"@,
        EventShape::SeekCompleted => "SeekCompleted"@,
        EventShape::TracksChanged => "TracksChanged"@,
        EventShape::VideoGeometryChanged => "VideoGeometryChanged"@,
        EventShape::EndReached => "EndReached"@,
        EventShape::Failed => "Failed"@,
        EventShape::EventsLost => "EventsLost"@,
    }
}

/// Shapes' debug texts separated by a comma and a space.
pub open spec fn shapes_joined(shapes: Seq<EventShape>) -> Seq<char>
    decreases shapes.len(),
{
    if shapes.len() == 0 {
        Seq::empty()
    } else if shapes.len() == 1 {
        shape_debug(shapes[0])
    } else {
        shapes_joined(shapes.drop_last()) + ", "@ + shape_debug(shapes.last())
    }
}

/// The debug text of a list of shapes.
pub open spec fn shapes_debug(shapes: Seq<EventShape>) -> Seq<char> {
    "["@ + shapes_joined(shapes) + "]"@
}

/// The variant name of an action.
pub open spec fn action_variant(action: Action) -> Seq<char> {
    match action {
        Action::Load => "Load"@,
        Action::Play => "Play"@,
        Action::Pause => "Pause"@,
        Action::Stop => "Stop"@,
        Action::Seek { .. } => "Seek"@,
        Action::SeekRelative { .. } => "SeekRelative"@,
        Action::Position => "Position"@,
        Action::Duration => "Duration"@,
        Action::State => "State"@,
        Action::VideoGeometry => "VideoGeometry"@,
        Action::Tracks { .. } => "Tracks"@,
        Action::SelectTrack { .. } => "SelectTrack"@,
        Action::SelectedTrack { .. } => "SelectedTrack"@,
        Action::SetRate { .. } => "SetRate"@,
        Action::SetVolume { .. } => "SetVolume"@,
        Action::ExtractText { .. } => "ExtractText"@,
        Action::InjectSubtitle => "InjectSubtitle"@,
        Action::RenderedText => "RenderedText"@,
        Action::Shutdown => "Shutdown"@,
        Action::AwaitEvent { .. } => "AwaitEvent"@,
        Action::AwaitSeekLanding { .. } => "AwaitSeekLanding"@,
        Action::Settle { .. } => "Settle"@,
        Action::DrainEvents => "DrainEvents"@,
    }
}

/// The fields of an action, as its debug text shows them.
pub open spec fn action_fields(action: Action) -> Seq<char> {
    match action {
        Action::Seek { to_ms } => " { to_ms: "@ + decimal(to_ms as nat) + " }"@,
        Action::SeekRelative { delta_ms } => " { delta_ms: "@ + signed_decimal(delta_ms as int) + " }"@,
        Action::Tracks { kind } => " { kind: "@ + track_kind_debug(kind) + " }"@,
        Action::SelectTrack { kind, track } => " { kind: "@ + track_kind_debug(kind) + ", track: "@
            + opt_track_ref_debug(track) + " }"@,
        Action::SelectedTrack { kind } => " { kind: "@ + track_kind_debug(kind) + " }"@,
        Action::SetRate { rate_thousandths } => " { rate_thousandths: "@ + signed_decimal(rate_thousandths as int)
            + " }"@,
        Action::SetVolume { volume_thousandths } => " { volume_thousandths: "@ + signed_decimal(
            volume_thousandths as int,
        ) + " }"@,
        Action::ExtractText { track } => " { track: "@ + track_ref_debug(track) + " }"@,
        Action::AwaitEvent { shape } => " { shape: "@ + shape_debug(shape) + " }"@,
        Action::AwaitSeekLanding { near_ms } => " { near_ms: "@ + decimal(near_ms as nat) + " }"@,
        Action::Settle { until } => " { until: "@ + state_debug(until) + " }"@,
        _ => Seq::empty(),
    }
}

/// The debug text of an action.
pub open spec fn action_debug(action: Action) -> Seq<char> {
    action_variant(action) + action_fields(action)
}

/// The debug text of an outcome.
pub open spec fn outcome_debug(outcome: OutcomeView) -> Seq<char> {
    match outcome {
        OutcomeView::Success => "Success"@,
        OutcomeView::Error(kind) => "Error("@ + kind_debug(kind) + ")"@,
        OutcomeView::State(state) => "State("@ + state_debug(state) + ")"@,
        OutcomeView::PositionNear(ms) => "PositionNear("@ + decimal(ms as nat) + ")"@,
        OutcomeView::FixtureDuration => "FixtureDuration"@,
        OutcomeView::FixtureGeometry => "FixtureGeometry"@,
        OutcomeView::GeometryAnnounced => "GeometryAnnounced"@,
        OutcomeView::FixtureTrackCount(kind) => "FixtureTrackCount("@ + track_kind_debug(kind) + ")"@,
        OutcomeView::SelectedTrack(reference) => "SelectedTrack("@ + opt_track_ref_debug(reference) + ")"@,
        OutcomeView::Events(shapes) => "Events("@ + shapes_debug(shapes) + ")"@,
        OutcomeView::NonEmptyText => "NonEmptyText"@,
    }
}

fn push_track_ref(text: &mut String, reference: TrackRef)
    ensures
        final(text)@ == old(text)@ + track_ref_debug(reference),
{
    proof {
        reveal_strlit("Known(");
        reveal_strlit(")");
        reveal_strlit("Unknown");
    }
    match reference {
        TrackRef::Known(kind) => {
            text.append("Known(");
            text.append(track_kind_debug_name(kind));
            text.append(")");
        },
        TrackRef::Unknown => text.append("Unknown"),
    }
}

fn push_opt_track_ref(text: &mut String, reference: Option<TrackRef>)
    ensures
        final(text)@ == old(text)@ + opt_track_ref_debug(reference),
{
    proof {
        reveal_strlit("Some(");
        reveal_strlit(")");
        reveal_strlit("None");
    }
    match reference {
        Some(r) => {
            text.append("Some(");
            push_track_ref(text, r);
            text.append(")");
        },
        None => text.append("None"),
    }
}

fn push_opt_track_id(text: &mut String, id: Option<TrackId>)
    ensures
        final(text)@ == old(text)@ + opt_track_id_debug(id),
{
    proof {
        reveal_strlit("Some(TrackId(");
        reveal_strlit("))");
        reveal_strlit("None");
    }
    match id {
        Some(t) => {
            text.append("Some(TrackId(");
            let digits = decimal_text(t.0 as u64);
            text.append(digits.as_str());
            text.append("))");
        },
        None => text.append("None"),
    }
}

fn push_opt_ms(text: &mut String, ms: Option<u64>)
    ensures
        final(text)@ == old(text)@ + opt_ms_debug(ms),
{
    proof {
        reveal_strlit("Some(");
        reveal_strlit(")");
        reveal_strlit("None");
    }
    match ms {
        Some(n) => {
            text.append("Some(");
            let digits = decimal_text(n);
            text.append(digits.as_str());
            text.append(")");
        },
        None => text.append("None"),
    }
}

fn push_opt_geometry(text: &mut String, geometry: Option<VideoGeometry>)
    ensures
        final(text)@ == old(text)@ + opt_geometry_debug(geometry),
{
    proof {
        reveal_strlit("Some(VideoGeometry { width: ");
        reveal_strlit(", height: ");
        reveal_strlit(" })");
        reveal_strlit("None");
    }
    match geometry {
        Some(g) => {
            text.append("Some(VideoGeometry { width: ");
            let w = decimal_text(g.width() as u64);
            text.append(w.as_str());
            text.append(", height: ");
            let h = decimal_text(g.height() as u64);
            text.append(h.as_str());
            text.append(" })");
        },
        None => text.append("None"),
    }
}

fn push_decimal(text: &mut String, n: u64)
    ensures
        final(text)@ == old(text)@ + decimal(n as nat),
{
    let digits = decimal_text(n);
    text.append(digits.as_str());
}

fn push_signed(text: &mut String, n: i64)
    ensures
        final(text)@ == old(text)@ + signed_decimal(n as int),
{
    let digits = signed_decimal_text(n);
    text.append(digits.as_str());
}

fn push_shape(text: &mut String, shape: EventShape)
    ensures
        final(text)@ == old(text)@ + shape_debug(shape),
{
    proof {
        reveal_strlit("PositionChanged");
        reveal_strlit("StateChanged(");
        reveal_strlit(")");
        reveal_strlit("SeekCompleted");
        reveal_strlit("TracksChanged");
        reveal_strlit("VideoGeometryChanged");
        reveal_strlit("EndReached");
        reveal_strlit("Failed");
        reveal_strlit("EventsLost");
    }
    match shape {
        EventShape::PositionChanged => text.append("PositionChanged"),
        EventShape::StateChanged(state) => {
            text.append("StateChanged(");
            text.append(state.debug_name());
            text.append(")");
        },
        EventShape::SeekCompleted => text.append("SeekCompleted"),
        EventShape::TracksChanged => text.append("TracksChanged"),
        EventShape::VideoGeometryChanged => text.append("VideoGeometryChanged"),
        EventShape::EndReached => text.append("EndReached"),
        EventShape::Failed => text.append("Failed"),
        EventShape::EventsLost => text.append("EventsLost"),
    }
}

fn push_shapes(text: &mut String, shapes: &Vec<EventShape>)
    ensures
        final(text)@ == old(text)@ + shapes_debug(shapes@),
{
    proof {
        reveal_strlit("[");
        reveal_strlit("]");
        reveal_strlit(", ");
    }
    let ghost start = text@;
    text.append("[");
    let mut i: usize = 0;
    while i < shapes.len()
        invariant
            i <= shapes@.len(),
            text@ == start + "["@ + shapes_joined(shapes@.subrange(0, i as int)),
        decreases shapes@.len() - i,
    {
        proof {
            assert(shapes@.subrange(0, i + 1).drop_last() =~= shapes@.subrange(0, i as int));
        }
        if i > 0 {
            text.append(", ");
        }
        push_shape(text, shapes[i]);
        i = i + 1;
    }
    assert(shapes@.subrange(0, shapes@.len() as int) =~= shapes@);
    text.append("]");
}

impl Action {
    /// The debug text of the action, as `{:?}` writes it.
    pub fn debug_text(&self) -> (text: String)
        ensures
            text@ == action_debug(*self),
    {
        proof {
            reveal_strlit("Load");
            reveal_strlit("Play");
            reveal_strlit("Pause");
            reveal_strlit("Stop");
            reveal_strlit("Seek");
            reveal_strlit("SeekRelative");
            reveal_strlit("Position");
            reveal_strlit("Duration");
            reveal_strlit("State");
            reveal_strlit("VideoGeometry");
            reveal_strlit("Tracks");
            reveal_strlit("SelectTrack");
            reveal_strlit("SelectedTrack");
            reveal_strlit("SetRate");
            reveal_strlit("SetVolume");
            reveal_strlit("ExtractText");
            reveal_strlit("InjectSubtitle");
            reveal_strlit("RenderedText");
            reveal_strlit("Shutdown");
            reveal_strlit("AwaitEvent");
            reveal_strlit("AwaitSeekLanding");
            reveal_strlit("Settle");
            reveal_strlit("DrainEvents");
            reveal_strlit(" { to_ms: ");
            reveal_strlit(" }");
            reveal_strlit(" { delta_ms: ");
            reveal_strlit(" { kind: ");
            reveal_strlit(", track: ");
            reveal_strlit(" { rate_thousandths: ");
            reveal_strlit(" { volume_thousandths: ");
            reveal_strlit(" { track: ");
            reveal_strlit(" { shape: ");
            reveal_strlit(" { near_ms: ");
            reveal_strlit(" { until: ");
        }
        let name = match self {
            Action::Load => "Load",
            Action::Play => "Play",
            Action::Pause => "Pause",
            Action::Stop => "Stop",
            Action::Seek { .. } => "Seek",
            Action::SeekRelative { .. } => "SeekRelative",
            Action::Position => "Position",
            Action::Duration => "Duration",
            Action::State => "State",
            Action::VideoGeometry => "VideoGeometry",
            Action::Tracks { .. } => "Tracks",
            Action::SelectTrack { .. } => "SelectTrack",
            Action::SelectedTrack { .. } => "SelectedTrack",
            Action::SetRate { .. } => "SetRate",
            Action::SetVolume { .. } => "SetVolume",
            Action::ExtractText { .. } => "ExtractText",
            Action::InjectSubtitle => "InjectSubtitle",
            Action::RenderedText => "RenderedText",
            Action::Shutdown => "Shutdown",
            Action::AwaitEvent { .. } => "AwaitEvent",
            Action::AwaitSeekLanding { .. } => "AwaitSeekLanding",
            Action::Settle { .. } => "Settle",
            Action::DrainEvents => "DrainEvents",
        };
        let mut text = String::from_str(name);
        match *self {
            Action::Seek { to_ms } => {
                text.append(" { to_ms: ");
                push_decimal(&mut text, to_ms);
                text.append(" }");
            },
            Action::SeekRelative { delta_ms } => {
                text.append(" { delta_ms: ");
                push_signed(&mut text, delta_ms);
                text.append(" }");
            },
            Action::Tracks { kind } => {
                text.append(" { kind: ");
                text.append(track_kind_debug_name(kind));
                text.append(" }");
            },
            Action::SelectTrack { kind, track } => {
                text.append(" { kind: ");
                text.append(track_kind_debug_name(kind));
                text.append(", track: ");
                push_opt_track_ref(&mut text, track);
                text.append(" }");
            },
            Action::SelectedTrack { kind } => {
                text.append(" { kind: ");
                text.append(track_kind_debug_name(kind));
                text.append(" }");
            },
            Action::SetRate { rate_thousandths } => {
                text.append(" { rate_thousandths: ");
                push_signed(&mut text, rate_thousandths as i64);
                text.append(" }");
            },
            Action::SetVolume { volume_thousandths } => {
                text.append(" { volume_thousandths: ");
                push_signed(&mut text, volume_thousandths as i64);
                text.append(" }");
            },
            Action::ExtractText { track } => {
                text.append(" { track: ");
                push_track_ref(&mut text, track);
                text.append(" }");
            },
            Action::AwaitEvent { shape } => {
                text.append(" { shape: ");
                push_shape(&mut text, shape);
                text.append(" }");
            },
            Action::AwaitSeekLanding { near_ms } => {
                text.append(" { near_ms: ");
                push_decimal(&mut text, near_ms);
                text.append(" }");
            },
            Action::Settle { until } => {
                text.append(" { until: ");
                text.append(until.debug_name());
                text.append(" }");
            },
            _ => {},
        }
        text
    }
}

impl Outcome {
    /// The debug text of the outcome, as `{:?}` writes it.
    pub fn debug_text(&self) -> (text: String)
        ensures
            text@ == outcome_debug(self@),
    {
        proof {
            reveal_strlit("Success");
            reveal_strlit("Error(");
            reveal_strlit(")");
            reveal_strlit("State(");
            reveal_strlit("PositionNear(");
            reveal_strlit("FixtureDuration");
            reveal_strlit("FixtureGeometry");
            reveal_strlit("GeometryAnnounced");
            reveal_strlit("FixtureTrackCount(");
            reveal_strlit("SelectedTrack(");
            reveal_strlit("Events(");
            reveal_strlit("NonEmptyText");
        }
        let mut text = String::new();
        match self {
            Outcome::Success => text.append("Success"),
            Outcome::Error(kind) => {
                text.append("Error(");
                text.append(kind_debug_name(*kind));
                text.append(")");
            },
            Outcome::State(state) => {
                text.append("State(");
                text.append(state.debug_name());
                text.append(")");
            },
            Outcome::PositionNear(ms) => {
                text.append("PositionNear(");
                push_decimal(&mut text, *ms);
                text.append(")");
            },
            Outcome::FixtureDuration => text.append("FixtureDuration"),
            Outcome::FixtureGeometry => text.append("FixtureGeometry"),
            Outcome::GeometryAnnounced => text.append("GeometryAnnounced"),
            Outcome::FixtureTrackCount(kind) => {
                text.append("FixtureTrackCount(");
                text.append(track_kind_debug_name(*kind));
                text.append(")");
            },
            Outcome::SelectedTrack(reference) => {
                text.append("SelectedTrack(");
                push_opt_track_ref(&mut text, *reference);
                text.append(")");
            },
            Outcome::Events(shapes) => {
                text.append("Events(");
                push_shapes(&mut text, shapes);
                text.append(")");
            },
            Outcome::NonEmptyText => text.append("NonEmptyText"),
        }
        text
    }
}

/// Whether a verdict string answers the expected verdict.
pub open spec fn same_verdict(verdict: Result<(), String>, expected: Result<(), Seq<char>>) -> bool {
    match (verdict, expected) {
        (Ok(_), Ok(_)) => true,
        (Err(detail), Err(text)) => detail@ == text,
        _ => false,
    }
}

/// The error a result carries, if any.
pub open spec fn error_in<T>(result: Result<T, PlaybackError>) -> Option<PlaybackError> {
    match result {
        Ok(_) => None,
        Err(e) => Some(e),
    }
}

/// How a plain success or failure answers an expected outcome.
pub open spec fn unit_verdict(error: Option<PlaybackError>, expect: OutcomeView) -> Result<(), Seq<char>> {
    match (error, expect) {
        (None, OutcomeView::Success) => Ok(()),
        (None, OutcomeView::Error(kind)) => Err("succeeded, expected "@ + kind_debug(kind)),
        (Some(e), OutcomeView::Error(kind)) => if kind_of(e) == kind {
            Ok(())
        } else {
            Err("failed with "@ + kind_debug(kind_of(e)) + ", expected "@ + kind_debug(kind))
        },
        (Some(e), OutcomeView::Success) => Err("failed with "@ + playback_error_debug(e) + ", expected success"@),
        (_, other) => Err("this action cannot satisfy "@ + outcome_debug(other)),
    }
}

/// Judges a result whose value the step is not about.
pub fn check_unit<T>(result: Result<T, PlaybackError>, expect: &Outcome) -> (verdict: Result<(), String>)
    ensures
        same_verdict(verdict, unit_verdict(error_in(result), expect@)),
{
    proof {
        reveal_strlit("succeeded, expected ");
        reveal_strlit("failed with ");
        reveal_strlit(", expected ");
        reveal_strlit(", expected success");
        reveal_strlit("this action cannot satisfy ");
    }
    match (result, expect) {
        (Ok(_), Outcome::Success) => Ok(()),
        (Ok(_), Outcome::Error(kind)) => {
            let mut detail = String::from_str("succeeded, expected ");
            detail.append(kind_debug_name(*kind));
            Err(detail)
        },
        (Err(error), Outcome::Error(kind)) => {
            let actual = ErrorKind::of(&error);
            if actual == *kind {
                Ok(())
            } else {
                let mut detail = String::from_str("failed with ");
                detail.append(kind_debug_name(actual));
                detail.append(", expected ");
                detail.append(kind_debug_name(*kind));
                Err(detail)
            }
        },
        (Err(error), Outcome::Success) => {
            let mut detail = String::from_str("failed with ");
            let shown = error.debug_text();
            detail.append(shown.as_str());
            detail.append(", expected success");
            Err(detail)
        },
        (_, other) => {
            let mut detail = String::from_str("this action cannot satisfy ");
            let shown = other.debug_text();
            detail.append(shown.as_str());
            Err(detail)
        },
    }
}

/// How far apart two positions are.
pub open spec fn drift(a: u64, b: u64) -> u64 {
    if a >= b {
        (a - b) as u64
    } else {
        (b - a) as u64
    }
}

/// How a reported position answers the expected outcome.
pub open spec fn position_verdict(result: Result<u64, PlaybackError>, expect: OutcomeView, tolerance_ms: u64) -> Result<
    (),
    Seq<char>,
> {
    match (result, expect) {
        (Ok(actual), OutcomeView::PositionNear(expected)) => if drift(actual, expected) <= tolerance_ms {
            Ok(())
        } else {
            Err(
                "position was "@ + decimal(actual as nat) + " ms, expected "@ + decimal(expected as nat)
                    + " ms ("@ + decimal(drift(actual, expected) as nat) + " ms away, tolerance "@ + decimal(
                    tolerance_ms as nat,
                ) + " ms)"@,
            )
        },
        (r, e) => unit_verdict(error_in(r), e),
    }
}

fn distance(a: u64, b: u64) -> (d: u64)
    ensures
        d == drift(a, b),
{
    if a >= b {
        a - b
    } else {
        b - a
    }
}

/// Judges a reported position against a position within the tolerance.
pub fn check_position(result: Result<u64, PlaybackError>, expect: &Outcome, tolerance_ms: u64) -> (verdict: Result<
    (),
    String,
>)
    ensures
        same_verdict(verdict, position_verdict(result, expect@, tolerance_ms)),
{
    proof {
        reveal_strlit("position was ");
        reveal_strlit(" ms, expected ");
        reveal_strlit(" ms (");
        reveal_strlit(" ms away, tolerance ");
        reveal_strlit(" ms)");
    }
    match (result, expect) {
        (Ok(actual), Outcome::PositionNear(expected)) => {
            let d = distance(actual, *expected);
            if d <= tolerance_ms {
                Ok(())
            } else {
                let mut detail = String::from_str("position was ");
                push_decimal(&mut detail, actual);
                detail.append(" ms, expected ");
                push_decimal(&mut detail, *expected);
                detail.append(" ms (");
                push_decimal(&mut detail, d);
                detail.append(" ms away, tolerance ");
                push_decimal(&mut detail, tolerance_ms);
                detail.append(" ms)");
                Err(detail)
            }
        },
        (r, e) => check_unit(r, e),
    }
}

/// How a seek's reported landing answers the position it was asked for.
pub open spec fn landing_verdict(landed: Option<u64>, near_ms: u64, tolerance_ms: u64) -> Result<(), Seq<char>> {
    match landed {
        None => Err("a SeekCompleted arrived but carried no position to check"@),
        Some(at) => if drift(at, near_ms) <= tolerance_ms {
            Ok(())
        } else {
            Err(
                "the seek was answered at "@ + decimal(at as nat) + " ms, expected "@ + decimal(near_ms as nat)
                    + " ms ("@ + decimal(drift(at, near_ms) as nat) + " ms away, tolerance "@ + decimal(
                    tolerance_ms as nat,
                ) + " ms)"@,
            )
        },
    }
}

/// Judges the last seek landing against where the seek was asked to go.
pub fn check_landing(landed: Option<u64>, near_ms: u64, tolerance_ms: u64) -> (verdict: Result<(), String>)
    ensures
        same_verdict(verdict, landing_verdict(landed, near_ms, tolerance_ms)),
{
    proof {
        reveal_strlit("a SeekCompleted arrived but carried no position to check");
        reveal_strlit("the seek was answered at ");
        reveal_strlit(" ms, expected ");
        reveal_strlit(" ms (");
        reveal_strlit(" ms away, tolerance ");
        reveal_strlit(" ms)");
    }
    match landed {
        None => Err(String::from_str("a SeekCompleted arrived but carried no position to check")),
        Some(at) => {
            let d = distance(at, near_ms);
            if d <= tolerance_ms {
                Ok(())
            } else {
                let mut detail = String::from_str("the seek was answered at ");
                push_decimal(&mut detail, at);
                detail.append(" ms, expected ");
                push_decimal(&mut detail, near_ms);
                detail.append(" ms (");
                push_decimal(&mut detail, d);
                detail.append(" ms away, tolerance ");
                push_decimal(&mut detail, tolerance_ms);
                detail.append(" ms)");
                Err(detail)
            }
        },
    }
}

/// How a reported duration answers the fixture's: both absent, or within the
/// tolerance.
pub open spec fn duration_verdict(
    result: Result<Option<u64>, PlaybackError>,
    expect: OutcomeView,
    fixture: Option<u64>,
    tolerance_ms: u64,
) -> Result<(), Seq<char>> {
    match (result, expect) {
        (Ok(actual), OutcomeView::FixtureDuration) => match (actual, fixture) {
            (Some(a), Some(x)) => if drift(a, x) <= tolerance_ms {
                Ok(())
            } else {
                Err("duration was "@ + opt_ms_debug(actual) + ", expected "@ + opt_ms_debug(fixture))
            },
            (None, None) => Ok(()),
            _ => Err("duration was "@ + opt_ms_debug(actual) + ", expected "@ + opt_ms_debug(fixture)),
        },
        (r, e) => unit_verdict(error_in(r), e),
    }
}

/// Judges a reported duration against the fixture's.
pub fn check_duration(
    result: Result<Option<u64>, PlaybackError>,
    expect: &Outcome,
    fixture: Option<u64>,
    tolerance_ms: u64,
) -> (verdict: Result<(), String>)
    ensures
        same_verdict(verdict, duration_verdict(result, expect@, fixture, tolerance_ms)),
{
    proof {
        reveal_strlit("duration was ");
        reveal_strlit(", expected ");
    }
    match (result, expect) {
        (Ok(actual), Outcome::FixtureDuration) => {
            let close = match (actual, fixture) {
                (Some(a), Some(x)) => distance(a, x) <= tolerance_ms,
                (None, None) => true,
                _ => false,
            };
            if close {
                Ok(())
            } else {
                let mut detail = String::from_str("duration was ");
                push_opt_ms(&mut detail, actual);
                detail.append(", expected ");
                push_opt_ms(&mut detail, fixture);
                Err(detail)
            }
        },
        (r, e) => check_unit(r, e),
    }
}

/// How a reported display size answers the fixture's: exactly.
pub open spec fn geometry_verdict(
    result: Result<Option<VideoGeometry>, PlaybackError>,
    expect: OutcomeView,
    fixture: Option<VideoGeometry>,
) -> Result<(), Seq<char>> {
    match (result, expect) {
        (Ok(actual), OutcomeView::FixtureGeometry) => if actual == fixture {
            Ok(())
        } else {
            Err("display size was "@ + opt_geometry_debug(actual) + ", expected "@ + opt_geometry_debug(fixture))
        },
        (r, e) => unit_verdict(error_in(r), e),
    }
}

/// Judges a reported display size against the fixture's.
pub fn check_geometry(
    result: Result<Option<VideoGeometry>, PlaybackError>,
    expect: &Outcome,
    fixture: Option<VideoGeometry>,
) -> (verdict: Result<(), String>)
    ensures
        same_verdict(verdict, geometry_verdict(result, expect@, fixture)),
{
    proof {
        reveal_strlit("display size was ");
        reveal_strlit(", expected ");
    }
    match (result, expect) {
        (Ok(actual), Outcome::FixtureGeometry) => {
            if actual == fixture {
                Ok(())
            } else {
                let mut detail = String::from_str("display size was ");
                push_opt_geometry(&mut detail, actual);
                detail.append(", expected ");
                push_opt_geometry(&mut detail, fixture);
                Err(detail)
            }
        },
        (r, e) => check_unit(r, e),
    }
}

/// How the engine's state answers the expected outcome.
pub open spec fn state_verdict(actual: PlaybackState, expect: OutcomeView) -> Result<(), Seq<char>> {
    match expect {
        OutcomeView::State(expected) => if actual == expected {
            Ok(())
        } else {
            Err("state was "@ + state_name(actual) + ", expected "@ + state_name(expected))
        },
        other => Err("state cannot satisfy "@ + outcome_debug(other)),
    }
}

/// Judges the engine's state.
pub fn check_state(actual: PlaybackState, expect: &Outcome) -> (verdict: Result<(), String>)
    ensures
        same_verdict(verdict, state_verdict(actual, expect@)),
{
    proof {
        reveal_strlit("state was ");
        reveal_strlit(", expected ");
        reveal_strlit("state cannot satisfy ");
    }
    match expect {
        Outcome::State(expected) => {
            if actual == *expected {
                Ok(())
            } else {
                let mut detail = String::from_str("state was ");
                detail.append(actual.as_str());
                detail.append(", expected ");
                detail.append(expected.as_str());
                Err(detail)
            }
        },
        other => {
            let mut detail = String::from_str("state cannot satisfy ");
            let shown = other.debug_text();
            detail.append(shown.as_str());
            Err(detail)
        },
    }
}

/// How a reported track count answers the fixture's count for a kind.
pub open spec fn tracks_verdict<D>(
    result: Result<nat, PlaybackError>,
    kind: TrackKind,
    expect: OutcomeView,
    inputs: ContractInputs<D>,
) -> Result<(), Seq<char>> {
    match (result, expect) {
        (Ok(count), OutcomeView::FixtureTrackCount(of_kind)) => if count == fixture_track_count(inputs, of_kind) {
            Ok(())
        } else {
            Err(
                decimal(count) + " "@ + track_kind_name(kind) + " tracks, expected "@ + decimal(
                    fixture_track_count(inputs, of_kind) as nat,
                ),
            )
        },
        (r, e) => unit_verdict(error_in(r), e),
    }
}

/// The number of tracks a result carries.
pub open spec fn track_count_in<T>(result: Result<Vec<T>, PlaybackError>) -> Result<nat, PlaybackError> {
    match result {
        Ok(tracks) => Ok(tracks@.len()),
        Err(e) => Err(e),
    }
}

/// Judges how many tracks of a kind were reported.
pub fn check_tracks<D, T>(
    result: Result<Vec<T>, PlaybackError>,
    kind: TrackKind,
    expect: &Outcome,
    inputs: &ContractInputs<D>,
) -> (verdict: Result<(), String>)
    ensures
        same_verdict(verdict, tracks_verdict(track_count_in(result), kind, expect@, *inputs)),
{
    proof {
        reveal_strlit(" ");
        reveal_strlit(" tracks, expected ");
    }
    match (result, expect) {
        (Ok(tracks), Outcome::FixtureTrackCount(of_kind)) => {
            let expected = inputs.track_count(*of_kind);
            if tracks.len() == expected {
                Ok(())
            } else {
                let mut detail = String::new();
                push_decimal(&mut detail, tracks.len() as u64);
                detail.append(" ");
                detail.append(kind.as_str());
                detail.append(" tracks, expected ");
                push_decimal(&mut detail, expected as u64);
                Err(detail)
            }
        },
        (r, e) => check_unit(r, e),
    }
}

/// The id an optional reference means in this fixture.
pub open spec fn resolved_opt<D>(reference: Option<TrackRef>, inputs: ContractInputs<D>) -> Option<TrackId> {
    match reference {
        Some(r) => Some(resolved(r, inputs)),
        None => None,
    }
}

/// How a reported selection answers the expected one.
pub open spec fn selected_verdict<D>(
    result: Result<Option<TrackId>, PlaybackError>,
    expect: OutcomeView,
    inputs: ContractInputs<D>,
) -> Result<(), Seq<char>> {
    match (result, expect) {
        (Ok(selected), OutcomeView::SelectedTrack(reference)) => if selected == resolved_opt(reference, inputs) {
            Ok(())
        } else {
            Err(
                "selected "@ + opt_track_id_debug(selected) + ", expected "@ + opt_track_id_debug(
                    resolved_opt(reference, inputs),
                ),
            )
        },
        (r, e) => unit_verdict(error_in(r), e),
    }
}

/// Judges a reported selection.
pub fn check_selected<D>(result: Result<Option<TrackId>, PlaybackError>, expect: &Outcome, inputs: &ContractInputs<D>) -> (verdict:
    Result<(), String>)
    ensures
        same_verdict(verdict, selected_verdict(result, expect@, *inputs)),
{
    proof {
        reveal_strlit("selected ");
        reveal_strlit(", expected ");
    }
    match (result, expect) {
        (Ok(selected), Outcome::SelectedTrack(reference)) => {
            let expected = match reference {
                Some(r) => Some(r.resolve(inputs)),
                None => None,
            };
            if selected == expected {
                Ok(())
            } else {
                let mut detail = String::from_str("selected ");
                push_opt_track_id(&mut detail, selected);
                detail.append(", expected ");
                push_opt_track_id(&mut detail, expected);
                Err(detail)
            }
        },
        (r, e) => check_unit(r, e),
    }
}

/// How extracted text answers the expected outcome. The text itself is
/// never shown: only whether it is empty.
pub open spec fn text_verdict(result: Result<nat, PlaybackError>, expect: OutcomeView) -> Result<(), Seq<char>> {
    match (result, expect) {
        (Ok(len), OutcomeView::NonEmptyText) => if len == 0 {
            Err("extracted text was empty"@)
        } else {
            Ok(())
        },
        (r, e) => unit_verdict(error_in(r), e),
    }
}

/// The length of the text a result carries.
pub open spec fn text_len_in(result: Result<String, PlaybackError>) -> Result<nat, PlaybackError> {
    match result {
        Ok(text) => Ok(text@.len()),
        Err(e) => Err(e),
    }
}

/// Judges extracted text.
pub fn check_text(result: Result<String, PlaybackError>, expect: &Outcome) -> (verdict: Result<(), String>)
    ensures
        same_verdict(verdict, text_verdict(text_len_in(result), expect@)),
{
    proof {
        reveal_strlit("extracted text was empty");
    }
    match (result, expect) {
        (Ok(text), Outcome::NonEmptyText) => {
            if text.as_str().is_empty() {
                Err(String::from_str("extracted text was empty"))
            } else {
                Ok(())
            }
        },
        (r, e) => check_unit(r, e),
    }
}

/// How far a greedy, in-order match of `expected` against `actual` gets:
/// the number of expected shapes found, starting from expected shape `k` and
/// reported shape `p`.
pub open spec fn matched_from(expected: Seq<EventShape>, actual: Seq<EventShape>, k: int, p: int) -> int
    decreases actual.len() - p,
{
    if k >= expected.len() || p >= actual.len() || p < 0 {
        k
    } else if actual[p] == expected[k] {
        matched_from(expected, actual, k + 1, p + 1)
    } else {
        matched_from(expected, actual, k, p + 1)
    }
}

/// How many expected shapes a greedy, in-order match finds.
pub open spec fn matched(expected: Seq<EventShape>, actual: Seq<EventShape>) -> int {
    matched_from(expected, actual, 0, 0)
}

/// Whether `shape` was reported without being asked for.
pub open spec fn unasked(actual: Seq<EventShape>, expected: Seq<EventShape>, shape: EventShape) -> bool {
    actual.contains(shape) && !expected.contains(shape)
}

/// How a stream of reported shapes answers the expected ones: an unasked
/// `Failed` or `EventsLost` fails it outright; otherwise every expected shape
/// must be found in order, and the first one that is not is named.
pub open spec fn events_verdict(actual: Seq<EventShape>, expected: Seq<EventShape>) -> Result<(), Seq<char>> {
    if unasked(actual, expected, EventShape::Failed) {
        Err("an unasked "@ + shape_debug(EventShape::Failed) + " was reported; events were "@ + shapes_debug(actual))
    } else if unasked(actual, expected, EventShape::EventsLost) {
        Err("an unasked "@ + shape_debug(EventShape::EventsLost) + " was reported; events were "@ + shapes_debug(
            actual,
        ))
    } else if matched(expected, actual) < expected.len() {
        Err(
            shape_debug(expected[matched(expected, actual)]) + " never arrived (in order); events were "@
                + shapes_debug(actual) + ", expected at least "@ + shapes_debug(expected),
        )
    } else {
        Ok(())
    }
}

fn contains_shape(shapes: &Vec<EventShape>, shape: EventShape) -> (found: bool)
    ensures
        found == shapes@.contains(shape),
{
    let mut i: usize = 0;
    while i < shapes.len()
        invariant
            i <= shapes@.len(),
            forall|k: int| 0 <= k < i ==> shapes@[k] != shape,
        decreases shapes@.len() - i,
    {
        if shapes[i] == shape {
            return true;
        }
        i = i + 1;
    }
    false
}

fn unasked_report(actual: &Vec<EventShape>, shape: EventShape) -> (detail: String)
    ensures
        detail@ == "an unasked "@ + shape_debug(shape) + " was reported; events were "@ + shapes_debug(actual@),
{
    proof {
        reveal_strlit("an unasked ");
        reveal_strlit(" was reported; events were ");
    }
    let mut detail = String::from_str("an unasked ");
    push_shape(&mut detail, shape);
    detail.append(" was reported; events were ");
    push_shapes(&mut detail, actual);
    detail
}

/// Matches `expected` as a subsequence of `actual`, in order. Extra shapes
/// are allowed, but never an unasked `Failed` or `EventsLost`.
pub fn check_events(actual: &Vec<EventShape>, expected: &Vec<EventShape>) -> (verdict: Result<(), String>)
    ensures
        same_verdict(verdict, events_verdict(actual@, expected@)),
{
    if contains_shape(actual, EventShape::Failed) && !contains_shape(expected, EventShape::Failed) {
        return Err(unasked_report(actual, EventShape::Failed));
    }
    if contains_shape(actual, EventShape::EventsLost) && !contains_shape(expected, EventShape::EventsLost) {
        return Err(unasked_report(actual, EventShape::EventsLost));
    }
    let mut k: usize = 0;
    let mut p: usize = 0;
    while k < expected.len() && p < actual.len()
        invariant
            k <= expected@.len(),
            p <= actual@.len(),
            matched_from(expected@, actual@, k as int, p as int) == matched(expected@, actual@),
        decreases actual@.len() - p,
    {
        if actual[p] == expected[k] {
            k = k + 1;
        }
        p = p + 1;
    }
    if k < expected.len() {
        proof {
            reveal_strlit(" never arrived (in order); events were ");
            reveal_strlit(", expected at least ");
        }
        let mut detail = String::new();
        push_shape(&mut detail, expected[k]);
        detail.append(" never arrived (in order); events were ");
        push_shapes(&mut detail, actual);
        detail.append(", expected at least ");
        push_shapes(&mut detail, expected);
        return Err(detail);
    }
    Ok(())
}

/// The text of a failure: scenario, step, action, expectation and detail.
pub open spec fn failure_text(failure: Failure) -> Seq<char> {
    failure.scenario@ + ": step "@ + decimal(failure.step as nat) + " ("@ + action_debug(failure.action)
        + ") expected "@ + outcome_debug(failure.expected@) + " — "@ + failure.detail@
}

impl Failure {
    /// The failure as one line of text.
    pub fn render(&self) -> (text: String)
        ensures
            text@ == failure_text(*self),
    {
        proof {
            reveal_strlit(": step ");
            reveal_strlit(" (");
            reveal_strlit(") expected ");
            reveal_strlit(" — ");
        }
        let mut text = String::from_str(self.scenario);
        text.append(": step ");
        push_decimal(&mut text, self.step as u64);
        text.append(" (");
        let action = self.action.debug_text();
        text.append(action.as_str());
        text.append(") expected ");
        let expected = self.expected.debug_text();
        text.append(expected.as_str());
        text.append(" — ");
        text.append(self.detail.as_str());
        text
    }
}

/// How long between two polls while waiting, in milliseconds.
pub const POLL_INTERVAL_MS: u64 = 5;

/// Waits between two polls of an engine that settles on its own time.
pub trait Pause {
    fn pause_ms(&self, ms: u64);
}

/// No wait at all: for an engine that settles inside the call that causes
/// it. A wait then still polls as often as a real one would.
pub struct NoPause;

impl Pause for NoPause {
    fn pause_ms(&self, ms: u64) {
    }
}

/// What the kit has watched go past since the last reset: every shape, and
/// the position each `SeekCompleted` carried.
struct Seen {
    shapes: Vec<EventShape>,
    seek_landings: Vec<u64>,
}

impl Seen {
    fn new() -> (seen: Seen)
        ensures
            seen.shapes@ == Seq::<EventShape>::empty(),
            seen.seek_landings@ == Seq::<u64>::empty(),
    {
        Seen { shapes: Vec::new(), seek_landings: Vec::new() }
    }

    fn clear(&mut self)
        ensures
            final(self).shapes@ == Seq::<EventShape>::empty(),
            final(self).seek_landings@ == Seq::<u64>::empty(),
    {
        self.shapes = Vec::new();
        self.seek_landings = Vec::new();
    }

    /// The position the last `SeekCompleted` carried.
    fn last_landing(&self) -> (landing: Option<u64>)
        ensures
            self.seek_landings@.len() == 0 ==> landing is None,
            self.seek_landings@.len() > 0 ==> landing == Some(self.seek_landings@.last()),
    {
        if self.seek_landings.len() == 0 {
            None
        } else {
            Some(self.seek_landings[self.seek_landings.len() - 1])
        }
    }
}

/// The positions the `SeekCompleted` events among `events` carry, in order.
pub open spec fn landings_of(events: Seq<PlaybackEvent>) -> Seq<u64>
    decreases events.len(),
{
    if events.len() == 0 {
        Seq::empty()
    } else {
        landings_of(events.drop_last()) + match events.last() {
            PlaybackEvent::SeekCompleted { position_ms } => seq![position_ms],
            _ => Seq::empty(),
        }
    }
}

/// Moves whatever the engine has pending into the running buffer, in order:
/// the shape of every drained event, and the position of every seek landing.
fn collect<D, E: PlaybackEngine<D>>(engine: &mut E, seen: &mut Seen)
    ensures
        exists|drained: Seq<PlaybackEvent>|
            final(seen).shapes@ == old(seen).shapes@ + drained.map_values(|e: PlaybackEvent| shape_of(e))
                && final(seen).seek_landings@ == old(seen).seek_landings@ + #[trigger] landings_of(drained),
{
    let queue = engine.events();
    let pending = queue.drain();
    let ghost start = seen.shapes@;
    let ghost start_landings = seen.seek_landings@;
    let mut i: usize = 0;
    while i < pending.len()
        invariant
            i <= pending@.len(),
            seen.shapes@ == start + pending@.subrange(0, i as int).map_values(|e: PlaybackEvent| shape_of(e)),
            seen.seek_landings@ == start_landings + landings_of(pending@.subrange(0, i as int)),
        decreases pending@.len() - i,
    {
        assert(pending@.subrange(0, i + 1).drop_last() =~= pending@.subrange(0, i as int));
        let event = pending[i];
        match event {
            PlaybackEvent::SeekCompleted { position_ms } => seen.seek_landings.push(position_ms),
            _ => {},
        }
        seen.shapes.push(EventShape::of(&event));
        assert(pending@.subrange(0, i + 1).map_values(|e: PlaybackEvent| shape_of(e)) =~= pending@.subrange(
            0,
            i as int,
        ).map_values(|e: PlaybackEvent| shape_of(e)).push(shape_of(event)));
        i = i + 1;
    }
    assert(pending@.subrange(0, pending@.len() as int) =~= pending@);
}

/// How a wait for `expected` ends: matched; refused at once over an unasked
/// failure; or refused when the time runs out.
pub open spec fn awaited_verdict(actual: Seq<EventShape>, expected: Seq<EventShape>, timeout_ms: u64) -> Result<
    (),
    Seq<char>,
> {
    match events_verdict(actual, expected) {
        Ok(()) => Ok(()),
        Err(detail) => if unasked(actual, expected, EventShape::Failed) || unasked(
            actual,
            expected,
            EventShape::EventsLost,
        ) {
            Err(detail)
        } else {
            Err(detail + " (waited "@ + decimal(timeout_ms as nat) + " ms)"@)
        },
    }
}

/// Collects and matches until `expected` is satisfied, an unasked failure
/// shows up, or the fixture's wait is used up.
fn await_events<D, E: PlaybackEngine<D>, P: Pause>(
    engine: &mut E,
    expected: &Vec<EventShape>,
    inputs: &ContractInputs<D>,
    seen: &mut Seen,
    pause: &P,
) -> (verdict: Result<(), String>)
    ensures
        same_verdict(verdict, awaited_verdict(final(seen).shapes@, expected@, inputs.settle_timeout_ms)),
{
    proof {
        reveal_strlit(" (waited ");
        reveal_strlit(" ms)");
    }
    let mut remaining: u64 = inputs.settle_timeout_ms / POLL_INTERVAL_MS;
    loop
        decreases remaining,
    {
        collect(engine, seen);
        match check_events(&seen.shapes, expected) {
            Ok(()) => return Ok(()),
            Err(detail) => {
                let failed = contains_shape(&seen.shapes, EventShape::Failed) && !contains_shape(
                    expected,
                    EventShape::Failed,
                );
                let lost = contains_shape(&seen.shapes, EventShape::EventsLost) && !contains_shape(
                    expected,
                    EventShape::EventsLost,
                );
                if failed || lost {
                    return Err(detail);
                }
                if remaining == 0 {
                    let mut detail = detail;
                    detail.append(" (waited ");
                    push_decimal(&mut detail, inputs.settle_timeout_ms);
                    detail.append(" ms)");
                    return Err(detail);
                }
            },
        }
        pause.pause_ms(POLL_INTERVAL_MS);
        remaining = remaining - 1;
    }
}

/// Why a wait for a state failed: where the engine was stuck.
pub open spec fn settle_failure(until: PlaybackState, timeout_ms: u64, stuck: PlaybackState) -> Seq<char> {
    "never reached "@ + state_name(until) + " within "@ + decimal(timeout_ms as nat) + " ms (stuck at "@
        + state_name(stuck) + ")"@
}

/// Polls until the engine reaches `until`, or the fixture's wait is used
/// up.
fn settle<D, E: PlaybackEngine<D>, P: Pause>(
    engine: &mut E,
    until: PlaybackState,
    inputs: &ContractInputs<D>,
    pause: &P,
) -> (verdict: Result<(), String>)
    ensures
        verdict matches Err(detail) ==> exists|stuck: PlaybackState|
            stuck != until && detail@ == settle_failure(until, inputs.settle_timeout_ms, stuck),
{
    proof {
        reveal_strlit("never reached ");
        reveal_strlit(" within ");
        reveal_strlit(" ms (stuck at ");
        reveal_strlit(")");
    }
    let mut remaining: u64 = inputs.settle_timeout_ms / POLL_INTERVAL_MS;
    loop
        decreases remaining,
    {
        let state = engine.state();
        if state == until {
            return Ok(());
        }
        if remaining == 0 {
            let mut detail = String::from_str("never reached ");
            detail.append(until.as_str());
            detail.append(" within ");
            push_decimal(&mut detail, inputs.settle_timeout_ms);
            detail.append(" ms (stuck at ");
            detail.append(state.as_str());
            detail.append(")");
            assert(detail@ == settle_failure(until, inputs.settle_timeout_ms, state));
            return Err(detail);
        }
        pause.pause_ms(POLL_INTERVAL_MS);
        remaining = remaining - 1;
    }
}

/// Checks that a new display size was announced exactly when the fixture
/// has a picture: waited for when it does, refused when it does not.
fn check_geometry_announced<D, E: PlaybackEngine<D>, P: Pause>(
    engine: &mut E,
    inputs: &ContractInputs<D>,
    seen: &mut Seen,
    pause: &P,
) -> (verdict: Result<(), String>)
    ensures
        inputs.video_geometry is Some ==> same_verdict(
            verdict,
            awaited_verdict(final(seen).shapes@, seq![EventShape::VideoGeometryChanged], inputs.settle_timeout_ms),
        ),
        inputs.video_geometry is None ==> same_verdict(
            verdict,
            if final(seen).shapes@.contains(EventShape::VideoGeometryChanged) {
                Err(
                    "an unasked "@ + shape_debug(EventShape::VideoGeometryChanged) + " was reported; events were "@
                        + shapes_debug(final(seen).shapes@),
                )
            } else {
                Ok(())
            },
        ),
{
    match inputs.video_geometry {
        Some(_) => {
            let expected = vec![EventShape::VideoGeometryChanged];
            assert(expected@ =~= seq![EventShape::VideoGeometryChanged]);
            await_events(engine, &expected, inputs, seen, pause)
        },
        None => {
            collect(engine, seen);
            if contains_shape(&seen.shapes, EventShape::VideoGeometryChanged) {
                Err(unasked_report(&seen.shapes, EventShape::VideoGeometryChanged))
            } else {
                Ok(())
            }
        },
    }
}

/// What resetting the watch with a drain answers: only a plain success is
/// a reset; events and announcements are waited for; nothing else applies.
fn check_drain<D, E: PlaybackEngine<D>, P: Pause>(
    engine: &mut E,
    expect: &Outcome,
    inputs: &ContractInputs<D>,
    seen: &mut Seen,
    pause: &P,
) -> (verdict: Result<(), String>)
    ensures
        expect@ == OutcomeView::Success ==> verdict is Ok && final(seen).shapes@ == Seq::<EventShape>::empty(),
        expect@ matches OutcomeView::Events(shapes) ==> same_verdict(
            verdict,
            awaited_verdict(final(seen).shapes@, shapes, inputs.settle_timeout_ms),
        ),
        !(expect@ is Success || expect@ is Events || expect@ is GeometryAnnounced) ==> same_verdict(
            verdict,
            Err("draining events cannot satisfy "@ + outcome_debug(expect@)),
        ),
{
    proof {
        reveal_strlit("draining events cannot satisfy ");
    }
    match expect {
        Outcome::Success => {
            collect(engine, seen);
            seen.clear();
            Ok(())
        },
        Outcome::Events(expected) => await_events(engine, expected, inputs, seen, pause),
        Outcome::GeometryAnnounced => check_geometry_announced(engine, inputs, seen, pause),
        other => {
            let mut detail = String::from_str("draining events cannot satisfy ");
            let shown = other.debug_text();
            detail.append(shown.as_str());
            Err(detail)
        },
    }
}

fn resolve_opt<D>(reference: Option<TrackRef>, inputs: &ContractInputs<D>) -> (id: Option<TrackId>)
    ensures
        id == resolved_opt(reference, *inputs),
{
    match reference {
        Some(r) => Some(r.resolve(inputs)),
        None => None,
    }
}

/// Runs one step with the given callback mark.
/// Whether `verdict` is what a step with this action and expectation
/// concludes from some answer of the engine: the judge of that action
/// applied to the answer. A wait for a state that fails names where the
/// engine was stuck; a wait for events is judged on what was seen.
pub open spec fn judged_step<D>(
    verdict: Result<(), String>,
    action: Action,
    expect: OutcomeView,
    inputs: ContractInputs<D>,
) -> bool {
    match action {
        Action::Settle { until } => verdict matches Err(detail) ==> exists|stuck: PlaybackState|
            stuck != until && detail@ == #[trigger] settle_failure(until, inputs.settle_timeout_ms, stuck),
        Action::AwaitEvent { shape } => exists|actual: Seq<EventShape>|
            same_verdict(verdict, #[trigger] awaited_verdict(actual, seq![shape], inputs.settle_timeout_ms)),
        Action::AwaitSeekLanding { near_ms } => exists|actual: Seq<EventShape>, landed: Option<u64>|
            match #[trigger] awaited_verdict(actual, seq![EventShape::SeekCompleted], inputs.settle_timeout_ms) {
                Ok(()) => same_verdict(verdict, #[trigger] landing_verdict(landed, near_ms, inputs.seek_tolerance_ms)),
                Err(detail) => verdict matches Err(text) && text@ == detail,
            },
        Action::DrainEvents => true,
        Action::Position => exists|answer: Result<u64, PlaybackError>|
            same_verdict(verdict, #[trigger] position_verdict(answer, expect, inputs.seek_tolerance_ms)),
        Action::Duration => exists|answer: Result<Option<u64>, PlaybackError>|
            same_verdict(
                verdict,
                #[trigger] duration_verdict(answer, expect, inputs.duration_ms, inputs.seek_tolerance_ms),
            ),
        Action::VideoGeometry => exists|answer: Result<Option<VideoGeometry>, PlaybackError>|
            same_verdict(verdict, #[trigger] geometry_verdict(answer, expect, inputs.video_geometry)),
        Action::State => exists|answer: PlaybackState| same_verdict(verdict, #[trigger] state_verdict(answer, expect)),
        Action::Tracks { kind } => exists|answer: Result<nat, PlaybackError>|
            same_verdict(verdict, #[trigger] tracks_verdict(answer, kind, expect, inputs)),
        Action::SelectedTrack { kind } => exists|answer: Result<Option<TrackId>, PlaybackError>|
            same_verdict(verdict, #[trigger] selected_verdict(answer, expect, inputs)),
        Action::ExtractText { track } => exists|answer: Result<nat, PlaybackError>|
            same_verdict(verdict, #[trigger] text_verdict(answer, expect)),
        _ => exists|error: Option<PlaybackError>| same_verdict(verdict, #[trigger] unit_verdict(error, expect)),
    }
}

/// The order a step hands the engine, for a step that hands it exactly one
/// order of the engine's base.
pub open spec fn order_of<D>(action: Action, inputs: ContractInputs<D>) -> Option<EngineOrder> {
    match action {
        Action::Load => Some(EngineOrder::Load { source: inputs.media }),
        Action::Play => Some(EngineOrder::Play),
        Action::Pause => Some(EngineOrder::Pause),
        Action::Stop => Some(EngineOrder::Stop),
        Action::Seek { to_ms } => Some(EngineOrder::Seek { to_ms }),
        Action::Shutdown => Some(EngineOrder::Shutdown),
        Action::SelectTrack { kind, track } => Some(
            EngineOrder::SelectTrack { kind, track: resolved_opt(track, inputs) },
        ),
        _ => None,
    }
}

/// Whether a step handed the engine `order` and nothing else, and its
/// verdict is the judge's verdict on the engine's answer to that order.
pub open spec fn commanded_step(
    before: Seq<EngineCommand>,
    after: Seq<EngineCommand>,
    verdict: Result<(), String>,
    order: EngineOrder,
    expect: OutcomeView,
) -> bool {
    &&& after.len() == before.len() + 1
    &&& after.drop_last() == before
    &&& after.last().order == order
    &&& same_verdict(verdict, unit_verdict(after.last().refusal, expect))
}

/// Whether `verdict` is what a query step concludes from an answer that
/// `engine`, as it was, may give to exactly the query the step names, with
/// the callback mark `mark`. A step that is no query is not constrained.
pub open spec fn queried_step<D, E: PlaybackEngine<D>>(
    engine: E,
    mark: CallbackMark,
    verdict: Result<(), String>,
    action: Action,
    expect: OutcomeView,
    inputs: ContractInputs<D>,
) -> bool {
    match action {
        Action::Position => exists|answer: Result<u64, PlaybackError>|
            #[trigger] engine.position_answers(mark, answer) && same_verdict(
                verdict,
                position_verdict(answer, expect, inputs.seek_tolerance_ms),
            ),
        Action::Duration => exists|answer: Result<Option<u64>, PlaybackError>|
            #[trigger] engine.duration_answers(mark, answer) && same_verdict(
                verdict,
                duration_verdict(answer, expect, inputs.duration_ms, inputs.seek_tolerance_ms),
            ),
        Action::VideoGeometry => exists|answer: Result<Option<VideoGeometry>, PlaybackError>|
            #[trigger] engine.geometry_answers(mark, answer) && same_verdict(
                verdict,
                geometry_verdict(answer, expect, inputs.video_geometry),
            ),
        Action::State => exists|answer: PlaybackState|
            #[trigger] engine.state_answers(answer) && same_verdict(verdict, state_verdict(answer, expect)),
        Action::Tracks { kind } => exists|answer: Result<Vec<TrackDescriptor>, PlaybackError>|
            #[trigger] engine.tracks_answers(mark, kind, answer) && same_verdict(
                verdict,
                tracks_verdict(track_count_in(answer), kind, expect, inputs),
            ),
        Action::SelectedTrack { kind } => exists|answer: Result<Option<TrackId>, PlaybackError>|
            #[trigger] engine.selected_answers(mark, kind, answer) && same_verdict(
                verdict,
                selected_verdict(answer, expect, inputs),
            ),
        Action::ExtractText { track } => exists|answer: Result<String, PlaybackError>|
            (answer matches Ok(text) ==> engine.text_answers(mark, resolved(track, inputs), text@)) && same_verdict(
                verdict,
                #[trigger] text_verdict(text_len_in(answer), expect),
            ),
        _ => true,
    }
}

/// One order answered and judged is a commanded step.
proof fn lemma_commanded(
    before: Seq<EngineCommand>,
    order: EngineOrder,
    result: Result<(), PlaybackError>,
    verdict: Result<(), String>,
    expect: OutcomeView,
)
    requires
        same_verdict(verdict, unit_verdict(error_in(result), expect)),
    ensures
        commanded_step(before, before.push(command(order, result)), verdict, order, expect),
{
    assert(before.push(command(order, result)).drop_last() =~= before);
}

fn run_step<D, E: PlaybackEngine<D>, P: Pause>(
    engine: &mut E,
    step: &Step,
    inputs: &ContractInputs<D>,
    seen: &mut Seen,
    mark: &CallbackMark,
    pause: &P,
) -> (verdict: Result<(), String>)
    ensures
        judged_step(verdict, step.action, step.expect@, *inputs),
        order_of(step.action, *inputs) matches Some(order) ==> commanded_step(
            old(engine).commands(),
            final(engine).commands(),
            verdict,
            order,
            step.expect@,
        ),
        queried_step(*old(engine), *mark, verdict, step.action, step.expect@, *inputs),
{
    let expect = &step.expect;
    match step.action {
        Action::Load => {
            let answered = engine.load(mark, &inputs.media);
            let verdict = unit_step(answered, expect);
            proof {
                lemma_commanded(old(engine).commands(), EngineOrder::Load { source: inputs.media }, answered, verdict, expect@);
            }
            verdict
        },
        Action::Play => {
            let answered = engine.play(mark);
            let verdict = unit_step(answered, expect);
            proof {
                lemma_commanded(old(engine).commands(), EngineOrder::Play, answered, verdict, expect@);
            }
            verdict
        },
        Action::Pause => {
            let answered = engine.pause(mark);
            let verdict = unit_step(answered, expect);
            proof {
                lemma_commanded(old(engine).commands(), EngineOrder::Pause, answered, verdict, expect@);
            }
            verdict
        },
        Action::Stop => {
            let answered = engine.stop(mark);
            let verdict = unit_step(answered, expect);
            proof {
                lemma_commanded(old(engine).commands(), EngineOrder::Stop, answered, verdict, expect@);
            }
            verdict
        },
        Action::Seek { to_ms } => {
            let answered = engine.seek(mark, to_ms);
            let verdict = unit_step(answered, expect);
            proof {
                lemma_commanded(old(engine).commands(), EngineOrder::Seek { to_ms }, answered, verdict, expect@);
            }
            verdict
        },
        Action::SeekRelative { delta_ms } => unit_step(engine.seek_relative(mark, delta_ms), expect),
        Action::Shutdown => {
            let answered = engine.shutdown(mark);
            let verdict = unit_step(answered, expect);
            proof {
                lemma_commanded(old(engine).commands(), EngineOrder::Shutdown, answered, verdict, expect@);
            }
            verdict
        },
        Action::SetRate { rate_thousandths } => unit_step(engine.set_rate(mark, rate_thousandths), expect),
        Action::SetVolume { volume_thousandths } => unit_step(engine.set_volume(mark, volume_thousandths), expect),
        Action::InjectSubtitle => unit_step(engine.inject_subtitle(mark, &inputs.document), expect),
        Action::RenderedText => unit_step(engine.rendered_subtitle_text(mark), expect),
        Action::SelectTrack { kind, track } => {
            let id = resolve_opt(track, inputs);
            let answered = engine.select_track(mark, kind, id);
            let verdict = unit_step(answered, expect);
            proof {
                lemma_commanded(old(engine).commands(), EngineOrder::SelectTrack { kind, track: id }, answered, verdict, expect@);
            }
            verdict
        },
        Action::Settle { until } => settle(engine, until, inputs, pause),
        Action::AwaitEvent { shape } => {
            let expected = vec![shape];
            assert(expected@ =~= seq![shape]);
            let verdict = await_events(engine, &expected, inputs, seen, pause);
            assert(same_verdict(verdict, awaited_verdict(seen.shapes@, seq![shape], inputs.settle_timeout_ms)));
            verdict
        },
        Action::AwaitSeekLanding { near_ms } => {
            let expected = vec![EventShape::SeekCompleted];
            assert(expected@ =~= seq![EventShape::SeekCompleted]);
            let awaited = await_events(engine, &expected, inputs, seen, pause);
            let ghost actual = seen.shapes@;
            let landed = seen.last_landing();
            let verdict = match awaited {
                Ok(()) => check_landing(landed, near_ms, inputs.seek_tolerance_ms),
                Err(detail) => Err(detail),
            };
            assert(match awaited_verdict(actual, seq![EventShape::SeekCompleted], inputs.settle_timeout_ms) {
                Ok(()) => same_verdict(verdict, landing_verdict(landed, near_ms, inputs.seek_tolerance_ms)),
                Err(detail) => verdict matches Err(text) && text@ == detail,
            });
            verdict
        },
        Action::Position => {
            let answer = engine.position(mark);
            let verdict = check_position(answer, expect, inputs.seek_tolerance_ms);
            assert(same_verdict(verdict, position_verdict(answer, expect@, inputs.seek_tolerance_ms)));
            assert(engine.position_answers(*mark, answer));
            verdict
        },
        Action::Duration => {
            let answer = engine.duration(mark);
            let verdict = check_duration(answer, expect, inputs.duration_ms, inputs.seek_tolerance_ms);
            assert(same_verdict(
                verdict,
                duration_verdict(answer, expect@, inputs.duration_ms, inputs.seek_tolerance_ms),
            ));
            assert(engine.duration_answers(*mark, answer));
            verdict
        },
        Action::VideoGeometry => {
            let answer = engine.video_geometry(mark);
            let verdict = check_geometry(answer, expect, inputs.video_geometry);
            assert(same_verdict(verdict, geometry_verdict(answer, expect@, inputs.video_geometry)));
            assert(engine.geometry_answers(*mark, answer));
            verdict
        },
        Action::State => {
            let answer = engine.state();
            let verdict = check_state(answer, expect);
            assert(same_verdict(verdict, state_verdict(answer, expect@)));
            assert(engine.state_answers(answer));
            verdict
        },
        Action::Tracks { kind } => {
            let answer = engine.tracks(mark, kind);
            let ghost count = track_count_in(answer);
            let verdict = check_tracks(answer, kind, expect, inputs);
            assert(same_verdict(verdict, tracks_verdict(count, kind, expect@, *inputs)));
            assert(engine.tracks_answers(*mark, kind, answer));
            verdict
        },
        Action::SelectedTrack { kind } => {
            let answer = engine.selected_track(mark, kind);
            let verdict = check_selected(answer, expect, inputs);
            assert(same_verdict(verdict, selected_verdict(answer, expect@, *inputs)));
            assert(engine.selected_answers(*mark, kind, answer));
            verdict
        },
        Action::ExtractText { track } => {
            let answer = engine.extract_text(mark, track.resolve(inputs));
            let ghost length = text_len_in(answer);
            let verdict = check_text(answer, expect);
            assert(same_verdict(verdict, text_verdict(text_len_in(answer), expect@)));
            verdict
        },
        Action::DrainEvents => check_drain(engine, expect, inputs, seen, pause),
    }
}

/// Judges a unit-like answer (see [`check_unit`]).
fn unit_step<T>(result: Result<T, PlaybackError>, expect: &Outcome) -> (verdict: Result<(), String>)
    ensures
        exists|error: Option<PlaybackError>| same_verdict(verdict, #[trigger] unit_verdict(error, expect@)),
        same_verdict(verdict, unit_verdict(error_in(result), expect@)),
{
    let ghost error = error_in(result);
    let verdict = check_unit(result, expect);
    assert(same_verdict(verdict, unit_verdict(error, expect@)));
    verdict
}

/// Runs one scenario, stopping at the first failing step: later steps
/// assume earlier ones succeeded. A step marked as inside a callback runs
/// with the mark set, exactly as delivery sets it.
pub fn run_scenario<D, E: PlaybackEngine<D>, P: Pause>(
    engine: &mut E,
    scenario: &Scenario,
    inputs: &ContractInputs<D>,
    pause: &P,
) -> (failure: Option<Failure>)
    ensures
        failure matches Some(f) ==> f.scenario == scenario.name && f.step < scenario.steps@.len()
            && f.action == scenario.steps@[f.step as int].action && f.expected@
            == scenario.steps@[f.step as int].expect@,
        failure matches Some(f) ==> judged_step(
            Err(f.detail),
            scenario.steps@[f.step as int].action,
            scenario.steps@[f.step as int].expect@,
            *inputs,
        ),
        failure matches Some(f) ==> forall|i: int|
            0 <= i < f.step ==> #[trigger] judged_step(
                Ok(()),
                scenario.steps@[i].action,
                scenario.steps@[i].expect@,
                *inputs,
            ),
        failure is None ==> forall|i: int|
            0 <= i < scenario.steps@.len() ==> #[trigger] judged_step(
                Ok(()),
                scenario.steps@[i].action,
                scenario.steps@[i].expect@,
                *inputs,
            ),
        failure matches Some(f) ==> exists|state: E, mark: CallbackMark|
            mark.inside_spec() == scenario.steps@[f.step as int].inside_callback && #[trigger] queried_step(
                state,
                mark,
                Err(f.detail),
                scenario.steps@[f.step as int].action,
                scenario.steps@[f.step as int].expect@,
                *inputs,
            ),
{
    let mut seen = Seen::new();
    let mut mark = CallbackMark::new();
    let mut index: usize = 0;
    while index < scenario.steps.len()
        invariant
            index <= scenario.steps@.len(),
            !mark.inside_spec(),
            forall|i: int|
                0 <= i < index ==> #[trigger] judged_step(
                    Ok(()),
                    scenario.steps@[i].action,
                    scenario.steps@[i].expect@,
                    *inputs,
                ),
        decreases scenario.steps@.len() - index,
    {
        let step = &scenario.steps[index];
        let ghost state = *engine;
        let ghost mut used = mark;
        let verdict = if step.inside_callback {
            let scope = CallbackScope::enter(&mut mark);
            proof {
                used = mark;
            }
            let verdict = run_step(engine, step, inputs, &mut seen, &mark, pause);
            scope.exit(&mut mark);
            verdict
        } else {
            run_step(engine, step, inputs, &mut seen, &mark, pause)
        };
        match verdict {
            Ok(()) => {},
            Err(detail) => {
                assert(used.inside_spec() == step.inside_callback);
                let failure = Failure {
                    scenario: scenario.name,
                    step: index,
                    action: step.action,
                    expected: step.expect.copy(),
                    detail,
                };
                assert(queried_step(
                    state,
                    used,
                    Err(failure.detail),
                    scenario.steps@[failure.step as int].action,
                    scenario.steps@[failure.step as int].expect@,
                    *inputs,
                ));
                assert(exists|state: E, mark: CallbackMark|
                    mark.inside_spec() == scenario.steps@[failure.step as int].inside_callback && #[trigger] queried_step(
                        state,
                        mark,
                        Err(failure.detail),
                        scenario.steps@[failure.step as int].action,
                        scenario.steps@[failure.step as int].expect@,
                        *inputs,
                    ));
                return Some(failure);
            },
        }
        index = index + 1;
    }
    None
}

/// The applicability of every scenario in the kit, in order.
pub open spec fn kit_applies() -> Seq<Applicability> {
    let always = Applicability::Always;
    seq![
        always,
        always,
        always,
        always,
        always,
        always,
        always,
        always,
        always,
        always,
        always,
        always,
        always,
        always,
        always,
        always,
        Applicability::WithoutCapability(Capability::PlaybackRate),
        Applicability::WithCapability(Capability::PlaybackRate),
        Applicability::WithoutCapability(Capability::Volume),
        Applicability::WithCapability(Capability::Volume),
        Applicability::WithoutCapability(Capability::EmbeddedTextExtraction),
        Applicability::WithCapability(Capability::EmbeddedTextExtraction),
        Applicability::WithCapability(Capability::EmbeddedTextExtraction),
        Applicability::WithoutCapability(Capability::ExternalSubtitleInjection),
        Applicability::WithCapability(Capability::ExternalSubtitleInjection),
        Applicability::WithoutCapability(Capability::RenderedTextObservation),
        Applicability::WithCapability(Capability::RenderedTextObservation),
    ]
}

/// Whether `scenarios` apply exactly as the kit's do.
pub open spec fn applies_as_kit(scenarios: Seq<Scenario>) -> bool {
    &&& scenarios.len() == kit_applies().len()
    &&& forall|i: int| 0 <= i < scenarios.len() ==> (#[trigger] scenarios[i]).applies == kit_applies()[i]
}

/// A step as plain values: its action, what it expects, and whether it
/// runs with the thread marked as inside a callback.
pub open spec fn step_model(step: Step) -> (Action, OutcomeView, bool) {
    (step.action, step.expect@, step.inside_callback)
}

pub open spec fn steps_model(steps: Seq<Step>) -> Seq<(Action, OutcomeView, bool)> {
    steps.map_values(|step: Step| step_model(step))
}

/// A step outside a callback.
pub open spec fn expecting(action: Action, outcome: OutcomeView) -> (Action, OutcomeView, bool) {
    (action, outcome, false)
}

pub open spec fn succeeding(action: Action) -> (Action, OutcomeView, bool) {
    expecting(action, OutcomeView::Success)
}

pub open spec fn refusing(action: Action, kind: ErrorKind) -> (Action, OutcomeView, bool) {
    expecting(action, OutcomeView::Error(kind))
}

pub open spec fn state_is(state: PlaybackState) -> (Action, OutcomeView, bool) {
    expecting(Action::State, OutcomeView::State(state))
}

pub open spec fn settling(state: PlaybackState) -> (Action, OutcomeView, bool) {
    succeeding(Action::Settle { until: state })
}

pub open spec fn landing(near_ms: u64) -> (Action, OutcomeView, bool) {
    succeeding(Action::AwaitSeekLanding { near_ms })
}

pub open spec fn position_near(ms: u64) -> (Action, OutcomeView, bool) {
    expecting(Action::Position, OutcomeView::PositionNear(ms))
}

pub open spec fn draining(shapes: Seq<EventShape>) -> (Action, OutcomeView, bool) {
    expecting(Action::DrainEvents, OutcomeView::Events(shapes))
}

pub open spec fn selected_subtitle(track: Option<TrackRef>) -> (Action, OutcomeView, bool) {
    expecting(Action::SelectedTrack { kind: TrackKind::Subtitle }, OutcomeView::SelectedTrack(track))
}

/// A step run from inside a callback, which must be refused as reentrant.
pub open spec fn reentrant(action: Action) -> (Action, OutcomeView, bool) {
    (action, OutcomeView::Error(ErrorKind::ReentrantCall), true)
}

/// The steps of the base scenarios, in order.
pub open spec fn base_steps() -> Seq<Seq<(Action, OutcomeView, bool)>> {
    let load = succeeding(Action::Load);
    let ready = settling(PlaybackState::Ready);
    let drain = succeeding(Action::DrainEvents);
    let subtitle = Some(TrackRef::Known(TrackKind::Subtitle));
    seq![
        seq![
            state_is(PlaybackState::Idle),
            refusing(Action::Play, ErrorKind::NotLoaded),
            refusing(Action::Pause, ErrorKind::NotLoaded),
            refusing(Action::Seek { to_ms: 0 }, ErrorKind::NotLoaded),
            refusing(Action::Position, ErrorKind::NotLoaded),
            refusing(Action::Duration, ErrorKind::NotLoaded),
            refusing(Action::Tracks { kind: TrackKind::Subtitle }, ErrorKind::NotLoaded),
        ],
        seq![
            load,
            ready,
            state_is(PlaybackState::Ready),
            succeeding(Action::Play),
            settling(PlaybackState::Playing),
            state_is(PlaybackState::Playing),
            succeeding(Action::Pause),
            settling(PlaybackState::Paused),
            state_is(PlaybackState::Paused),
        ],
        seq![
            load,
            ready,
            draining(
                seq![
                    EventShape::StateChanged(PlaybackState::Buffering),
                    EventShape::StateChanged(PlaybackState::Ready),
                    EventShape::TracksChanged,
                ],
            ),
        ],
        seq![
            load,
            ready,
            drain,
            succeeding(Action::Seek { to_ms: 5000 }),
            landing(5000),
            position_near(5000),
            draining(seq![EventShape::SeekCompleted, EventShape::PositionChanged]),
        ],
        seq![
            load,
            ready,
            succeeding(Action::Seek { to_ms: 10000 }),
            landing(10000),
            drain,
            succeeding(Action::SeekRelative { delta_ms: 2000 }),
            landing(12000),
            position_near(12000),
            drain,
            succeeding(Action::SeekRelative { delta_ms: -50000i64 }),
            landing(0),
            position_near(0),
        ],
        seq![
            load,
            ready,
            succeeding(Action::Play),
            drain,
            succeeding(Action::Seek { to_ms: 4294967295 }),
            settling(PlaybackState::Ended),
            state_is(PlaybackState::Ended),
            draining(
                seq![
                    EventShape::SeekCompleted,
                    EventShape::PositionChanged,
                    EventShape::StateChanged(PlaybackState::Ended),
                    EventShape::EndReached,
                ],
            ),
        ],
        seq![
            load,
            ready,
            expecting(
                Action::Tracks { kind: TrackKind::Subtitle },
                OutcomeView::FixtureTrackCount(TrackKind::Subtitle),
            ),
            expecting(Action::Tracks { kind: TrackKind::Audio }, OutcomeView::FixtureTrackCount(TrackKind::Audio)),
            selected_subtitle(None),
            succeeding(Action::SelectTrack { kind: TrackKind::Subtitle, track: subtitle }),
            selected_subtitle(subtitle),
            succeeding(Action::SelectTrack { kind: TrackKind::Subtitle, track: None }),
            selected_subtitle(None),
        ],
        seq![
            load,
            ready,
            refusing(
                Action::SelectTrack { kind: TrackKind::Subtitle, track: Some(TrackRef::Unknown) },
                ErrorKind::UnknownTrack,
            ),
            selected_subtitle(None),
        ],
        seq![
            load,
            ready,
            refusing(Action::SelectTrack { kind: TrackKind::Audio, track: subtitle }, ErrorKind::UnknownTrack),
        ],
        seq![
            load,
            ready,
            succeeding(Action::Play),
            succeeding(Action::Stop),
            settling(PlaybackState::Idle),
            state_is(PlaybackState::Idle),
            refusing(Action::Play, ErrorKind::NotLoaded),
            load,
            ready,
            state_is(PlaybackState::Ready),
        ],
        seq![
            load,
            succeeding(Action::Shutdown),
            succeeding(Action::Shutdown),
            refusing(Action::Play, ErrorKind::ShutDown),
            refusing(Action::Load, ErrorKind::ShutDown),
            refusing(Action::Seek { to_ms: 0 }, ErrorKind::ShutDown),
            refusing(Action::Position, ErrorKind::ShutDown),
        ],
        seq![load, ready, expecting(Action::Duration, OutcomeView::FixtureDuration)],
        seq![
            load,
            ready,
            expecting(Action::DrainEvents, OutcomeView::GeometryAnnounced),
            expecting(Action::VideoGeometry, OutcomeView::FixtureGeometry),
        ],
        seq![load, succeeding(Action::Seek { to_ms: 5000 }), ready, landing(5000), position_near(5000)],
        seq![
            load,
            ready,
            drain,
            succeeding(Action::Play),
            succeeding(Action::Seek { to_ms: 1000 }),
            succeeding(Action::Seek { to_ms: 2000 }),
            settling(PlaybackState::Playing),
            draining(
                seq![
                    EventShape::StateChanged(PlaybackState::Playing),
                    EventShape::SeekCompleted,
                    EventShape::SeekCompleted,
                ],
            ),
        ],
    ]
}

/// The steps of the reentrancy scenario: every operation from inside a
/// callback is refused, and the engine is untouched afterwards.
pub open spec fn reentrancy_steps() -> Seq<(Action, OutcomeView, bool)> {
    seq![
        succeeding(Action::Load),
        settling(PlaybackState::Ready),
        reentrant(Action::Play),
        reentrant(Action::Pause),
        reentrant(Action::Stop),
        reentrant(Action::Seek { to_ms: 0 }),
        reentrant(Action::SeekRelative { delta_ms: 1000 }),
        reentrant(Action::SelectTrack { kind: TrackKind::Subtitle, track: None }),
        reentrant(Action::Shutdown),
        state_is(PlaybackState::Ready),
    ]
}

/// The probe of each capability scenario, after loading and settling.
pub open spec fn capability_probes() -> Seq<(Action, OutcomeView)> {
    let unsupported = OutcomeView::Error(ErrorKind::Unsupported);
    let rate = Action::SetRate { rate_thousandths: 1500 };
    let volume = Action::SetVolume { volume_thousandths: 500 };
    let known_text = Action::ExtractText { track: TrackRef::Known(TrackKind::Subtitle) };
    seq![
        (rate, unsupported),
        (rate, OutcomeView::Success),
        (volume, unsupported),
        (volume, OutcomeView::Success),
        (known_text, unsupported),
        (known_text, OutcomeView::NonEmptyText),
        (Action::ExtractText { track: TrackRef::Unknown }, OutcomeView::Error(ErrorKind::UnknownTrack)),
        (Action::InjectSubtitle, unsupported),
        (Action::InjectSubtitle, OutcomeView::Success),
        (Action::RenderedText, unsupported),
        (Action::RenderedText, OutcomeView::Success),
    ]
}

/// A capability scenario's steps: load, settle, then the probe.
pub open spec fn probe_steps(probe: (Action, OutcomeView)) -> Seq<(Action, OutcomeView, bool)> {
    seq![succeeding(Action::Load), settling(PlaybackState::Ready), expecting(probe.0, probe.1)]
}

/// The steps of every scenario in the kit, in order.
pub open spec fn kit_steps() -> Seq<Seq<(Action, OutcomeView, bool)>> {
    base_steps() + seq![reentrancy_steps()] + capability_probes().map_values(
        |probe: (Action, OutcomeView)| probe_steps(probe),
    )
}

fn load_ok() -> (step: Step)
    ensures
        step.action == Action::Load && step.expect@ == OutcomeView::Success && !step.inside_callback,
{
    Step::new(Action::Load, Outcome::Success)
}

fn ok(action: Action) -> (step: Step)
    ensures
        step.action == action && step.expect@ == OutcomeView::Success && !step.inside_callback,
{
    Step::new(action, Outcome::Success)
}

fn refused(action: Action, kind: ErrorKind) -> (step: Step)
    ensures
        step.action == action && step.expect@ == OutcomeView::Error(kind) && !step.inside_callback,
{
    Step::new(action, Outcome::Error(kind))
}

fn in_state(state: PlaybackState) -> (step: Step)
    ensures
        step.action == Action::State && step.expect@ == OutcomeView::State(state) && !step.inside_callback,
{
    Step::new(Action::State, Outcome::State(state))
}

/// The base scenarios: every engine, always.
#[verifier::rlimit(50)]
fn base_scenarios() -> (all: Vec<Scenario>)
    ensures
        all@.len() == 15,
        forall|i: int| 0 <= i < all@.len() ==> (#[trigger] all@[i]).applies == Applicability::Always,
        forall|i: int| 0 <= i < all@.len() ==> steps_model((#[trigger] all@[i]).steps@) == base_steps()[i],
{
    let all = vec![
        Scenario {
            name: "an engine starts idle and refuses what needs media",
            applies: Applicability::Always,
            steps: vec![
                in_state(PlaybackState::Idle),
                refused(Action::Play, ErrorKind::NotLoaded),
                refused(Action::Pause, ErrorKind::NotLoaded),
                refused(Action::Seek { to_ms: 0 }, ErrorKind::NotLoaded),
                refused(Action::Position, ErrorKind::NotLoaded),
                refused(Action::Duration, ErrorKind::NotLoaded),
                refused(Action::Tracks { kind: TrackKind::Subtitle }, ErrorKind::NotLoaded),
            ],
        },
        Scenario {
            name: "load then play reaches the playing state",
            applies: Applicability::Always,
            steps: vec![
                load_ok(),
                Step::settle(PlaybackState::Ready),
                in_state(PlaybackState::Ready),
                ok(Action::Play),
                Step::settle(PlaybackState::Playing),
                in_state(PlaybackState::Playing),
                ok(Action::Pause),
                Step::settle(PlaybackState::Paused),
                in_state(PlaybackState::Paused),
            ],
        },
        Scenario {
            name: "loading reports buffering before ready, in order",
            applies: Applicability::Always,
            steps: vec![
                load_ok(),
                Step::settle(PlaybackState::Ready),
                Step::new(
                    Action::DrainEvents,
                    Outcome::Events(
                        vec![
                            EventShape::StateChanged(PlaybackState::Buffering),
                            EventShape::StateChanged(PlaybackState::Ready),
                            EventShape::TracksChanged,
                        ],
                    ),
                ),
            ],
        },
        Scenario {
            name: "a seek reports completion, not just a new position",
            applies: Applicability::Always,
            steps: vec![
                load_ok(),
                Step::settle(PlaybackState::Ready),
                ok(Action::DrainEvents),
                ok(Action::Seek { to_ms: 5000 }),
                Step::awaits_seek_landing(5000),
                Step::new(Action::Position, Outcome::PositionNear(5000)),
                Step::new(
                    Action::DrainEvents,
                    Outcome::Events(vec![EventShape::SeekCompleted, EventShape::PositionChanged]),
                ),
            ],
        },
        Scenario {
            name: "relative seek moves from the current position and clamps at zero",
            applies: Applicability::Always,
            steps: vec![
                load_ok(),
                Step::settle(PlaybackState::Ready),
                ok(Action::Seek { to_ms: 10000 }),
                Step::awaits_seek_landing(10000),
                ok(Action::DrainEvents),
                ok(Action::SeekRelative { delta_ms: 2000 }),
                Step::awaits_seek_landing(12000),
                Step::new(Action::Position, Outcome::PositionNear(12000)),
                ok(Action::DrainEvents),
                ok(Action::SeekRelative { delta_ms: -50000 }),
                Step::awaits_seek_landing(0),
                Step::new(Action::Position, Outcome::PositionNear(0)),
            ],
        },
        Scenario {
            name: "seeking past the end ends playback instead of failing",
            applies: Applicability::Always,
            steps: vec![
                load_ok(),
                Step::settle(PlaybackState::Ready),
                ok(Action::Play),
                ok(Action::DrainEvents),
                ok(Action::Seek { to_ms: 4294967295 }),
                Step::settle(PlaybackState::Ended),
                in_state(PlaybackState::Ended),
                Step::new(
                    Action::DrainEvents,
                    Outcome::Events(
                        vec![
                            EventShape::SeekCompleted,
                            EventShape::PositionChanged,
                            EventShape::StateChanged(PlaybackState::Ended),
                            EventShape::EndReached,
                        ],
                    ),
                ),
            ],
        },
        Scenario {
            name: "tracks are enumerated and selectable, and can be turned off",
            applies: Applicability::Always,
            steps: vec![
                load_ok(),
                Step::settle(PlaybackState::Ready),
                Step::new(
                    Action::Tracks { kind: TrackKind::Subtitle },
                    Outcome::FixtureTrackCount(TrackKind::Subtitle),
                ),
                Step::new(Action::Tracks { kind: TrackKind::Audio }, Outcome::FixtureTrackCount(TrackKind::Audio)),
                Step::new(Action::SelectedTrack { kind: TrackKind::Subtitle }, Outcome::SelectedTrack(None)),
                ok(Action::SelectTrack { kind: TrackKind::Subtitle, track: Some(TrackRef::Known(TrackKind::Subtitle)) }),
                Step::new(
                    Action::SelectedTrack { kind: TrackKind::Subtitle },
                    Outcome::SelectedTrack(Some(TrackRef::Known(TrackKind::Subtitle))),
                ),
                ok(Action::SelectTrack { kind: TrackKind::Subtitle, track: None }),
                Step::new(Action::SelectedTrack { kind: TrackKind::Subtitle }, Outcome::SelectedTrack(None)),
            ],
        },
        Scenario {
            name: "selecting a track that does not exist is a typed error",
            applies: Applicability::Always,
            steps: vec![
                load_ok(),
                Step::settle(PlaybackState::Ready),
                refused(
                    Action::SelectTrack { kind: TrackKind::Subtitle, track: Some(TrackRef::Unknown) },
                    ErrorKind::UnknownTrack,
                ),
                Step::new(Action::SelectedTrack { kind: TrackKind::Subtitle }, Outcome::SelectedTrack(None)),
            ],
        },
        Scenario {
            name: "an audio id is not a subtitle id",
            applies: Applicability::Always,
            steps: vec![
                load_ok(),
                Step::settle(PlaybackState::Ready),
                refused(
                    Action::SelectTrack { kind: TrackKind::Audio, track: Some(TrackRef::Known(TrackKind::Subtitle)) },
                    ErrorKind::UnknownTrack,
                ),
            ],
        },
        Scenario {
            name: "stop returns the engine to idle and it can load again",
            applies: Applicability::Always,
            steps: vec![
                load_ok(),
                Step::settle(PlaybackState::Ready),
                ok(Action::Play),
                ok(Action::Stop),
                Step::settle(PlaybackState::Idle),
                in_state(PlaybackState::Idle),
                refused(Action::Play, ErrorKind::NotLoaded),
                load_ok(),
                Step::settle(PlaybackState::Ready),
                in_state(PlaybackState::Ready),
            ],
        },
        Scenario {
            name: "shutdown is idempotent and refuses everything afterwards",
            applies: Applicability::Always,
            steps: vec![
                load_ok(),
                ok(Action::Shutdown),
                ok(Action::Shutdown),
                refused(Action::Play, ErrorKind::ShutDown),
                refused(Action::Load, ErrorKind::ShutDown),
                refused(Action::Seek { to_ms: 0 }, ErrorKind::ShutDown),
                refused(Action::Position, ErrorKind::ShutDown),
            ],
        },
        Scenario {
            name: "duration is reported once media is loaded",
            applies: Applicability::Always,
            steps: vec![
                load_ok(),
                Step::settle(PlaybackState::Ready),
                Step::new(Action::Duration, Outcome::FixtureDuration),
            ],
        },
        Scenario {
            name: "the display size is announced and reported once media is loaded",
            applies: Applicability::Always,
            steps: vec![
                load_ok(),
                Step::settle(PlaybackState::Ready),
                Step::new(Action::DrainEvents, Outcome::GeometryAnnounced),
                Step::new(Action::VideoGeometry, Outcome::FixtureGeometry),
            ],
        },
        Scenario {
            name: "a seek issued while the medium is still opening is held, not refused",
            applies: Applicability::Always,
            steps: vec![
                load_ok(),
                ok(Action::Seek { to_ms: 5000 }),
                Step::settle(PlaybackState::Ready),
                Step::awaits_seek_landing(5000),
                Step::new(Action::Position, Outcome::PositionNear(5000)),
            ],
        },
        Scenario {
            name: "position events coalesce while critical events keep their order",
            applies: Applicability::Always,
            steps: vec![
                load_ok(),
                Step::settle(PlaybackState::Ready),
                ok(Action::DrainEvents),
                ok(Action::Play),
                ok(Action::Seek { to_ms: 1000 }),
                ok(Action::Seek { to_ms: 2000 }),
                Step::settle(PlaybackState::Playing),
                Step::new(
                    Action::DrainEvents,
                    Outcome::Events(
                        vec![
                            EventShape::StateChanged(PlaybackState::Playing),
                            EventShape::SeekCompleted,
                            EventShape::SeekCompleted,
                        ],
                    ),
                ),
            ],
        },
    ];
    proof {
        assert(steps_model(all@[0].steps@) =~= base_steps()[0]);
        assert(steps_model(all@[1].steps@) =~= base_steps()[1]);
        assert(steps_model(all@[2].steps@) =~= base_steps()[2]);
        assert(steps_model(all@[3].steps@) =~= base_steps()[3]);
        assert(steps_model(all@[4].steps@) =~= base_steps()[4]);
        assert(steps_model(all@[5].steps@) =~= base_steps()[5]);
        assert(steps_model(all@[6].steps@) =~= base_steps()[6]);
        assert(steps_model(all@[7].steps@) =~= base_steps()[7]);
        assert(steps_model(all@[8].steps@) =~= base_steps()[8]);
        assert(steps_model(all@[9].steps@) =~= base_steps()[9]);
        assert(steps_model(all@[10].steps@) =~= base_steps()[10]);
        assert(steps_model(all@[11].steps@) =~= base_steps()[11]);
        assert(steps_model(all@[12].steps@) =~= base_steps()[12]);
        assert(steps_model(all@[13].steps@) =~= base_steps()[13]);
        assert(steps_model(all@[14].steps@) =~= base_steps()[14]);
        assert forall|i: int| 0 <= i < all@.len() implies steps_model((#[trigger] all@[i]).steps@) == base_steps()[i] by {
            if i == 0 {} else if i == 1 {} else if i == 2 {} else if i == 3 {} else if i == 4 {} else if i == 5 {}
            else if i == 6 {} else if i == 7 {} else if i == 8 {} else if i == 9 {} else if i == 10 {}
            else if i == 11 {} else if i == 12 {} else if i == 13 {} else {}
        }
    }
    all
}

/// One scenario refusing every operation called from inside a callback; the
/// engine is untouched afterwards.
fn reentrancy_scenarios() -> (all: Vec<Scenario>)
    ensures
        all@.len() == 1,
        all@[0].applies == Applicability::Always,
        steps_model(all@[0].steps@) == reentrancy_steps(),
{
    let reentrant = Outcome::Error(ErrorKind::ReentrantCall);
    let all = vec![
        Scenario {
            name: "no operation may be called synchronously from inside a callback",
            applies: Applicability::Always,
            steps: vec![
                load_ok(),
                Step::settle(PlaybackState::Ready),
                Step::from_callback(Action::Play, reentrant.copy()),
                Step::from_callback(Action::Pause, reentrant.copy()),
                Step::from_callback(Action::Stop, reentrant.copy()),
                Step::from_callback(Action::Seek { to_ms: 0 }, reentrant.copy()),
                Step::from_callback(Action::SeekRelative { delta_ms: 1000 }, reentrant.copy()),
                Step::from_callback(Action::SelectTrack { kind: TrackKind::Subtitle, track: None }, reentrant.copy()),
                Step::from_callback(Action::Shutdown, reentrant),
                in_state(PlaybackState::Ready),
            ],
        },
    ];
    assert(steps_model(all@[0].steps@) =~= reentrancy_steps());
    all
}

fn capability_scenario(name: &'static str, applies: Applicability, action: Action, expect: Outcome) -> (scenario: Scenario)
    ensures
        scenario.name == name,
        scenario.applies == applies,
        steps_model(scenario.steps@) == probe_steps((action, expect@)),
{
    let scenario = Scenario {
        name,
        applies,
        steps: vec![load_ok(), Step::settle(PlaybackState::Ready), Step::new(action, expect)],
    };
    assert(steps_model(scenario.steps@) =~= probe_steps((action, expect@)));
    scenario
}

/// For each capability, the behaviour when it is declared and the typed
/// refusal when it is not.
fn capability_scenarios() -> (all: Vec<Scenario>)
    ensures
        all@.len() == 11,
        forall|i: int| 0 <= i < 11 ==> (#[trigger] all@[i]).applies == kit_applies()[i + 16],
        forall|i: int| 0 <= i < 11 ==> steps_model((#[trigger] all@[i]).steps@) == probe_steps(capability_probes()[i]),
{
    let unsupported = Outcome::Error(ErrorKind::Unsupported);
    let rate = Action::SetRate { rate_thousandths: 1500 };
    let volume = Action::SetVolume { volume_thousandths: 500 };
    let known_text = Action::ExtractText { track: TrackRef::Known(TrackKind::Subtitle) };
    let all = vec![
        capability_scenario(
            "rate: refused when the capability is absent",
            Applicability::WithoutCapability(Capability::PlaybackRate),
            rate,
            unsupported.copy(),
        ),
        capability_scenario(
            "rate: accepted when the capability is present",
            Applicability::WithCapability(Capability::PlaybackRate),
            rate,
            Outcome::Success,
        ),
        capability_scenario(
            "volume: refused when the capability is absent",
            Applicability::WithoutCapability(Capability::Volume),
            volume,
            unsupported.copy(),
        ),
        capability_scenario(
            "volume: accepted when the capability is present",
            Applicability::WithCapability(Capability::Volume),
            volume,
            Outcome::Success,
        ),
        capability_scenario(
            "text extraction: refused when the capability is absent",
            Applicability::WithoutCapability(Capability::EmbeddedTextExtraction),
            known_text,
            unsupported.copy(),
        ),
        capability_scenario(
            "text extraction: returns text when the capability is present",
            Applicability::WithCapability(Capability::EmbeddedTextExtraction),
            known_text,
            Outcome::NonEmptyText,
        ),
        capability_scenario(
            "text extraction: an unknown track is a typed error, not empty text",
            Applicability::WithCapability(Capability::EmbeddedTextExtraction),
            Action::ExtractText { track: TrackRef::Unknown },
            Outcome::Error(ErrorKind::UnknownTrack),
        ),
        capability_scenario(
            "subtitle injection: refused when the capability is absent",
            Applicability::WithoutCapability(Capability::ExternalSubtitleInjection),
            Action::InjectSubtitle,
            unsupported.copy(),
        ),
        capability_scenario(
            "subtitle injection: accepted when the capability is present",
            Applicability::WithCapability(Capability::ExternalSubtitleInjection),
            Action::InjectSubtitle,
            Outcome::Success,
        ),
        capability_scenario(
            "rendered text: refused when the capability is absent",
            Applicability::WithoutCapability(Capability::RenderedTextObservation),
            Action::RenderedText,
            unsupported,
        ),
        capability_scenario(
            "rendered text: answered when the capability is present",
            Applicability::WithCapability(Capability::RenderedTextObservation),
            Action::RenderedText,
            Outcome::Success,
        ),
    ];
    proof {
        assert forall|i: int| 0 <= i < 11 implies steps_model((#[trigger] all@[i]).steps@) == probe_steps(
            capability_probes()[i],
        ) by {
            if i == 0 {} else if i == 1 {} else if i == 2 {} else if i == 3 {} else if i == 4 {} else if i == 5 {}
            else if i == 6 {} else if i == 7 {} else if i == 8 {} else if i == 9 {} else {}
        }
    }
    all
}

/// Whether `scenarios` is exactly the kit: each scenario's applicability
/// and steps, in order.
pub open spec fn is_kit(scenarios: Seq<Scenario>) -> bool {
    &&& applies_as_kit(scenarios)
    &&& scenarios.len() == kit_steps().len()
    &&& forall|i: int| 0 <= i < scenarios.len() ==> steps_model((#[trigger] scenarios[i]).steps@) == kit_steps()[i]
}

/// The one list. Adding a scenario here subjects every engine to it.
pub fn scenarios() -> (all: Vec<Scenario>)
    ensures
        is_kit(all@),
{
    let mut all = base_scenarios();
    let mut reentrancy = reentrancy_scenarios();
    let mut capability = capability_scenarios();
    let ghost b = all@;
    let ghost r = reentrancy@;
    let ghost g = capability@;
    all.append(&mut reentrancy);
    all.append(&mut capability);
    assert(all@ == b + r + g);
    assert forall|i: int| 0 <= i < all@.len() implies (#[trigger] all@[i]).applies == kit_applies()[i] by {
        if i >= 16 {
            assert(all@[i] == g[i - 16]);
        } else if i == 15 {
            assert(all@[i] == r[0]);
        } else {
            assert(all@[i] == b[i]);
        }
    }
    let ghost probes = capability_probes().map_values(|probe: (Action, OutcomeView)| probe_steps(probe));
    assert(kit_steps() == base_steps() + seq![reentrancy_steps()] + probes);
    assert forall|i: int| 0 <= i < all@.len() implies steps_model((#[trigger] all@[i]).steps@) == kit_steps()[i] by {
        if i >= 16 {
            assert(all@[i] == g[i - 16]);
            assert(probes[i - 16] == probe_steps(capability_probes()[i - 16]));
        } else if i == 15 {
            assert(all@[i] == r[0]);
        } else {
            assert(all@[i] == b[i]);
        }
    }
    all
}

/// How many of the first `n` scenarios apply to an engine with these
/// capabilities.
pub open spec fn applicable_upto(capabilities: Set<Capability>, n: nat) -> nat
    decreases n,
{
    if n == 0 {
        0
    } else {
        applicable_upto(capabilities, (n - 1) as nat) + if applies(kit_applies()[n - 1], capabilities) {
            1nat
        } else {
            0nat
        }
    }
}

/// How many scenarios apply to an engine with the given capabilities, so a
/// caller can check that a run was not vacuous.
pub fn applicable_count(capabilities: Capabilities) -> (count: usize)
    ensures
        count == applicable_upto(capabilities@, 27),
{
    let all = scenarios();
    let mut count: usize = 0;
    let mut i: usize = 0;
    while i < all.len()
        invariant
            i <= all@.len(),
            applies_as_kit(all@),
            count == applicable_upto(capabilities@, i as nat),
            count <= i,
        decreases all@.len() - i,
    {
        if all[i].applies.applies_to(capabilities) {
            count = count + 1;
        }
        i = i + 1;
    }
    count
}

/// Whether `f` reports step `f.step` of kit scenario `j` failing: the step's
/// action and expectation, and a verdict its judge gives on some answer.
pub open spec fn kit_failure_at<D>(f: Failure, j: int, inputs: ContractInputs<D>) -> bool {
    &&& 0 <= j < kit_steps().len()
    &&& f.step < kit_steps()[j].len()
    &&& kit_steps()[j][f.step as int].0 == f.action
    &&& kit_steps()[j][f.step as int].1 == f.expected@
    &&& judged_step(Err(f.detail), f.action, f.expected@, inputs)
}

/// Whether `f` reports a failing step of some kit scenario.
pub open spec fn kit_failure<D>(f: Failure, inputs: ContractInputs<D>) -> bool {
    exists|j: int| #[trigger] kit_failure_at(f, j, inputs)
}

/// Whether `f` is what some state of an engine of type `E` answers to the
/// query its step names (any failure of a step that is no query is).
pub open spec fn engine_failure<D, E: PlaybackEngine<D>>(f: Failure, inputs: ContractInputs<D>) -> bool {
    exists|state: E, mark: CallbackMark| #[trigger] queried_step(state, mark, Err(f.detail), f.action, f.expected@, inputs)
}

/// Runs every applicable scenario against a freshly built engine each
/// time; every failure reported names a failing step of the kit, judged on
/// an answer to the query that step names.
pub fn run_all<D, E: PlaybackEngine<D>, B: Fn() -> E, P: Pause>(build: B, inputs: &ContractInputs<D>, pause: &P) -> (failures:
    Vec<Failure>)
    requires
        forall|| #[trigger] build.requires(()),
    ensures
        failures@.len() <= kit_applies().len(),
        forall|k: int| 0 <= k < failures@.len() ==> #[trigger] kit_failure(failures@[k], *inputs),
        forall|k: int| 0 <= k < failures@.len() ==> #[trigger] engine_failure::<D, E>(failures@[k], *inputs),
{
    let all = scenarios();
    let mut failures: Vec<Failure> = Vec::new();
    let mut i: usize = 0;
    while i < all.len()
        invariant
            i <= all@.len(),
            is_kit(all@),
            failures@.len() <= i,
            forall|k: int| 0 <= k < failures@.len() ==> #[trigger] kit_failure(failures@[k], *inputs),
            forall|k: int| 0 <= k < failures@.len() ==> #[trigger] engine_failure::<D, E>(failures@[k], *inputs),
            forall|| #[trigger] build.requires(()),
        decreases all@.len() - i,
    {
        let mut engine = build();
        if all[i].applies.applies_to(engine.capabilities()) {
            match run_scenario(&mut engine, &all[i], inputs, pause) {
                Some(failure) => {
                    proof {
                        let steps = all@[i as int].steps@;
                        assert(steps_model(steps) == kit_steps()[i as int]);
                        assert(kit_steps()[i as int][failure.step as int] == step_model(steps[failure.step as int]));
                        assert(kit_failure_at(failure, i as int, *inputs));
                        let (state, mark): (E, CallbackMark) = choose|state: E, mark: CallbackMark|
                            mark.inside_spec() == steps[failure.step as int].inside_callback && #[trigger] queried_step(
                                state,
                                mark,
                                Err(failure.detail),
                                steps[failure.step as int].action,
                                steps[failure.step as int].expect@,
                                *inputs,
                            );
                        assert(queried_step(state, mark, Err(failure.detail), failure.action, failure.expected@, *inputs));
                        assert(engine_failure::<D, E>(failure, *inputs));
                    }
                    failures.push(failure);
                },
                None => {},
            }
        }
        i = i + 1;
    }
    failures
}

/// Every capability is covered in both directions, and the base scenarios
/// apply to every engine: a fully capable engine and a bare one together run
/// every scenario, the base ones twice.
pub proof fn law_every_capability_is_covered_in_both_directions(c: Capability)
    ensures
        exists|i: int| 0 <= i < kit_applies().len() && kit_applies()[i] == Applicability::WithCapability(c),
        exists|i: int| 0 <= i < kit_applies().len() && kit_applies()[i] == Applicability::WithoutCapability(c),
        applicable_upto(Set::<Capability>::full(), 27) == 22,
        applicable_upto(Set::<Capability>::empty(), 27) == 21,
{
    match c {
        Capability::PlaybackRate => {
            assert(kit_applies()[17] == Applicability::WithCapability(c));
            assert(kit_applies()[16] == Applicability::WithoutCapability(c));
        },
        Capability::Volume => {
            assert(kit_applies()[19] == Applicability::WithCapability(c));
            assert(kit_applies()[18] == Applicability::WithoutCapability(c));
        },
        Capability::EmbeddedTextExtraction => {
            assert(kit_applies()[21] == Applicability::WithCapability(c));
            assert(kit_applies()[20] == Applicability::WithoutCapability(c));
        },
        Capability::ExternalSubtitleInjection => {
            assert(kit_applies()[24] == Applicability::WithCapability(c));
            assert(kit_applies()[23] == Applicability::WithoutCapability(c));
        },
        Capability::RenderedTextObservation => {
            assert(kit_applies()[26] == Applicability::WithCapability(c));
            assert(kit_applies()[25] == Applicability::WithoutCapability(c));
        },
    }
    reveal_with_fuel(applicable_upto, 28);
}

} // verus!
