//! The `PlaybackEngine` port itself.
//!
//! The base operations are mandatory on every engine. Four need a
//! capability: their default refuses with [`PlaybackError::Unsupported`], so
//! an engine that does not declare the capability gets the right refusal for
//! free. A relative seek is not a capability: its default is exact over
//! `position` and `seek`.
//!
//! Every operation is handed the calling thread's [`CallbackMark`] and must
//! refuse a call made from inside an event callback before anything else.
use crate::playback::capability::{Capabilities, Capability};
use crate::playback::error::{Operation, PlaybackError};
use crate::playback::event::{guard_reentrancy, CallbackMark, EventQueue, PlaybackState};
use crate::playback::geometry::VideoGeometry;
use crate::playback::media::MediaSource;
use crate::playback::track::{TrackDescriptor, TrackId, TrackKind};
use vstd::prelude::*;

verus! {

/// The target of a relative seek: the current position moved by `delta_ms`,
/// clamped at zero and at the largest position.
pub open spec fn relative_target(current_ms: u64, delta_ms: i64) -> u64 {
    let target = current_ms + delta_ms;
    if target < 0 {
        0
    } else if target > u64::MAX {
        u64::MAX
    } else {
        target as u64
    }
}

/// Moves a position by a signed offset, saturating at both ends.
pub fn move_position(current_ms: u64, delta_ms: i64) -> (target: u64)
    ensures
        target == relative_target(current_ms, delta_ms),
{
    if delta_ms >= 0 {
        current_ms.saturating_add(delta_ms as u64)
    } else {
        let back: u64 = if delta_ms == i64::MIN {
            9223372036854775808u64
        } else {
            (0 - delta_ms) as u64
        };
        current_ms.saturating_sub(back)
    }
}

/// An order that changes what an engine does.
pub enum EngineOrder {
    Load { source: MediaSource },
    Play,
    Pause,
    Stop,
    Seek { to_ms: u64 },
    SelectTrack { kind: TrackKind, track: Option<TrackId> },
    Shutdown,
    SetSubtitleBottomInset { thousandths: u32 },
}

/// An order handed to an engine, with the engine's answer: the error it
/// refused with, or `None` when it accepted.
pub struct EngineCommand {
    pub order: EngineOrder,
    pub refusal: Option<PlaybackError>,
}

/// The refusal in a plain answer.
pub open spec fn refusal_of(result: Result<(), PlaybackError>) -> Option<PlaybackError> {
    match result {
        Ok(()) => None,
        Err(e) => Some(e),
    }
}

/// The log entry of `order` answered with `result`.
pub open spec fn command(order: EngineOrder, result: Result<(), PlaybackError>) -> EngineCommand {
    EngineCommand { order, refusal: refusal_of(result) }
}

/// A device media engine behind one contract, rendering subtitle documents
/// of type `D`. Positions and durations are in milliseconds; a rate or a
/// volume is in thousandths (`1500` is 1.5).
pub trait PlaybackEngine<D>: Sized {
    /// Every order handed to the engine so far, in order, each with the
    /// engine's answer.
    spec fn commands(&self) -> Seq<EngineCommand>;

    /// The optional capabilities; constant for the engine's lifetime.
    fn capabilities(&self) -> Capabilities;

    /// Loads a medium without starting playback.
    fn load(&mut self, mark: &CallbackMark, source: &MediaSource) -> (result: Result<(), PlaybackError>)
        ensures
            final(self).commands() == old(self).commands().push(
                command(EngineOrder::Load { source: *source }, result),
            ),
    ;

    fn play(&mut self, mark: &CallbackMark) -> (result: Result<(), PlaybackError>)
        ensures
            final(self).commands() == old(self).commands().push(command(EngineOrder::Play, result)),
    ;

    fn pause(&mut self, mark: &CallbackMark) -> (result: Result<(), PlaybackError>)
        ensures
            final(self).commands() == old(self).commands().push(command(EngineOrder::Pause, result)),
    ;

    /// Stops and releases the medium; the engine is idle and can load again.
    fn stop(&mut self, mark: &CallbackMark) -> (result: Result<(), PlaybackError>)
        ensures
            final(self).commands() == old(self).commands().push(command(EngineOrder::Stop, result)),
    ;

    /// Seeks to an absolute position. Past the end is not an error: it ends
    /// playback.
    fn seek(&mut self, mark: &CallbackMark, to_ms: u64) -> (result: Result<(), PlaybackError>)
        ensures
            final(self).commands() == old(self).commands().push(command(EngineOrder::Seek { to_ms }, result)),
    ;

    /// Whether the engine, as it is, may answer `position` with `answer`.
    spec fn position_answers(&self, mark: CallbackMark, answer: Result<u64, PlaybackError>) -> bool;

    fn position(&self, mark: &CallbackMark) -> (result: Result<u64, PlaybackError>)
        ensures
            self.position_answers(*mark, result),
    ;

    /// The medium's duration, or `None` for one without an end.
    fn duration(&self, mark: &CallbackMark) -> (result: Result<Option<u64>, PlaybackError>)
        ensures
            self.duration_answers(*mark, result),
    ;

    /// Whether the engine, as it is, may answer `duration` with `answer`.
    spec fn duration_answers(&self, mark: CallbackMark, answer: Result<Option<u64>, PlaybackError>) -> bool;

    fn state(&self) -> (state: PlaybackState)
        ensures
            self.state_answers(state),
    ;

    /// Whether the engine, as it is, may report `state`.
    spec fn state_answers(&self, state: PlaybackState) -> bool;

    /// The display size of the loaded medium, or `None` when it has no
    /// picture.
    fn video_geometry(&self, mark: &CallbackMark) -> (result: Result<Option<VideoGeometry>, PlaybackError>)
        ensures
            self.geometry_answers(*mark, result),
    ;

    /// Whether the engine, as it is, may answer `video_geometry` with `answer`.
    spec fn geometry_answers(&self, mark: CallbackMark, answer: Result<Option<VideoGeometry>, PlaybackError>) -> bool;

    /// The embedded tracks of one kind, as metadata only.
    fn tracks(&self, mark: &CallbackMark, kind: TrackKind) -> (result: Result<Vec<TrackDescriptor>, PlaybackError>)
        ensures
            self.tracks_answers(*mark, kind, result),
    ;

    /// Whether the engine, as it is, may answer `tracks` of `kind` with
    /// `answer`.
    spec fn tracks_answers(
        &self,
        mark: CallbackMark,
        kind: TrackKind,
        answer: Result<Vec<TrackDescriptor>, PlaybackError>,
    ) -> bool;

    /// Selects a track, or `None` to select nothing of that kind.
    fn select_track(&mut self, mark: &CallbackMark, kind: TrackKind, track: Option<TrackId>) -> (result: Result<
        (),
        PlaybackError,
    >)
        ensures
            final(self).commands() == old(self).commands().push(
                command(EngineOrder::SelectTrack { kind, track }, result),
            ),
    ;

    fn selected_track(&self, mark: &CallbackMark, kind: TrackKind) -> (result: Result<Option<TrackId>, PlaybackError>)
        ensures
            self.selected_answers(*mark, kind, result),
    ;

    /// Whether the engine, as it is, may answer `selected_track` of `kind`
    /// with `answer`.
    spec fn selected_answers(&self, mark: CallbackMark, kind: TrackKind, answer: Result<Option<TrackId>, PlaybackError>) -> bool;

    /// Whether the engine, as it is, may hand out `text` as the text of
    /// embedded subtitle track `track`.
    spec fn text_answers(&self, mark: CallbackMark, track: TrackId, text: Seq<char>) -> bool;

    /// The pending event queue.
    fn events(&mut self) -> &mut EventQueue;

    /// Releases everything; afterwards every operation is refused. Shutting
    /// down twice is not an error.
    fn shutdown(&mut self, mark: &CallbackMark) -> (result: Result<(), PlaybackError>)
        ensures
            final(self).commands() == old(self).commands().push(command(EngineOrder::Shutdown, result)),
    ;

    /// Keeps subtitles out of the bottom of the surface, a share of its
    /// height in thousandths. Base, not a capability.
    fn set_subtitle_bottom_inset(&mut self, mark: &CallbackMark, thousandths: u32) -> (result: Result<
        (),
        PlaybackError,
    >)
        ensures
            final(self).commands() == old(self).commands().push(
                command(EngineOrder::SetSubtitleBottomInset { thousandths }, result),
            ),
    ;

    /// Seeks by a signed offset: `position` then `seek`, clamped at zero.
    fn seek_relative(&mut self, mark: &CallbackMark, delta_ms: i64) -> (result: Result<(), PlaybackError>)
        default_ensures
            mark.inside_spec() ==> result == Err::<(), PlaybackError>(
                PlaybackError::ReentrantCall { operation: Operation::Seek },
            ) && *final(self) == *old(self),
    {
        match guard_reentrancy(mark, Operation::Seek) {
            Ok(()) => {},
            Err(e) => return Err(e),
        }
        let current = match self.position(mark) {
            Ok(p) => p,
            Err(e) => return Err(e),
        };
        self.seek(mark, move_position(current, delta_ms))
    }

    /// Sets the playback rate. Needs [`Capability::PlaybackRate`].
    fn set_rate(&mut self, mark: &CallbackMark, rate_thousandths: i32) -> (result: Result<(), PlaybackError>)
        default_ensures
            result == Err::<(), PlaybackError>(
                PlaybackError::Unsupported { operation: Operation::SetRate, capability: Capability::PlaybackRate },
            ),
            *final(self) == *old(self),
    {
        Err(PlaybackError::Unsupported { operation: Operation::SetRate, capability: Capability::PlaybackRate })
    }

    /// Sets the output volume, `0..=1000`. Needs [`Capability::Volume`].
    fn set_volume(&mut self, mark: &CallbackMark, volume_thousandths: i32) -> (result: Result<(), PlaybackError>)
        default_ensures
            result == Err::<(), PlaybackError>(
                PlaybackError::Unsupported { operation: Operation::SetVolume, capability: Capability::Volume },
            ),
            *final(self) == *old(self),
    {
        Err(PlaybackError::Unsupported { operation: Operation::SetVolume, capability: Capability::Volume })
    }

    /// The text of an embedded subtitle track. Needs
    /// [`Capability::EmbeddedTextExtraction`].
    fn extract_text(&mut self, mark: &CallbackMark, track: TrackId) -> (result: Result<String, PlaybackError>)
        ensures
            result matches Ok(text) ==> old(self).text_answers(*mark, track, text@),
        default_ensures
            result == Err::<String, PlaybackError>(
                PlaybackError::Unsupported {
                    operation: Operation::ExtractText,
                    capability: Capability::EmbeddedTextExtraction,
                },
            ),
            *final(self) == *old(self),
    {
        Err(
            PlaybackError::Unsupported {
                operation: Operation::ExtractText,
                capability: Capability::EmbeddedTextExtraction,
            },
        )
    }

    /// The subtitle text on screen now, if any. Needs
    /// [`Capability::RenderedTextObservation`].
    fn rendered_subtitle_text(&self, mark: &CallbackMark) -> (result: Result<Option<String>, PlaybackError>)
        default_ensures
            result == Err::<Option<String>, PlaybackError>(
                PlaybackError::Unsupported {
                    operation: Operation::RenderedText,
                    capability: Capability::RenderedTextObservation,
                },
            ),
    {
        Err(
            PlaybackError::Unsupported {
                operation: Operation::RenderedText,
                capability: Capability::RenderedTextObservation,
            },
        )
    }

    /// Hands the engine a document to render. Needs
    /// [`Capability::ExternalSubtitleInjection`].
    fn inject_subtitle(&mut self, mark: &CallbackMark, document: &D) -> (result: Result<(), PlaybackError>)
        default_ensures
            result == Err::<(), PlaybackError>(
                PlaybackError::Unsupported { operation: Operation::InjectSubtitle, capability: Capability::ExternalSubtitleInjection },
            ),
            *final(self) == *old(self),
    {
        Err(
            PlaybackError::Unsupported {
                operation: Operation::InjectSubtitle,
                capability: Capability::ExternalSubtitleInjection,
            },
        )
    }
}

} // verus!
