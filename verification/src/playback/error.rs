//! What a playback operation can refuse to do, as a typed value.
//!
//! No variant carries a media URL, a private path, a filename, a token or any
//! provider payload: every field is a bounded enum or a number.
use crate::playback::capability::{capability_name, capability_variant_name, Capability};
use crate::playback::track::{track_kind_debug, track_kind_debug_name, track_kind_name, TrackKind};
use crate::text::{decimal, decimal_text, digit_char, signed_decimal, signed_decimal_text};
use vstd::prelude::*;

verus! {

/// Which port operation produced an error.
#[derive(Debug, Clone, Copy, PartialEq, Eq, PartialOrd, Ord, Hash, Structural)]
pub enum Operation {
    Load,
    Play,
    Pause,
    Stop,
    Seek,
    Position,
    Duration,
    State,
    VideoGeometry,
    SetRate,
    SetVolume,
    Tracks,
    SelectTrack,
    ExtractText,
    InjectSubtitle,
    RenderedText,
    SetSubtitleBottomInset,
    Shutdown,
}

/// The stable lowercase name of an operation.
pub open spec fn operation_name(operation: Operation) -> Seq<char> {
    match operation {
        Operation::Load => "load"@,
        Operation::Play => "play"@,
        Operation::Pause => "pause"@,
        Operation::Stop => "stop"@,
        Operation::Seek => "seek"@,
        Operation::Position => "position"@,
        Operation::Duration => "duration"@,
        Operation::State => "state"@,
        Operation::VideoGeometry => "video_geometry"@,
        Operation::SetRate => "set_rate"@,
        Operation::SetVolume => "set_volume"@,
        Operation::Tracks => "tracks"@,
        Operation::SelectTrack => "select_track"@,
        Operation::ExtractText => "extract_text"@,
        Operation::InjectSubtitle => "inject_subtitle"@,
        Operation::RenderedText => "rendered_text"@,
        Operation::SetSubtitleBottomInset => "set_subtitle_bottom_inset"@,
        Operation::Shutdown => "shutdown"@,
    }
}

impl Operation {
    /// Stable lowercase name. Safe to log.
    pub fn as_str(self) -> (name: &'static str)
        ensures
            name@ == operation_name(self),
    {
        match self {
            Operation::Load => "load",
            Operation::Play => "play",
            Operation::Pause => "pause",
            Operation::Stop => "stop",
            Operation::Seek => "seek",
            Operation::Position => "position",
            Operation::Duration => "duration",
            Operation::State => "state",
            Operation::VideoGeometry => "video_geometry",
            Operation::SetRate => "set_rate",
            Operation::SetVolume => "set_volume",
            Operation::Tracks => "tracks",
            Operation::SelectTrack => "select_track",
            Operation::ExtractText => "extract_text",
            Operation::InjectSubtitle => "inject_subtitle",
            Operation::RenderedText => "rendered_text",
            Operation::SetSubtitleBottomInset => "set_subtitle_bottom_inset",
            Operation::Shutdown => "shutdown",
        }
    }
}

/// Why loading failed, without saying anything about what was being loaded.
#[derive(Debug, Clone, Copy, PartialEq, Eq, PartialOrd, Ord, Hash, Structural)]
pub enum LoadFailure {
    NotFound,
    Unreadable,
    UnsupportedFormat,
    NetworkUnavailable,
}

/// The stable name of a load failure.
pub open spec fn load_failure_name(reason: LoadFailure) -> Seq<char> {
    match reason {
        LoadFailure::NotFound => "not_found"@,
        LoadFailure::Unreadable => "unreadable"@,
        LoadFailure::UnsupportedFormat => "unsupported_format"@,
        LoadFailure::NetworkUnavailable => "network_unavailable"@,
    }
}

impl LoadFailure {
    /// Stable lowercase name. Safe to log.
    pub fn as_str(self) -> (name: &'static str)
        ensures
            name@ == load_failure_name(self),
    {
        match self {
            LoadFailure::NotFound => "not_found",
            LoadFailure::Unreadable => "unreadable",
            LoadFailure::UnsupportedFormat => "unsupported_format",
            LoadFailure::NetworkUnavailable => "network_unavailable",
        }
    }
}

/// A refused or failed playback operation.
///
/// Rates are carried in thousandths (`1500` is a rate of 1.5), so a refusal
/// can say what was asked and what would have been accepted.
#[derive(Debug, Clone, Copy, PartialEq, Eq, Structural)]
pub enum PlaybackError {
    /// The engine does not declare the capability this operation needs.
    Unsupported { operation: Operation, capability: Capability },
    /// Called synchronously from inside an event callback, on the same thread.
    ReentrantCall { operation: Operation },
    /// The operation needs loaded media and nothing is loaded.
    NotLoaded { operation: Operation },
    /// The engine has been shut down; it accepts nothing further.
    ShutDown { operation: Operation },
    /// No track with the given id, or the id belongs to the other kind.
    UnknownTrack { kind: TrackKind },
    /// The track exists but does not carry text.
    TrackCarriesNoText,
    /// The engine supports rate changes but not this rate (thousandths).
    RateOutOfRange { requested: i32, min: i32, max: i32 },
    /// Loading failed, for a reason that names no medium.
    LoadFailed { reason: LoadFailure },
    /// The bottom inset is outside the accepted range.
    InsetOutOfRange { operation: Operation },
    /// The engine failed for a reason of its own; the code is never shown.
    EngineFailure { code: i32 },
}

/// The operation a playback error names, when it names one.
pub open spec fn error_operation(error: PlaybackError) -> Option<Operation> {
    match error {
        PlaybackError::Unsupported { operation, .. } => Some(operation),
        PlaybackError::ReentrantCall { operation } => Some(operation),
        PlaybackError::NotLoaded { operation } => Some(operation),
        PlaybackError::ShutDown { operation } => Some(operation),
        PlaybackError::InsetOutOfRange { operation } => Some(operation),
        _ => None,
    }
}

/// The fractional digits of a thousandth value, without trailing zeros.
pub open spec fn thousandths_fraction(frac: nat) -> Seq<char> {
    let d1 = frac / 100;
    let d2 = (frac / 10) % 10;
    let d3 = frac % 10;
    if d3 != 0 {
        seq![digit_char(d1), digit_char(d2), digit_char(d3)]
    } else if d2 != 0 {
        seq![digit_char(d1), digit_char(d2)]
    } else {
        seq![digit_char(d1)]
    }
}

/// A rate given in thousandths, written as a decimal number: `1500` is
/// `1.5`, `2000` is `2`, `-250` is `-0.25`.
pub open spec fn rate_text(value: int) -> Seq<char> {
    let magnitude = if value < 0 { -value } else { value };
    let sign = if value < 0 { "-"@ } else { ""@ };
    let whole = decimal((magnitude / 1000) as nat);
    let frac = (magnitude % 1000) as nat;
    if frac == 0 {
        sign + whole
    } else {
        sign + whole + "."@ + thousandths_fraction(frac)
    }
}

/// The human-readable text of a playback error. It names no engine code.
pub open spec fn playback_error_text(error: PlaybackError) -> Seq<char> {
    match error {
        PlaybackError::Unsupported { operation, capability } => operation_name(operation)
            + " needs the "@ + capability_name(capability) + " capability"@,
        PlaybackError::ReentrantCall { operation } => operation_name(operation)
            + " called from inside an event callback"@,
        PlaybackError::NotLoaded { operation } => operation_name(operation)
            + " needs loaded media"@,
        PlaybackError::ShutDown { operation } => operation_name(operation) + " after shutdown"@,
        PlaybackError::InsetOutOfRange { operation } => operation_name(operation)
            + " outside the accepted inset range"@,
        PlaybackError::UnknownTrack { kind } => "no such "@ + track_kind_name(kind) + " track"@,
        PlaybackError::TrackCarriesNoText => "the track carries no text"@,
        PlaybackError::RateOutOfRange { requested, min, max } => "rate "@ + rate_text(
            requested as int,
        ) + " outside ["@ + rate_text(min as int) + ", "@ + rate_text(max as int) + "]"@,
        PlaybackError::LoadFailed { reason } => "load failed: "@ + load_failure_name(reason),
        PlaybackError::EngineFailure { .. } => "engine failure"@,
    }
}

fn digit(d: u32) -> (c: char)
    requires
        d < 10,
    ensures
        c == digit_char(d as nat),
{
    if d == 0 {
        '0'
    } else if d == 1 {
        '1'
    } else if d == 2 {
        '2'
    } else if d == 3 {
        '3'
    } else if d == 4 {
        '4'
    } else if d == 5 {
        '5'
    } else if d == 6 {
        '6'
    } else if d == 7 {
        '7'
    } else if d == 8 {
        '8'
    } else {
        '9'
    }
}

/// Writes a rate given in thousandths as a decimal number.
pub fn rate_string(value: i32) -> (text: String)
    ensures
        text@ == rate_text(value as int),
{
    let magnitude: u32 = if value < 0 {
        (0i64 - value as i64) as u32
    } else {
        value as u32
    };
    let mut text = String::new();
    if value < 0 {
        text.append("-");
    }
    let whole = decimal_text((magnitude / 1000) as u64);
    text.append(whole.as_str());
    let frac = magnitude % 1000;
    if frac != 0 {
        text.append(".");
        let d1 = frac / 100;
        let d2 = (frac / 10) % 10;
        let d3 = frac % 10;
        let mut digits: Vec<char> = Vec::new();
        digits.push(digit(d1));
        if d2 != 0 || d3 != 0 {
            digits.push(digit(d2));
        }
        if d3 != 0 {
            digits.push(digit(d3));
        }
        let tail = crate::text::string_from_chars(digits.as_slice());
        text.append(tail.as_str());
    }
    proof {
        reveal_strlit("-");
        reveal_strlit("");
        reveal_strlit(".");
        let m: int = if value < 0 { -(value as int) } else { value as int };
        assert(magnitude as int == m);
        assert((magnitude / 1000) as nat == (m / 1000) as nat);
        assert((frac as nat) == (m % 1000) as nat);
    }
    text
}

impl PlaybackError {
    /// The operation that was refused, when the variant names one.
    pub fn operation(&self) -> (operation: Option<Operation>)
        ensures
            operation == error_operation(*self),
    {
        match self {
            PlaybackError::Unsupported { operation, .. } => Some(*operation),
            PlaybackError::ReentrantCall { operation } => Some(*operation),
            PlaybackError::NotLoaded { operation } => Some(*operation),
            PlaybackError::ShutDown { operation } => Some(*operation),
            PlaybackError::InsetOutOfRange { operation } => Some(*operation),
            _ => None,
        }
    }

    /// The human-readable text of the error.
    pub fn display_text(&self) -> (text: String)
        ensures
            text@ == playback_error_text(*self),
    {
        let mut text = String::new();
        match self {
            PlaybackError::Unsupported { operation, capability } => {
                text.append(operation.as_str());
                text.append(" needs the ");
                text.append(capability.as_str());
                text.append(" capability");
            },
            PlaybackError::ReentrantCall { operation } => {
                text.append(operation.as_str());
                text.append(" called from inside an event callback");
            },
            PlaybackError::NotLoaded { operation } => {
                text.append(operation.as_str());
                text.append(" needs loaded media");
            },
            PlaybackError::ShutDown { operation } => {
                text.append(operation.as_str());
                text.append(" after shutdown");
            },
            PlaybackError::InsetOutOfRange { operation } => {
                text.append(operation.as_str());
                text.append(" outside the accepted inset range");
            },
            PlaybackError::UnknownTrack { kind } => {
                text.append("no such ");
                text.append(kind.as_str());
                text.append(" track");
            },
            PlaybackError::TrackCarriesNoText => {
                text.append("the track carries no text");
            },
            PlaybackError::RateOutOfRange { requested, min, max } => {
                text.append("rate ");
                text.append(rate_string(*requested).as_str());
                text.append(" outside [");
                text.append(rate_string(*min).as_str());
                text.append(", ");
                text.append(rate_string(*max).as_str());
                text.append("]");
            },
            PlaybackError::LoadFailed { reason } => {
                text.append("load failed: ");
                text.append(reason.as_str());
            },
            PlaybackError::EngineFailure { .. } => {
                text.append("engine failure");
            },
        }
        proof {
            reveal_strlit("");
            assert(text@ =~= playback_error_text(*self));
        }
        text
    }
}

/// The debug name of an operation.
pub open spec fn operation_debug(value: Operation) -> Seq<char> {
    match value {
        Operation::Load => "Load"@,
        Operation::Play => "Play"@,
        Operation::Pause => "Pause"@,
        Operation::Stop => "Stop"@,
        Operation::Seek => "Seek"@,
        Operation::Position => "Position"@,
        Operation::Duration => "Duration"@,
        Operation::State => "State"@,
        Operation::VideoGeometry => "VideoGeometry"@,
        Operation::SetRate => "SetRate"@,
        Operation::SetVolume => "SetVolume"@,
        Operation::Tracks => "Tracks"@,
        Operation::SelectTrack => "SelectTrack"@,
        Operation::ExtractText => "ExtractText"@,
        Operation::InjectSubtitle => "InjectSubtitle"@,
        Operation::RenderedText => "RenderedText"@,
        Operation::SetSubtitleBottomInset => "SetSubtitleBottomInset"@,
        Operation::Shutdown => "Shutdown"@,
    }
}

/// The debug name of an operation.
pub fn operation_debug_name(value: Operation) -> (name: &'static str)
    ensures
        name@ == operation_debug(value),
{
    proof {
        reveal_strlit("Load");
        reveal_strlit("Play");
        reveal_strlit("Pause");
        reveal_strlit("Stop");
        reveal_strlit("Seek");
        reveal_strlit("Position");
        reveal_strlit("Duration");
        reveal_strlit("State");
        reveal_strlit("VideoGeometry");
        reveal_strlit("SetRate");
        reveal_strlit("SetVolume");
        reveal_strlit("Tracks");
        reveal_strlit("SelectTrack");
        reveal_strlit("ExtractText");
        reveal_strlit("InjectSubtitle");
        reveal_strlit("RenderedText");
        reveal_strlit("SetSubtitleBottomInset");
        reveal_strlit("Shutdown");
    }
    match value {
        Operation::Load => "Load",
        Operation::Play => "Play",
        Operation::Pause => "Pause",
        Operation::Stop => "Stop",
        Operation::Seek => "Seek",
        Operation::Position => "Position",
        Operation::Duration => "Duration",
        Operation::State => "State",
        Operation::VideoGeometry => "VideoGeometry",
        Operation::SetRate => "SetRate",
        Operation::SetVolume => "SetVolume",
        Operation::Tracks => "Tracks",
        Operation::SelectTrack => "SelectTrack",
        Operation::ExtractText => "ExtractText",
        Operation::InjectSubtitle => "InjectSubtitle",
        Operation::RenderedText => "RenderedText",
        Operation::SetSubtitleBottomInset => "SetSubtitleBottomInset",
        Operation::Shutdown => "Shutdown",
    }
}

/// The debug name of a load failure.
pub open spec fn load_failure_debug(value: LoadFailure) -> Seq<char> {
    match value {
        LoadFailure::NotFound => "NotFound"@,
        LoadFailure::Unreadable => "Unreadable"@,
        LoadFailure::UnsupportedFormat => "UnsupportedFormat"@,
        LoadFailure::NetworkUnavailable => "NetworkUnavailable"@,
    }
}

/// The debug name of a load failure.
pub fn load_failure_debug_name(value: LoadFailure) -> (name: &'static str)
    ensures
        name@ == load_failure_debug(value),
{
    proof {
        reveal_strlit("NotFound");
        reveal_strlit("Unreadable");
        reveal_strlit("UnsupportedFormat");
        reveal_strlit("NetworkUnavailable");
    }
    match value {
        LoadFailure::NotFound => "NotFound",
        LoadFailure::Unreadable => "Unreadable",
        LoadFailure::UnsupportedFormat => "UnsupportedFormat",
        LoadFailure::NetworkUnavailable => "NetworkUnavailable",
    }
}

/// The variant name of a playback error.
pub open spec fn error_variant(error: PlaybackError) -> Seq<char> {
    match error {
        PlaybackError::Unsupported { .. } => "Unsupported"@,
        PlaybackError::ReentrantCall { .. } => "ReentrantCall"@,
        PlaybackError::NotLoaded { .. } => "NotLoaded"@,
        PlaybackError::ShutDown { .. } => "ShutDown"@,
        PlaybackError::UnknownTrack { .. } => "UnknownTrack"@,
        PlaybackError::TrackCarriesNoText => "TrackCarriesNoText"@,
        PlaybackError::RateOutOfRange { .. } => "RateOutOfRange"@,
        PlaybackError::LoadFailed { .. } => "LoadFailed"@,
        PlaybackError::InsetOutOfRange { .. } => "InsetOutOfRange"@,
        PlaybackError::EngineFailure { .. } => "EngineFailure"@,
    }
}

/// The fields of a playback error, as its debug text shows them.
pub open spec fn error_fields(error: PlaybackError) -> Seq<char> {
    match error {
        PlaybackError::Unsupported { operation, capability } => " { operation: "@ + operation_debug(operation)
            + ", capability: "@ + capability_variant_name(capability) + " }"@,
        PlaybackError::ReentrantCall { operation } => " { operation: "@ + operation_debug(operation) + " }"@,
        PlaybackError::NotLoaded { operation } => " { operation: "@ + operation_debug(operation) + " }"@,
        PlaybackError::ShutDown { operation } => " { operation: "@ + operation_debug(operation) + " }"@,
        PlaybackError::UnknownTrack { kind } => " { kind: "@ + track_kind_debug(kind) + " }"@,
        PlaybackError::TrackCarriesNoText => Seq::empty(),
        PlaybackError::RateOutOfRange { requested, min, max } => " { requested: "@ + signed_decimal(
            requested as int,
        ) + ", min: "@ + signed_decimal(min as int) + ", max: "@ + signed_decimal(max as int) + " }"@,
        PlaybackError::LoadFailed { reason } => " { reason: "@ + load_failure_debug(reason) + " }"@,
        PlaybackError::InsetOutOfRange { operation } => " { operation: "@ + operation_debug(operation) + " }"@,
        PlaybackError::EngineFailure { code } => " { code: "@ + signed_decimal(code as int) + " }"@,
    }
}

/// The debug text of a playback error: its variant and its fields.
pub open spec fn playback_error_debug(error: PlaybackError) -> Seq<char> {
    error_variant(error) + error_fields(error)
}

fn operation_field(text: &mut String, operation: Operation)
    ensures
        final(text)@ == old(text)@ + " { operation: "@ + operation_debug(operation) + " }"@,
{
    text.append(" { operation: ");
    text.append(operation_debug_name(operation));
    text.append(" }");
}

fn append_signed(text: &mut String, value: i32)
    ensures
        final(text)@ == old(text)@ + signed_decimal(value as int),
{
    let digits = signed_decimal_text(value as i64);
    text.append(digits.as_str());
}

impl PlaybackError {
    /// The debug text of the error, as `{:?}` writes it.
    pub fn debug_text(&self) -> (text: String)
        ensures
            text@ == playback_error_debug(*self),
    {
        proof {
            reveal_strlit("Unsupported");
            reveal_strlit("ReentrantCall");
            reveal_strlit("NotLoaded");
            reveal_strlit("ShutDown");
            reveal_strlit("UnknownTrack");
            reveal_strlit("TrackCarriesNoText");
            reveal_strlit("RateOutOfRange");
            reveal_strlit("LoadFailed");
            reveal_strlit("InsetOutOfRange");
            reveal_strlit("EngineFailure");
            reveal_strlit(" { operation: ");
            reveal_strlit(", capability: ");
            reveal_strlit(" }");
            reveal_strlit(" { kind: ");
            reveal_strlit(" { requested: ");
            reveal_strlit(", min: ");
            reveal_strlit(", max: ");
            reveal_strlit(" { reason: ");
            reveal_strlit(" { code: ");
        }
        let name = match self {
            PlaybackError::Unsupported { .. } => "Unsupported",
            PlaybackError::ReentrantCall { .. } => "ReentrantCall",
            PlaybackError::NotLoaded { .. } => "NotLoaded",
            PlaybackError::ShutDown { .. } => "ShutDown",
            PlaybackError::UnknownTrack { .. } => "UnknownTrack",
            PlaybackError::TrackCarriesNoText => "TrackCarriesNoText",
            PlaybackError::RateOutOfRange { .. } => "RateOutOfRange",
            PlaybackError::LoadFailed { .. } => "LoadFailed",
            PlaybackError::InsetOutOfRange { .. } => "InsetOutOfRange",
            PlaybackError::EngineFailure { .. } => "EngineFailure",
        };
        let mut text = String::from_str(name);
        match self {
            PlaybackError::Unsupported { operation, capability } => {
                text.append(" { operation: ");
                text.append(operation_debug_name(*operation));
                text.append(", capability: ");
                text.append(capability.variant_name());
                text.append(" }");
            },
            PlaybackError::ReentrantCall { operation } => operation_field(&mut text, *operation),
            PlaybackError::NotLoaded { operation } => operation_field(&mut text, *operation),
            PlaybackError::ShutDown { operation } => operation_field(&mut text, *operation),
            PlaybackError::UnknownTrack { kind } => {
                text.append(" { kind: ");
                text.append(track_kind_debug_name(*kind));
                text.append(" }");
            },
            PlaybackError::TrackCarriesNoText => {},
            PlaybackError::RateOutOfRange { requested, min, max } => {
                text.append(" { requested: ");
                append_signed(&mut text, *requested);
                text.append(", min: ");
                append_signed(&mut text, *min);
                text.append(", max: ");
                append_signed(&mut text, *max);
                text.append(" }");
            },
            PlaybackError::LoadFailed { reason } => {
                text.append(" { reason: ");
                text.append(load_failure_debug_name(*reason));
                text.append(" }");
            },
            PlaybackError::InsetOutOfRange { operation } => operation_field(&mut text, *operation),
            PlaybackError::EngineFailure { code } => {
                text.append(" { code: ");
                append_signed(&mut text, *code);
                text.append(" }");
            },
        }
        text
    }
}

} // verus!
