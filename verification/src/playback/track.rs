//! What the engine reports about an embedded audio or subtitle track.
//!
//! A descriptor is metadata only. Its title is often taken straight from the
//! container and is regularly a private filename or release name, so its
//! diagnostic text never shows the title.
use crate::text::{decimal, decimal_text, same_text};
use vstd::prelude::*;

verus! {

/// Whether a track carries audio or subtitles.
#[derive(Debug, Clone, Copy, PartialEq, Eq, PartialOrd, Ord, Hash, Structural)]
pub enum TrackKind {
    Audio,
    Subtitle,
}

/// The stable lowercase name of a track kind.
pub open spec fn track_kind_name(kind: TrackKind) -> Seq<char> {
    match kind {
        TrackKind::Audio => "audio"@,
        TrackKind::Subtitle => "subtitle"@,
    }
}

impl TrackKind {
    /// Stable lowercase name. Safe to log.
    pub fn as_str(self) -> (name: &'static str)
        ensures
            name@ == track_kind_name(self),
    {
        match self {
            TrackKind::Audio => "audio",
            TrackKind::Subtitle => "subtitle",
        }
    }
}

/// The engine's index for a track inside the loaded medium.
#[derive(Debug, Clone, Copy, PartialEq, Eq, PartialOrd, Ord, Hash, Structural)]
pub struct TrackId(pub u32);

impl TrackId {
    pub fn index(self) -> (index: u32)
        ensures
            index == self.0,
    {
        self.0
    }

    /// Display text: `#` and the index.
    pub fn display_text(self) -> (text: String)
        ensures
            text@ == "#"@ + decimal(self.0 as nat),
    {
        let mut text = String::from_str("#");
        let n = decimal_text(self.0 as u64);
        text.append(n.as_str());
        proof {
            reveal_strlit("#");
        }
        text
    }
}

/// The subtitle codecs, as the demuxer names them, whose tracks carry text.
/// Anything else, an unknown name included, is taken not to.
pub open spec fn text_subtitle_codec(codec: Seq<char>) -> bool {
    codec == "subrip"@ || codec == "srt"@ || codec == "ass"@ || codec == "ssa"@ || codec
        == "webvtt"@ || codec == "text"@ || codec == "mov_text"@ || codec == "microdvd"@ || codec
        == "eia_608"@ || codec == "subviewer"@ || codec == "subviewer1"@ || codec == "sami"@
        || codec == "stl"@
}

/// Whether a subtitle codec carries text at all. Bitmap formats and unknown
/// names do not.
pub fn subtitle_carries_text(codec: &str) -> (text: bool)
    ensures
        text == text_subtitle_codec(codec@),
{
    same_text(codec, "subrip") || same_text(codec, "srt") || same_text(codec, "ass")
        || same_text(codec, "ssa") || same_text(codec, "webvtt") || same_text(codec, "text")
        || same_text(codec, "mov_text") || same_text(codec, "microdvd") || same_text(
        codec,
        "eia_608",
    ) || same_text(codec, "subviewer") || same_text(codec, "subviewer1") || same_text(
        codec,
        "sami",
    ) || same_text(codec, "stl")
}

/// One embedded track, as metadata. The language is the container's tag, as
/// text; the title is for display only.
#[derive(Clone, PartialEq, Eq)]
pub struct TrackDescriptor {
    id: TrackId,
    kind: TrackKind,
    language: Option<String>,
    title: Option<String>,
    codec: String,
    is_default: bool,
    is_text: bool,
}

/// The model of a track descriptor.
pub struct TrackModel {
    pub id: TrackId,
    pub kind: TrackKind,
    pub language: Option<Seq<char>>,
    pub title: Option<Seq<char>>,
    pub codec: Seq<char>,
    pub is_default: bool,
    pub is_text: bool,
}

pub open spec fn opt_text(value: Option<String>) -> Option<Seq<char>> {
    match value {
        Some(s) => Some(s@),
        None => None,
    }
}

impl View for TrackDescriptor {
    type V = TrackModel;

    closed spec fn view(&self) -> TrackModel {
        TrackModel {
            id: self.id,
            kind: self.kind,
            language: opt_text(self.language),
            title: opt_text(self.title),
            codec: self.codec@,
            is_default: self.is_default,
            is_text: self.is_text,
        }
    }
}

impl TrackDescriptor {
    /// A descriptor with no language, no title and not the default. Whether
    /// it carries text is derived here, once: a subtitle track whose codec
    /// carries text.
    pub fn new(id: TrackId, kind: TrackKind, codec: &str) -> (track: TrackDescriptor)
        ensures
            track@.id == id,
            track@.kind == kind,
            track@.language is None,
            track@.title is None,
            track@.codec == codec@,
            !track@.is_default,
            track@.is_text == (kind == TrackKind::Subtitle && text_subtitle_codec(codec@)),
    {
        let is_text = match kind {
            TrackKind::Subtitle => subtitle_carries_text(codec),
            TrackKind::Audio => false,
        };
        TrackDescriptor {
            id,
            kind,
            language: None,
            title: None,
            codec: codec.to_owned(),
            is_default: false,
            is_text,
        }
    }

    pub fn with_language(self, language: Option<String>) -> (track: TrackDescriptor)
        ensures
            track@ == (TrackModel { language: opt_text(language), ..self@ }),
    {
        TrackDescriptor { language, ..self }
    }

    /// Sets the display title. Never log the result.
    pub fn with_title(self, title: Option<String>) -> (track: TrackDescriptor)
        ensures
            track@ == (TrackModel { title: opt_text(title), ..self@ }),
    {
        TrackDescriptor { title, ..self }
    }

    pub fn with_default(self, is_default: bool) -> (track: TrackDescriptor)
        ensures
            track@ == (TrackModel { is_default, ..self@ }),
    {
        TrackDescriptor { is_default, ..self }
    }

    pub fn id(&self) -> (id: TrackId)
        ensures
            id == self@.id,
    {
        self.id
    }

    pub fn kind(&self) -> (kind: TrackKind)
        ensures
            kind == self@.kind,
    {
        self.kind
    }

    /// The declared language tag, or `None` when the container does not say.
    pub fn language(&self) -> (language: Option<&str>)
        ensures
            match language {
                Some(l) => self@.language == Some(l@),
                None => self@.language is None,
            },
    {
        match &self.language {
            Some(l) => Some(l.as_str()),
            None => None,
        }
    }

    /// Display text for the menu. Never log this.
    pub fn title(&self) -> (title: Option<&str>)
        ensures
            match title {
                Some(t) => self@.title == Some(t@),
                None => self@.title is None,
            },
    {
        match &self.title {
            Some(t) => Some(t.as_str()),
            None => None,
        }
    }

    /// The container's codec name. Safe to log.
    pub fn codec(&self) -> (codec: &str)
        ensures
            codec@ == self@.codec,
    {
        self.codec.as_str()
    }

    pub fn is_default(&self) -> (is_default: bool)
        ensures
            is_default == self@.is_default,
    {
        self.is_default
    }

    /// Whether the track carries text rather than bitmaps.
    pub fn is_text(&self) -> (is_text: bool)
        ensures
            is_text == self@.is_text,
    {
        self.is_text
    }

    /// Diagnostic text: every field but the title, which is only said to be
    /// there or not. The codec and the language are written between quotes
    /// as they are.
    pub fn debug_text(&self) -> (text: String)
        ensures
            text@ == track_debug(self@),
    {
        let mut text = String::from_str("TrackDescriptor { id: TrackId(");
        let id = decimal_text(self.id.0 as u64);
        text.append(id.as_str());
        text.append("), kind: ");
        text.append(track_kind_debug_name(self.kind));
        text.append(", language: ");
        match &self.language {
            Some(language) => {
                text.append("Some(\"");
                text.append(language.as_str());
                text.append("\")");
            },
            None => text.append("None"),
        }
        text.append(", codec: \"");
        text.append(self.codec.as_str());
        text.append("\", is_default: ");
        text.append(bool_text(self.is_default));
        text.append(", is_text: ");
        text.append(bool_text(self.is_text));
        text.append(", has_title: ");
        text.append(bool_text(self.title.is_some()));
        text.append(" }");
        proof {
            reveal_strlit("TrackDescriptor { id: TrackId(");
            reveal_strlit("), kind: ");
            reveal_strlit(", language: ");
            reveal_strlit("Some(\"");
            reveal_strlit("\")");
            reveal_strlit("None");
            reveal_strlit(", codec: \"");
            reveal_strlit("\", is_default: ");
            reveal_strlit(", is_text: ");
            reveal_strlit(", has_title: ");
            reveal_strlit(" }");
        }
        text
    }
}

/// The debug name of a track kind.
pub open spec fn track_kind_debug(kind: TrackKind) -> Seq<char> {
    match kind {
        TrackKind::Audio => "Audio"@,
        TrackKind::Subtitle => "Subtitle"@,
    }
}

/// `true` or `false`.
pub open spec fn bool_debug(b: bool) -> Seq<char> {
    if b {
        "true"@
    } else {
        "false"@
    }
}

/// The diagnostic text of a descriptor; it holds no part of the title.
pub open spec fn track_debug(t: TrackModel) -> Seq<char> {
    "TrackDescriptor { id: TrackId("@ + decimal(t.id.0 as nat) + "), kind: "@ + track_kind_debug(t.kind)
        + ", language: "@ + match t.language {
        Some(l) => "Some(\""@ + l + "\")"@,
        None => "None"@,
    } + ", codec: \""@ + t.codec + "\", is_default: "@ + bool_debug(t.is_default) + ", is_text: "@
        + bool_debug(t.is_text) + ", has_title: "@ + bool_debug(t.title is Some) + " }"@
}

pub fn track_kind_debug_name(kind: TrackKind) -> (name: &'static str)
    ensures
        name@ == track_kind_debug(kind),
{
    proof {
        reveal_strlit("Audio");
        reveal_strlit("Subtitle");
    }
    match kind {
        TrackKind::Audio => "Audio",
        TrackKind::Subtitle => "Subtitle",
    }
}

pub fn bool_text(b: bool) -> (text: &'static str)
    ensures
        text@ == bool_debug(b),
{
    proof {
        reveal_strlit("true");
        reveal_strlit("false");
    }
    if b {
        "true"
    } else {
        "false"
    }
}

} // verus!
