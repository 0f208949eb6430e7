//! Normalizing a media file's name into a searchable title: the validated
//! request, the validated result and the payload-free failures.
//!
//! The stem and the title are private data: neither appears in a diagnostic
//! text.
use crate::text::{any_char, any_control, chars_of, decimal, decimal_text, has_char, has_control, is_control_char, string_from_chars, trim_chars, trimmed};
use vstd::prelude::*;

verus! {

/// The longest file stem accepted, in characters.
pub const MAX_FILENAME_STEM_CHARS: usize = 256;

/// The longest normalized title accepted, in characters.
pub const MAX_NORMALIZED_TITLE_CHARS: usize = 512;

/// Whether a stem may be sent for normalization: once trimmed it is
/// non-empty, at most 256 characters, free of control characters and of path
/// separators.
pub open spec fn valid_stem(stem: Seq<char>) -> bool {
    let t = trimmed(stem);
    t.len() > 0 && t.len() <= 256 && !has_control(t) && !has_char(t, '/') && !has_char(t, '\\')
}

/// A stem is accepted exactly when, once trimmed, it is non-empty, at most
/// 256 characters long, and holds no control character, no `/` and no `\`;
/// any other character, underscores and dots included, is fine.
pub proof fn law_stem_acceptance(stem: Seq<char>)
    ensures
        valid_stem(stem) <==> ({
            let t = trimmed(stem);
            &&& 0 < t.len() <= 256
            &&& forall|i: int|
                0 <= i < t.len() ==> !is_control_char(#[trigger] t[i]) && t[i] != '/' && t[i] != '\\'
        }),
{
    let t = trimmed(stem);
    if forall|i: int| 0 <= i < t.len() ==> !is_control_char(#[trigger] t[i]) && t[i] != '/' && t[i] != '\\' {
        assert(!has_control(t));
        assert(!has_char(t, '/'));
        assert(!has_char(t, '\\'));
    }
    if valid_stem(stem) {
        assert forall|i: int| 0 <= i < t.len() implies !is_control_char(#[trigger] t[i]) && t[i] != '/' && t[i]
            != '\\' by {
            if is_control_char(t[i]) {
                assert(has_control(t));
            }
            if t[i] == '/' {
                assert(has_char(t, '/'));
            }
            if t[i] == '\\' {
                assert(has_char(t, '\\'));
            }
        }
    }
}

/// A file stem to normalize, trimmed and validated.
#[derive(Clone, PartialEq, Eq)]
pub struct FilenameNormalizationRequest {
    stem: String,
}

impl View for FilenameNormalizationRequest {
    type V = Seq<char>;

    closed spec fn view(&self) -> Seq<char> {
        self.stem@
    }
}

impl FilenameNormalizationRequest {
    /// Trims and validates a stem; a path, a control character or an empty
    /// or overlong stem is an invalid request.
    pub fn new(stem: &str) -> (request: Result<FilenameNormalizationRequest, FilenameNormalizationError>)
        ensures
            request is Ok <==> valid_stem(stem@),
            request is Ok <==> ({
                let t = trimmed(stem@);
                &&& 0 < t.len() <= 256
                &&& forall|i: int|
                    0 <= i < t.len() ==> !is_control_char(#[trigger] t[i]) && t[i] != '/' && t[i] != '\\'
            }),
            request matches Ok(r) ==> r@ == trimmed(stem@),
            request matches Err(e) ==> e == FilenameNormalizationError::InvalidRequest,
    {
        let chars = chars_of(stem);
        let t = trim_chars(chars.as_slice());
        if t.len() == 0 || t.len() > MAX_FILENAME_STEM_CHARS || any_control(t.as_slice()) || any_char(
            t.as_slice(),
            '/',
        ) || any_char(t.as_slice(), '\\') {
            proof {
                law_stem_acceptance(stem@);
            }
            return Err(FilenameNormalizationError::InvalidRequest);
        }
        proof {
            law_stem_acceptance(stem@);
        }
        Ok(FilenameNormalizationRequest { stem: string_from_chars(t.as_slice()) })
    }

    pub fn stem(&self) -> (stem: &str)
        ensures
            stem@ == self@,
    {
        self.stem.as_str()
    }

    /// Diagnostic text: the stem's length in characters, never the stem.
    pub fn debug_text(&self) -> (text: String)
        ensures
            text@ == "FilenameNormalizationRequest { stem_len: "@ + decimal(self@.len()) + " }"@,
    {
        let chars = chars_of(self.stem.as_str());
        let mut text = String::from_str("FilenameNormalizationRequest { stem_len: ");
        text.append(decimal_text(chars.len() as u64).as_str());
        text.append(" }");
        text
    }
}

/// Whether a provider's answer is an acceptable normalization: the trimmed
/// title is non-empty, at most 512 characters and free of control
/// characters; a year lies in 1900..=2999, a season is at most 99 and an
/// episode at most 999.
pub open spec fn valid_normalization(
    title: Seq<char>,
    year: Option<u16>,
    season: Option<u16>,
    episode: Option<u16>,
) -> bool {
    let t = trimmed(title);
    &&& t.len() > 0
    &&& t.len() <= 512
    &&& !has_control(t)
    &&& year matches Some(y) ==> 1900 <= y <= 2999
    &&& season matches Some(s) ==> s <= 99
    &&& episode matches Some(e) ==> e <= 999
}

/// A validated normalization result.
#[derive(Clone, PartialEq, Eq)]
pub struct FilenameNormalization {
    pub title: String,
    pub year: Option<u16>,
    pub season: Option<u16>,
    pub episode: Option<u16>,
}

pub open spec fn flag_text(flag: bool) -> Seq<char> {
    if flag {
        "true"@
    } else {
        "false"@
    }
}

fn flag_str(flag: bool) -> (text: &'static str)
    ensures
        text@ == flag_text(flag),
{
    if flag {
        "true"
    } else {
        "false"
    }
}

impl FilenameNormalization {
    /// Validates a provider's answer; anything outside the bounds is an
    /// invalid response. The title is kept trimmed.
    pub fn new(title: String, year: Option<u16>, season: Option<u16>, episode: Option<u16>) -> (result:
        Result<FilenameNormalization, FilenameNormalizationError>)
        ensures
            result is Ok <==> valid_normalization(title@, year, season, episode),
            result matches Ok(n) ==> n.title@ == trimmed(title@) && n.year == year && n.season
                == season && n.episode == episode,
            result matches Err(e) ==> e == FilenameNormalizationError::InvalidResponse,
    {
        let chars = chars_of(title.as_str());
        let t = trim_chars(chars.as_slice());
        let year_bad = match year {
            Some(y) => !(1900 <= y && y <= 2999),
            None => false,
        };
        let season_bad = match season {
            Some(s) => s > 99,
            None => false,
        };
        let episode_bad = match episode {
            Some(e) => e > 999,
            None => false,
        };
        if t.len() == 0 || t.len() > MAX_NORMALIZED_TITLE_CHARS || any_control(t.as_slice())
            || year_bad || season_bad || episode_bad {
            return Err(FilenameNormalizationError::InvalidResponse);
        }
        Ok(FilenameNormalization { title: string_from_chars(t.as_slice()), year, season, episode })
    }

    /// Diagnostic text: which fields are present, never their values.
    pub fn debug_text(&self) -> (text: String)
        ensures
            text@ == "FilenameNormalization { title: \"<present>\", year: "@ + flag_text(
                self.year is Some,
            ) + ", season: "@ + flag_text(self.season is Some) + ", episode: "@ + flag_text(
                self.episode is Some,
            ) + " }"@,
    {
        let mut text = String::from_str("FilenameNormalization { title: \"<present>\", year: ");
        text.append(flag_str(self.year.is_some()));
        text.append(", season: ");
        text.append(flag_str(self.season.is_some()));
        text.append(", episode: ");
        text.append(flag_str(self.episode.is_some()));
        text.append(" }");
        text
    }
}

/// What a normalizer found.
#[derive(Clone, PartialEq, Eq)]
pub enum FilenameNormalizationResult {
    Normalized(FilenameNormalization),
    Unknown,
}

impl FilenameNormalizationResult {
    /// Diagnostic text: the outcome only.
    pub fn debug_text(&self) -> (text: &'static str)
        ensures
            text@ == (match self {
                FilenameNormalizationResult::Normalized(_) => "FilenameNormalizationResult::normalized"@,
                FilenameNormalizationResult::Unknown => "FilenameNormalizationResult::unknown"@,
            }),
    {
        match self {
            FilenameNormalizationResult::Normalized(_) => "FilenameNormalizationResult::normalized",
            FilenameNormalizationResult::Unknown => "FilenameNormalizationResult::unknown",
        }
    }
}

/// Why normalization failed, without any payload.
#[derive(Debug, Clone, Copy, PartialEq, Eq, Structural)]
pub enum FilenameNormalizationError {
    InvalidRequest,
    Transport,
    HttpStatus,
    InvalidResponse,
    ResponseTooLarge,
    Cancelled,
    CapabilityMissing,
}

impl FilenameNormalizationError {
    /// The human-readable text of the error.
    pub fn display_text(self) -> (text: &'static str)
        ensures
            text@ == (match self {
                FilenameNormalizationError::InvalidRequest => "invalid filename normalization request"@,
                FilenameNormalizationError::Transport => "filename normalization transport failed"@,
                FilenameNormalizationError::HttpStatus => "filename normalization provider request failed"@,
                FilenameNormalizationError::InvalidResponse => "filename normalization provider response was invalid"@,
                FilenameNormalizationError::ResponseTooLarge => "filename normalization provider response was too large"@,
                FilenameNormalizationError::Cancelled => "filename normalization cancelled"@,
                FilenameNormalizationError::CapabilityMissing => "filename normalization provider capability missing"@,
            }),
    {
        match self {
            FilenameNormalizationError::InvalidRequest => "invalid filename normalization request",
            FilenameNormalizationError::Transport => "filename normalization transport failed",
            FilenameNormalizationError::HttpStatus => "filename normalization provider request failed",
            FilenameNormalizationError::InvalidResponse => "filename normalization provider response was invalid",
            FilenameNormalizationError::ResponseTooLarge => "filename normalization provider response was too large",
            FilenameNormalizationError::Cancelled => "filename normalization cancelled",
            FilenameNormalizationError::CapabilityMissing => "filename normalization provider capability missing",
        }
    }
}

/// Normalizes a file stem into a searchable identity.
pub trait FilenameNormalizer {
    fn normalize(&mut self, request: &FilenameNormalizationRequest) -> Result<
        FilenameNormalizationResult,
        FilenameNormalizationError,
    >;
}

} // verus!
