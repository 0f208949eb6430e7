//! Verified media identity: the hash a lookup is keyed by, what a lookup can
//! answer and the payload-free ways it can fail.
use vstd::prelude::*;

verus! {

/// The eight-byte media hash a provider lookup is keyed by. It identifies the
/// user's file, so its texts never show it.
#[derive(Clone, Copy, PartialEq, Eq, Hash, PartialOrd, Ord)]
pub struct MediaHash([u8; 8]);

impl View for MediaHash {
    type V = Seq<u8>;

    closed spec fn view(&self) -> Seq<u8> {
        self.0@
    }
}

impl MediaHash {
    pub fn from_bytes(bytes: [u8; 8]) -> (hash: MediaHash)
        ensures
            hash@ == bytes@,
    {
        MediaHash(bytes)
    }

    pub fn as_bytes(&self) -> (bytes: &[u8; 8])
        ensures
            bytes@ == self@,
    {
        &self.0
    }

    /// Diagnostic text; never the hash.
    pub fn debug_text(&self) -> (text: &'static str)
        ensures
            text@ == "MediaHash(<redacted>)"@,
    {
        "MediaHash(<redacted>)"
    }

    /// Display text; never the hash.
    pub fn display_text(&self) -> (text: &'static str)
        ensures
            text@ == "<redacted>"@,
    {
        "<redacted>"
    }
}

/// An identity a provider verified for a media hash.
#[derive(Clone, PartialEq, Eq, Hash)]
pub struct VerifiedMediaIdentity {
    pub title: String,
    pub year: Option<u16>,
    pub season: Option<u16>,
    pub episode: Option<u16>,
}

pub open spec fn flag_text(flag: bool) -> Seq<char> {
    if flag {
        "true"@
    } else {
        "false"@
    }
}

fn flag_str(flag: bool) -> (text: &'static str)
    ensures
        text@ == flag_text(flag),
{
    if flag {
        "true"
    } else {
        "false"
    }
}

/// The diagnostic text of an identity: which fields are present, never the
/// title.
pub open spec fn identity_debug(year: bool, season: bool, episode: bool) -> Seq<char> {
    "VerifiedMediaIdentity { title: \"<present>\", year: "@ + flag_text(year) + ", season: "@
        + flag_text(season) + ", episode: "@ + flag_text(episode) + " }"@
}

impl VerifiedMediaIdentity {
    /// Diagnostic text: the title is never shown, the numbers only as present
    /// or absent.
    pub fn debug_text(&self) -> (text: String)
        ensures
            text@ == identity_debug(self.year is Some, self.season is Some, self.episode is Some),
    {
        let mut text = String::from_str("VerifiedMediaIdentity { title: \"<present>\", year: ");
        text.append(flag_str(self.year.is_some()));
        text.append(", season: ");
        text.append(flag_str(self.season.is_some()));
        text.append(", episode: ");
        text.append(flag_str(self.episode.is_some()));
        text.append(" }");
        text
    }
}

/// What a lookup by hash found.
#[derive(Clone, PartialEq, Eq)]
pub enum IdentityLookup {
    Match(VerifiedMediaIdentity),
    NoMatch,
    Ambiguous,
}

impl IdentityLookup {
    /// Diagnostic text: the outcome only, never the identity.
    pub fn debug_text(&self) -> (text: &'static str)
        ensures
            text@ == (match self {
                IdentityLookup::Match(_) => "IdentityLookup(\"match\")"@,
                IdentityLookup::NoMatch => "IdentityLookup(\"no_match\")"@,
                IdentityLookup::Ambiguous => "IdentityLookup(\"ambiguous\")"@,
            }),
    {
        match self {
            IdentityLookup::Match(_) => "IdentityLookup(\"match\")",
            IdentityLookup::NoMatch => "IdentityLookup(\"no_match\")",
            IdentityLookup::Ambiguous => "IdentityLookup(\"ambiguous\")",
        }
    }
}

/// Why a lookup failed, without any provider payload.
#[derive(Clone, Copy, Debug, PartialEq, Eq, Structural)]
pub enum IdentityLookupError {
    InvalidCredential,
    Transport,
    HttpStatus,
    InvalidResponse,
    ResponseTooLarge,
    RedirectRejected,
}

impl IdentityLookupError {
    /// The human-readable text of the error.
    pub fn display_text(self) -> (text: &'static str)
        ensures
            text@ == (match self {
                IdentityLookupError::InvalidCredential => "invalid provider credential"@,
                IdentityLookupError::Transport => "provider transport failed"@,
                IdentityLookupError::HttpStatus => "provider request failed"@,
                IdentityLookupError::InvalidResponse => "provider response was invalid"@,
                IdentityLookupError::ResponseTooLarge => "provider response was too large"@,
                IdentityLookupError::RedirectRejected => "provider redirect was rejected"@,
            }),
    {
        match self {
            IdentityLookupError::InvalidCredential => "invalid provider credential",
            IdentityLookupError::Transport => "provider transport failed",
            IdentityLookupError::HttpStatus => "provider request failed",
            IdentityLookupError::InvalidResponse => "provider response was invalid",
            IdentityLookupError::ResponseTooLarge => "provider response was too large",
            IdentityLookupError::RedirectRejected => "provider redirect was rejected",
        }
    }
}

/// Looks a media hash up with an identity provider.
pub trait MediaIdentityLookup {
    fn lookup_by_hash(&mut self, hash: MediaHash) -> Result<IdentityLookup, IdentityLookupError>;
}

/// An identity given by canonical catalogue ids (IMDb), for a title or, with
/// a parent id, an episode of it.
#[derive(Clone, PartialEq, Eq, Hash)]
pub struct CanonicalMediaIdentity {
    pub imdb_id: Option<String>,
    pub parent_imdb_id: Option<String>,
}

/// An identity parsed from a file name: a title and the coordinates it
/// carried.
#[derive(Clone, PartialEq, Eq, Hash)]
pub struct ParsedMediaIdentity {
    pub title: String,
    pub year: Option<u16>,
    pub season: Option<u16>,
    pub episode: Option<u16>,
}

} // verus!
