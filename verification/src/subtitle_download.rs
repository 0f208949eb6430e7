//! Downloading one subtitle file by the provider's private file id, within a
//! fixed byte budget.
use crate::text::{decimal, decimal_text};
use vstd::prelude::*;

verus! {

/// The largest subtitle body accepted.
pub const MAX_DOWNLOAD_BYTES: usize = 10485760;

/// The largest download-metadata response accepted.
pub const MAX_DOWNLOAD_METADATA_BYTES: usize = 1048576;

/// The largest redirect chain followed for one download.
pub const MAX_DOWNLOAD_REDIRECTS: u8 = 5;

/// Which file to download. The id is private to the provider account and is
/// never printed.
#[derive(Clone, Copy, PartialEq, Eq, Structural)]
pub struct SubtitleDownloadRequest {
    pub private_file_id: u64,
}

impl SubtitleDownloadRequest {
    pub fn new(private_file_id: u64) -> (request: SubtitleDownloadRequest)
        ensures
            request.private_file_id == private_file_id,
    {
        SubtitleDownloadRequest { private_file_id }
    }

    /// Diagnostic text; the id is redacted.
    pub fn debug_text(&self) -> (text: &'static str)
        ensures
            text@ == "SubtitleDownloadRequest { private_file_id: \"<redacted>\" }"@,
    {
        "SubtitleDownloadRequest { private_file_id: \"<redacted>\" }"
    }
}

/// A downloaded subtitle body, within [`MAX_DOWNLOAD_BYTES`].
#[derive(Clone, PartialEq, Eq)]
pub struct DownloadedSubtitle {
    bytes: Vec<u8>,
}

impl View for DownloadedSubtitle {
    type V = Seq<u8>;

    closed spec fn view(&self) -> Seq<u8> {
        self.bytes@
    }
}

impl DownloadedSubtitle {
    /// Accepts a body within the download budget.
    pub fn new(bytes: Vec<u8>) -> (body: Result<DownloadedSubtitle, SubtitleDownloadError>)
        ensures
            bytes@.len() > MAX_DOWNLOAD_BYTES ==> body == Err::<DownloadedSubtitle, SubtitleDownloadError>(
                SubtitleDownloadError::ContentTooLarge,
            ),
            bytes@.len() <= MAX_DOWNLOAD_BYTES ==> (body matches Ok(b) && b@ == bytes@),
    {
        if bytes.len() > MAX_DOWNLOAD_BYTES {
            return Err(SubtitleDownloadError::ContentTooLarge);
        }
        Ok(DownloadedSubtitle { bytes })
    }

    pub fn bytes(&self) -> (bytes: &[u8])
        ensures
            bytes@ == self@,
    {
        self.bytes.as_slice()
    }

    /// Diagnostic text: the body's length, never its content.
    pub fn debug_text(&self) -> (text: String)
        ensures
            text@ == "DownloadedSubtitle { body_length: "@ + decimal(self@.len()) + " }"@,
    {
        let mut text = String::from_str("DownloadedSubtitle { body_length: ");
        text.append(decimal_text(self.bytes.len() as u64).as_str());
        text.append(" }");
        text
    }
}

/// Why a download failed, without any provider payload.
#[derive(Debug, Clone, Copy, PartialEq, Eq, Structural)]
pub enum SubtitleDownloadError {
    InvalidRequest,
    Transport,
    HttpStatus,
    Unauthorized,
    InvalidResponse,
    QuotaExhausted,
    ResponseTooLarge,
    RedirectRejected,
    ContentTooLarge,
    UnexpectedContentType,
    ArchiveRejected,
}

pub open spec fn download_error_text(error: SubtitleDownloadError) -> Seq<char> {
    match error {
        SubtitleDownloadError::InvalidRequest => "invalid subtitle download request"@,
        SubtitleDownloadError::Transport => "subtitle download transport failed"@,
        SubtitleDownloadError::HttpStatus => "subtitle download request failed"@,
        SubtitleDownloadError::Unauthorized => "subtitle download was unauthorized"@,
        SubtitleDownloadError::InvalidResponse => "subtitle download response was invalid"@,
        SubtitleDownloadError::QuotaExhausted => "subtitle download quota is exhausted"@,
        SubtitleDownloadError::ResponseTooLarge => "subtitle download metadata was too large"@,
        SubtitleDownloadError::RedirectRejected => "subtitle download redirect was rejected"@,
        SubtitleDownloadError::ContentTooLarge => "subtitle content was too large"@,
        SubtitleDownloadError::UnexpectedContentType => "subtitle content type was unexpected"@,
        SubtitleDownloadError::ArchiveRejected => "subtitle archive content was rejected"@,
    }
}

impl SubtitleDownloadError {
    /// The human-readable text of the error.
    pub fn display_text(self) -> (text: &'static str)
        ensures
            text@ == download_error_text(self),
    {
        match self {
            SubtitleDownloadError::InvalidRequest => "invalid subtitle download request",
            SubtitleDownloadError::Transport => "subtitle download transport failed",
            SubtitleDownloadError::HttpStatus => "subtitle download request failed",
            SubtitleDownloadError::Unauthorized => "subtitle download was unauthorized",
            SubtitleDownloadError::InvalidResponse => "subtitle download response was invalid",
            SubtitleDownloadError::QuotaExhausted => "subtitle download quota is exhausted",
            SubtitleDownloadError::ResponseTooLarge => "subtitle download metadata was too large",
            SubtitleDownloadError::RedirectRejected => "subtitle download redirect was rejected",
            SubtitleDownloadError::ContentTooLarge => "subtitle content was too large",
            SubtitleDownloadError::UnexpectedContentType => "subtitle content type was unexpected",
            SubtitleDownloadError::ArchiveRejected => "subtitle archive content was rejected",
        }
    }
}

/// Downloads one subtitle file.
pub trait SubtitleDownloader {
    fn download(&mut self, request: SubtitleDownloadRequest) -> Result<
        DownloadedSubtitle,
        SubtitleDownloadError,
    >;
}

} // verus!
