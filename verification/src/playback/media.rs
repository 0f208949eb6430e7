//! What to play, as the core hands it to an engine.
//!
//! The locator is a URL or a private path; the diagnostic text of a
//! [`MediaSource`] therefore shows only its length.
use crate::text::{decimal, decimal_text};
use vstd::prelude::*;
use vstd::utf8::encode_utf8;

verus! {

/// A medium to load. The locator is available to the adapter and never
/// printed.
#[derive(Clone, PartialEq, Eq, Hash)]
pub struct MediaSource {
    locator: String,
}

impl View for MediaSource {
    type V = Seq<char>;

    closed spec fn view(&self) -> Seq<char> {
        self.locator@
    }
}

impl MediaSource {
    pub fn new(locator: &str) -> (source: MediaSource)
        ensures
            source@ == locator@,
    {
        MediaSource { locator: locator.to_owned() }
    }

    pub fn locator(&self) -> (locator: &str)
        ensures
            locator@ == self@,
    {
        self.locator.as_str()
    }

    pub fn is_empty(&self) -> (empty: bool)
        ensures
            empty == (self@.len() == 0),
    {
        self.locator.as_str().is_empty()
    }

    /// Diagnostic text: the locator's length in bytes, nothing of its content.
    pub fn debug_text(&self) -> (text: String)
        ensures
            text@ == "MediaSource { locator_len: "@ + decimal(
                encode_utf8(self@).len() as usize as nat,
            ) + " }"@,
    {
        let mut text = String::from_str("MediaSource { locator_len: ");
        let n = decimal_text(self.locator.as_str().len() as u64);
        text.append(n.as_str());
        text.append(" }");
        text
    }
}

} // verus!
