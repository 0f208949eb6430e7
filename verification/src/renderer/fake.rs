//! A deterministic in-memory `SubtitleRenderer`, and the reference for what
//! the renderer contract requires.
//!
//! It draws nothing, because nothing here has pixels. What it models is the
//! state a renderer has: which document is showing, and whether anything is
//! on screen at all.
use crate::renderer::capability::{Capabilities, Capability};
use crate::renderer::error::{Operation, RenderError};
use crate::renderer::surface::{SubtitleRenderer, MAX_BOTTOM_INSET_THOUSANDTHS};
use crate::subtitle::{join_lines, joined, CueView, SubtitleDocument};
use crate::text::decimal;
use vstd::prelude::*;

verus! {

/// A fake renderer whose capability set is chosen by the caller.
pub struct FakeRenderer {
    capabilities: Capabilities,
    showing: Option<SubtitleDocument>,
    bottom_inset: u32,
}

/// The model of a fake renderer.
pub struct FakeRendererView {
    pub capabilities: Capabilities,
    pub showing: Option<Seq<CueView>>,
    pub bottom_inset: u32,
}

impl View for FakeRenderer {
    type V = FakeRendererView;

    closed spec fn view(&self) -> FakeRendererView {
        FakeRendererView {
            capabilities: self.capabilities,
            showing: match self.showing {
                Some(d) => Some(d@),
                None => None,
            },
            bottom_inset: self.bottom_inset,
        }
    }
}

/// What the fake draws: it has no playhead, so it stands frozen inside the
/// first cue of whatever is showing.
pub open spec fn fake_rendered(showing: Option<Seq<CueView>>) -> Option<Seq<char>> {
    match showing {
        Some(cues) => if cues.len() == 0 {
            None
        } else {
            Some(joined(cues[0].lines))
        },
        None => None,
    }
}

impl FakeRenderer {
    /// A renderer declaring the given capabilities, showing nothing.
    pub fn new(capabilities: Capabilities) -> (renderer: FakeRenderer)
        ensures
            renderer@.capabilities == capabilities,
            renderer@.showing is None,
            renderer@.bottom_inset == 0,
    {
        FakeRenderer { capabilities, showing: None, bottom_inset: 0 }
    }

    /// A renderer declaring every optional capability.
    pub fn full() -> (renderer: FakeRenderer)
        ensures
            renderer@.capabilities@ == Set::<Capability>::full(),
            renderer@.showing is None,
            renderer@.bottom_inset == 0,
    {
        Self::new(Capabilities::all())
    }

    /// A renderer that only draws.
    pub fn minimal() -> (renderer: FakeRenderer)
        ensures
            renderer@.capabilities@ == Set::<Capability>::empty(),
            renderer@.showing is None,
            renderer@.bottom_inset == 0,
    {
        Self::new(Capabilities::none())
    }

    /// How many cues the showing document carries, if one is showing.
    pub fn showing_cues(&self) -> (count: Option<usize>)
        ensures
            match (count, self@.showing) {
                (Some(n), Some(cues)) => n == cues.len(),
                (None, None) => true,
                _ => false,
            },
    {
        match &self.showing {
            Some(document) => Some(document.len()),
            None => None,
        }
    }

    /// The inset the renderer was last given, in thousandths.
    pub fn bottom_inset(&self) -> (inset: u32)
        ensures
            inset == self@.bottom_inset,
    {
        self.bottom_inset
    }

    /// Diagnostic text: the capabilities and how many cues are showing,
    /// never the document.
    pub fn debug_text(&self) -> (text: String)
        ensures
            text@ == "FakeRenderer { capabilities: "@ + (if self@.capabilities@.contains(Capability::ObservedText) {
                "{ObservedText}"@
            } else {
                "{}"@
            }) + ", showing_cues: "@
                + match self@.showing {
                Some(cues) => "Some("@ + decimal(cues.len()) + ")"@,
                None => "None"@,
            } + " }"@,
    {
        proof {
            reveal_strlit("FakeRenderer { capabilities: ");
            reveal_strlit(", showing_cues: ");
            reveal_strlit("Some(");
            reveal_strlit(")");
            reveal_strlit("None");
            reveal_strlit(" }");
        }
        let mut text = String::from_str("FakeRenderer { capabilities: ");
        text.append(self.capabilities.debug_text());
        text.append(", showing_cues: ");
        match &self.showing {
            Some(document) => {
                text.append("Some(");
                let count = crate::text::decimal_text(document.len() as u64);
                text.append(count.as_str());
                text.append(")");
            },
            None => text.append("None"),
        }
        text.append(" }");
        text
    }
}

impl SubtitleRenderer<SubtitleDocument> for FakeRenderer {
    fn capabilities(&self) -> (capabilities: Capabilities)
        ensures
            capabilities == self@.capabilities,
    {
        self.capabilities
    }

    /// The document replaces whatever was showing.
    fn show(&mut self, document: &SubtitleDocument) -> (result: Result<(), RenderError>)
        ensures
            result is Ok,
            final(self)@ == (FakeRendererView { showing: Some(document@), ..old(self)@ }),
    {
        self.showing = Some(document.copy());
        Ok(())
    }

    /// An inset above the accepted range is refused and changes nothing.
    fn set_bottom_inset(&mut self, thousandths: u32) -> (result: Result<(), RenderError>)
        ensures
            thousandths > MAX_BOTTOM_INSET_THOUSANDTHS ==> result == Err::<(), RenderError>(
                RenderError::InsetOutOfRange { operation: Operation::SetBottomInset },
            ) && final(self)@ == old(self)@,
            thousandths <= MAX_BOTTOM_INSET_THOUSANDTHS ==> result is Ok && final(self)@ == (FakeRendererView {
                bottom_inset: thousandths,
                ..old(self)@
            }),
    {
        if thousandths > MAX_BOTTOM_INSET_THOUSANDTHS {
            return Err(RenderError::InsetOutOfRange { operation: Operation::SetBottomInset });
        }
        self.bottom_inset = thousandths;
        Ok(())
    }

    fn clear(&mut self) -> (result: Result<(), RenderError>)
        ensures
            result is Ok,
            final(self)@ == (FakeRendererView { showing: None, ..old(self)@ }),
    {
        self.showing = None;
        Ok(())
    }

    /// The first cue of the showing document, its lines joined; refused
    /// without [`Capability::ObservedText`].
    fn rendered_text(&self) -> (result: Result<Option<String>, RenderError>)
        ensures
            !self@.capabilities@.contains(Capability::ObservedText) ==> result == Err::<Option<String>, RenderError>(
                RenderError::Unsupported { operation: Operation::RenderedText, capability: Capability::ObservedText },
            ),
            self@.capabilities@.contains(Capability::ObservedText) ==> match (result, fake_rendered(self@.showing)) {
                (Ok(Some(t)), Some(expected)) => t@ == expected,
                (Ok(None), None) => true,
                _ => false,
            },
    {
        if !self.capabilities.contains(Capability::ObservedText) {
            return Err(
                RenderError::Unsupported { operation: Operation::RenderedText, capability: Capability::ObservedText },
            );
        }
        match &self.showing {
            Some(document) => {
                if document.cues.len() == 0 {
                    Ok(None)
                } else {
                    Ok(Some(join_lines(&document.cues[0].lines)))
                }
            },
            None => Ok(None),
        }
    }
}

} // verus!
