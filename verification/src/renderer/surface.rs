//! The renderer port itself.
use crate::renderer::capability::{Capabilities, Capability};
use crate::renderer::error::{Operation, RenderError};
use vstd::prelude::*;

verus! {

/// The largest bottom inset accepted, in thousandths of the surface height.
pub const MAX_BOTTOM_INSET_THOUSANDTHS: u32 = 500;

/// Draws subtitle documents of type `D` on a surface.
pub trait SubtitleRenderer<D> {
    fn capabilities(&self) -> Capabilities;

    fn show(&mut self, document: &D) -> Result<(), RenderError>;

    /// Lifts the subtitles by a fraction of the surface height, given in
    /// thousandths.
    fn set_bottom_inset(&mut self, thousandths: u32) -> Result<(), RenderError>;

    fn clear(&mut self) -> Result<(), RenderError>;

    /// The text on screen, for surfaces that declare
    /// [`Capability::ObservedText`]; others refuse.
    fn rendered_text(&self) -> (result: Result<Option<String>, RenderError>)
        default_ensures
            result == Err::<Option<String>, RenderError>(
                RenderError::Unsupported { operation: Operation::RenderedText, capability: Capability::ObservedText },
            ),
    {
        Err(RenderError::Unsupported {
            operation: Operation::RenderedText,
            capability: Capability::ObservedText,
        })
    }
}

} // verus!
