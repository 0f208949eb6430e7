//! What a renderer operation can refuse to do. No variant carries subtitle
//! text or a surface's private data; a surface's own failure code is never
//! shown.
use crate::renderer::capability::Capability;
use crate::text::{signed_decimal, signed_decimal_text};
use vstd::prelude::*;

verus! {

/// Which renderer operation produced an error.
#[derive(Debug, Clone, Copy, PartialEq, Eq, PartialOrd, Ord, Hash, Structural)]
pub enum Operation {
    Show,
    Clear,
    RenderedText,
    SetBottomInset,
}

pub open spec fn render_operation_name(operation: Operation) -> Seq<char> {
    match operation {
        Operation::Show => "show"@,
        Operation::Clear => "clear"@,
        Operation::RenderedText => "rendered_text"@,
        Operation::SetBottomInset => "set_bottom_inset"@,
    }
}

impl Operation {
    /// Stable lowercase name. Safe to log.
    pub fn as_str(self) -> (name: &'static str)
        ensures
            name@ == render_operation_name(self),
    {
        match self {
            Operation::Show => "show",
            Operation::Clear => "clear",
            Operation::RenderedText => "rendered_text",
            Operation::SetBottomInset => "set_bottom_inset",
        }
    }
}

/// A refused or failed renderer operation.
#[derive(Debug, Clone, Copy, PartialEq, Eq, Structural)]
pub enum RenderError {
    /// The surface draws, but does not declare the capability needed.
    Unsupported { operation: Operation, capability: Capability },
    /// The surface cannot draw subtitles at all.
    Unavailable { operation: Operation },
    NoMedia { operation: Operation },
    ShutDown { operation: Operation },
    ReentrantCall { operation: Operation },
    InsetOutOfRange { operation: Operation },
    /// The surface failed for a reason of its own; the code is never shown.
    SurfaceFailure { operation: Operation, code: i32 },
}

pub open spec fn render_error_operation(error: RenderError) -> Operation {
    match error {
        RenderError::Unsupported { operation, .. } => operation,
        RenderError::Unavailable { operation } => operation,
        RenderError::NoMedia { operation } => operation,
        RenderError::ShutDown { operation } => operation,
        RenderError::ReentrantCall { operation } => operation,
        RenderError::InsetOutOfRange { operation } => operation,
        RenderError::SurfaceFailure { operation, .. } => operation,
    }
}

/// The human-readable text of a render error; it never holds the surface's
/// failure code.
pub open spec fn render_error_text(error: RenderError) -> Seq<char> {
    let op = render_operation_name(render_error_operation(error));
    match error {
        RenderError::Unsupported { .. } => op + " needs the observed_text capability"@,
        RenderError::Unavailable { .. } => op + " on a surface that cannot draw subtitles"@,
        RenderError::NoMedia { .. } => op + " with no medium to draw on"@,
        RenderError::ShutDown { .. } => op + " after shutdown"@,
        RenderError::ReentrantCall { .. } => op + " called from inside an event callback"@,
        RenderError::InsetOutOfRange { .. } => op + " outside the accepted inset range"@,
        RenderError::SurfaceFailure { .. } => op + " failed"@,
    }
}

/// The debug name of a renderer operation.
pub open spec fn render_operation_debug(operation: Operation) -> Seq<char> {
    match operation {
        Operation::Show => "Show"@,
        Operation::Clear => "Clear"@,
        Operation::RenderedText => "RenderedText"@,
        Operation::SetBottomInset => "SetBottomInset"@,
    }
}

/// The variant name of a render error.
pub open spec fn render_error_variant(error: RenderError) -> Seq<char> {
    match error {
        RenderError::Unsupported { .. } => "Unsupported"@,
        RenderError::Unavailable { .. } => "Unavailable"@,
        RenderError::NoMedia { .. } => "NoMedia"@,
        RenderError::ShutDown { .. } => "ShutDown"@,
        RenderError::ReentrantCall { .. } => "ReentrantCall"@,
        RenderError::InsetOutOfRange { .. } => "InsetOutOfRange"@,
        RenderError::SurfaceFailure { .. } => "SurfaceFailure"@,
    }
}

/// The debug text of a render error: its variant and fields.
pub open spec fn render_error_debug(error: RenderError) -> Seq<char> {
    let head = render_error_variant(error) + " { operation: "@ + render_operation_debug(
        render_error_operation(error),
    );
    match error {
        RenderError::Unsupported { .. } => head + ", capability: ObservedText }"@,
        RenderError::SurfaceFailure { code, .. } => head + ", code: "@ + signed_decimal(code as int)
            + " }"@,
        _ => head + " }"@,
    }
}

impl Operation {
    /// The debug name of the operation.
    pub fn debug_name(self) -> (name: &'static str)
        ensures
            name@ == render_operation_debug(self),
    {
        proof {
            reveal_strlit("Show");
            reveal_strlit("Clear");
            reveal_strlit("RenderedText");
            reveal_strlit("SetBottomInset");
        }
        match self {
            Operation::Show => "Show",
            Operation::Clear => "Clear",
            Operation::RenderedText => "RenderedText",
            Operation::SetBottomInset => "SetBottomInset",
        }
    }
}

impl RenderError {
    /// The operation that was refused; every variant names one.
    pub fn operation(&self) -> (operation: Operation)
        ensures
            operation == render_error_operation(*self),
    {
        match self {
            RenderError::Unsupported { operation, .. } => *operation,
            RenderError::Unavailable { operation } => *operation,
            RenderError::NoMedia { operation } => *operation,
            RenderError::ShutDown { operation } => *operation,
            RenderError::ReentrantCall { operation } => *operation,
            RenderError::InsetOutOfRange { operation } => *operation,
            RenderError::SurfaceFailure { operation, .. } => *operation,
        }
    }

    /// The debug text of the error, as `{:?}` writes it.
    pub fn debug_text(&self) -> (text: String)
        ensures
            text@ == render_error_debug(*self),
    {
        let name = match self {
            RenderError::Unsupported { .. } => "Unsupported",
            RenderError::Unavailable { .. } => "Unavailable",
            RenderError::NoMedia { .. } => "NoMedia",
            RenderError::ShutDown { .. } => "ShutDown",
            RenderError::ReentrantCall { .. } => "ReentrantCall",
            RenderError::InsetOutOfRange { .. } => "InsetOutOfRange",
            RenderError::SurfaceFailure { .. } => "SurfaceFailure",
        };
        let mut text = String::from_str(name);
        text.append(" { operation: ");
        text.append(self.operation().debug_name());
        match self {
            RenderError::Unsupported { .. } => text.append(", capability: ObservedText }"),
            RenderError::SurfaceFailure { code, .. } => {
                text.append(", code: ");
                let digits = signed_decimal_text(*code as i64);
                text.append(digits.as_str());
                text.append(" }");
            },
            _ => text.append(" }"),
        }
        proof {
            reveal_strlit("Unsupported");
            reveal_strlit("Unavailable");
            reveal_strlit("NoMedia");
            reveal_strlit("ShutDown");
            reveal_strlit("ReentrantCall");
            reveal_strlit("InsetOutOfRange");
            reveal_strlit("SurfaceFailure");
            reveal_strlit(" { operation: ");
            reveal_strlit(", capability: ObservedText }");
            reveal_strlit(", code: ");
            reveal_strlit(" }");
        }
        text
    }

    /// The human-readable text of the error.
    pub fn display_text(&self) -> (text: String)
        ensures
            text@ == render_error_text(*self),
    {
        let mut text = String::from_str(self.operation().as_str());
        match self {
            RenderError::Unsupported { capability, .. } => {
                text.append(" needs the ");
                text.append(capability.as_str());
                text.append(" capability");
            },
            RenderError::Unavailable { .. } => text.append(" on a surface that cannot draw subtitles"),
            RenderError::NoMedia { .. } => text.append(" with no medium to draw on"),
            RenderError::ShutDown { .. } => text.append(" after shutdown"),
            RenderError::ReentrantCall { .. } => text.append(" called from inside an event callback"),
            RenderError::InsetOutOfRange { .. } => text.append(" outside the accepted inset range"),
            RenderError::SurfaceFailure { .. } => text.append(" failed"),
        }
        proof {
            reveal_strlit(" needs the ");
            reveal_strlit("observed_text");
            reveal_strlit(" capability");
            reveal_strlit(" needs the observed_text capability");
        }
        text
    }
}

} // verus!
