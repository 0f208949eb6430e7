use nen_core::renderer::capability::{Capabilities, Capability};
use nen_core::renderer::contract::{applicable_count, run_all, RenderInputs, scenarios, Applicability, Failure};
use nen_core::renderer::error::{Operation, RenderError};
use nen_core::renderer::fake::FakeRenderer;
use nen_core::renderer::surface::SubtitleRenderer;
use nen_core::subtitle::{Cue, SubtitleDocument};

fn document_with(line: &str) -> SubtitleDocument {
    SubtitleDocument::new(vec![Cue::new(1, 1_000, 2_000, vec![line.to_string()])])
}

fn document() -> SubtitleDocument {
    document_with("contract")
}

fn report(failures: &[Failure]) -> String {
    failures.iter().map(Failure::render).collect::<Vec<_>>().join("\n")
}

#[test]
fn contract_renderer_fake_the_run_is_not_vacuous() {
    let total = scenarios().len();
    let full = applicable_count(Capabilities::all());
    let minimal = applicable_count(Capabilities::none());

    assert!(total >= 8, "the kit only has {total} scenarios");
    assert!(full >= 7, "only {full} scenarios apply to a full renderer");
    assert!(minimal >= 5, "only {minimal} apply to a minimal renderer");
    assert_eq!(
        full + minimal,
        total + scenarios().iter().filter(|scenario| scenario.applies == Applicability::Always).count(),
        "some scenario applies to neither a full nor a minimal renderer"
    );
}

#[test]
fn contract_renderer_fake_every_capability_is_covered_in_both_directions() {
    let all = scenarios();
    for capability in Capability::ALL {
        assert!(
            all.iter().any(|s| s.applies == Applicability::WithCapability(capability)),
            "no scenario exercises {} when present",
            capability.as_str()
        );
        assert!(
            all.iter().any(|s| s.applies == Applicability::WithoutCapability(capability)),
            "no scenario exercises {} when absent",
            capability.as_str()
        );
    }
}

#[test]
fn contract_renderer_fake_the_fake_declares_what_it_was_built_with() {
    assert!(FakeRenderer::full().capabilities() == Capabilities::all());
    assert!(FakeRenderer::minimal().capabilities() == Capabilities::none());
}

/// Declares the observed-text capability and refuses to answer it anyway.
struct Liar;

impl SubtitleRenderer<SubtitleDocument> for Liar {
    fn capabilities(&self) -> Capabilities {
        Capabilities::all()
    }
    fn show(&mut self, _: &SubtitleDocument) -> Result<(), RenderError> {
        Ok(())
    }
    fn set_bottom_inset(&mut self, _: u32) -> Result<(), RenderError> {
        Ok(())
    }
    fn clear(&mut self) -> Result<(), RenderError> {
        Ok(())
    }
}

/// Draws, but never stops drawing.
struct NeverClears {
    showing: bool,
}

impl SubtitleRenderer<SubtitleDocument> for NeverClears {
    fn capabilities(&self) -> Capabilities {
        Capabilities::all()
    }
    fn show(&mut self, _: &SubtitleDocument) -> Result<(), RenderError> {
        self.showing = true;
        Ok(())
    }
    fn set_bottom_inset(&mut self, _: u32) -> Result<(), RenderError> {
        Ok(())
    }
    fn clear(&mut self) -> Result<(), RenderError> {
        Ok(())
    }
    fn rendered_text(&self) -> Result<Option<String>, RenderError> {
        Ok(self.showing.then(|| "still here".to_string()))
    }
}

/// Refuses to show anything at all.
struct Refuses;

impl SubtitleRenderer<SubtitleDocument> for Refuses {
    fn capabilities(&self) -> Capabilities {
        Capabilities::none()
    }
    fn show(&mut self, _: &SubtitleDocument) -> Result<(), RenderError> {
        Err(RenderError::Unavailable { operation: Operation::Show })
    }
    fn set_bottom_inset(&mut self, _: u32) -> Result<(), RenderError> {
        Ok(())
    }
    fn clear(&mut self) -> Result<(), RenderError> {
        Ok(())
    }
}

#[test]
fn a_declared_capability_that_refuses_is_caught() {
    assert!(!run_all(|| Liar, &RenderInputs::new(document())).is_empty());
}

#[test]
fn a_clear_that_does_nothing_is_caught() {
    assert!(!run_all(|| NeverClears { showing: false }, &RenderInputs::new(document())).is_empty());
}

#[test]
fn a_renderer_that_cannot_show_is_caught() {
    assert!(!run_all(|| Refuses, &RenderInputs::new(document())).is_empty());
}

const PRIVATE_DIALOGUE: &str = "Bunu kimseye söyleme.";

#[test]
fn a_renderer_never_prints_what_it_is_drawing() {
    let mut renderer = FakeRenderer::full();
    renderer.show(&document_with(PRIVATE_DIALOGUE)).expect("shown");

    let printed = renderer.debug_text();
    assert!(!printed.contains(PRIVATE_DIALOGUE), "dialogue leaked: {printed}");
    assert!(printed.contains("showing_cues"), "{printed}");
    assert!(printed.contains("capabilities"), "{printed}");
    assert_eq!(printed, "FakeRenderer { capabilities: {ObservedText}, showing_cues: Some(1) }");
}

#[test]
fn the_fake_draws_the_first_cue_and_clears_it() {
    let mut renderer = FakeRenderer::full();
    assert_eq!(renderer.rendered_text(), Ok(None));
    let document = SubtitleDocument::new(vec![
        Cue::new(1, 0, 1_000, vec!["first".to_string(), "line".to_string()]),
        Cue::new(2, 1_000, 2_000, vec!["second".to_string()]),
    ]);
    renderer.show(&document).expect("shown");
    assert_eq!(renderer.rendered_text(), Ok(Some("first\nline".to_string())));
    assert_eq!(renderer.showing_cues(), Some(2));
    renderer.clear().expect("cleared");
    assert_eq!(renderer.rendered_text(), Ok(None));
    assert_eq!(
        FakeRenderer::minimal().rendered_text(),
        Err(RenderError::Unsupported { operation: Operation::RenderedText, capability: Capability::ObservedText })
    );
    assert_eq!(
        renderer.set_bottom_inset(501),
        Err(RenderError::InsetOutOfRange { operation: Operation::SetBottomInset })
    );
    assert_eq!(renderer.set_bottom_inset(250), Ok(()));
    assert_eq!(renderer.bottom_inset(), 250);
}
