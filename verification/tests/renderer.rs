use nen_core::renderer::capability::{Capabilities, Capability};
use nen_core::renderer::contract::{
    applicable_count, check_unit, run_all, RenderInputs, scenarios, Action, Applicability, ErrorKind, Failure, Outcome,
};
use nen_core::renderer::error::{Operation, RenderError};
use nen_core::renderer::fake::FakeRenderer;
use nen_core::renderer::surface::SubtitleRenderer;
use nen_core::subtitle::{Cue, SubtitleDocument};

#[test]
fn every_variant_names_its_operation() {
    assert_eq!(RenderError::NoMedia { operation: Operation::Show }.operation(), Operation::Show);
    assert_eq!(RenderError::SurfaceFailure { operation: Operation::Clear, code: -7 }.operation(), Operation::Clear);
}

#[test]
fn the_surface_code_never_reaches_the_display_text() {
    let shown = RenderError::SurfaceFailure { operation: Operation::Show, code: -12345 }.display_text();
    assert!(!shown.contains("12345"), "surface code leaked: {shown}");
    assert_eq!(shown, "show failed");
    assert_eq!(
        RenderError::Unsupported { operation: Operation::RenderedText, capability: Capability::ObservedText }
            .display_text(),
        "rendered_text needs the observed_text capability"
    );
}

#[test]
fn unavailable_and_unsupported_are_different_answers() {
    let unavailable = RenderError::Unavailable { operation: Operation::Show };
    let unsupported = RenderError::Unsupported { operation: Operation::RenderedText, capability: Capability::ObservedText };
    assert_ne!(unavailable, unsupported);
}

/// A surface that shows one document's first line and keeps nothing else.
struct LineRenderer {
    capabilities: Capabilities,
    showing: Option<String>,
}

impl SubtitleRenderer<String> for LineRenderer {
    fn capabilities(&self) -> Capabilities {
        self.capabilities
    }

    fn show(&mut self, document: &String) -> Result<(), RenderError> {
        self.showing = Some(document.clone());
        Ok(())
    }

    fn set_bottom_inset(&mut self, _thousandths: u32) -> Result<(), RenderError> {
        Ok(())
    }

    fn clear(&mut self) -> Result<(), RenderError> {
        self.showing = None;
        Ok(())
    }

    fn rendered_text(&self) -> Result<Option<String>, RenderError> {
        if !self.capabilities.contains(Capability::ObservedText) {
            return Err(RenderError::Unsupported { operation: Operation::RenderedText, capability: Capability::ObservedText });
        }
        Ok(self.showing.clone())
    }
}

#[test]
fn the_reference_renderer_passes_every_applicable_scenario() {
    let document = SubtitleDocument::new(vec![Cue::new(1, 1_000, 2_000, vec!["contract".to_string()])]);
    for capabilities in [Capabilities::all(), Capabilities::none()] {
        let failures = run_all(|| FakeRenderer::new(capabilities), &RenderInputs::new(document.clone()));
        assert!(failures.is_empty(), "{:?}", failures.iter().map(Failure::render).collect::<Vec<_>>());
    }
    for capabilities in [Capabilities::all(), Capabilities::none()] {
        let failures = run_all(|| LineRenderer { capabilities, showing: None }, &RenderInputs::new("line".to_string()));
        assert!(failures.is_empty(), "{:?}", failures.iter().map(Failure::render).collect::<Vec<_>>());
    }
}

#[test]
fn the_run_is_not_vacuous() {
    assert_eq!(scenarios().len(), 8);
    assert_eq!(applicable_count(Capabilities::all()), 7);
    assert_eq!(applicable_count(Capabilities::none()), 5);
}

#[test]
fn every_capability_is_covered_in_both_directions() {
    for capability in Capability::ALL {
        let all = scenarios();
        assert!(all.iter().any(|s| s.applies == Applicability::WithCapability(capability)));
        assert!(all.iter().any(|s| s.applies == Applicability::WithoutCapability(capability)));
    }
}

#[test]
fn a_renderer_that_draws_nothing_is_caught() {
    struct Blind;
    impl SubtitleRenderer<String> for Blind {
        fn capabilities(&self) -> Capabilities {
            Capabilities::all()
        }
        fn show(&mut self, _document: &String) -> Result<(), RenderError> {
            Ok(())
        }
        fn set_bottom_inset(&mut self, _thousandths: u32) -> Result<(), RenderError> {
            Ok(())
        }
        fn clear(&mut self) -> Result<(), RenderError> {
            Ok(())
        }
        fn rendered_text(&self) -> Result<Option<String>, RenderError> {
            Ok(None)
        }
    }
    let failures = run_all(|| Blind, &RenderInputs::new("line".to_string()));
    assert_eq!(failures.len(), 1);
    assert_eq!(failures[0].action, Action::RenderedText);
    assert_eq!(failures[0].detail, "nothing is on screen");
    assert_eq!(
        failures[0].render(),
        "rendered text: a shown document is on screen — step 1 (RenderedText): nothing is on screen"
    );
}

#[test]
fn a_unit_step_reports_what_went_wrong() {
    assert_eq!(check_unit(Ok(()), Outcome::Success), Ok(()));
    assert_eq!(
        check_unit(Ok(()), Outcome::Error(ErrorKind::Unsupported)),
        Err("succeeded, expected Unsupported".to_string())
    );
    assert_eq!(
        check_unit(Err(RenderError::NoMedia { operation: Operation::Show }), Outcome::Error(ErrorKind::ShutDown)),
        Err("failed with NoMedia, expected ShutDown".to_string())
    );
    assert_eq!(check_unit(Ok(()), Outcome::Blank), Err("this action cannot satisfy Blank".to_string()));
}

#[test]
fn an_unexpected_failure_is_reported_with_its_fields() {
    assert_eq!(
        check_unit(Err(RenderError::SurfaceFailure { operation: Operation::Show, code: -3 }), Outcome::Success),
        Err("failed with SurfaceFailure { operation: Show, code: -3 }, expected success".to_string())
    );
    assert_eq!(
        check_unit(
            Err(RenderError::Unsupported { operation: Operation::RenderedText, capability: Capability::ObservedText }),
            Outcome::Success
        ),
        Err("failed with Unsupported { operation: RenderedText, capability: ObservedText }, expected success"
            .to_string())
    );
}

#[test]
fn the_debug_text_is_what_debug_formatting_writes() {
    let errors = [
        RenderError::Unsupported { operation: Operation::Show, capability: Capability::ObservedText },
        RenderError::Unavailable { operation: Operation::Clear },
        RenderError::NoMedia { operation: Operation::RenderedText },
        RenderError::ShutDown { operation: Operation::SetBottomInset },
        RenderError::ReentrantCall { operation: Operation::Show },
        RenderError::InsetOutOfRange { operation: Operation::SetBottomInset },
        RenderError::SurfaceFailure { operation: Operation::Clear, code: 42 },
        RenderError::SurfaceFailure { operation: Operation::Clear, code: i32::MIN },
    ];
    for error in errors {
        assert_eq!(error.debug_text(), format!("{error:?}"));
    }
}

#[test]
fn empty_set_contains_nothing() {
    for capability in Capability::ALL {
        assert!(!Capabilities::none().contains(capability));
    }
    assert!(Capabilities::none().is_empty());
}

#[test]
fn each_capability_occupies_its_own_bit() {
    for capability in Capability::ALL {
        let set = Capabilities::new(&[capability]);
        for other in Capability::ALL {
            assert_eq!(set.contains(other), other == capability, "{} leaked into {}", capability.as_str(), other.as_str());
        }
    }
}

#[test]
fn with_and_without_are_inverses() {
    let set = Capabilities::none().with(Capability::ObservedText);
    assert!(set.contains(Capability::ObservedText));
    assert!(!set.without(Capability::ObservedText).contains(Capability::ObservedText));
}

#[test]
fn debug_prints_names_not_bits() {
    let set = Capabilities::new(&[Capability::ObservedText]);
    assert_eq!(set.debug_text(), "{ObservedText}");
}
