//! The shared contract kit every `SubtitleRenderer` adapter must pass.
//!
//! The scenarios are data: each is a list of steps, an [`Action`] paired with
//! the [`Outcome`] the contract requires. A scenario declares when it applies
//! ([`Applicability`]), so one list covers surfaces with and without the
//! optional capability: the behaviour that needs the capability is checked where it is
//! declared, and the typed refusal where it is not.
use crate::renderer::capability::{Capabilities, Capability};
use crate::renderer::error::{render_error_debug, render_error_operation, Operation, RenderError};
use crate::renderer::surface::SubtitleRenderer;
use crate::text::{decimal, decimal_text};
use vstd::prelude::*;

verus! {

/// One renderer operation, as data.
#[derive(Debug, Clone, Copy, PartialEq, Eq, Structural)]
pub enum Action {
    Show,
    Clear,
    RenderedText,
}

/// The variant of a [`RenderError`], without its payload.
#[derive(Debug, Clone, Copy, PartialEq, Eq, Structural)]
pub enum ErrorKind {
    Unsupported,
    Unavailable,
    NoMedia,
    ShutDown,
    ReentrantCall,
    SurfaceFailure,
}

/// The kind of a render error. An inset refusal has no kind of its own in
/// the kit and counts as a surface failure.
pub open spec fn kind_of(error: RenderError) -> ErrorKind {
    match error {
        RenderError::Unsupported { .. } => ErrorKind::Unsupported,
        RenderError::Unavailable { .. } => ErrorKind::Unavailable,
        RenderError::NoMedia { .. } => ErrorKind::NoMedia,
        RenderError::ShutDown { .. } => ErrorKind::ShutDown,
        RenderError::ReentrantCall { .. } => ErrorKind::ReentrantCall,
        RenderError::InsetOutOfRange { .. } => ErrorKind::SurfaceFailure,
        RenderError::SurfaceFailure { .. } => ErrorKind::SurfaceFailure,
    }
}

impl ErrorKind {
    pub fn of(error: &RenderError) -> (kind: ErrorKind)
        ensures
            kind == kind_of(*error),
    {
        match error {
            RenderError::Unsupported { .. } => ErrorKind::Unsupported,
            RenderError::Unavailable { .. } => ErrorKind::Unavailable,
            RenderError::NoMedia { .. } => ErrorKind::NoMedia,
            RenderError::ShutDown { .. } => ErrorKind::ShutDown,
            RenderError::ReentrantCall { .. } => ErrorKind::ReentrantCall,
            RenderError::InsetOutOfRange { .. } => ErrorKind::SurfaceFailure,
            RenderError::SurfaceFailure { .. } => ErrorKind::SurfaceFailure,
        }
    }
}

/// What the contract requires an action to produce.
#[derive(Debug, Clone, Copy, PartialEq, Eq, Structural)]
pub enum Outcome {
    Success,
    Error(ErrorKind),
    /// Text is on screen.
    Drawing,
    /// Nothing is on screen.
    Blank,
}

/// One step of a scenario.
#[derive(Debug, Clone, Copy, PartialEq, Eq, Structural)]
pub struct Step {
    pub action: Action,
    pub expect: Outcome,
}

impl Step {
    pub fn new(action: Action, expect: Outcome) -> (step: Step)
        ensures
            step == (Step { action, expect }),
    {
        Step { action, expect }
    }
}

/// When a scenario applies to a surface.
#[derive(Debug, Clone, Copy, PartialEq, Eq, Structural)]
pub enum Applicability {
    /// Base behaviour: every surface, always.
    Always,
    /// Only for surfaces that declare the capability.
    WithCapability(Capability),
    /// Only for surfaces that do not: where the typed refusal is proven.
    WithoutCapability(Capability),
}

pub open spec fn applies(applicability: Applicability, capabilities: Set<Capability>) -> bool {
    match applicability {
        Applicability::Always => true,
        Applicability::WithCapability(c) => capabilities.contains(c),
        Applicability::WithoutCapability(c) => !capabilities.contains(c),
    }
}

impl Applicability {
    pub fn applies_to(self, capabilities: Capabilities) -> (applies_here: bool)
        ensures
            applies_here == applies(self, capabilities@),
    {
        match self {
            Applicability::Always => true,
            Applicability::WithCapability(capability) => capabilities.contains(capability),
            Applicability::WithoutCapability(capability) => !capabilities.contains(capability),
        }
    }
}

/// A named sequence of steps.
#[derive(Debug, Clone, PartialEq, Eq)]
pub struct Scenario {
    pub name: &'static str,
    pub applies: Applicability,
    pub steps: Vec<Step>,
}

/// A step that did not produce what the contract requires.
#[derive(Debug, Clone, PartialEq, Eq)]
pub struct Failure {
    pub scenario: &'static str,
    pub step: usize,
    pub action: Action,
    pub detail: String,
}

pub open spec fn action_debug(action: Action) -> Seq<char> {
    match action {
        Action::Show => "Show"@,
        Action::Clear => "Clear"@,
        Action::RenderedText => "RenderedText"@,
    }
}

fn action_name(action: Action) -> (name: &'static str)
    ensures
        name@ == action_debug(action),
{
    match action {
        Action::Show => "Show",
        Action::Clear => "Clear",
        Action::RenderedText => "RenderedText",
    }
}

impl Failure {
    /// One rendered line: scenario, step, action and what went wrong.
    pub fn render(&self) -> (line: String)
        ensures
            line@ == self.scenario@ + " — step "@ + decimal(self.step as nat) + " ("@ + action_debug(
                self.action,
            ) + "): "@ + self.detail@,
    {
        let mut line = String::from_str(self.scenario);
        line.append(" — step ");
        line.append(decimal_text(self.step as u64).as_str());
        line.append(" (");
        line.append(action_name(self.action));
        line.append("): ");
        line.append(self.detail.as_str());
        line
    }
}

/// Every scenario's applicability and steps, in order.
pub open spec fn kit() -> Seq<(Applicability, Seq<Step>)> {
    let show_ok = Step { action: Action::Show, expect: Outcome::Success };
    let clear_ok = Step { action: Action::Clear, expect: Outcome::Success };
    let observed = Applicability::WithCapability(Capability::ObservedText);
    seq![
        (Applicability::Always, seq![show_ok]),
        (Applicability::Always, seq![show_ok, show_ok]),
        (Applicability::Always, seq![clear_ok]),
        (Applicability::Always, seq![show_ok, clear_ok, clear_ok]),
        (Applicability::WithoutCapability(Capability::ObservedText), seq![show_ok, Step {
            action: Action::RenderedText,
            expect: Outcome::Error(ErrorKind::Unsupported),
        }]),
        (observed, seq![Step { action: Action::RenderedText, expect: Outcome::Blank }]),
        (observed, seq![show_ok, Step { action: Action::RenderedText, expect: Outcome::Drawing }]),
        (observed, seq![show_ok, clear_ok, Step {
            action: Action::RenderedText,
            expect: Outcome::Blank,
        }]),
    ]
}

/// Whether `scenarios` holds exactly the kit.
pub open spec fn is_kit(scenarios: Seq<Scenario>) -> bool {
    &&& scenarios.len() == kit().len()
    &&& forall|i: int|
        0 <= i < scenarios.len() ==> (#[trigger] scenarios[i]).applies == kit()[i].0
            && scenarios[i].steps@ == kit()[i].1
}

/// Every scenario in the kit.
pub fn scenarios() -> (all: Vec<Scenario>)
    ensures
        is_kit(all@),
{
    let all = vec![
        Scenario {
            name: "show: a document is accepted",
            applies: Applicability::Always,
            steps: vec![Step::new(Action::Show, Outcome::Success)],
        },
        Scenario {
            name: "show: the second document replaces the first, it does not stack",
            applies: Applicability::Always,
            steps: vec![Step::new(Action::Show, Outcome::Success), Step::new(Action::Show, Outcome::Success)],
        },
        Scenario {
            name: "clear: accepted with nothing showing",
            applies: Applicability::Always,
            steps: vec![Step::new(Action::Clear, Outcome::Success)],
        },
        Scenario {
            name: "clear: accepted twice in a row",
            applies: Applicability::Always,
            steps: vec![
                Step::new(Action::Show, Outcome::Success),
                Step::new(Action::Clear, Outcome::Success),
                Step::new(Action::Clear, Outcome::Success),
            ],
        },
        Scenario {
            name: "rendered text: refused when the capability is absent",
            applies: Applicability::WithoutCapability(Capability::ObservedText),
            steps: vec![
                Step::new(Action::Show, Outcome::Success),
                Step::new(Action::RenderedText, Outcome::Error(ErrorKind::Unsupported)),
            ],
        },
        Scenario {
            name: "rendered text: nothing is drawn before a document is shown",
            applies: Applicability::WithCapability(Capability::ObservedText),
            steps: vec![Step::new(Action::RenderedText, Outcome::Blank)],
        },
        Scenario {
            name: "rendered text: a shown document is on screen",
            applies: Applicability::WithCapability(Capability::ObservedText),
            steps: vec![
                Step::new(Action::Show, Outcome::Success),
                Step::new(Action::RenderedText, Outcome::Drawing),
            ],
        },
        Scenario {
            name: "rendered text: clearing takes it off screen",
            applies: Applicability::WithCapability(Capability::ObservedText),
            steps: vec![
                Step::new(Action::Show, Outcome::Success),
                Step::new(Action::Clear, Outcome::Success),
                Step::new(Action::RenderedText, Outcome::Blank),
            ],
        },
    ];
    assert(all@[0].steps@ =~= kit()[0].1);
    assert(all@[1].steps@ =~= kit()[1].1);
    assert(all@[2].steps@ =~= kit()[2].1);
    assert(all@[3].steps@ =~= kit()[3].1);
    assert(all@[4].steps@ =~= kit()[4].1);
    assert(all@[5].steps@ =~= kit()[5].1);
    assert(all@[6].steps@ =~= kit()[6].1);
    assert(all@[7].steps@ =~= kit()[7].1);
    all
}

/// How many of the first `n` kit entries apply to a surface.
pub open spec fn applicable_upto(capabilities: Set<Capability>, n: nat) -> nat
    decreases n,
{
    if n == 0 {
        0
    } else {
        applicable_upto(capabilities, (n - 1) as nat) + if applies(kit()[n - 1].0, capabilities) {
            1nat
        } else {
            0nat
        }
    }
}

/// How many scenarios apply to a surface with the given capabilities; lets a
/// caller assert that a run was not vacuous.
pub fn applicable_count(capabilities: Capabilities) -> (count: usize)
    ensures
        count == applicable_upto(capabilities@, 8),
{
    let all = scenarios();
    let mut count: usize = 0;
    let mut i: usize = 0;
    while i < all.len()
        invariant
            i <= all@.len(),
            is_kit(all@),
            count == applicable_upto(capabilities@, i as nat),
            count <= i,
        decreases all@.len() - i,
    {
        if all[i].applies.applies_to(capabilities) {
            count = count + 1;
        }
        i = i + 1;
    }
    count
}

/// Every capability is covered in both directions: some scenario applies
/// only with it and some only without it, and the base scenarios apply to
/// every surface.
pub proof fn law_every_capability_is_covered_in_both_directions(c: Capability)
    ensures
        exists|i: int| 0 <= i < kit().len() && kit()[i].0 == Applicability::WithCapability(c),
        exists|i: int| 0 <= i < kit().len() && kit()[i].0 == Applicability::WithoutCapability(c),
        applicable_upto(Set::<Capability>::full(), 8) == 7,
        applicable_upto(Set::<Capability>::empty(), 8) == 5,
{
    match c {
        Capability::ObservedText => {
            assert(kit()[5].0 == Applicability::WithCapability(c));
            assert(kit()[4].0 == Applicability::WithoutCapability(c));
        },
    }
    reveal_with_fuel(applicable_upto, 9);
}

/// The debug name of an error kind.
pub open spec fn kind_debug(kind: ErrorKind) -> Seq<char> {
    match kind {
        ErrorKind::Unsupported => "Unsupported"@,
        ErrorKind::Unavailable => "Unavailable"@,
        ErrorKind::NoMedia => "NoMedia"@,
        ErrorKind::ShutDown => "ShutDown"@,
        ErrorKind::ReentrantCall => "ReentrantCall"@,
        ErrorKind::SurfaceFailure => "SurfaceFailure"@,
    }
}

fn kind_name(kind: ErrorKind) -> (name: &'static str)
    ensures
        name@ == kind_debug(kind),
{
    match kind {
        ErrorKind::Unsupported => "Unsupported",
        ErrorKind::Unavailable => "Unavailable",
        ErrorKind::NoMedia => "NoMedia",
        ErrorKind::ShutDown => "ShutDown",
        ErrorKind::ReentrantCall => "ReentrantCall",
        ErrorKind::SurfaceFailure => "SurfaceFailure",
    }
}

/// The debug text of an outcome.
pub open spec fn outcome_debug(outcome: Outcome) -> Seq<char> {
    match outcome {
        Outcome::Success => "Success"@,
        Outcome::Error(kind) => "Error("@ + kind_debug(kind) + ")"@,
        Outcome::Drawing => "Drawing"@,
        Outcome::Blank => "Blank"@,
    }
}

fn outcome_text(outcome: Outcome) -> (text: String)
    ensures
        text@ == outcome_debug(outcome),
{
    match outcome {
        Outcome::Success => String::from_str("Success"),
        Outcome::Error(kind) => {
            let mut text = String::from_str("Error(");
            text.append(kind_name(kind));
            text.append(")");
            text
        },
        Outcome::Drawing => String::from_str("Drawing"),
        Outcome::Blank => String::from_str("Blank"),
    }
}

/// What a unit-returning step concluded: whether the result is what was
/// expected, and if not, why.
pub open spec fn unit_verdict(result: Result<(), RenderError>, expect: Outcome) -> Result<(), Seq<char>> {
    match (result, expect) {
        (Ok(_), Outcome::Success) => Ok(()),
        (Ok(_), Outcome::Error(kind)) => Err("succeeded, expected "@ + kind_debug(kind)),
        (Err(error), Outcome::Error(kind)) => if kind_of(error) == kind {
            Ok(())
        } else {
            Err("failed with "@ + kind_debug(kind_of(error)) + ", expected "@ + kind_debug(kind))
        },
        (Err(error), Outcome::Success) => Err("failed with "@ + render_error_debug(error)
            + ", expected success"@),
        (_, other) => Err("this action cannot satisfy "@ + outcome_debug(other)),
    }
}

/// Judges a unit result against the expected outcome.
pub fn check_unit(result: Result<(), RenderError>, expect: Outcome) -> (verdict: Result<(), String>)
    ensures
        match (verdict, unit_verdict(result, expect)) {
            (Ok(_), Ok(_)) => true,
            (Err(detail), Err(expected)) => detail@ == expected,
            _ => false,
        },
{
    match (result, expect) {
        (Ok(_), Outcome::Success) => Ok(()),
        (Ok(_), Outcome::Error(kind)) => {
            let mut detail = String::from_str("succeeded, expected ");
            detail.append(kind_name(kind));
            Err(detail)
        },
        (Err(error), Outcome::Error(kind)) => {
            let actual = ErrorKind::of(&error);
            if actual == kind {
                Ok(())
            } else {
                let mut detail = String::from_str("failed with ");
                detail.append(kind_name(actual));
                detail.append(", expected ");
                detail.append(kind_name(kind));
                Err(detail)
            }
        },
        (Err(error), Outcome::Success) => {
            let mut detail = String::from_str("failed with ");
            let shown = error.debug_text();
            detail.append(shown.as_str());
            detail.append(", expected success");
            Err(detail)
        },
        (_, other) => {
            let mut detail = String::from_str("this action cannot satisfy ");
            detail.append(outcome_text(other).as_str());
            Err(detail)
        },
    }
}

/// What a rendered-text step concluded from what the surface reported:
/// `Some(true)` for text on screen, `Some(false)` for none, `None` for a
/// refusal of the given error.
pub open spec fn rendered_verdict(drawing: Result<bool, RenderError>, expect: Outcome) -> Result<(), Seq<char>> {
    match (drawing, expect) {
        (Ok(true), Outcome::Drawing) => Ok(()),
        (Ok(false), Outcome::Blank) => Ok(()),
        (Ok(true), Outcome::Blank) => Err("something is on screen"@),
        (Ok(false), Outcome::Drawing) => Err("nothing is on screen"@),
        (Ok(_), _) => unit_verdict(Ok(()), expect),
        (Err(error), _) => unit_verdict(Err(error), expect),
    }
}

/// Judges a rendered-text result: whether something is drawn, or the error.
pub fn check_rendered(drawing: Result<bool, RenderError>, expect: Outcome) -> (verdict: Result<(), String>)
    ensures
        match (verdict, rendered_verdict(drawing, expect)) {
            (Ok(_), Ok(_)) => true,
            (Err(detail), Err(expected)) => detail@ == expected,
            _ => false,
        },
{
    match (drawing, expect) {
        (Ok(true), Outcome::Drawing) => Ok(()),
        (Ok(false), Outcome::Blank) => Ok(()),
        (Ok(true), Outcome::Blank) => Err(String::from_str("something is on screen")),
        (Ok(false), Outcome::Drawing) => Err(String::from_str("nothing is on screen")),
        (Ok(_), _) => check_unit(Ok(()), expect),
        (Err(error), _) => check_unit(Err(error), expect),
    }
}

/// Whether `verdict` is the judged conclusion `expected`.
pub open spec fn judged_as(verdict: Result<(), String>, expected: Result<(), Seq<char>>) -> bool {
    match (verdict, expected) {
        (Ok(_), Ok(_)) => true,
        (Err(detail), Err(text)) => detail@ == text,
        _ => false,
    }
}

/// Whether `verdict` is what a step with this action and expectation
/// concludes from some answer of the surface: the judge of that action
/// applied to the answer.
pub open spec fn judged_step(verdict: Result<(), String>, action: Action, expect: Outcome) -> bool {
    match action {
        Action::RenderedText => exists|drawing: Result<bool, RenderError>|
            judged_as(verdict, #[trigger] rendered_verdict(drawing, expect)),
        _ => exists|answer: Result<(), RenderError>| judged_as(verdict, #[trigger] unit_verdict(answer, expect)),
    }
}

fn run_step<D, R: SubtitleRenderer<D>>(renderer: &mut R, step: &Step, inputs: &RenderInputs<D>) -> (verdict:
    Result<(), String>)
    ensures
        judged_step(verdict, step.action, step.expect),
{
    let document = &inputs.document;
    match step.action {
        Action::Show => {
            let answer = renderer.show(document);
            let verdict = check_unit(answer, step.expect);
            assert(judged_as(verdict, unit_verdict(answer, step.expect)));
            verdict
        },
        Action::Clear => {
            let answer = renderer.clear();
            let verdict = check_unit(answer, step.expect);
            assert(judged_as(verdict, unit_verdict(answer, step.expect)));
            verdict
        },
        Action::RenderedText => {
            let drawing = match renderer.rendered_text() {
                Ok(Some(_)) => Ok(true),
                Ok(None) => Ok(false),
                Err(error) => Err(error),
            };
            let verdict = check_rendered(drawing, step.expect);
            assert(judged_as(verdict, rendered_verdict(drawing, step.expect)));
            verdict
        },
    }
}

/// What a runner needs besides the renderer: a document it can show. The
/// surface's playhead must already be inside the document's first cue: a
/// renderer cannot move time, so the kit cannot put it there.
pub struct RenderInputs<D> {
    pub document: D,
}

impl<D> RenderInputs<D> {
    pub fn new(document: D) -> (inputs: RenderInputs<D>)
        ensures
            inputs.document == document,
    {
        RenderInputs { document }
    }
}

/// Runs one scenario, stopping at the first failing step: later steps
/// assume earlier ones succeeded.
pub fn run_scenario<D, R: SubtitleRenderer<D>>(renderer: &mut R, scenario: &Scenario, inputs: &RenderInputs<D>) -> (failure:
    Option<Failure>)
    ensures
        failure matches Some(f) ==> f.scenario == scenario.name && f.step < scenario.steps@.len()
            && f.action == scenario.steps@[f.step as int].action,
        failure matches Some(f) ==> judged_step(Err(f.detail), f.action, scenario.steps@[f.step as int].expect),
        failure matches Some(f) ==> forall|i: int|
            0 <= i < f.step ==> #[trigger] judged_step(Ok(()), scenario.steps@[i].action, scenario.steps@[i].expect),
        failure is None ==> forall|i: int|
            0 <= i < scenario.steps@.len() ==> #[trigger] judged_step(
                Ok(()),
                scenario.steps@[i].action,
                scenario.steps@[i].expect,
            ),
{
    let mut index: usize = 0;
    while index < scenario.steps.len()
        invariant
            index <= scenario.steps@.len(),
            forall|i: int|
                0 <= i < index ==> #[trigger] judged_step(Ok(()), scenario.steps@[i].action, scenario.steps@[i].expect),
        decreases scenario.steps@.len() - index,
    {
        let step = &scenario.steps[index];
        match run_step(renderer, step, inputs) {
            Ok(()) => {},
            Err(detail) => {
                return Some(Failure { scenario: scenario.name, step: index, action: step.action, detail });
            },
        }
        index = index + 1;
    }
    None
}

/// Whether `f` reports step `f.step` of kit scenario `j` failing: the step's
/// action, and a verdict its judge gives on some answer.
pub open spec fn kit_failure_at(f: Failure, j: int) -> bool {
    &&& 0 <= j < kit().len()
    &&& f.step < kit()[j].1.len()
    &&& kit()[j].1[f.step as int].action == f.action
    &&& judged_step(Err(f.detail), f.action, kit()[j].1[f.step as int].expect)
}

/// Whether `f` reports a failing step of some kit scenario.
pub open spec fn kit_failure(f: Failure) -> bool {
    exists|j: int| #[trigger] kit_failure_at(f, j)
}

/// Runs every applicable scenario against a freshly built surface each
/// time, so one cannot leave state behind for the next.
pub fn run_all<D, R: SubtitleRenderer<D>, B: Fn() -> R>(build: B, inputs: &RenderInputs<D>) -> (failures: Vec<
    Failure,
>)
    requires
        forall|| #[trigger] build.requires(()),
    ensures
        failures@.len() <= 8,
        forall|k: int| 0 <= k < failures@.len() ==> #[trigger] kit_failure(failures@[k]),
{
    let all = scenarios();
    let mut failures: Vec<Failure> = Vec::new();
    let mut i: usize = 0;
    while i < all.len()
        invariant
            i <= all@.len(),
            is_kit(all@),
            failures@.len() <= i,
            forall|k: int| 0 <= k < failures@.len() ==> #[trigger] kit_failure(failures@[k]),
            forall|| #[trigger] build.requires(()),
        decreases all@.len() - i,
    {
        let mut renderer = build();
        if all[i].applies.applies_to(renderer.capabilities()) {
            match run_scenario(&mut renderer, &all[i], inputs) {
                Some(failure) => {
                    assert(kit_failure_at(failure, i as int));
                    failures.push(failure);
                },
                None => {},
            }
        }
        i = i + 1;
    }
    failures
}

} // verus!
