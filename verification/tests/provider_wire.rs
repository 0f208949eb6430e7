use nen_core::providers::wire::{
    analysis_prompt_input, chat_envelope, copy_analysis, mode_name, responses_envelope, translation_prompt_input,
    translation_response_schema, PromptInput, ANALYSIS_RESPONSE_SCHEMA, NORMALIZATION_SCHEMA, UPSTREAM_PROVIDER,
};
use nen_core::providers::{openai, openrouter};
use nen_core::providers::wire::PromptCue;
use nen_core::translation::{
    AnalysisCharacter, DocumentAnalysis, TranslationProviderIdentity, DocumentAnalysisRequest, TranslationCue, TranslationMode, TranslationRequest,
    PROMPT_VERSION, SCHEMA_VERSION,
};

fn request() -> TranslationRequest {
    TranslationRequest {
        source_language: "en".into(),
        target_language: "tr".into(),
        context_cues: vec![
            TranslationCue { cue_id: 10, text: "First".into() },
            TranslationCue { cue_id: 20, text: "Second".into() },
            TranslationCue { cue_id: 30, text: "Third".into() },
        ],
        output_cue_ids: vec![20, 30],
        analysis: DocumentAnalysis {
            summary: "s".into(),
            characters: vec![AnalysisCharacter { name: "N".into(), description: "D".into() }],
            glossary: Vec::new(),
        },
        block_index: 2,
        block_count: 5,
        mode: TranslationMode::TargetedRepair,
    }
}

#[test]
fn translation_prompt_marks_only_the_requested_cues() {
    let input = translation_prompt_input(&request());
    assert_eq!(input.prompt_version, PROMPT_VERSION);
    assert_eq!(input.schema_version, SCHEMA_VERSION);
    assert_eq!((input.block_index, input.block_count), (2, 5));
    assert_eq!(input.mode, "targetedRepair");
    assert_eq!(input.output_cue_ids, vec![20, 30]);
    let marks: Vec<(u32, &str, Option<bool>)> =
        input.cues.iter().map(|c| (c.cue_id, c.text.as_str(), c.translate)).collect();
    assert_eq!(marks, vec![(10, "First", Some(false)), (20, "Second", Some(true)), (30, "Third", Some(true))]);
    assert_eq!(input.analysis.characters[0].name, "N");
}

#[test]
fn analysis_prompt_carries_the_transcript_unmarked() {
    let request = DocumentAnalysisRequest {
        source_language: "en".into(),
        target_language: "tr".into(),
        transcript: request().context_cues,
        context_terms: vec!["Term".into()],
    };
    let input = analysis_prompt_input(&request);
    assert_eq!(input.source_language, "en");
    assert_eq!(input.context_terms, vec!["Term".to_string()]);
    assert_eq!(input.transcript.len(), 3);
    assert!(input.transcript.iter().all(|c| c.translate.is_none()));
    assert_eq!(input.transcript[2].text, "Third");
}

#[test]
fn modes_are_written_in_camel_case() {
    assert_eq!(mode_name(TranslationMode::Initial), "initial");
    assert_eq!(mode_name(TranslationMode::TargetedRepair), "targetedRepair");
    assert_eq!(mode_name(TranslationMode::FullRetry), "fullRetry");
}

#[test]
fn translation_schema_pins_the_count_and_the_ids() {
    let schema: serde_json::Value =
        serde_json::from_str(&translation_response_schema(&vec![20, 30])).expect("schema is JSON");
    let translations = &schema["properties"]["translations"];
    assert_eq!(translations["minItems"], 2);
    assert_eq!(translations["maxItems"], 2);
    assert_eq!(translations["items"]["properties"]["cueId"]["enum"], serde_json::Value::from(vec![20, 30]));
    assert_eq!(schema["additionalProperties"], false);
    let empty: serde_json::Value = serde_json::from_str(&translation_response_schema(&Vec::new())).expect("schema is JSON");
    assert_eq!(empty["properties"]["translations"]["items"]["properties"]["cueId"]["enum"], serde_json::Value::from(Vec::<u32>::new()));
}

#[test]
fn fixed_schemas_are_json_objects() {
    let analysis: serde_json::Value = serde_json::from_str(ANALYSIS_RESPONSE_SCHEMA).expect("analysis schema");
    assert_eq!(analysis["required"], serde_json::Value::from(vec!["summary", "characters", "glossary"]));
    let normalization: serde_json::Value = serde_json::from_str(NORMALIZATION_SCHEMA).expect("normalization schema");
    assert_eq!(normalization["required"], serde_json::Value::from(vec!["title", "year", "season", "episode"]));
}

#[test]
fn envelopes_are_strict_and_routed() {
    let responses = responses_envelope("m", "i".into(), PromptInput::Normalization("u".into()), "name", "{}".into());
    assert!(!responses.store && responses.strict);
    assert_eq!(responses.format_type, "json_schema");
    let chat = chat_envelope("m", "i".into(), PromptInput::Normalization("u".into()), "name", "{}".into(), true);
    assert_eq!(chat.provider_order, UPSTREAM_PROVIDER);
    assert!(!chat.allow_fallbacks && chat.require_parameters && chat.include_usage);
}

#[test]
fn an_analysis_copy_keeps_every_field() {
    let original = request().analysis;
    let copy = copy_analysis(&original);
    assert!(copy == original);
}

fn same_cues(a: &[PromptCue], b: &[PromptCue]) -> bool {
    a.len() == b.len()
        && a.iter().zip(b).all(|(x, y)| x.cue_id == y.cue_id && x.text == y.text && x.translate == y.translate)
}

fn same_input(a: &PromptInput, b: &PromptInput) -> bool {
    match (a, b) {
        (PromptInput::Analysis(x), PromptInput::Analysis(y)) => {
            x.prompt_version == y.prompt_version
                && x.schema_version == y.schema_version
                && x.source_language == y.source_language
                && x.target_language == y.target_language
                && x.context_terms == y.context_terms
                && same_cues(&x.transcript, &y.transcript)
        }
        (PromptInput::Translation(x), PromptInput::Translation(y)) => {
            x.prompt_version == y.prompt_version
                && x.schema_version == y.schema_version
                && x.source_language == y.source_language
                && x.target_language == y.target_language
                && (x.block_index, x.block_count, x.mode) == (y.block_index, y.block_count, y.mode)
                && x.output_cue_ids == y.output_cue_ids
                && x.analysis == y.analysis
                && same_cues(&x.cues, &y.cues)
        }
        (PromptInput::Normalization(x), PromptInput::Normalization(y)) => x == y,
        _ => false,
    }
}

fn assert_same_semantics(a: &nen_core::providers::wire::ResponsesEnvelope, b: &nen_core::providers::wire::ChatEnvelope) {
    assert_eq!(a.instructions, b.system);
    assert!(same_input(&a.input, &b.user));
    assert_eq!(a.schema_name, b.schema_name);
    assert_eq!(a.strict, b.strict);
    assert_eq!(a.schema, b.schema);
}

#[test]
fn both_real_providers_share_analysis_initial_targeted_and_full_retry_semantics() {
    let openai_identity = TranslationProviderIdentity::new("openai", "gpt-test").expect("identity");
    let openrouter_identity = TranslationProviderIdentity::new("openrouter", "openai/gpt-test").expect("identity");
    let analysis = DocumentAnalysisRequest {
        source_language: "en".into(),
        target_language: "tr".into(),
        transcript: request().context_cues,
        context_terms: vec!["Term".into()],
    };
    assert_same_semantics(
        &openai::build_analysis_request_body(&openai_identity, &analysis),
        &openrouter::build_analysis_request_body(&openrouter_identity, &analysis),
    );
    for mode in [TranslationMode::Initial, TranslationMode::TargetedRepair, TranslationMode::FullRetry] {
        let mut translation = request();
        translation.mode = mode;
        assert_same_semantics(
            &openai::build_translation_request_body(&openai_identity, &translation),
            &openrouter::build_translation_request_body(&openrouter_identity, &translation),
        );
    }
}
