use nen_core::credentials::ApiKey;
use nen_core::filename_normalization::{FilenameNormalizationError, FilenameNormalizationResult};
use nen_core::http::{FakeHttpClient, HttpClient, HttpError, HttpHeader, HttpMethod, HttpRequest, HttpResponse};
use nen_core::identity::{IdentityLookup, IdentityLookupError, MediaHash, MediaIdentityLookup, VerifiedMediaIdentity};
use nen_core::providers::filename_normalization::parse_response as parse_normalization;
use nen_core::providers::openrouter::{
    parse_capabilities, valid_model, Clock, OpenRouterPreflightError, OpenRouterTranslationProvider,
};
use nen_core::providers::opensubtitles::{
    clean_title, is_allowed_url, parse_response, resolve_redirect, OpenSubtitlesApiKey, OpenSubtitlesIdentityLookup,
};
use nen_core::providers::translation_http::{
    contains_refusal, parse_translation_response_body, retry_after_or_fallback, RequestEncoder, RetrySleeper,
};
use nen_core::providers::translation_mock::MockTranslationProvider;
use nen_core::providers::{openai, openrouter};
use nen_core::translation::{
    DocumentAnalysis, DocumentAnalysisRequest, TranslationCall, TranslationCue, TranslationMode, TranslationProgress,
    TranslationProgressPhase, TranslationProgressSink, TranslationProvider, TranslationProviderError,
    TranslationProviderIdentity, TranslationRequest, PROMPT_VERSION, SCHEMA_VERSION,
};
use nen_core::json::parse_json;
use nen_core::providers::wire::{ChatEnvelope, ResponsesEnvelope};
use nen_core::translation::contract::{judge_provider, same_id_lists, ContractViolation};
use std::cell::Cell;

const USER_AGENT: &str = "Nen Player/0.1";
const MAX_RESPONSE_BYTES: usize = 1024 * 1024;
const ENDPOINT: &str = "https://api.opensubtitles.com/api/v1/subtitles?moviehash=0001020304050607&moviehash_match=only";

fn hash() -> MediaHash {
    MediaHash::from_bytes([0, 1, 2, 3, 4, 5, 6, 7])
}

fn response(body: &str) -> HttpResponse {
    HttpResponse { status_code: 200, headers: Vec::new(), body: body.as_bytes().to_vec() }
}

fn search_request(key: &str) -> HttpRequest {
    HttpRequest::get(
        ENDPOINT,
        vec![
            HttpHeader { name: "Api-Key".into(), value: key.into() },
            HttpHeader { name: "User-Agent".into(), value: USER_AGENT.into() },
            HttpHeader { name: "Accept".into(), value: "application/json".into() },
        ],
        MAX_RESPONSE_BYTES,
    )
}

fn lookup(body: &str) -> Result<IdentityLookup, IdentityLookupError> {
    let mut http = FakeHttpClient::new(vec![(search_request("test-key"), Ok(response(body)))]);
    let key = OpenSubtitlesApiKey::new("test-key").expect("valid key");
    OpenSubtitlesIdentityLookup::new(&mut http, key).lookup_by_hash(hash())
}

fn is_match(answer: &IdentityLookup, title: &str, year: Option<u16>, season: Option<u16>, episode: Option<u16>) -> bool {
    match answer {
        IdentityLookup::Match(VerifiedMediaIdentity { title: t, year: y, season: s, episode: e }) => {
            t == title && *y == year && *s == season && *e == episode
        }
        _ => false,
    }
}

#[test]
fn exact_records_with_one_identity_become_a_match() {
    let answer = lookup(
        r#"{"data":[{"attributes":{"moviehash_match":true,"feature_details":{"title":"Film","year":2010}}}]}"#,
    )
    .expect("lookup");
    assert!(answer == IdentityLookup::Match(VerifiedMediaIdentity { title: "Film".into(), year: Some(2010), season: None, episode: None }));
}

#[test]
fn duplicate_exact_records_are_one_match_but_different_ones_are_ambiguous() {
    let duplicate = lookup(
        r#"{"data":[{"attributes":{"moviehash_match":true,"feature_details":{"title":"Film","year":2010}}},{"attributes":{"moviehash_match":true,"feature_details":{"title":"Film","year":2010}}}]}"#,
    )
    .expect("lookup");
    assert!(matches!(duplicate, IdentityLookup::Match(_)));
    let ambiguous = lookup(
        r#"{"data":[{"attributes":{"moviehash_match":true,"feature_details":{"title":"Film","year":2010}}},{"attributes":{"moviehash_match":true,"feature_details":{"title":"Other","year":2011}}}]}"#,
    )
    .expect("lookup");
    assert!(ambiguous == IdentityLookup::Ambiguous);
}

#[test]
fn empty_or_non_exact_records_are_no_match() {
    let answer = lookup(
        r#"{"data":[{"attributes":{"moviehash_match":false,"feature_details":{"title":"Film","year":2010}}}]}"#,
    )
    .expect("lookup");
    assert!(answer == IdentityLookup::NoMatch);
}

#[test]
fn credential_and_provider_values_are_redacted() {
    let key = OpenSubtitlesApiKey::new("private-api-key").expect("valid key");
    assert!(!key.debug_text().contains("private-api-key"));
    assert!(!key.display_text().contains("private-api-key"));
    assert!(!hash().debug_text().contains("0001020304050607"));
}

#[test]
fn provider_payloads_and_credentials_never_reach_debug_output() {
    let key = OpenSubtitlesApiKey::new("fixture-secret").expect("valid key");
    let request = HttpRequest::get(
        "https://api.opensubtitles.com/api/v1/subtitles?moviehash=deadbeefdeadbeef",
        vec![HttpHeader { name: "Api-Key".into(), value: "fixture-secret".into() }],
        MAX_RESPONSE_BYTES,
    );
    let response = response(
        r#"{"data":[{"attributes":{"moviehash_match":true,"feature_details":{"title":"Private Filename.mkv","year":2020},"files":[{"file_id":987654,"file_name":"Private Filename.mkv"}]}}]}"#,
    );
    assert!(!key.debug_text().contains("fixture-secret"));
    assert!(!request.debug_text().contains("deadbeefdeadbeef"));
    assert!(!request.debug_text().contains("fixture-secret"));
    assert!(!response.debug_text().contains("Private Filename.mkv"));
    assert!(!response.debug_text().contains("987654"));
}

struct SequenceClient {
    responses: Vec<Result<HttpResponse, HttpError>>,
    requests: Vec<HttpRequest>,
}

impl SequenceClient {
    fn new(responses: Vec<Result<HttpResponse, HttpError>>) -> Self {
        Self { responses, requests: Vec::new() }
    }

    fn request_count(&self) -> usize {
        self.requests.len()
    }

    fn method_count(&self, method: HttpMethod) -> usize {
        self.requests.iter().filter(|request| request.method == method).count()
    }
}

impl HttpClient for SequenceClient {
    fn exchanges(&self) -> vstd::seq::Seq<(HttpRequest, Result<HttpResponse, HttpError>)> {
        vstd::seq::Seq::empty()
    }

    fn send(&mut self, request: HttpRequest) -> Result<HttpResponse, HttpError> {
        self.requests.push(request);
        self.responses.remove(0)
    }
}

fn sequence_lookup(client: &mut SequenceClient) -> Result<IdentityLookup, IdentityLookupError> {
    let key = OpenSubtitlesApiKey::new("fixture-key").expect("valid key");
    OpenSubtitlesIdentityLookup::new(client, key).lookup_by_hash(hash())
}

fn status_response(status_code: u16, headers: Vec<HttpHeader>, body: Vec<u8>) -> HttpResponse {
    HttpResponse { status_code, headers, body }
}

#[test]
fn malformed_json_is_a_payload_free_typed_error() {
    let mut client = SequenceClient::new(vec![Ok(status_response(200, Vec::new(), b"{".to_vec()))]);
    assert_eq!(sequence_lookup(&mut client).err(), Some(IdentityLookupError::InvalidResponse));
}

#[test]
fn oversized_json_is_rejected_before_parsing() {
    let mut client = SequenceClient::new(vec![Ok(status_response(200, Vec::new(), vec![b'x'; MAX_RESPONSE_BYTES + 1]))]);
    assert_eq!(sequence_lookup(&mut client).err(), Some(IdentityLookupError::ResponseTooLarge));
}

#[test]
fn non_success_and_transport_failures_are_typed() {
    let mut transport = SequenceClient::new(vec![Err(HttpError::Transport)]);
    assert_eq!(sequence_lookup(&mut transport).err(), Some(IdentityLookupError::Transport));
    let mut status = SequenceClient::new(vec![Ok(status_response(429, Vec::new(), Vec::new()))]);
    assert_eq!(sequence_lookup(&mut status).err(), Some(IdentityLookupError::HttpStatus));
}

#[test]
fn only_https_approved_hosts_and_bounded_redirects_are_followed() {
    let mut redirected = SequenceClient::new(vec![
        Ok(status_response(
            302,
            vec![HttpHeader {
                name: "Location".into(),
                value: "https://vip-api.opensubtitles.com/api/v1/subtitles?moviehash=0001020304050607&moviehash_match=only".into(),
            }],
            Vec::new(),
        )),
        Ok(response(r#"{"data":[]}"#)),
    ]);
    assert!(sequence_lookup(&mut redirected) == Ok(IdentityLookup::NoMatch));
    assert_eq!(redirected.request_count(), 2);
    let mut insecure = SequenceClient::new(vec![Ok(status_response(
        302,
        vec![HttpHeader { name: "Location".into(), value: "http://api.opensubtitles.com/api/v1/subtitles".into() }],
        Vec::new(),
    ))]);
    assert_eq!(sequence_lookup(&mut insecure).err(), Some(IdentityLookupError::RedirectRejected));
    let mut foreign_host = SequenceClient::new(vec![Ok(status_response(
        302,
        vec![HttpHeader { name: "Location".into(), value: "https://evil.example/api/v1/subtitles".into() }],
        Vec::new(),
    ))]);
    assert_eq!(sequence_lookup(&mut foreign_host).err(), Some(IdentityLookupError::RedirectRejected));
}

#[test]
fn redirect_limit_is_enforced() {
    let responses = (0..6)
        .map(|_| Ok(status_response(302, vec![HttpHeader { name: "Location".into(), value: ENDPOINT.into() }], Vec::new())))
        .collect();
    let mut client = SequenceClient::new(responses);
    assert_eq!(sequence_lookup(&mut client).err(), Some(IdentityLookupError::RedirectRejected));
    assert_eq!(client.request_count(), 6);
}

#[test]
fn search_urls_and_redirect_targets_follow_the_rules() {
    assert!(is_allowed_url(ENDPOINT));
    assert!(is_allowed_url("https://vip-api.opensubtitles.com/api/v1/subtitles#x"));
    assert!(!is_allowed_url("https://api.opensubtitles.com/api/v1/subtitlesX"));
    assert!(!is_allowed_url("https://api.opensubtitles.com"));
    assert!(!is_allowed_url("https://api.opensubtitles.com/api/v1/subtitles?a=\n"));
    assert_eq!(
        resolve_redirect("https://api.opensubtitles.com/api/v1/subtitles?x=1", "/api/v1/subtitles?y=2"),
        Some("https://api.opensubtitles.com/api/v1/subtitles?y=2".to_string())
    );
    assert_eq!(resolve_redirect("https://a.example/x", "relative/path"), None);
    assert_eq!(resolve_redirect("http://a.example/x", "/p"), None);
}

#[test]
fn titles_are_cleaned_of_control_and_bidi_characters() {
    assert_eq!(clean_title("  Fi\u{202e}lm\u{0007} "), Some("Film".to_string()));
    assert_eq!(clean_title("\u{2066}\u{2069}"), None);
    assert_eq!(clean_title(&"x".repeat(513)), None);
}

#[test]
fn season_and_episode_fall_back_to_their_short_names() {
    let answer = parse_response(
        br#"{"data":[{"attributes":{"movie_hash_match":true,"feature_details":{"title":"Show","season":2,"episode_number":3,"year":0}}}]}"#,
    )
    .expect("parsed");
    assert!(is_match(&answer, "Show", None, Some(2), Some(3)));
    assert_eq!(parse_response(br#"{"nodata":[]}"#).err(), Some(IdentityLookupError::InvalidResponse));
}

#[test]
fn a_refusal_anywhere_is_found() {
    let nested = parse_json(br#"{"a":[{"b":{"type":"refusal"}}]}"#).expect("json");
    assert!(contains_refusal(&nested));
    let null_refusal = parse_json(br#"{"refusal":null,"x":[1,2]}"#).expect("json");
    assert!(!contains_refusal(&null_refusal));
}

#[test]
fn translation_answers_are_read_strictly() {
    let ok = parse_translation_response_body(br#"{"output_text":"{\"translations\":[{\"cueId\":10,\"text\":\"Bir\"}]}"}"#)
        .expect("parsed");
    assert_eq!(ok.cues.len(), 1);
    assert_eq!(ok.cues[0].cue_id, 10);
    assert_eq!(ok.cues[0].text, "Bir");
    let chat = parse_translation_response_body(
        br#"{"choices":[{"message":{"content":"{\"translations\":[]}"}}]}"#,
    )
    .expect("parsed");
    assert!(chat.cues.is_empty());
    assert_eq!(
        parse_translation_response_body(br#"{"translations":[{"cueId":1,"text":"x","extra":true}]}"#).err(),
        Some(TranslationProviderError::Permanent)
    );
    assert_eq!(
        parse_translation_response_body(br#"{"output_text":"{}","refusal":"no"}"#).err(),
        Some(TranslationProviderError::Permanent)
    );
}

#[test]
fn retry_after_header_values_are_read_and_clamped() {
    let with = |value: &str| HttpResponse {
        status_code: 429,
        headers: vec![HttpHeader { name: "Retry-After".into(), value: value.into() }],
        body: Vec::new(),
    };
    assert_eq!(retry_after_or_fallback(&with(" 3 "), 0), 3_000);
    assert_eq!(retry_after_or_fallback(&with("99"), 0), 10_000);
    assert_eq!(retry_after_or_fallback(&with("soon"), 0), 500);
    assert_eq!(retry_after_or_fallback(&with("-1"), 1), 2_000);
}

#[test]
fn normalization_answers_are_read_strictly() {
    let normalized = parse_normalization(br#"{"title":" Film ","year":2020,"season":null,"episode":null}"#).expect("parsed");
    match normalized {
        FilenameNormalizationResult::Normalized(n) => {
            assert_eq!(n.title, "Film");
            assert_eq!(n.year, Some(2020));
        }
        FilenameNormalizationResult::Unknown => panic!("expected a title"),
    }
    assert!(matches!(
        parse_normalization(br#"{"title":null,"year":null,"season":null,"episode":null}"#),
        Ok(FilenameNormalizationResult::Unknown)
    ));
    assert!(matches!(
        parse_normalization(br#"{"title":"Film","year":null}"#),
        Err(FilenameNormalizationError::InvalidResponse)
    ));
    assert!(matches!(
        parse_normalization(&vec![b' '; 1024 * 1024 + 1]),
        Err(FilenameNormalizationError::ResponseTooLarge)
    ));
}

#[test]
fn model_names_and_capabilities_are_checked() {
    assert!(valid_model("openai/gpt-5.6-luna"));
    assert!(!valid_model("openai"));
    assert!(!valid_model("a/b/c"));
    assert!(!valid_model("openai/../x"));
    assert!(!valid_model("openai/gpt 5"));
    assert!(parse_capabilities(br#"{"data":{"supported_parameters":["structured_outputs"]}}"#)
        .expect("parsed")
        .supports_structured_outputs());
    assert!(!parse_capabilities(br#"{"supported_parameters":["tools"]}"#).expect("parsed").supports_structured_outputs());
    assert!(parse_capabilities(b"{}").is_err());
}

#[derive(Default)]
struct NoWait {
    naps: Vec<u64>,
}

impl RetrySleeper for NoWait {
    fn naps(&self) -> Vec<u64> {
        self.naps.clone()
    }

    fn sleep<S: TranslationProgressSink>(&mut self, delay_ms: u64, _call: &TranslationCall<S>) {
        self.naps.push(delay_ms);
    }
}

struct TestClock {
    now: Cell<u64>,
}

impl Clock for TestClock {
    fn now_seconds(&self) -> u64 {
        self.now.get()
    }
}

struct NoBodies;

impl RequestEncoder for NoBodies {
    fn responses_body(&self, _envelope: &ResponsesEnvelope) -> Option<Vec<u8>> {
        Some(b"{}".to_vec())
    }

    fn chat_body(&self, _envelope: &ChatEnvelope) -> Option<Vec<u8>> {
        Some(b"{}".to_vec())
    }
}

const BAD_GATEWAY_BODY: &str = r#"{"error":{"code":502,"message":"upstream unavailable"}}"#;

#[test]
fn preflight_bad_gateway_is_transient_and_never_starts_the_job() {
    let mut client = SequenceClient::new(vec![
        Ok(status_response(502, Vec::new(), BAD_GATEWAY_BODY.as_bytes().to_vec())),
        Ok(status_response(502, Vec::new(), BAD_GATEWAY_BODY.as_bytes().to_vec())),
        Ok(status_response(502, Vec::new(), BAD_GATEWAY_BODY.as_bytes().to_vec())),
    ]);
    {
        let mut provider = OpenRouterTranslationProvider::new(
            &mut client,
            ApiKey::new("fixture-openrouter-key").expect("key"),
            "openai/gpt-5.6-luna",
            NoWait::default(),
            TestClock { now: Cell::new(100) },
            NoBodies,
        )
        .expect("provider");
        assert!(
            provider.preflight(&TranslationCall::without_progress()) == Err(OpenRouterPreflightError::Transient),
            "preflight 502 exhaustion is transient"
        );
    }
    assert!(client.method_count(HttpMethod::Get) == 3, "preflight retry budget is bounded");
    assert!(client.method_count(HttpMethod::Post) == 0, "a failed preflight never starts the job");
}

#[test]
fn capability_cache_keeps_a_negative_answer() {
    let mut client = SequenceClient::new(vec![Ok(status_response(
        200,
        Vec::new(),
        br#"{"data":{"supported_parameters":["tools"]}}"#.to_vec(),
    ))]);
    {
        let mut provider = OpenRouterTranslationProvider::new(
            &mut client,
            ApiKey::new("fixture-openrouter-key").expect("key"),
            "openai/gpt-5.6-luna",
            NoWait::default(),
            TestClock { now: Cell::new(100) },
            NoBodies,
        )
        .expect("provider");
        let call = TranslationCall::without_progress();
        assert!(provider.preflight(&call) == Err(OpenRouterPreflightError::CapabilityMissing));
        assert!(provider.preflight(&call) == Err(OpenRouterPreflightError::CapabilityMissing));
    }
    assert_eq!(client.request_count(), 1);
}

fn request() -> TranslationRequest {
    TranslationRequest {
        source_language: "en".into(),
        target_language: "tr".into(),
        context_cues: vec![
            TranslationCue { cue_id: 10, text: "First fixture line".into() },
            TranslationCue { cue_id: 20, text: "Second fixture line".into() },
        ],
        output_cue_ids: vec![10, 20],
        analysis: DocumentAnalysis { summary: "s".into(), characters: Vec::new(), glossary: Vec::new() },
        block_index: 1,
        block_count: 1,
        mode: TranslationMode::Initial,
    }
}

#[test]
fn same_request_has_the_same_identity_response_and_progress() {
    let mut mock = MockTranslationProvider::new();
    let call = TranslationCall::without_progress();
    let first = mock.translate(&request(), &call).expect("translated");
    let second = mock.translate(&request(), &TranslationCall::without_progress()).expect("translated");
    assert_eq!(first.cues.len(), 2);
    assert_eq!(first.cues[0].text, "[tr] First fixture line");
    assert_eq!(first.cues[1].cue_id, 20);
    assert_eq!(first.cues[1].text, second.cues[1].text);
    assert_eq!(mock.calls(), 2);
    assert_eq!(mock.identity().provider(), "nen-mock");
    let mut missing = request();
    missing.output_cue_ids = vec![30];
    assert_eq!(mock.translate(&missing, &call).err(), Some(TranslationProviderError::Permanent));
}

#[test]
fn provider_exports_use_the_port_canonical_contract_versions() {
    assert_eq!(openai::PROMPT_VERSION, PROMPT_VERSION);
    assert_eq!(openai::SCHEMA_VERSION, SCHEMA_VERSION);
    assert_eq!(openrouter::PROMPT_VERSION, PROMPT_VERSION);
    assert_eq!(openrouter::SCHEMA_VERSION, SCHEMA_VERSION);
}

#[test]
fn mock_passes_the_shared_contract_kit() {
    nen_core::translation::contract::check(&mut MockTranslationProvider::new(), &request()).expect("contract passes");
}

struct DefectProvider;

impl TranslationProvider for DefectProvider {
    fn identity(&self) -> TranslationProviderIdentity {
        TranslationProviderIdentity::new("defect", "missing-cue").expect("identity")
    }

    fn analyze_document<S: TranslationProgressSink>(
        &mut self,
        _request: &DocumentAnalysisRequest,
        _call: &TranslationCall<S>,
    ) -> Result<DocumentAnalysis, TranslationProviderError> {
        Err(TranslationProviderError::Permanent)
    }

    fn translate<S: TranslationProgressSink>(
        &mut self,
        request: &TranslationRequest,
        call: &TranslationCall<S>,
    ) -> Result<nen_core::translation::TranslationResponse, TranslationProviderError> {
        call.checkpoint()?;
        let total = u32::try_from(request.output_cue_ids.len()).map_err(|_| TranslationProviderError::Permanent)?;
        call.progress(TranslationProgress { phase: TranslationProgressPhase::Preparing, done: 0, total })?;
        call.progress(TranslationProgress { phase: TranslationProgressPhase::Finalizing, done: total, total })?;
        call.finish(nen_core::translation::TranslationResponse {
            cues: vec![nen_core::translation::TranslatedCue { cue_id: request.output_cue_ids[0], text: "incomplete".into() }],
        })
    }
}

#[test]
fn contract_kit_goes_red_for_a_missing_cue_defect() {
    let violations =
        nen_core::translation::contract::check(&mut DefectProvider, &request()).expect_err("defect is caught");
    assert!(violations.contains(&nen_core::translation::contract::ContractViolation::ResponseCueIds));
    assert_eq!(violations, vec![nen_core::translation::contract::ContractViolation::ResponseCueIds]);
}

#[test]
fn the_provider_judge_reports_each_broken_rule() {
    let expected = vec![10u32, 20, 20];
    assert!(same_id_lists(&vec![20, 10, 20], &expected));
    assert!(!same_id_lists(&vec![20, 10, 10], &expected));
    assert!(!same_id_lists(&vec![20, 10], &expected));
    let good = vec![
        TranslationProgress { phase: TranslationProgressPhase::Preparing, done: 0, total: 3 },
        TranslationProgress { phase: TranslationProgressPhase::Finalizing, done: 3, total: 3 },
    ];
    assert_eq!(judge_provider(Some(&vec![20, 20, 10]), &expected, &good, true), Ok(()));
    assert_eq!(
        judge_provider(None, &expected, &Vec::new(), false),
        Err(vec![ContractViolation::CallFailed, ContractViolation::MissingProgress, ContractViolation::Cancellation])
    );
    let unfinished = vec![TranslationProgress { phase: TranslationProgressPhase::Preparing, done: 0, total: 3 }];
    assert_eq!(
        judge_provider(Some(&vec![10]), &expected, &unfinished, true),
        Err(vec![ContractViolation::ResponseCueIds, ContractViolation::ProgressBoundaries])
    );
}

#[test]
fn request_response_and_errors_never_print_provider_payloads() {
    let secret = "First fixture line";
    let input = request();
    let identity = TranslationProviderIdentity::new(secret, secret).expect("non-empty sentinel identity");
    let response = MockTranslationProvider::new()
        .translate(&input, &TranslationCall::without_progress())
        .expect("translation");

    assert!(!identity.debug_text().contains(secret));
    assert!(!input.debug_text().contains(secret));
    assert!(!response.debug_text().contains(secret));
    assert!(!response.cues[0].debug_text().contains(secret));
    for error in [
        TranslationProviderError::Cancelled,
        TranslationProviderError::Transient,
        TranslationProviderError::Permanent,
    ] {
        assert!(!format!("{error:?} {}", error.display_text()).contains(secret));
    }
}

#[test]
fn sensitive_values_are_shape_only_in_debug_output() {
    let secret = "PRIVATE SUBTITLE DIALOGUE";
    let cue = TranslationCue { cue_id: 7, text: secret.into() };
    let request = TranslationRequest {
        source_language: "en".into(),
        target_language: "tr".into(),
        context_cues: vec![cue.clone()],
        output_cue_ids: vec![cue.cue_id],
        analysis: DocumentAnalysis {
            summary: secret.into(),
            characters: vec![nen_core::translation::AnalysisCharacter { name: secret.into(), description: secret.into() }],
            glossary: vec![nen_core::translation::AnalysisGlossaryEntry {
                source: secret.into(),
                target: secret.into(),
                note: secret.into(),
            }],
        },
        block_index: 1,
        block_count: 1,
        mode: TranslationMode::Initial,
    };
    let response = nen_core::translation::TranslationResponse {
        cues: vec![nen_core::translation::TranslatedCue { cue_id: cue.cue_id, text: secret.into() }],
    };
    for output in [cue.debug_text(), request.debug_text(), response.debug_text()] {
        assert!(!output.contains(secret));
    }
}

const RECORDED_MOVIE: &str = r#"{"total_pages":1,"total_count":2,"per_page":60,"page":1,"data":[{"id":"9001","type":"subtitle","attributes":{"subtitle_id":"9001","language":"en","download_count":12,"moviehash_match":true,"release":"Synthetic.Film.2020.1080p","feature_details":{"feature_id":501,"feature_type":"Movie","year":2020,"title":"Synthetic Film","movie_name":"2020 - Synthetic Film","imdb_id":1234567},"files":[{"file_id":7001,"file_name":"Synthetic.Film.2020.1080p.srt"}]}},{"id":"9002","type":"subtitle","attributes":{"subtitle_id":"9002","language":"tr","moviehash_match":true,"feature_details":{"feature_id":501,"feature_type":"Movie","year":2020,"title":"Synthetic Film"}}}]}"#;

const RECORDED_EPISODE: &str = r#"{"total_pages":1,"total_count":1,"per_page":60,"page":1,"data":[{"id":"9101","type":"subtitle","attributes":{"subtitle_id":"9101","language":"en","moviehash_match":true,"release":"Synthetic.Show.S02E07","feature_details":{"feature_id":601,"feature_type":"Episode","year":2021,"title":"Synthetic Show","season_number":2,"episode_number":7,"parent_title":"Synthetic Show"},"files":[{"file_id":7101,"file_name":"Synthetic.Show.S02E07.srt"}]}}]}"#;

const RECORDED_NO_MATCH: &str = r#"{"total_pages":1,"total_count":1,"per_page":60,"page":1,"data":[{"id":"9201","type":"subtitle","attributes":{"subtitle_id":"9201","language":"en","moviehash_match":false,"feature_details":{"feature_id":701,"feature_type":"Movie","year":2019,"title":"Unrelated Film"}}}]}"#;

const RECORDED_AMBIGUOUS: &str = r#"{"total_pages":1,"total_count":2,"per_page":60,"page":1,"data":[{"id":"9301","type":"subtitle","attributes":{"subtitle_id":"9301","moviehash_match":true,"feature_details":{"feature_id":801,"feature_type":"Movie","year":2018,"title":"First Candidate"}}},{"id":"9302","type":"subtitle","attributes":{"subtitle_id":"9302","moviehash_match":true,"feature_details":{"feature_id":802,"feature_type":"Movie","year":2022,"title":"Second Candidate"}}}]}"#;

#[test]
fn recorded_movie_fixture_becomes_a_match() {
    let result = lookup(RECORDED_MOVIE).expect("lookup");
    assert!(
        result
            == IdentityLookup::Match(VerifiedMediaIdentity {
                title: "Synthetic Film".into(),
                year: Some(2020),
                season: None,
                episode: None,
            })
    );
}

#[test]
fn recorded_episode_fixture_preserves_episode_coordinates() {
    let result = lookup(RECORDED_EPISODE).expect("lookup");
    assert!(
        result
            == IdentityLookup::Match(VerifiedMediaIdentity {
                title: "Synthetic Show".into(),
                year: Some(2021),
                season: Some(2),
                episode: Some(7),
            })
    );
}

#[test]
fn recorded_no_match_and_ambiguous_fixtures_are_typed() {
    assert!(lookup(RECORDED_NO_MATCH).expect("lookup") == IdentityLookup::NoMatch);
    assert!(lookup(RECORDED_AMBIGUOUS).expect("lookup") == IdentityLookup::Ambiguous);
}
