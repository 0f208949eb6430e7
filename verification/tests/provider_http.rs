use nen_core::credentials::ApiKey;
use nen_core::http::{FakeHttpClient, HttpClient, HttpError, HttpHeader, HttpMethod, HttpRequest, HttpResponse};
use nen_core::providers::openai::{OpenAiTranslationProvider, OPENAI_RESPONSES_ENDPOINT};
use nen_core::providers::openrouter::{
    Clock, OpenRouterPreflightError, OpenRouterTranslationProvider, OPENROUTER_CHAT_ENDPOINT,
    OPENROUTER_MODEL_ENDPOINT_PREFIX,
};
use nen_core::providers::translation_http::{RequestEncoder, RetrySleeper, MAX_PROVIDER_BODY_BYTES, PROVIDER_TIMEOUT_MS};
use nen_core::providers::wire::{ChatEnvelope, PromptInput, ResponsesEnvelope};
use nen_core::translation::contract;
use nen_core::translation::{
    AnalysisCharacter, AnalysisGlossaryEntry, DocumentAnalysis, DocumentAnalysisRequest, TranslationCall,
    TranslationCue, TranslationMode, TranslationProgressSink, TranslationProvider, TranslationProviderError,
    TranslationRequest, TranslationResponse,
};
use std::cell::{Cell, RefCell};

const OPENAI_KEY: &str = "fixture-api-key";
const OPENROUTER_KEY: &str = "fixture-openrouter-key";
const OPENAI_MODEL: &str = "gpt-5.6-luna";
const OPENROUTER_MODEL: &str = "openai/gpt-5.6-luna";

const OPENAI_SUCCESS: &str = r#"{"output_text":"{\"translations\":[{\"cueId\":10,\"text\":\"İlk fixture satırı\"},{\"cueId\":20,\"text\":\"İkinci fixture satırı\"}]}"}"#;
const OPENAI_MISSING_CUE: &str = r#"{"output_text":"{\"translations\":[{\"cueId\":10,\"text\":\"İlk fixture satırı\"}]}"}"#;
const OPENAI_DUPLICATE_ID: &str = r#"{"output_text":"{\"translations\":[{\"cueId\":10,\"text\":\"İlk\"},{\"cueId\":10,\"text\":\"İkinci\"}]}"}"#;
const OPENAI_MALFORMED: &str = r#"{"output_text":"{\"translations\":[{\"cueId\":10"}"#;
const OPENAI_REFUSAL: &str = r#"{"output":[{"type":"message","content":[{"type":"refusal","refusal":"fixture refusal"}]}]}"#;
const OPENROUTER_SUCCESS: &str = r#"{"choices":[{"message":{"content":"{\"translations\":[{\"cueId\":10,\"text\":\"İlk OpenRouter satırı\"},{\"cueId\":20,\"text\":\"İkinci OpenRouter satırı\"}]}","refusal":null}}]}"#;
const CAPABILITY_SUPPORTED: &str = r#"{"data":{"supported_parameters":["structured_outputs","response_format"]}}"#;
const CAPABILITY_UNSUPPORTED: &str = r#"{"data":{"supported_parameters":["tools"]}}"#;
const CAPABILITY_MALFORMED: &str = r#"{"data":{"supported_parameters":"structured_outputs"#;
const RATE_LIMITED: &str = r#"{"error":{"code":429,"message":"rate limited"}}"#;
const SERVER_ERROR: &str = r#"{"error":{"code":500,"message":"server error"}}"#;
const BAD_GATEWAY: &str = r#"{"error":{"code":502,"message":"upstream unavailable"}}"#;

fn request() -> TranslationRequest {
    TranslationRequest {
        source_language: "en".into(),
        target_language: "tr".into(),
        context_cues: vec![
            TranslationCue { cue_id: 10, text: "First fixture line".into() },
            TranslationCue { cue_id: 20, text: "Second fixture line".into() },
        ],
        output_cue_ids: vec![10, 20],
        analysis: fixture_analysis(),
        block_index: 1,
        block_count: 1,
        mode: TranslationMode::Initial,
    }
}

fn fixture_analysis() -> DocumentAnalysis {
    DocumentAnalysis {
        summary: "Two speakers discuss a fixture.".into(),
        characters: vec![AnalysisCharacter { name: "PrivateName".into(), description: "A concise speaker".into() }],
        glossary: vec![AnalysisGlossaryEntry {
            source: "fixture".into(),
            target: "örnek".into(),
            note: "Keep the technical meaning".into(),
        }],
    }
}

fn analysis_request() -> DocumentAnalysisRequest {
    DocumentAnalysisRequest {
        source_language: "en".into(),
        target_language: "tr".into(),
        transcript: request().context_cues,
        context_terms: vec!["PrivateName".into()],
    }
}

fn response(status_code: u16, body: impl Into<Vec<u8>>) -> HttpResponse {
    HttpResponse { status_code, headers: Vec::new(), body: body.into() }
}

fn response_with_headers(status_code: u16, headers: Vec<HttpHeader>, body: impl Into<Vec<u8>>) -> HttpResponse {
    HttpResponse { status_code, headers, body: body.into() }
}

/// Answers the scripted responses in order; past the script, a transport error.
struct SequenceClient {
    responses: Vec<Result<HttpResponse, HttpError>>,
    requests: Vec<HttpRequest>,
}

impl SequenceClient {
    fn new(responses: Vec<Result<HttpResponse, HttpError>>) -> Self {
        Self { responses, requests: Vec::new() }
    }

    fn request_count(&self) -> usize {
        self.requests.len()
    }

    fn method_count(&self, method: HttpMethod) -> usize {
        self.requests.iter().filter(|request| request.method == method).count()
    }
}

impl HttpClient for SequenceClient {
    fn exchanges(&self) -> vstd::seq::Seq<(HttpRequest, Result<HttpResponse, HttpError>)> {
        vstd::seq::Seq::empty()
    }

    fn send(&mut self, request: HttpRequest) -> Result<HttpResponse, HttpError> {
        self.requests.push(request);
        if self.responses.is_empty() {
            Err(HttpError::Transport)
        } else {
            self.responses.remove(0)
        }
    }
}

#[derive(Default)]
struct RecordingSleeper {
    delays: RefCell<Vec<u64>>,
    cancel_on_sleep: bool,
}

impl RecordingSleeper {
    fn cancelling() -> Self {
        Self { delays: RefCell::new(Vec::new()), cancel_on_sleep: true }
    }

    fn delays(&self) -> Vec<u64> {
        self.delays.borrow().clone()
    }
}

impl RetrySleeper for &RecordingSleeper {
    fn naps(&self) -> Vec<u64> {
        self.delays()
    }

    fn sleep<S: TranslationProgressSink>(&mut self, delay_ms: u64, call: &TranslationCall<S>) {
        self.delays.borrow_mut().push(delay_ms);
        if self.cancel_on_sleep {
            call.cancel();
        }
    }
}

struct TestClock {
    now: Cell<u64>,
}

impl TestClock {
    fn new(now: u64) -> Self {
        Self { now: Cell::new(now) }
    }

    fn advance(&self, seconds: u64) {
        self.now.set(self.now.get() + seconds);
    }
}

impl Clock for &TestClock {
    fn now_seconds(&self) -> u64 {
        self.now.get()
    }
}

/// Encodes the texts a request carries, so a body grows with its request.
struct TextEncoder;

fn prompt_text(input: &PromptInput) -> String {
    let texts: Vec<&str> = match input {
        PromptInput::Analysis(a) => a.transcript.iter().map(|cue| cue.text.as_str()).collect(),
        PromptInput::Translation(t) => t.cues.iter().map(|cue| cue.text.as_str()).collect(),
        PromptInput::Normalization(stem) => vec![stem.as_str()],
    };
    serde_json::to_string(&texts).expect("texts")
}

impl RequestEncoder for TextEncoder {
    fn responses_body(&self, envelope: &ResponsesEnvelope) -> Option<Vec<u8>> {
        let input = prompt_text(&envelope.input);
        serde_json::to_vec(&[&envelope.model, &envelope.instructions, &input, &envelope.schema]).ok()
    }

    fn chat_body(&self, envelope: &ChatEnvelope) -> Option<Vec<u8>> {
        let user = prompt_text(&envelope.user);
        let usage = envelope.include_usage.to_string();
        serde_json::to_vec(&[&envelope.model, &envelope.system, &user, &envelope.schema, &usage]).ok()
    }
}

fn openai<'a, 'b, H: HttpClient>(
    client: &'a mut H,
    sleeper: &'b RecordingSleeper,
) -> OpenAiTranslationProvider<&'a mut H, &'b RecordingSleeper, TextEncoder> {
    OpenAiTranslationProvider::with_endpoint_and_retry_sleeper(
        client,
        ApiKey::new(OPENAI_KEY).expect("fixture key"),
        OPENAI_MODEL,
        OPENAI_RESPONSES_ENDPOINT,
        sleeper,
        TextEncoder,
    )
    .expect("provider")
}

fn openai_translate(client: &mut SequenceClient) -> Result<TranslationResponse, TranslationProviderError> {
    let sleeper = RecordingSleeper::default();
    openai(client, &sleeper).translate(&request(), &TranslationCall::without_progress())
}

fn openrouter<'a, 'b, H: HttpClient>(
    client: &'a mut H,
    sleeper: &'b RecordingSleeper,
    clock: &'b TestClock,
) -> OpenRouterTranslationProvider<&'a mut H, &'b RecordingSleeper, &'b TestClock, TextEncoder> {
    OpenRouterTranslationProvider::with_endpoint_and_retry_sleeper(
        client,
        ApiKey::new(OPENROUTER_KEY).expect("fixture key"),
        OPENROUTER_MODEL,
        OPENROUTER_CHAT_ENDPOINT,
        &format!("{OPENROUTER_MODEL_ENDPOINT_PREFIX}{OPENROUTER_MODEL}"),
        sleeper,
        clock,
        TextEncoder,
    )
    .expect("provider")
}

fn supported() -> Result<HttpResponse, HttpError> {
    Ok(response(200, CAPABILITY_SUPPORTED))
}

fn chat_success() -> Result<HttpResponse, HttpError> {
    Ok(response(200, OPENROUTER_SUCCESS))
}

#[derive(Debug)]
#[allow(dead_code)]
struct LeakyTwin {
    api_key: String,
    dialogue: String,
    raw_response: String,
}

#[test]
fn openai_passes_the_shared_contract_kit() {
    let mut capture = SequenceClient::new(vec![Ok(response(200, OPENAI_SUCCESS))]);
    openai_translate(&mut capture).expect("capture request");
    let expected_request = capture.requests[0].clone();
    let mut client = FakeHttpClient::new(vec![(expected_request, Ok(response(200, OPENAI_SUCCESS)))]);
    let sleeper = RecordingSleeper::default();
    let mut provider = openai(&mut client, &sleeper);
    contract::check(&mut provider, &request()).expect("contract passes");
}

#[test]
fn invalid_empty_refused_or_oversized_analysis_is_a_permanent_local_failure() {
    for body in [
        r#"{"output_text":"{\"summary\":\"   \",\"characters\":[],\"glossary\":[]}"}"#,
        r#"{"output_text":"{\"summary\":\"valid\",\"characters\":[],\"glossary\":[],\"extra\":true}"}"#,
        OPENAI_REFUSAL,
    ] {
        let mut client = SequenceClient::new(vec![Ok(response(200, body))]);
        let sleeper = RecordingSleeper::default();
        assert_eq!(
            openai(&mut client, &sleeper).analyze_document(&analysis_request(), &TranslationCall::without_progress()).err(), Some(TranslationProviderError::Permanent));
        assert_eq!(client.request_count(), 1);
    }

    let mut oversized_response = SequenceClient::new(vec![Ok(response(200, vec![b'x'; MAX_PROVIDER_BODY_BYTES + 1]))]);
    let sleeper = RecordingSleeper::default();
    assert_eq!(
        openai(&mut oversized_response, &sleeper)
            .analyze_document(&analysis_request(), &TranslationCall::without_progress()).err(), Some(TranslationProviderError::Permanent));
    assert_eq!(oversized_response.request_count(), 1);

    let mut oversized = analysis_request();
    oversized.transcript[0].text = "x".repeat(MAX_PROVIDER_BODY_BYTES);
    let mut client = SequenceClient::new(Vec::new());
    assert_eq!(
        openai(&mut client, &sleeper).analyze_document(&oversized, &TranslationCall::without_progress()).err(), Some(TranslationProviderError::Permanent));
    assert_eq!(client.request_count(), 0, "oversized analysis is not sent");
}

#[test]
fn success_response_is_untrusted_json_mapped_to_shared_cues() {
    let mut client = SequenceClient::new(vec![Ok(response(200, OPENAI_SUCCESS))]);
    let result = openai_translate(&mut client).expect("translation");
    assert!(result.cues.len() == 2, "two cues are mapped");
    assert!(result.cues[0].cue_id == 10, "first cue id is mapped");
    assert!(result.cues[1].cue_id == 20, "second cue id is mapped");
    assert!(result.cues[0].text == "İlk fixture satırı", "first cue text is mapped");
}

#[test]
fn missing_and_duplicate_cues_are_passed_to_the_local_validator() {
    let mut missing = SequenceClient::new(vec![Ok(response(200, OPENAI_MISSING_CUE))]);
    let missing_result = openai_translate(&mut missing).expect("provider parses missing cue response");
    assert!(missing_result.cues.len() == 1, "missing cue is not repaired remotely");

    let mut duplicate = SequenceClient::new(vec![Ok(response(200, OPENAI_DUPLICATE_ID))]);
    let duplicate_result = openai_translate(&mut duplicate).expect("provider parses duplicate cue response");
    assert!(duplicate_result.cues.len() == 2, "duplicate cue is not repaired remotely");
    assert!(
        duplicate_result.cues.iter().all(|cue| cue.cue_id == 10),
        "duplicate identity remains visible to local validation"
    );
}

#[test]
fn malformed_json_and_refusal_are_permanent_failures() {
    for fixture in [OPENAI_MALFORMED, OPENAI_REFUSAL] {
        let mut client = SequenceClient::new(vec![Ok(response(200, fixture))]);
        let result = openai_translate(&mut client);
        assert!(result == Err(TranslationProviderError::Permanent), "invalid provider output is permanent");
        assert!(client.request_count() == 1, "invalid output is not retried");
    }
}

#[test]
fn credential_client_and_unknown_http_failures_are_permanent() {
    for status_code in [400, 401, 403, 404] {
        let mut client = SequenceClient::new(vec![Ok(response(status_code, b"{}".to_vec()))]);
        let result = openai_translate(&mut client);
        assert!(result == Err(TranslationProviderError::Permanent), "non-retryable status is permanent");
        assert!(client.request_count() == 1, "non-retryable status is not retried");
    }
}

#[test]
fn rate_limit_and_server_failures_retry_with_bounded_backoff() {
    let mut client = SequenceClient::new(vec![
        Ok(response(429, RATE_LIMITED)),
        Ok(response(500, SERVER_ERROR)),
        Ok(response(200, OPENAI_SUCCESS)),
    ]);
    let sleeper = RecordingSleeper::default();
    openai(&mut client, &sleeper).translate(&request(), &TranslationCall::without_progress()).expect("retry succeeds");
    assert!(client.request_count() == 3, "two transient failures are retried");
    assert!(sleeper.delays() == vec![500, 2_000], "fallback delays are bounded");
}

#[test]
fn retry_after_is_clamped_and_invalid_values_use_fallback() {
    let mut client = SequenceClient::new(vec![
        Ok(response_with_headers(
            429,
            vec![HttpHeader { name: "Retry-After".into(), value: "20".into() }],
            RATE_LIMITED,
        )),
        Ok(response_with_headers(
            500,
            vec![HttpHeader { name: "Retry-After".into(), value: "not-a-duration".into() }],
            SERVER_ERROR,
        )),
        Ok(response(200, OPENAI_SUCCESS)),
    ]);
    let sleeper = RecordingSleeper::default();
    openai(&mut client, &sleeper).translate(&request(), &TranslationCall::without_progress()).expect("retry succeeds");
    assert!(sleeper.delays() == vec![10_000, 2_000], "retry-after is bounded and invalid retry-after falls back");
}

#[test]
fn transport_failures_retry_and_exhaustion_is_transient() {
    let mut client = SequenceClient::new(vec![Err(HttpError::Transport), Ok(response(200, OPENAI_SUCCESS))]);
    let sleeper = RecordingSleeper::default();
    openai(&mut client, &sleeper)
        .translate(&request(), &TranslationCall::without_progress())
        .expect("transport retry succeeds");
    assert!(client.request_count() == 2, "transport failure is retried");
    assert!(sleeper.delays() == vec![500], "transport fallback is bounded");

    let mut exhausted =
        SequenceClient::new(vec![Err(HttpError::Transport), Err(HttpError::Transport), Err(HttpError::Transport)]);
    let result = openai_translate(&mut exhausted);
    assert!(result == Err(TranslationProviderError::Transient), "retries are capped");
    assert!(exhausted.request_count() == 3, "retry count is capped at two retries");
}

#[test]
fn cancellation_during_backoff_prevents_the_next_send() {
    let mut client = SequenceClient::new(vec![Ok(response(429, b"{}".to_vec()))]);
    let sleeper = RecordingSleeper::cancelling();
    let result = openai(&mut client, &sleeper).translate(&request(), &TranslationCall::without_progress());
    assert!(result == Err(TranslationProviderError::Cancelled), "cancelled retry stops");
    assert!(client.request_count() == 1, "cancellation prevents the next send");
    assert!(sleeper.delays() == vec![500], "backoff was entered once");
}

#[test]
fn request_and_response_limits_fail_without_leaking_payloads() {
    let mut oversized_response = SequenceClient::new(vec![Ok(response(200, vec![b'x'; MAX_PROVIDER_BODY_BYTES + 1]))]);
    let result = openai_translate(&mut oversized_response);
    assert!(result == Err(TranslationProviderError::Permanent), "oversized response is permanent");
    assert!(oversized_response.request_count() == 1, "oversized response is not retried");

    let oversized_request = TranslationRequest {
        context_cues: vec![TranslationCue { cue_id: 10, text: "x".repeat(MAX_PROVIDER_BODY_BYTES) }],
        ..request()
    };
    let mut client = SequenceClient::new(Vec::new());
    let sleeper = RecordingSleeper::default();
    let result = openai(&mut client, &sleeper).translate(&oversized_request, &TranslationCall::without_progress());
    assert!(result == Err(TranslationProviderError::Permanent), "oversized request is permanent");
    assert!(client.request_count() == 0, "oversized request is rejected before send");
}

#[test]
fn unapproved_endpoint_is_rejected_before_send() {
    let mut client = SequenceClient::new(Vec::new());
    let sleeper = RecordingSleeper::default();
    let result = OpenAiTranslationProvider::with_endpoint_and_retry_sleeper(
        &mut client,
        ApiKey::new(OPENAI_KEY).expect("fixture key"),
        OPENAI_MODEL,
        "https://evil.example/v1/responses",
        &sleeper,
        TextEncoder,
    )
    .expect("test provider")
    .translate(&request(), &TranslationCall::without_progress());
    assert!(result == Err(TranslationProviderError::Permanent), "unapproved endpoint is permanent");
    assert!(client.request_count() == 0, "unapproved endpoint is never sent");
}

#[test]
fn sensitive_provider_surfaces_are_shape_only() {
    let secret = "PRIVATE FIXTURE SECRET";
    let dialogue = "PRIVATE FIXTURE DIALOGUE";
    let raw_response = format!(r#"{{"output_text":"{dialogue}"}}"#);
    let request = TranslationRequest {
        context_cues: vec![TranslationCue { cue_id: 10, text: dialogue.into() }],
        analysis: DocumentAnalysis { summary: secret.into(), ..fixture_analysis() },
        ..request()
    };
    let mut provider_client = SequenceClient::new(Vec::new());
    let sleeper = RecordingSleeper::default();
    let provider = openai(&mut provider_client, &sleeper);
    let http_request = HttpRequest::post_json(
        "https://private.example/response?token=PRIVATE_FIXTURE_TOKEN",
        vec![HttpHeader { name: "Authorization".into(), value: secret.into() }],
        raw_response.as_bytes().to_vec(),
        MAX_PROVIDER_BODY_BYTES,
        PROVIDER_TIMEOUT_MS,
    );
    let http_response = response(200, raw_response.as_bytes());
    let api_key = ApiKey::new(secret).expect("key");

    for output in [
        provider.debug_text(),
        request.debug_text(),
        http_request.debug_text(),
        http_response.debug_text(),
        api_key.debug_text().to_string(),
    ] {
        assert!(!output.contains(secret), "secret does not reach Debug");
        assert!(!output.contains(dialogue), "dialogue does not reach Debug");
        assert!(!output.contains("PRIVATE_FIXTURE_TOKEN"), "token does not reach Debug");
    }

    let leaky = format!("{:?}", LeakyTwin { api_key: secret.into(), dialogue: dialogue.into(), raw_response });
    assert!(leaky.contains(secret), "negative guard twin exposes sentinel");
}

#[test]
fn openrouter_passes_the_shared_contract_kit_with_preflight() {
    let mut capture = SequenceClient::new(vec![supported(), chat_success()]);
    let sleeper = RecordingSleeper::default();
    let clock = TestClock::new(100);
    openrouter(&mut capture, &sleeper, &clock)
        .translate(&request(), &TranslationCall::without_progress())
        .expect("capture translation");
    assert!(capture.requests.len() == 2, "preflight and translation were captured");

    let mut client = FakeHttpClient::new(vec![
        (capture.requests[0].clone(), supported()),
        (capture.requests[1].clone(), chat_success()),
    ]);
    let mut provider = OpenRouterTranslationProvider::new(
        &mut client,
        ApiKey::new(OPENROUTER_KEY).expect("fixture key"),
        OPENROUTER_MODEL,
        &sleeper,
        &clock,
        TextEncoder,
    )
    .expect("provider");
    contract::check(&mut provider, &request()).expect("contract passes");
}

#[test]
fn preflight_cache_keeps_positive_and_negative_results_for_fifteen_minutes() {
    let sleeper = RecordingSleeper::default();
    let clock = TestClock::new(100);
    let mut positive_client = SequenceClient::new(vec![supported()]);
    {
        let mut positive = openrouter(&mut positive_client, &sleeper, &clock);
        assert!(
            positive
                .preflight(&TranslationCall::without_progress())
                .expect("positive capability")
                .supports_structured_outputs(),
            "structured output is supported"
        );
        assert!(
            positive
                .preflight(&TranslationCall::without_progress())
                .expect("cached positive capability")
                .supports_structured_outputs(),
            "positive capability is cached"
        );
    }
    assert!(positive_client.request_count() == 1, "positive cache avoids a second GET");

    let mut negative_client = SequenceClient::new(vec![Ok(response(200, CAPABILITY_UNSUPPORTED))]);
    {
        let mut negative = openrouter(&mut negative_client, &sleeper, &clock);
        assert!(
            negative.preflight(&TranslationCall::without_progress()) == Err(OpenRouterPreflightError::CapabilityMissing),
            "unsupported capability is rejected"
        );
        assert!(
            negative.preflight(&TranslationCall::without_progress()) == Err(OpenRouterPreflightError::CapabilityMissing),
            "negative capability is cached"
        );
    }
    assert!(negative_client.request_count() == 1, "negative cache avoids a second GET");
}

#[test]
fn capability_cache_expires_at_fifteen_minutes() {
    let mut client = SequenceClient::new(vec![supported(), supported()]);
    let sleeper = RecordingSleeper::default();
    let clock = TestClock::new(100);
    {
        let mut provider = openrouter(&mut client, &sleeper, &clock);
        provider.preflight(&TranslationCall::without_progress()).expect("initial capability");
        clock.advance(900);
        provider.preflight(&TranslationCall::without_progress()).expect("refreshed capability");
    }
    assert!(client.request_count() == 2, "expired capability is refreshed");
}

#[test]
fn unsupported_capability_never_sends_a_translation_post() {
    let mut client = SequenceClient::new(vec![Ok(response(200, CAPABILITY_UNSUPPORTED))]);
    let sleeper = RecordingSleeper::default();
    let clock = TestClock::new(100);
    {
        let mut provider = openrouter(&mut client, &sleeper, &clock);
        let first = provider.translate(&request(), &TranslationCall::without_progress());
        let second = provider.translate(&request(), &TranslationCall::without_progress());
        assert!(
            first == Err(TranslationProviderError::Permanent) && second == Err(TranslationProviderError::Permanent),
            "unsupported capability refuses the job"
        );
    }
    assert!(client.method_count(HttpMethod::Get) == 1, "negative capability is fetched once");
    assert!(client.method_count(HttpMethod::Post) == 0, "unsupported model has no translation POST");
}

#[test]
fn preflight_transport_and_parse_errors_do_not_get_cached() {
    let mut client = SequenceClient::new(vec![
        Err(HttpError::Transport),
        Err(HttpError::Transport),
        Err(HttpError::Transport),
        supported(),
    ]);
    let sleeper = RecordingSleeper::default();
    let clock = TestClock::new(100);
    {
        let mut transport_provider = openrouter(&mut client, &sleeper, &clock);
        assert!(
            transport_provider.preflight(&TranslationCall::without_progress()) == Err(OpenRouterPreflightError::Transient),
            "transport exhaustion is transient"
        );
        assert!(
            transport_provider
                .preflight(&TranslationCall::without_progress())
                .expect("second preflight succeeds")
                .supports_structured_outputs(),
            "transient failure is not cached"
        );
    }
    assert!(client.request_count() == 4, "three retries plus the uncached second GET");

    let mut malformed_client = SequenceClient::new(vec![Ok(response(200, CAPABILITY_MALFORMED)), supported()]);
    {
        let mut malformed_provider = openrouter(&mut malformed_client, &sleeper, &clock);
        assert!(
            malformed_provider.preflight(&TranslationCall::without_progress()) == Err(OpenRouterPreflightError::Permanent),
            "malformed capability response is permanent"
        );
        assert!(
            malformed_provider
                .preflight(&TranslationCall::without_progress())
                .expect("malformed response is not cached")
                .supports_structured_outputs(),
            "second capability response is consulted"
        );
    }
    assert!(malformed_client.request_count() == 2, "parse failure is not cached");
}

#[test]
fn invalid_empty_refused_or_oversized_analysis_never_sends_a_block_post() {
    let sleeper = RecordingSleeper::default();
    let clock = TestClock::new(100);
    for body in [
        r#"{"choices":[{"message":{"content":"{\"summary\":\"   \",\"characters\":[],\"glossary\":[]}","refusal":null}}]}"#,
        r#"{"choices":[{"message":{"content":"{\"summary\":\"valid\",\"characters\":[],\"glossary\":[],\"extra\":true}","refusal":null}}]}"#,
        r#"{"choices":[{"message":{"content":"{}","refusal":"fixture refusal"}}]}"#,
    ] {
        let mut client = SequenceClient::new(vec![supported(), Ok(response(200, body))]);
        assert_eq!(
            openrouter(&mut client, &sleeper, &clock)
                .analyze_document(&analysis_request(), &TranslationCall::without_progress()).err(), Some(TranslationProviderError::Permanent));
        assert_eq!(client.method_count(HttpMethod::Post), 1);
    }

    let mut oversized_response =
        SequenceClient::new(vec![supported(), Ok(response(200, vec![b'x'; MAX_PROVIDER_BODY_BYTES + 1]))]);
    assert_eq!(
        openrouter(&mut oversized_response, &sleeper, &clock)
            .analyze_document(&analysis_request(), &TranslationCall::without_progress()).err(), Some(TranslationProviderError::Permanent));
    assert_eq!(oversized_response.method_count(HttpMethod::Post), 1);

    let mut oversized = analysis_request();
    oversized.transcript[0].text = "x".repeat(MAX_PROVIDER_BODY_BYTES);
    let mut client = SequenceClient::new(vec![supported()]);
    assert_eq!(
        openrouter(&mut client, &sleeper, &clock).analyze_document(&oversized, &TranslationCall::without_progress()).err(), Some(TranslationProviderError::Permanent));
    assert_eq!(client.method_count(HttpMethod::Post), 0);
}

#[test]
fn success_response_uses_shared_parser_and_identity() {
    let mut client = SequenceClient::new(vec![supported(), chat_success()]);
    let sleeper = RecordingSleeper::default();
    let clock = TestClock::new(100);
    let mut provider = openrouter(&mut client, &sleeper, &clock);
    let identity = provider.identity();
    assert!(identity.provider() == "openrouter", "provider identity is OpenRouter");
    assert!(identity.model() == OPENROUTER_MODEL, "technical model identity is preserved");
    let result = provider.translate(&request(), &TranslationCall::without_progress()).expect("translation");
    assert!(result.cues.len() == 2, "two cues are mapped");
    assert!(result.cues[0].cue_id == 10, "first cue id is mapped");
    assert!(result.cues[0].text == "İlk OpenRouter satırı", "first cue text is mapped");
}

#[test]
fn transient_chat_failures_retry_with_the_shared_bounded_budget() {
    let mut client = SequenceClient::new(vec![
        supported(),
        Ok(response(429, RATE_LIMITED)),
        Ok(response(502, BAD_GATEWAY)),
        chat_success(),
    ]);
    let sleeper = RecordingSleeper::default();
    let clock = TestClock::new(100);
    openrouter(&mut client, &sleeper, &clock)
        .translate(&request(), &TranslationCall::without_progress())
        .expect("retry succeeds");
    assert!(client.method_count(HttpMethod::Get) == 1, "preflight is not retried after caching");
    assert!(client.method_count(HttpMethod::Post) == 3, "two transient chat failures are retried");
    assert!(sleeper.delays() == vec![500, 2_000], "shared fallback delays are used");
}

#[test]
fn cancellation_before_preflight_prevents_every_send() {
    let mut client = SequenceClient::new(Vec::new());
    let sleeper = RecordingSleeper::default();
    let clock = TestClock::new(100);
    let call = TranslationCall::without_progress();
    call.cancel();
    assert!(
        openrouter(&mut client, &sleeper, &clock).translate(&request(), &call)
            == Err(TranslationProviderError::Cancelled),
        "cancelled call is refused"
    );
    assert!(client.request_count() == 0, "cancelled call does not preflight");
}

#[test]
fn unapproved_chat_endpoint_is_rejected_before_send() {
    let mut client = SequenceClient::new(Vec::new());
    let sleeper = RecordingSleeper::default();
    let clock = TestClock::new(100);
    let result = OpenRouterTranslationProvider::with_endpoint_and_retry_sleeper(
        &mut client,
        ApiKey::new(OPENROUTER_KEY).expect("fixture key"),
        OPENROUTER_MODEL,
        "https://evil.example/api/v1/chat/completions",
        &format!("{OPENROUTER_MODEL_ENDPOINT_PREFIX}{OPENROUTER_MODEL}"),
        &sleeper,
        &clock,
        TextEncoder,
    )
    .expect("provider")
    .translate(&request(), &TranslationCall::without_progress());
    assert!(result == Err(TranslationProviderError::Permanent), "unapproved endpoint is permanent");
    assert!(client.request_count() == 0, "unapproved endpoint has no send");
}

#[test]
fn sensitive_openrouter_surfaces_are_shape_only() {
    let secret = "PRIVATE OPENROUTER SECRET";
    let dialogue = "PRIVATE OPENROUTER DIALOGUE";
    let raw_response = format!(r#"{{"choices":[{{"message":{{"content":"{dialogue}"}}}}]}}"#);
    let mut client = SequenceClient::new(vec![supported()]);
    let sleeper = RecordingSleeper::default();
    let clock = TestClock::new(100);
    let mut provider = openrouter(&mut client, &sleeper, &clock);
    let capabilities = provider.preflight(&TranslationCall::without_progress()).expect("capabilities");
    let input = TranslationRequest {
        context_cues: vec![TranslationCue { cue_id: 10, text: dialogue.into() }],
        analysis: DocumentAnalysis { summary: secret.into(), ..fixture_analysis() },
        ..request()
    };
    let http_request = HttpRequest::post_json(
        "https://private.example/chat?token=PRIVATE_OPENROUTER_TOKEN",
        vec![HttpHeader { name: "Authorization".into(), value: secret.into() }],
        raw_response.as_bytes().to_vec(),
        MAX_PROVIDER_BODY_BYTES,
        PROVIDER_TIMEOUT_MS,
    );
    let http_response = response(200, raw_response.as_bytes());
    for output in [
        provider.debug_text(),
        input.debug_text(),
        capabilities.debug_text().to_string(),
        http_request.debug_text(),
        http_response.debug_text(),
        format!("{:?}", OpenRouterPreflightError::Permanent),
    ] {
        assert!(!output.contains(secret), "secret does not reach Debug");
        assert!(!output.contains(dialogue), "dialogue does not reach Debug");
        assert!(!output.contains("PRIVATE_OPENROUTER_TOKEN"), "token does not reach Debug");
    }

    let leaky = format!("{:?}", LeakyTwin { api_key: secret.into(), dialogue: dialogue.into(), raw_response });
    assert!(leaky.contains(secret), "negative guard twin exposes sentinel");
}

#[test]
fn retry_after_is_clamped_on_chat_failures() {
    let mut client = SequenceClient::new(vec![
        supported(),
        Ok(response_with_headers(
            429,
            vec![HttpHeader { name: "Retry-After".into(), value: "20".into() }],
            RATE_LIMITED,
        )),
        chat_success(),
    ]);
    let sleeper = RecordingSleeper::default();
    let clock = TestClock::new(100);
    openrouter(&mut client, &sleeper, &clock)
        .translate(&request(), &TranslationCall::without_progress())
        .expect("retry succeeds");
    assert!(sleeper.delays() == vec![10_000], "retry-after is clamped");
}

#[test]
fn request_asks_openrouter_to_include_billed_usage() {
    let mut client = SequenceClient::new(vec![supported(), chat_success()]);
    let sleeper = RecordingSleeper::default();
    let clock = TestClock::new(100);
    openrouter(&mut client, &sleeper, &clock)
        .translate(&request(), &TranslationCall::without_progress())
        .expect("translation");
    let sent: Vec<String> =
        serde_json::from_slice(client.requests[1].body.as_ref().expect("body")).expect("json");
    assert_eq!(sent.last().map(String::as_str), Some("true"));
}

#[test]
fn preflight_at_trusts_an_answer_until_nine_hundred_seconds_after_it_was_fetched() {
    let mut client = SequenceClient::new(vec![supported(), supported(), supported()]);
    let sleeper = RecordingSleeper::default();
    let clock = TestClock::new(0);
    {
        let mut provider = openrouter(&mut client, &sleeper, &clock);
        let call = TranslationCall::without_progress();
        assert!(provider.preflight_at(&call, 1_000).is_ok());
        assert!(provider.preflight_at(&call, 1_899).is_ok());
    }
    assert!(client.request_count() == 1, "a fresh answer is reused without a request");
    {
        let mut provider = openrouter(&mut client, &sleeper, &clock);
        let call = TranslationCall::without_progress();
        assert!(provider.preflight_at(&call, 1_000).is_ok());
        assert!(provider.preflight_at(&call, 1_900).is_ok());
    }
    assert!(client.request_count() == 3, "an expired answer is fetched again");
}

#[test]
fn a_failed_preflight_caches_nothing_and_the_next_one_sends_a_get() {
    let mut client = SequenceClient::new(vec![
        Err(HttpError::Transport),
        Err(HttpError::Transport),
        Err(HttpError::Transport),
        supported(),
    ]);
    let sleeper = RecordingSleeper::default();
    let clock = TestClock::new(0);
    {
        let mut provider = openrouter(&mut client, &sleeper, &clock);
        let call = TranslationCall::without_progress();
        assert!(provider.preflight_at(&call, 10) == Err(OpenRouterPreflightError::Transient));
        assert!(provider.preflight_at(&call, 11).is_ok());
    }
    assert!(client.request_count() == 4, "the second preflight sent a GET");
}
