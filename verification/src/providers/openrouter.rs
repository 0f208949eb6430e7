//! OpenRouter Chat Completions translation provider.
//!
//! Before anything is translated the selected model must declare structured
//! outputs. The answer is cached for fifteen minutes, positive or negative.
use crate::credentials::ApiKey;
use crate::filename_normalization::{FilenameNormalizationError, FilenameNormalizationRequest, FilenameNormalizationResult, FilenameNormalizer};
use crate::http::{HttpClient, HttpError, HttpHeader, HttpMethod, HttpRequest, HttpResponse};
use crate::json::{field, parse_json, json_document, JsonValue};
use crate::providers::filename_normalization::{answers, body_verdict, build_openrouter_body, send_and_parse};
use crate::providers::wire::{
    analysis_prompt_input, chat_envelope, chat_request, is_analysis_input, is_translation_input,
    translation_prompt_input, translation_response_schema, translation_schema_text, ChatEnvelope, PromptInput,
    ANALYSIS_RESPONSE_SCHEMA,
};
use crate::providers::translation_http::{
    analysis_body_rule, analysis_instructions, analysis_model, analysis_system_instructions, bearer_header, bounded_get,
    answer_settles, attempt_rule, bearer_pair, body_of, bytes_of, header_pairs, last_answer_reads, lemma_failed_send_settles,
    lemma_retry_log_posts, lemma_same_request_headers, provider_get, provider_post, retry_log, retryable_status, Attempt, MAX_RETRIES, parse_analysis_response_body, parse_translation_response_body, posted_only_to,
    response_cues, send_with_retries,
    translation_body_rule, translation_instructions, translation_system_instructions, RequestEncoder, RetrySleeper, ANALYSIS_SCHEMA_NAME,
    MAX_PROVIDER_BODY_BYTES, PROVIDER_TIMEOUT_MS, TRANSLATION_SCHEMA_NAME,
};
use crate::text::{decimal, chars_of, same_text};
use crate::translation::{
    blank, is_blank, DocumentAnalysis, DocumentAnalysisRequest, NoSink, TranslationCall, TranslationProgress,
    TranslationProgressPhase, TranslationProgressSink, TranslationProvider, TranslationProviderError,
    TranslationProviderIdentity, TranslationRequest, TranslationResponse,
};
use vstd::prelude::*;
pub use crate::translation::{PROMPT_VERSION, SCHEMA_VERSION};

verus! {

/// The only endpoint translation requests are sent to.
pub const OPENROUTER_CHAT_ENDPOINT: &'static str = "https://openrouter.ai/api/v1/chat/completions";

/// The model-capability endpoint, followed by the model name.
pub const OPENROUTER_MODEL_ENDPOINT_PREFIX: &'static str = "https://openrouter.ai/api/v1/model/";

/// The provider id of this adapter.
pub const PROVIDER_ID: &'static str = "openrouter";

/// How long a capability answer is trusted.
pub const CAPABILITY_CACHE_SECONDS: u64 = 900;

/// The referer every request carries.
pub const REFERER: &'static str = "https://nen.player";

/// The application title every request carries.
pub const APPLICATION_TITLE: &'static str = "Nen Player";

/// What the model-capability lookup found: only whether structured outputs
/// are supported.
#[derive(Clone, Copy, PartialEq, Eq, Structural)]
pub struct ProviderCapabilities {
    structured_outputs: bool,
}

impl ProviderCapabilities {
    pub closed spec fn structured_spec(self) -> bool {
        self.structured_outputs
    }

    pub fn supports_structured_outputs(&self) -> (supported: bool)
        ensures
            supported == self.structured_spec(),
    {
        self.structured_outputs
    }

    /// Diagnostic text.
    pub fn debug_text(&self) -> (text: &'static str)
        ensures
            text@ == (if self.structured_spec() {
                "ProviderCapabilities { structured_outputs: true }"@
            } else {
                "ProviderCapabilities { structured_outputs: false }"@
            }),
    {
        if self.structured_outputs {
            "ProviderCapabilities { structured_outputs: true }"
        } else {
            "ProviderCapabilities { structured_outputs: false }"
        }
    }
}

/// Why the preflight did not let a translation job start.
#[derive(Debug, Clone, Copy, PartialEq, Eq, Structural)]
pub enum OpenRouterPreflightError {
    Cancelled,
    Transient,
    Permanent,
    CapabilityMissing,
}

impl OpenRouterPreflightError {
    /// The human-readable text of the error.
    pub fn display_text(self) -> (text: &'static str)
        ensures
            text@ == (match self {
                OpenRouterPreflightError::Cancelled => "openrouter preflight cancelled"@,
                OpenRouterPreflightError::Transient => "openrouter preflight temporarily unavailable"@,
                OpenRouterPreflightError::Permanent => "openrouter preflight failed"@,
                OpenRouterPreflightError::CapabilityMissing => "openrouter structured output capability missing"@,
            }),
    {
        match self {
            OpenRouterPreflightError::Cancelled => "openrouter preflight cancelled",
            OpenRouterPreflightError::Transient => "openrouter preflight temporarily unavailable",
            OpenRouterPreflightError::Permanent => "openrouter preflight failed",
            OpenRouterPreflightError::CapabilityMissing => "openrouter structured output capability missing",
        }
    }
}

/// The time the capability cache is judged by, in seconds. Implemented by
/// the caller.
pub trait Clock {
    fn now_seconds(&self) -> u64;
}

/// A character a model name may hold.
pub open spec fn model_char(c: char) -> bool {
    ('a' <= c && c <= 'z') || ('A' <= c && c <= 'Z') || ('0' <= c && c <= '9') || c == '-' || c
        == '_' || c == '.' || c == '/'
}

/// How many times `c` occurs in `s`.
pub open spec fn occurrences(s: Seq<char>, c: char) -> nat
    decreases s.len(),
{
    if s.len() == 0 {
        0
    } else {
        occurrences(s.drop_last(), c) + if s.last() == c {
            1nat
        } else {
            0nat
        }
    }
}

/// Whether `s` holds two dots in a row.
pub open spec fn has_double_dot(s: Seq<char>) -> bool {
    exists|i: int| 0 <= i < s.len() - 1 && #[trigger] s[i] == '.' && s[i + 1] == '.'
}

/// Whether an OpenRouter model name is acceptable: not blank, at most 256
/// characters, exactly one `/`, no `..`, and only ASCII letters, digits and
/// `-_./`.
pub open spec fn valid_model_name(model: Seq<char>) -> bool {
    &&& !blank(model)
    &&& model.len() <= 256
    &&& occurrences(model, '/') == 1
    &&& !has_double_dot(model)
    &&& forall|i: int| 0 <= i < model.len() ==> model_char(#[trigger] model[i])
}

pub fn valid_model(model: &str) -> (valid: bool)
    ensures
        valid == valid_model_name(model@),
{
    if is_blank(model) {
        return false;
    }
    let chars = chars_of(model);
    if chars.len() > 256 {
        return false;
    }
    let mut slashes: usize = 0;
    let mut i: usize = 0;
    while i < chars.len()
        invariant
            i <= chars@.len(),
            chars@ == model@,
            chars@.len() <= 256,
            slashes == occurrences(chars@.subrange(0, i as int), '/'),
            slashes <= i,
            forall|k: int| 0 <= k < i ==> model_char(#[trigger] chars@[k]),
            forall|k: int| 0 <= k < i - 1 ==> !(#[trigger] chars@[k] == '.' && chars@[k + 1] == '.'),
        decreases chars@.len() - i,
    {
        let c = chars[i];
        assert(chars@.subrange(0, i + 1).drop_last() =~= chars@.subrange(0, i as int));
        let allowed = ('a' <= c && c <= 'z') || ('A' <= c && c <= 'Z') || ('0' <= c && c <= '9')
            || c == '-' || c == '_' || c == '.' || c == '/';
        if !allowed {
            return false;
        }
        if i > 0 && c == '.' && chars[i - 1] == '.' {
            assert(chars@[i - 1] == '.' && chars@[(i - 1) + 1] == '.');
            return false;
        }
        if c == '/' {
            slashes = slashes + 1;
        }
        i = i + 1;
    }
    assert(chars@.subrange(0, chars@.len() as int) =~= chars@);
    slashes == 1
}

/// The preflight verdict of a capability answer.
pub fn result_for_capabilities(capabilities: ProviderCapabilities) -> (result: Result<
    ProviderCapabilities,
    OpenRouterPreflightError,
>)
    ensures
        capabilities.structured_spec() ==> result == Ok::<ProviderCapabilities, OpenRouterPreflightError>(
            capabilities,
        ),
        !capabilities.structured_spec() ==> result == Err::<ProviderCapabilities, OpenRouterPreflightError>(
            OpenRouterPreflightError::CapabilityMissing,
        ),
{
    if capabilities.structured_outputs {
        Ok(capabilities)
    } else {
        Err(OpenRouterPreflightError::CapabilityMissing)
    }
}

/// Whether some element is the string `structured_outputs`.
pub open spec fn lists_structured_outputs(parameters: Seq<JsonValue>) -> bool {
    exists|i: int|
        0 <= i < parameters.len() && (#[trigger] parameters[i] matches JsonValue::String(s) && s@
            == "structured_outputs"@)
}

/// The capability a model document declares: its `supported_parameters`
/// array (under `data`, or at the top level) lists `structured_outputs`.
/// `None` when there is no such array.
pub open spec fn capability_rule(root: JsonValue) -> Option<bool> {
    let nested = match field(root, "data"@) {
        Some(data) => field(data, "supported_parameters"@),
        None => None,
    };
    let parameters = match nested {
        Some(p) => Some(p),
        None => field(root, "supported_parameters"@),
    };
    match parameters {
        Some(JsonValue::Array(items)) => Some(lists_structured_outputs(items@)),
        _ => None,
    }
}

/// A model supports structured outputs exactly when its parameter list
/// holds the string `structured_outputs`, at any position: whichever list
/// a document gives (under `data`, or at the top level), the verdict is
/// true when some element is that string and false when none is, so it
/// does not depend on the order of the list.
pub proof fn law_structured_outputs_found_anywhere(root: JsonValue, items: Seq<JsonValue>)
    requires
        ({
            let nested = match field(root, "data"@) {
                Some(data) => field(data, "supported_parameters"@),
                None => None,
            };
            match nested {
                Some(p) => p,
                None => match field(root, "supported_parameters"@) {
                    Some(p) => p,
                    None => JsonValue::Null,
                },
            }
        }) matches JsonValue::Array(list) && list@ == items,
    ensures
        (exists|i: int| 0 <= i < items.len() && (#[trigger] items[i] matches JsonValue::String(s) && s@
            == "structured_outputs"@)) ==> capability_rule(root) == Some(true),
        (forall|i: int| 0 <= i < items.len() ==> !(#[trigger] items[i] matches JsonValue::String(s) && s@
            == "structured_outputs"@)) ==> capability_rule(root) == Some(false),
{
}

/// Reordering a parameter list never changes what it says of structured
/// outputs: two lists with the same elements give the same verdict.
pub proof fn law_structured_outputs_ignore_order(first: Seq<JsonValue>, second: Seq<JsonValue>)
    requires
        first.to_multiset() == second.to_multiset(),
    ensures
        lists_structured_outputs(first) == lists_structured_outputs(second),
{
    broadcast use vstd::multiset::group_multiset_axioms;
    broadcast use vstd::seq_lib::group_to_multiset_ensures;
    if lists_structured_outputs(first) {
        let i = choose|i: int| 0 <= i < first.len() && (#[trigger] first[i] matches JsonValue::String(s) && s@
            == "structured_outputs"@);
        assert(first.to_multiset().count(first[i]) > 0);
        assert(second.to_multiset().count(first[i]) > 0);
        assert(second.contains(first[i]));
        let j = choose|j: int| 0 <= j < second.len() && second[j] == first[i];
        assert(second[j] matches JsonValue::String(s) && s@ == "structured_outputs"@);
    }
    if lists_structured_outputs(second) {
        let i = choose|i: int| 0 <= i < second.len() && (#[trigger] second[i] matches JsonValue::String(s) && s@
            == "structured_outputs"@);
        assert(second.to_multiset().count(second[i]) > 0);
        assert(first.to_multiset().count(second[i]) > 0);
        assert(first.contains(second[i]));
        let j = choose|j: int| 0 <= j < first.len() && first[j] == second[i];
        assert(first[j] matches JsonValue::String(s) && s@ == "structured_outputs"@);
    }
}

/// Reads the capability out of a model document.
pub fn capabilities_from_document(root: &JsonValue) -> (capabilities: Result<
    ProviderCapabilities,
    OpenRouterPreflightError,
>)
    ensures
        match capabilities {
            Ok(c) => capability_rule(*root) == Some(c.structured_spec()),
            Err(e) => capability_rule(*root) is None && e == OpenRouterPreflightError::Permanent,
        },
{
    let nested = match root.get("data") {
        Some(data) => data.get("supported_parameters"),
        None => None,
    };
    let parameters = match nested {
        Some(p) => Some(p),
        None => root.get("supported_parameters"),
    };
    let items = match parameters {
        Some(p) => match p.as_array() {
            Some(items) => items,
            None => return Err(OpenRouterPreflightError::Permanent),
        },
        None => return Err(OpenRouterPreflightError::Permanent),
    };
    let mut found = false;
    let mut i: usize = 0;
    while i < items.len()
        invariant
            i <= items@.len(),
            found == (exists|k: int|
                0 <= k < i && (#[trigger] items@[k] matches JsonValue::String(s) && s@
                    == "structured_outputs"@)),
        decreases items@.len() - i,
    {
        let here = match items[i].as_str() {
            Some(s) => same_text(s, "structured_outputs"),
            None => false,
        };
        assert(here == (items@[i as int] matches JsonValue::String(s) && s@ == "structured_outputs"@));
        if here {
            found = true;
        }
        i = i + 1;
    }
    Ok(ProviderCapabilities { structured_outputs: found })
}

/// What a capability response body declares.
pub open spec fn capability_body_rule(body: Seq<u8>) -> Option<bool> {
    if body.len() > MAX_PROVIDER_BODY_BYTES {
        None
    } else {
        match json_document(body) {
            Some(root) => capability_rule(root),
            None => None,
        }
    }
}

pub fn parse_capabilities(body: &[u8]) -> (capabilities: Result<ProviderCapabilities, OpenRouterPreflightError>)
    ensures
        match capabilities {
            Ok(c) => capability_body_rule(body@) == Some(c.structured_spec()),
            Err(e) => capability_body_rule(body@) is None && e == OpenRouterPreflightError::Permanent,
        },
{
    if body.len() > MAX_PROVIDER_BODY_BYTES {
        return Err(OpenRouterPreflightError::Permanent);
    }
    match parse_json(body) {
        Some(root) => capabilities_from_document(&root),
        None => Err(OpenRouterPreflightError::Permanent),
    }
}

pub fn map_translation_error_to_preflight(error: TranslationProviderError) -> (mapped: OpenRouterPreflightError)
    ensures
        mapped == (match error {
            TranslationProviderError::Cancelled => OpenRouterPreflightError::Cancelled,
            TranslationProviderError::Transient => OpenRouterPreflightError::Transient,
            _ => OpenRouterPreflightError::Permanent,
        }),
{
    match error {
        TranslationProviderError::Cancelled => OpenRouterPreflightError::Cancelled,
        TranslationProviderError::Transient => OpenRouterPreflightError::Transient,
        TranslationProviderError::Permanent => OpenRouterPreflightError::Permanent,
        TranslationProviderError::ResponseTooLarge => OpenRouterPreflightError::Permanent,
    }
}

pub fn map_preflight_error_to_translation(error: OpenRouterPreflightError) -> (mapped: TranslationProviderError)
    ensures
        mapped == (match error {
            OpenRouterPreflightError::Cancelled => TranslationProviderError::Cancelled,
            OpenRouterPreflightError::Transient => TranslationProviderError::Transient,
            _ => TranslationProviderError::Permanent,
        }),
{
    match error {
        OpenRouterPreflightError::Cancelled => TranslationProviderError::Cancelled,
        OpenRouterPreflightError::Transient => TranslationProviderError::Transient,
        OpenRouterPreflightError::Permanent => TranslationProviderError::Permanent,
        OpenRouterPreflightError::CapabilityMissing => TranslationProviderError::Permanent,
    }
}

/// A capability answer and until when it is trusted.
#[derive(Clone, Copy, PartialEq, Eq, Structural)]
pub struct CachedCapabilities {
    pub capabilities: ProviderCapabilities,
    pub expires_at: u64,
}

/// The cached answer still trusted at `now`: one that expires after `now`.
pub open spec fn cache_hit(cached: Option<CachedCapabilities>, now: u64) -> Option<ProviderCapabilities> {
    match cached {
        Some(c) => if now < c.expires_at {
            Some(c.capabilities)
        } else {
            None
        },
        None => None,
    }
}

pub fn cached_at(cached: Option<CachedCapabilities>, now: u64) -> (hit: Option<ProviderCapabilities>)
    ensures
        hit == cache_hit(cached, now),
{
    match cached {
        Some(c) => if now < c.expires_at {
            Some(c.capabilities)
        } else {
            None
        },
        None => None,
    }
}

/// The cache entry for an answer fetched at `now`: trusted for
/// [`CAPABILITY_CACHE_SECONDS`], saturating at the end of time.
pub fn cache_entry(capabilities: ProviderCapabilities, now: u64) -> (entry: CachedCapabilities)
    ensures
        entry.capabilities == capabilities,
        entry.expires_at == (if now + CAPABILITY_CACHE_SECONDS > u64::MAX {
            u64::MAX as int
        } else {
            now + CAPABILITY_CACHE_SECONDS
        }),
{
    CachedCapabilities { capabilities, expires_at: now.saturating_add(CAPABILITY_CACHE_SECONDS) }
}

/// An answer fetched at `now` is trusted for exactly fifteen minutes: at
/// every moment before the expiry it is the cached answer, from the expiry
/// on it is not.
pub proof fn law_capability_cache_lasts_fifteen_minutes(capabilities: ProviderCapabilities, now: u64, later: u64)
    requires
        now + CAPABILITY_CACHE_SECONDS <= u64::MAX,
    ensures
        later < now + CAPABILITY_CACHE_SECONDS ==> cache_hit(
            Some(CachedCapabilities { capabilities, expires_at: (now + CAPABILITY_CACHE_SECONDS) as u64 }),
            later,
        ) == Some(capabilities),
        later >= now + CAPABILITY_CACHE_SECONDS ==> cache_hit(
            Some(CachedCapabilities { capabilities, expires_at: (now + CAPABILITY_CACHE_SECONDS) as u64 }),
            later,
        ) is None,
{
}

/// The cache entry for an answer fetched at `now` (see [`cache_entry`]).
pub open spec fn entry_at(capabilities: ProviderCapabilities, now: u64) -> CachedCapabilities {
    CachedCapabilities {
        capabilities,
        expires_at: if now + CAPABILITY_CACHE_SECONDS > u64::MAX {
            u64::MAX
        } else {
            (now + CAPABILITY_CACHE_SECONDS) as u64
        },
    }
}

/// The preflight verdict of a capability answer.
pub open spec fn capability_verdict(capabilities: ProviderCapabilities) -> Result<
    ProviderCapabilities,
    OpenRouterPreflightError,
> {
    if capabilities.structured_spec() {
        Ok(capabilities)
    } else {
        Err(OpenRouterPreflightError::CapabilityMissing)
    }
}

/// One preflight at clock time `now`, from cache `before` to cache `after`:
/// an answer still trusted at `now` is the verdict, unless the call was
/// already cancelled, with no request and the cache unchanged; otherwise a fresh answer is the verdict and is cached
/// until `now` + [`CAPABILITY_CACHE_SECONDS`], and a cancellation,
/// transport or parse failure leaves the cache as it was; a transport or
/// parse failure comes only after a request was sent.
pub open spec fn preflight_step(
    before: Option<CachedCapabilities>,
    after: Option<CachedCapabilities>,
    now: u64,
    result: Result<ProviderCapabilities, OpenRouterPreflightError>,
    sends: nat,
) -> bool {
    let fetched = sends > 0;
    match cache_hit(before, now) {
        Some(c) => (result == capability_verdict(c) || result == Err::<
            ProviderCapabilities,
            OpenRouterPreflightError,
        >(OpenRouterPreflightError::Cancelled)) && after == before && !fetched,
        None => match result {
            Err(OpenRouterPreflightError::Cancelled) => after == before,
            Err(OpenRouterPreflightError::Transient) => after == before && fetched,
            Err(OpenRouterPreflightError::Permanent) => after == before && fetched,
            _ => fetched && exists|c: ProviderCapabilities|
                after == Some(entry_at(c, now)) && result == #[trigger] capability_verdict(c),
        },
    }
}

/// Whether the exchanges after `before` keep it as their prefix and are
/// each a capability GET of the model endpoint or a POST to the chat
/// endpoint, all with the OpenRouter headers of `api_key`; every POST
/// carries the body of the last exchange, which fits the budget.
pub open spec fn openrouter_traffic(
    before: Seq<(HttpRequest, Result<HttpResponse, HttpError>)>,
    after: Seq<(HttpRequest, Result<HttpResponse, HttpError>)>,
    chat_endpoint: Seq<char>,
    model_endpoint: Seq<char>,
    api_key: Seq<char>,
) -> bool {
    &&& before.len() <= after.len()
    &&& forall|i: int| 0 <= i < before.len() ==> #[trigger] after[i] == before[i]
    &&& forall|i: int|
        before.len() <= i < after.len() ==> provider_get(
            (#[trigger] after[i]).0,
            model_endpoint,
            openrouter_headers(api_key),
        ) || provider_post(after[i].0, chat_endpoint, openrouter_headers(api_key), body_of(after.last().0))
    &&& posted_after(before, after) ==> body_of(after.last().0).len() <= MAX_PROVIDER_BODY_BYTES
}

/// Whether a POST was sent after `before`.
pub open spec fn posted_after(
    before: Seq<(HttpRequest, Result<HttpResponse, HttpError>)>,
    after: Seq<(HttpRequest, Result<HttpResponse, HttpError>)>,
) -> bool {
    exists|i: int| before.len() <= i < after.len() && (#[trigger] after[i]).0.method == HttpMethod::Post
}

/// Capability GETs alone are OpenRouter traffic without a POST.
proof fn lemma_gets_are_traffic(
    before: Seq<(HttpRequest, Result<HttpResponse, HttpError>)>,
    after: Seq<(HttpRequest, Result<HttpResponse, HttpError>)>,
    chat_endpoint: Seq<char>,
    model_endpoint: Seq<char>,
    api_key: Seq<char>,
)
    requires
        capability_gets(before, after, model_endpoint, api_key),
    ensures
        openrouter_traffic(before, after, chat_endpoint, model_endpoint, api_key),
        !posted_after(before, after),
{
    if posted_after(before, after) {
        let i = choose|i: int| before.len() <= i < after.len() && (#[trigger] after[i]).0.method == HttpMethod::Post;
        assert(provider_get(after[i].0, model_endpoint, openrouter_headers(api_key)));
    }
}

/// Capability GETs followed by a retried send of one POST are OpenRouter
/// traffic, and a POST among them means the send sent.
proof fn lemma_post_traffic(
    before: Seq<(HttpRequest, Result<HttpResponse, HttpError>)>,
    middle: Seq<(HttpRequest, Result<HttpResponse, HttpError>)>,
    after: Seq<(HttpRequest, Result<HttpResponse, HttpError>)>,
    request: HttpRequest,
    result: Result<HttpResponse, TranslationProviderError>,
    chat_endpoint: Seq<char>,
    model_endpoint: Seq<char>,
    api_key: Seq<char>,
)
    requires
        capability_gets(before, middle, model_endpoint, api_key),
        retry_log(middle, after, request, result),
        provider_post(request, chat_endpoint, openrouter_headers(api_key), body_of(request)),
        body_of(request).len() <= MAX_PROVIDER_BODY_BYTES,
    ensures
        openrouter_traffic(before, after, chat_endpoint, model_endpoint, api_key),
        posted_after(before, after) ==> after.len() > middle.len(),
{
    assert forall|i: int| 0 <= i < middle.len() implies #[trigger] after[i] == middle[i] by {
        assert(after.subrange(0, middle.len() as int)[i] == after[i]);
    }
    assert forall|i: int| middle.len() <= i < after.len() implies provider_post(
        (#[trigger] after[i]).0,
        chat_endpoint,
        openrouter_headers(api_key),
        body_of(request),
    ) by {
        assert(crate::http::same_request(request, after[i].0));
        lemma_same_request_headers(request, after[i].0);
    }
    if after.len() > middle.len() {
        assert(after.last() == after[after.len() - 1]);
        assert(crate::http::same_request(request, after[after.len() - 1].0));
        assert(body_of(after.last().0) == body_of(request));
    }
    if posted_after(before, after) {
        let i = choose|i: int| before.len() <= i < after.len() && (#[trigger] after[i]).0.method == HttpMethod::Post;
        if i < middle.len() {
            assert(after[i] == middle[i]);
            assert(provider_get(middle[i].0, model_endpoint, openrouter_headers(api_key)));
        }
    }
    assert forall|i: int| before.len() <= i < after.len() implies provider_get(
        (#[trigger] after[i]).0,
        model_endpoint,
        openrouter_headers(api_key),
    ) || provider_post(after[i].0, chat_endpoint, openrouter_headers(api_key), body_of(after.last().0)) by {
        if i < middle.len() {
            assert(after[i] == middle[i]);
        } else {
            assert(provider_post(after[i].0, chat_endpoint, openrouter_headers(api_key), body_of(request)));
        }
    }
}

/// A cache that holds an answer with structured outputs.
pub open spec fn caches_structured(cache: Option<CachedCapabilities>) -> bool {
    cache matches Some(e) && e.capabilities.structured_spec()
}

/// A preflight that passed leaves an answer with structured outputs cached.
proof fn lemma_passed_preflight_caches(
    before: Option<CachedCapabilities>,
    after: Option<CachedCapabilities>,
    now: u64,
    result: Result<ProviderCapabilities, OpenRouterPreflightError>,
    sends: nat,
)
    requires
        preflight_step(before, after, now, result, sends),
        result is Ok,
    ensures
        caches_structured(after),
{
    match cache_hit(before, now) {
        Some(c) => {},
        None => {
            let c = choose|c: ProviderCapabilities|
                after == Some(entry_at(c, now)) && result == #[trigger] capability_verdict(c);
        },
    }
}

/// What the capability answer settles, whatever attempt it answered: a
/// response too large or an unreadable 2xx body is permanent, a transport
/// failure or a retryable status transient, unless the call was cancelled;
/// another non-2xx status is permanent; a readable body is the verdict.
pub open spec fn capability_settles(
    answer: Result<HttpResponse, HttpError>,
    result: Result<ProviderCapabilities, OpenRouterPreflightError>,
) -> bool {
    let cancelled = result == Err::<ProviderCapabilities, OpenRouterPreflightError>(
        OpenRouterPreflightError::Cancelled,
    );
    match answer {
        Err(HttpError::ResponseTooLarge) => result == Err::<ProviderCapabilities, OpenRouterPreflightError>(
            OpenRouterPreflightError::Permanent,
        ),
        Err(HttpError::Transport) => cancelled || result == Err::<ProviderCapabilities, OpenRouterPreflightError>(
            OpenRouterPreflightError::Transient,
        ),
        Ok(r) => if retryable_status(r.status_code) {
            cancelled || result == Err::<ProviderCapabilities, OpenRouterPreflightError>(
                OpenRouterPreflightError::Transient,
            )
        } else if 200 <= r.status_code && r.status_code < 300 {
            match capability_body_rule(r.body@) {
                None => cancelled || result == Err::<ProviderCapabilities, OpenRouterPreflightError>(
                    OpenRouterPreflightError::Permanent,
                ),
                Some(structured) => cancelled || (structured ==> (result matches Ok(c) && c.structured_spec()))
                    && (!structured ==> result == Err::<ProviderCapabilities, OpenRouterPreflightError>(
                    OpenRouterPreflightError::CapabilityMissing,
                )),
            }
        } else {
            result == Err::<ProviderCapabilities, OpenRouterPreflightError>(OpenRouterPreflightError::Permanent)
        },
    }
}

/// Whether the exchanges after `before` keep it and are each a capability
/// GET of `model_endpoint` with the OpenRouter headers of `api_key`.
pub open spec fn capability_gets(
    before: Seq<(HttpRequest, Result<HttpResponse, HttpError>)>,
    after: Seq<(HttpRequest, Result<HttpResponse, HttpError>)>,
    model_endpoint: Seq<char>,
    api_key: Seq<char>,
) -> bool {
    &&& before.len() <= after.len()
    &&& forall|i: int| 0 <= i < before.len() ==> #[trigger] after[i] == before[i]
    &&& forall|i: int|
        before.len() <= i < after.len() ==> provider_get((#[trigger] after[i]).0, model_endpoint, openrouter_headers(api_key))
}

/// Whether the last envelope handed to the encoder asks `model` for the
/// translation of `request`, and the encoder gave back `body` for it.
pub open spec fn encoded_translation(
    log: Seq<(ChatEnvelope, Option<Seq<u8>>)>,
    model: Seq<char>,
    request: TranslationRequest,
    body: Seq<u8>,
) -> bool {
    &&& log.len() > 0
    &&& chat_request(
        log.last().0,
        model,
        translation_instructions(request.source_language@, request.target_language@, request.mode),
        TRANSLATION_SCHEMA_NAME,
        translation_schema_text(request.output_cue_ids@),
        true,
    )
    &&& is_translation_input(log.last().0.user, request)
    &&& log.last().1 == Some(body)
}

/// Whether the last envelope handed to the encoder asks `model` for the
/// analysis of `request`, and the encoder gave back `body` for it.
pub open spec fn encoded_analysis(
    log: Seq<(ChatEnvelope, Option<Seq<u8>>)>,
    model: Seq<char>,
    request: DocumentAnalysisRequest,
    body: Seq<u8>,
) -> bool {
    &&& log.len() > 0
    &&& chat_request(
        log.last().0,
        model,
        analysis_instructions(request.source_language@, request.target_language@),
        ANALYSIS_SCHEMA_NAME,
        ANALYSIS_RESPONSE_SCHEMA@,
        true,
    )
    &&& is_analysis_input(log.last().0.user, request)
    &&& log.last().1 == Some(body)
}

/// One OpenRouter provider instance for a translation job.
pub struct OpenRouterTranslationProvider<H: HttpClient, R: RetrySleeper, C: Clock, E: RequestEncoder> {
    http: H,
    api_key: ApiKey,
    identity: TranslationProviderIdentity,
    chat_endpoint: String,
    model_endpoint: String,
    sleeper: R,
    clock: C,
    encoder: E,
    capabilities: Option<CachedCapabilities>,
    encoded: Ghost<Seq<(ChatEnvelope, Option<Seq<u8>>)>>,
}

/// The headers every OpenRouter request carries.
/// The headers of every OpenRouter request, by name and value.
pub open spec fn openrouter_headers(api_key: Seq<char>) -> Seq<(Seq<char>, Seq<char>)> {
    seq![bearer_pair(api_key), ("HTTP-Referer"@, REFERER@), ("X-Title"@, APPLICATION_TITLE@)]
}

fn headers(api_key: &ApiKey) -> (headers: Vec<HttpHeader>)
    ensures
        headers@.len() == 3,
        header_pairs(headers@) == openrouter_headers(api_key@),
{
    let headers = vec![
        bearer_header(api_key),
        HttpHeader { name: String::from_str("HTTP-Referer"), value: String::from_str(REFERER) },
        HttpHeader { name: String::from_str("X-Title"), value: String::from_str(APPLICATION_TITLE) },
    ];
    assert(header_pairs(headers@) =~= openrouter_headers(api_key@));
    headers
}

/// The model endpoint of a model.
pub open spec fn model_endpoint_of(model: Seq<char>) -> Seq<char> {
    OPENROUTER_MODEL_ENDPOINT_PREFIX@ + model
}

fn model_endpoint(model: &str) -> (endpoint: String)
    ensures
        endpoint@ == model_endpoint_of(model@),
{
    let mut endpoint = String::from_str(OPENROUTER_MODEL_ENDPOINT_PREFIX);
    endpoint.append(model);
    endpoint
}

/// A Chat Completions body answering in the strict schema named
/// `schema_name`, asking for billed usage.
fn build_request_body(
    identity: &TranslationProviderIdentity,
    system_instructions: String,
    user_input: PromptInput,
    schema_name: &'static str,
    schema: String,
) -> (body: ChatEnvelope)
    ensures
        chat_request(body, identity@.1, system_instructions@, schema_name, schema@, true),
        body.user == user_input,
{
    chat_envelope(identity.model(), system_instructions, user_input, schema_name, schema, true)
}

/// The body of a document analysis request.
pub fn build_analysis_request_body(identity: &TranslationProviderIdentity, request: &DocumentAnalysisRequest) -> (body:
    ChatEnvelope)
    ensures
        chat_request(
            body,
            identity@.1,
            analysis_instructions(request.source_language@, request.target_language@),
            ANALYSIS_SCHEMA_NAME,
            ANALYSIS_RESPONSE_SCHEMA@,
            true,
        ),
        is_analysis_input(body.user, *request),
{
    build_request_body(
        identity,
        analysis_system_instructions(request),
        PromptInput::Analysis(analysis_prompt_input(request)),
        ANALYSIS_SCHEMA_NAME,
        String::from_str(ANALYSIS_RESPONSE_SCHEMA),
    )
}

/// The body of a translation request.
pub fn build_translation_request_body(identity: &TranslationProviderIdentity, request: &TranslationRequest) -> (body:
    ChatEnvelope)
    ensures
        chat_request(
            body,
            identity@.1,
            translation_instructions(request.source_language@, request.target_language@, request.mode),
            TRANSLATION_SCHEMA_NAME,
            translation_schema_text(request.output_cue_ids@),
            true,
        ),
        is_translation_input(body.user, *request),
{
    build_request_body(
        identity,
        translation_system_instructions(request),
        PromptInput::Translation(translation_prompt_input(request)),
        TRANSLATION_SCHEMA_NAME,
        translation_response_schema(&request.output_cue_ids),
    )
}

impl<H: HttpClient, R: RetrySleeper, C: Clock, E: RequestEncoder> OpenRouterTranslationProvider<H, R, C, E> {
    pub closed spec fn identity_spec(&self) -> (Seq<char>, Seq<char>) {
        self.identity@
    }

    pub closed spec fn endpoints_spec(&self) -> (Seq<char>, Seq<char>) {
        (self.chat_endpoint@, self.model_endpoint@)
    }

    /// The credential the provider sends.
    pub closed spec fn key_spec(&self) -> Seq<char> {
        self.api_key@
    }

    /// Every envelope handed to the encoder so far, in order, each with the
    /// bytes the encoder gave back for it.
    pub closed spec fn encoded_spec(&self) -> Seq<(ChatEnvelope, Option<Seq<u8>>)> {
        self.encoded@
    }

    /// Hands `envelope` to the encoder and records what it gave back.
    fn encode(&mut self, envelope: &ChatEnvelope) -> (body: Option<Vec<u8>>)
        ensures
            final(self).encoded_spec() == old(self).encoded_spec().push((*envelope, bytes_of(body))),
            final(self).exchanges_spec() == old(self).exchanges_spec(),
            final(self).endpoints_spec() == old(self).endpoints_spec(),
            final(self).identity_spec() == old(self).identity_spec(),
            final(self).key_spec() == old(self).key_spec(),
            final(self).cache_spec() == old(self).cache_spec(),
    {
        let body = self.encoder.chat_body(envelope);
        proof {
            self.encoded@ = self.encoded@.push((*envelope, bytes_of(body)));
        }
        body
    }

    pub closed spec fn cache_spec(&self) -> Option<CachedCapabilities> {
        self.capabilities
    }

    /// What the client has exchanged so far.
    pub closed spec fn exchanges_spec(&self) -> Seq<(HttpRequest, Result<HttpResponse, HttpError>)> {
        self.http.exchanges()
    }

    /// Whether both endpoints are the approved ones.
    pub open spec fn approved_spec(&self) -> bool {
        self.endpoints_spec().0 == OPENROUTER_CHAT_ENDPOINT@ && self.endpoints_spec().1 == model_endpoint_of(
            self.identity_spec().1,
        )
    }

    /// A provider for the approved endpoints.
    pub fn new(http: H, api_key: ApiKey, model: &str, sleeper: R, clock: C, encoder: E) -> (provider: Result<
        OpenRouterTranslationProvider<H, R, C, E>,
        OpenRouterPreflightError,
    >)
        ensures
            provider is Ok <==> valid_model_name(model@),
            provider matches Ok(p) ==> p.identity_spec() == (PROVIDER_ID@, model@) && p.endpoints_spec()
                == (OPENROUTER_CHAT_ENDPOINT@, model_endpoint_of(model@)) && p.cache_spec() is None,
            provider matches Ok(p) ==> p.key_spec() == api_key@,
            provider matches Err(e) ==> e == OpenRouterPreflightError::Permanent,
    {
        let endpoint = model_endpoint(model);
        Self::with_endpoint_and_retry_sleeper(
            http,
            api_key,
            model,
            OPENROUTER_CHAT_ENDPOINT,
            endpoint.as_str(),
            sleeper,
            clock,
            encoder,
        )
    }

    /// A provider that owns its client handle, for a worker that moves the
    /// provider onto a thread of its own; several providers may hold handles
    /// of one shared client. Otherwise exactly [`Self::new`].
    pub fn with_shared_http(http: H, api_key: ApiKey, model: &str, sleeper: R, clock: C, encoder: E) -> (provider:
        Result<OpenRouterTranslationProvider<H, R, C, E>, OpenRouterPreflightError>)
        ensures
            provider is Ok <==> valid_model_name(model@),
            provider matches Ok(p) ==> p.identity_spec() == (PROVIDER_ID@, model@) && p.endpoints_spec()
                == (OPENROUTER_CHAT_ENDPOINT@, model_endpoint_of(model@)) && p.cache_spec() is None,
            provider matches Ok(p) ==> p.key_spec() == api_key@,
            provider matches Err(e) ==> e == OpenRouterPreflightError::Permanent,
    {
        Self::new(http, api_key, model, sleeper, clock, encoder)
    }

    /// A provider with explicit endpoints, sleeper and clock. Both endpoints
    /// are still checked against the approved ones before anything is sent.
    pub fn with_endpoint_and_retry_sleeper(
        http: H,
        api_key: ApiKey,
        model: &str,
        chat_endpoint: &str,
        model_endpoint: &str,
        sleeper: R,
        clock: C,
        encoder: E,
    ) -> (provider: Result<OpenRouterTranslationProvider<H, R, C, E>, OpenRouterPreflightError>)
        ensures
            provider is Ok <==> valid_model_name(model@),
            provider matches Ok(p) ==> p.identity_spec() == (PROVIDER_ID@, model@) && p.endpoints_spec()
                == (chat_endpoint@, model_endpoint@) && p.cache_spec() is None,
            provider matches Ok(p) ==> p.key_spec() == api_key@,
            provider matches Err(e) ==> e == OpenRouterPreflightError::Permanent,
    {
        proof {
            reveal_strlit("openrouter");
        }
        if !valid_model(model) {
            return Err(OpenRouterPreflightError::Permanent);
        }
        let identity = match TranslationProviderIdentity::new(PROVIDER_ID, model) {
            Ok(i) => i,
            Err(_) => return Err(OpenRouterPreflightError::Permanent),
        };
        Ok(OpenRouterTranslationProvider {
            http,
            api_key,
            identity,
            chat_endpoint: chat_endpoint.to_owned(),
            model_endpoint: model_endpoint.to_owned(),
            sleeper,
            clock,
            encoder,
            capabilities: None,
            encoded: Ghost(Seq::empty()),
        })
    }

    fn endpoints_approved(&self) -> (approved: bool)
        ensures
            approved == (self.chat_endpoint@ == OPENROUTER_CHAT_ENDPOINT@ && self.model_endpoint@
                == model_endpoint_of(self.identity@.1)),
    {
        let expected = model_endpoint(self.identity.model());
        same_text(self.chat_endpoint.as_str(), OPENROUTER_CHAT_ENDPOINT) && same_text(
            self.model_endpoint.as_str(),
            expected.as_str(),
        )
    }

    /// Checks, and caches for fifteen minutes, whether the model supports
    /// structured outputs, at the clock reading `now`.
    ///
    /// Unapproved endpoints are refused before anything is sent; an answer
    /// still trusted at `now` is used without a request; otherwise the answer
    /// is fetched and cached until `now` + [`CAPABILITY_CACHE_SECONDS`]; a
    /// cancellation, transport or parse failure is not cached.
    pub fn preflight_at<S: TranslationProgressSink>(&mut self, call: &TranslationCall<S>, now: u64) -> (result: Result<
        ProviderCapabilities,
        OpenRouterPreflightError,
    >)
        ensures
            final(self).identity_spec() == old(self).identity_spec(),
            final(self).endpoints_spec() == old(self).endpoints_spec(),
            final(self).key_spec() == old(self).key_spec(),
            !old(self).approved_spec() ==> result == Err::<ProviderCapabilities, OpenRouterPreflightError>(
                OpenRouterPreflightError::Permanent,
            ) && final(self).cache_spec() == old(self).cache_spec() && final(self).exchanges_spec()
                == old(self).exchanges_spec(),
            old(self).approved_spec() ==> preflight_step(
                old(self).cache_spec(),
                final(self).cache_spec(),
                now,
                result,
                (final(self).exchanges_spec().len() - old(self).exchanges_spec().len()) as nat,
            ),
            result matches Ok(c) ==> c.structured_spec(),
            result == Err::<ProviderCapabilities, OpenRouterPreflightError>(OpenRouterPreflightError::Transient)
                ==> old(self).approved_spec() && final(self).exchanges_spec().len() > old(self).exchanges_spec().len(),
            capability_gets(
                old(self).exchanges_spec(),
                final(self).exchanges_spec(),
                old(self).endpoints_spec().1,
                old(self).key_spec(),
            ),
            final(self).exchanges_spec().len() <= old(self).exchanges_spec().len() + MAX_RETRIES + 1,
            final(self).exchanges_spec().len() > old(self).exchanges_spec().len() ==> capability_settles(
                final(self).exchanges_spec().last().1,
                result,
            ),
    {
        let ghost log0 = self.http.exchanges();
        if !self.endpoints_approved() {
            return Err(OpenRouterPreflightError::Permanent);
        }
        match call.checkpoint() {
            Ok(()) => {},
            Err(e) => return Err(map_translation_error_to_preflight(e)),
        }
        match cached_at(self.capabilities, now) {
            Some(cached) => {
                return result_for_capabilities(cached);
            },
            None => {},
        }
        let request = bounded_get(self.model_endpoint.as_str(), headers(&self.api_key));
        let sent = send_with_retries(&mut self.http, call, &mut self.sleeper, &request);
        proof {
            let log = self.http.exchanges();
            assert forall|i: int| 0 <= i < log0.len() implies #[trigger] log[i] == log0[i] by {
                assert(log.subrange(0, log0.len() as int)[i] == log[i]);
            }
            assert forall|i: int| log0.len() <= i < log.len() implies provider_get(
                (#[trigger] log[i]).0,
                self.model_endpoint@,
                openrouter_headers(self.api_key@),
            ) by {
                assert(crate::http::same_request(request, log[i].0));
                lemma_same_request_headers(request, log[i].0);
            }
        }
        let response = match sent {
            Ok(r) => r,
            Err(e) => {
                proof {
                    let log = self.http.exchanges();
                    if log.len() > log0.len() {
                        assert(log.last() == log[log.len() - 1]);
                    }
                }
                return Err(map_translation_error_to_preflight(e));
            },
        };
        match call.checkpoint() {
            Ok(()) => {},
            Err(e) => return Err(map_translation_error_to_preflight(e)),
        }
        let capabilities = match parse_capabilities(response.body.as_slice()) {
            Ok(c) => c,
            Err(e) => return Err(e),
        };
        self.capabilities = Some(cache_entry(capabilities, now));
        let verdict = result_for_capabilities(capabilities);
        proof {
            assert(self.capabilities == Some(entry_at(capabilities, now)));
            assert(verdict == capability_verdict(capabilities));
        }
        verdict
    }

    /// Checks, and caches for fifteen minutes, whether the model supports
    /// structured outputs, at the provider clock's reading.
    pub fn preflight<S: TranslationProgressSink>(&mut self, call: &TranslationCall<S>) -> (result: Result<
        ProviderCapabilities,
        OpenRouterPreflightError,
    >)
        ensures
            final(self).identity_spec() == old(self).identity_spec(),
            final(self).endpoints_spec() == old(self).endpoints_spec(),
            final(self).key_spec() == old(self).key_spec(),
            !old(self).approved_spec() ==> result == Err::<ProviderCapabilities, OpenRouterPreflightError>(
                OpenRouterPreflightError::Permanent,
            ) && final(self).cache_spec() == old(self).cache_spec() && final(self).exchanges_spec()
                == old(self).exchanges_spec(),
            old(self).approved_spec() ==> exists|now: u64|
                #[trigger] preflight_step(
                    old(self).cache_spec(),
                    final(self).cache_spec(),
                    now,
                    result,
                    (final(self).exchanges_spec().len() - old(self).exchanges_spec().len()) as nat,
                ),
            result matches Ok(c) ==> c.structured_spec(),
            result == Err::<ProviderCapabilities, OpenRouterPreflightError>(OpenRouterPreflightError::Transient)
                ==> old(self).approved_spec() && final(self).exchanges_spec().len() > old(self).exchanges_spec().len(),
            capability_gets(
                old(self).exchanges_spec(),
                final(self).exchanges_spec(),
                old(self).endpoints_spec().1,
                old(self).key_spec(),
            ),
            final(self).exchanges_spec().len() <= old(self).exchanges_spec().len() + MAX_RETRIES + 1,
            final(self).exchanges_spec().len() > old(self).exchanges_spec().len() ==> capability_settles(
                final(self).exchanges_spec().last().1,
                result,
            ),
    {
        let now = self.clock.now_seconds();
        self.preflight_at(call, now)
    }


    /// Diagnostic text: the identity's lengths; never the credential or the
    /// endpoints.
    pub fn debug_text(&self) -> (text: String)
        ensures
            text@ == "OpenRouterTranslationProvider { identity: "@ + ("TranslationProviderIdentity { provider_len: "@ + decimal(
                self.identity_spec().0.len(),
            ) + ", model_len: "@ + decimal(self.identity_spec().1.len()) + " }"@)
                + ", has_credential: true, endpoints: \"<redacted>\" }"@,
    {
        let mut text = String::from_str("OpenRouterTranslationProvider { identity: ");
        text.append(self.identity.debug_text().as_str());
        text.append(", has_credential: true, endpoints: \"<redacted>\" }");
        text
    }

    fn post(&self, body: &Vec<u8>) -> (request: HttpRequest)
        ensures
            provider_post(request, self.chat_endpoint@, openrouter_headers(self.api_key@), body@),
    {
        HttpRequest::post_json(
            self.chat_endpoint.as_str(),
            headers(&self.api_key),
            body.clone(),
            MAX_PROVIDER_BODY_BYTES,
            PROVIDER_TIMEOUT_MS,
        )
    }
}

impl<H: HttpClient, R: RetrySleeper, C: Clock, E: RequestEncoder> TranslationProvider for OpenRouterTranslationProvider<H, R, C, E> {
    fn identity(&self) -> (identity: TranslationProviderIdentity)
        ensures
            identity@ == self.identity_spec(),
    {
        self.identity.copy()
    }

    /// An empty transcript is refused before anything is sent; then the
    /// preflight must pass.
    fn analyze_document<S: TranslationProgressSink>(
        &mut self,
        request: &DocumentAnalysisRequest,
        call: &TranslationCall<S>,
    ) -> (analysis: Result<DocumentAnalysis, TranslationProviderError>)
        ensures
            !(old(self).endpoints_spec().0 == OPENROUTER_CHAT_ENDPOINT@ && old(self).endpoints_spec().1
                == model_endpoint_of(old(self).identity_spec().1)) || request.transcript@.len() == 0 ==> analysis
                == Err::<DocumentAnalysis, TranslationProviderError>(TranslationProviderError::Permanent),
            analysis matches Ok(a) ==> exists|body: Seq<u8>| #[trigger] analysis_body_rule(body) == Some(
                analysis_model(a),
            ),
            final(self).endpoints_spec() == old(self).endpoints_spec(),
            final(self).identity_spec() == old(self).identity_spec(),
            openrouter_traffic(
                old(self).exchanges_spec(),
                final(self).exchanges_spec(),
                old(self).endpoints_spec().0,
                old(self).endpoints_spec().1,
                old(self).key_spec(),
            ),
            final(self).key_spec() == old(self).key_spec(),
            analysis matches Err(e) ==> (e == TranslationProviderError::Transient || e
                == TranslationProviderError::ResponseTooLarge ==> final(self).exchanges_spec().len() > old(
                self,
            ).exchanges_spec().len()),
            posted_after(old(self).exchanges_spec(), final(self).exchanges_spec()) ==> encoded_analysis(
                final(self).encoded_spec(),
                old(self).identity_spec().1,
                *request,
                body_of(final(self).exchanges_spec().last().0),
            ),
            posted_after(old(self).exchanges_spec(), final(self).exchanges_spec()) ==> answer_settles(
                final(self).exchanges_spec().last().1,
                analysis,
                |x: DocumentAnalysis| analysis_model(x),
                |b: Seq<u8>| analysis_body_rule(b),
            ),
            !old(self).approved_spec() || request.transcript@.len() == 0 ==> final(self).exchanges_spec()
                == old(self).exchanges_spec(),
            posted_after(old(self).exchanges_spec(), final(self).exchanges_spec()) ==> caches_structured(
                final(self).cache_spec(),
            ),
            analysis matches Ok(a) ==> last_answer_reads(
                old(self).exchanges_spec(),
                final(self).exchanges_spec(),
                |b: Seq<u8>| analysis_body_rule(b),
                analysis_model(a),
            ),
    {
        if request.transcript.len() == 0 {
            return Err(TranslationProviderError::Permanent);
        }
        let ghost cache_before = self.capabilities;
        let passed = self.preflight(call);
        let ghost log_after_preflight = self.http.exchanges();
        proof {
            lemma_gets_are_traffic(
                old(self).exchanges_spec(),
                log_after_preflight,
                self.chat_endpoint@,
                self.model_endpoint@,
                self.api_key@,
            );
        }
        match passed {
            Ok(_) => {},
            Err(e) => return Err(map_preflight_error_to_translation(e)),
        }
        proof {
            let sends = (log_after_preflight.len() - old(self).exchanges_spec().len()) as nat;
            let now = choose|now: u64| #[trigger] preflight_step(cache_before, self.capabilities, now, passed, sends);
            lemma_passed_preflight_caches(cache_before, self.capabilities, now, passed, sends);
        }
        let envelope = build_analysis_request_body(&self.identity, request);
        let body = match self.encode(&envelope) {
            Some(b) => b,
            None => return Err(TranslationProviderError::Permanent),
        };
        if body.len() > MAX_PROVIDER_BODY_BYTES {
            return Err(TranslationProviderError::Permanent);
        }
        match call.checkpoint() {
            Ok(()) => {},
            Err(e) => return Err(e),
        }
        let http_request = self.post(&body);
        let sent = send_with_retries(&mut self.http, call, &mut self.sleeper, &http_request);
        proof {
            lemma_retry_log_posts(log_after_preflight, self.http.exchanges(), http_request, sent);
            lemma_post_traffic(
                old(self).exchanges_spec(),
                log_after_preflight,
                self.http.exchanges(),
                http_request,
                sent,
                self.chat_endpoint@,
                self.model_endpoint@,
                self.api_key@,
            );
        }
        let response = match sent {
            Ok(r) => r,
            Err(e) => {
                proof {
                    if self.http.exchanges().len() > log_after_preflight.len() {
                        lemma_failed_send_settles(log_after_preflight, self.http.exchanges(), http_request, e,
                            |x: DocumentAnalysis| analysis_model(x), |b: Seq<u8>| analysis_body_rule(b));
                    }
                }
                return Err(e);
            },
        };
        match call.checkpoint() {
            Ok(()) => {},
            Err(e) => return Err(e),
        }
        parse_analysis_response_body(response.body.as_slice())
    }

    /// No output cue asked for is refused before anything is sent; then the
    /// preflight must pass, and a model without structured outputs never
    /// receives a translation request.
    fn translate<S: TranslationProgressSink>(
        &mut self,
        request: &TranslationRequest,
        call: &TranslationCall<S>,
    ) -> (response: Result<TranslationResponse, TranslationProviderError>)
        ensures
            !(old(self).endpoints_spec().0 == OPENROUTER_CHAT_ENDPOINT@ && old(self).endpoints_spec().1
                == model_endpoint_of(old(self).identity_spec().1)) || request.output_cue_ids@.len() == 0
                ==> response == Err::<TranslationResponse, TranslationProviderError>(
                TranslationProviderError::Permanent,
            ),
            response matches Ok(r) ==> exists|body: Seq<u8>| #[trigger] translation_body_rule(body) == Some(
                response_cues(r),
            ),
            final(self).endpoints_spec() == old(self).endpoints_spec(),
            final(self).identity_spec() == old(self).identity_spec(),
            openrouter_traffic(
                old(self).exchanges_spec(),
                final(self).exchanges_spec(),
                old(self).endpoints_spec().0,
                old(self).endpoints_spec().1,
                old(self).key_spec(),
            ),
            final(self).key_spec() == old(self).key_spec(),
            response matches Err(e) ==> (e == TranslationProviderError::Transient || e
                == TranslationProviderError::ResponseTooLarge ==> final(self).exchanges_spec().len() > old(
                self,
            ).exchanges_spec().len()),
            posted_after(old(self).exchanges_spec(), final(self).exchanges_spec()) ==> encoded_translation(
                final(self).encoded_spec(),
                old(self).identity_spec().1,
                *request,
                body_of(final(self).exchanges_spec().last().0),
            ),
            posted_after(old(self).exchanges_spec(), final(self).exchanges_spec()) ==> answer_settles(
                final(self).exchanges_spec().last().1,
                response,
                |x: TranslationResponse| response_cues(x),
                |b: Seq<u8>| translation_body_rule(b),
            ),
            !old(self).approved_spec() || request.output_cue_ids@.len() == 0 ==> final(self).exchanges_spec()
                == old(self).exchanges_spec(),
            posted_after(old(self).exchanges_spec(), final(self).exchanges_spec()) ==> caches_structured(
                final(self).cache_spec(),
            ),
            response matches Ok(r) ==> last_answer_reads(
                old(self).exchanges_spec(),
                final(self).exchanges_spec(),
                |b: Seq<u8>| translation_body_rule(b),
                response_cues(r),
            ),
    {
        if request.output_cue_ids.len() > u32::MAX as usize || request.output_cue_ids.len() == 0 {
            return Err(TranslationProviderError::Permanent);
        }
        let total = request.output_cue_ids.len() as u32;
        let ghost cache_before = self.capabilities;
        let passed = self.preflight(call);
        let ghost log_after_preflight = self.http.exchanges();
        proof {
            lemma_gets_are_traffic(
                old(self).exchanges_spec(),
                log_after_preflight,
                self.chat_endpoint@,
                self.model_endpoint@,
                self.api_key@,
            );
        }
        match passed {
            Ok(_) => {},
            Err(e) => return Err(map_preflight_error_to_translation(e)),
        }
        proof {
            let sends = (log_after_preflight.len() - old(self).exchanges_spec().len()) as nat;
            let now = choose|now: u64| #[trigger] preflight_step(cache_before, self.capabilities, now, passed, sends);
            lemma_passed_preflight_caches(cache_before, self.capabilities, now, passed, sends);
        }
        let envelope = build_translation_request_body(&self.identity, request);
        let body = match self.encode(&envelope) {
            Some(b) => b,
            None => return Err(TranslationProviderError::Permanent),
        };
        if body.len() > MAX_PROVIDER_BODY_BYTES {
            return Err(TranslationProviderError::Permanent);
        }
        match call.progress(TranslationProgress { phase: TranslationProgressPhase::Preparing, done: 0, total }) {
            Ok(()) => {},
            Err(e) => return Err(e),
        }
        let http_request = self.post(&body);
        let sent = send_with_retries(&mut self.http, call, &mut self.sleeper, &http_request);
        proof {
            lemma_retry_log_posts(log_after_preflight, self.http.exchanges(), http_request, sent);
            lemma_post_traffic(
                old(self).exchanges_spec(),
                log_after_preflight,
                self.http.exchanges(),
                http_request,
                sent,
                self.chat_endpoint@,
                self.model_endpoint@,
                self.api_key@,
            );
        }
        let response = match sent {
            Ok(r) => r,
            Err(e) => {
                proof {
                    if self.http.exchanges().len() > log_after_preflight.len() {
                        lemma_failed_send_settles(log_after_preflight, self.http.exchanges(), http_request, e,
                            |x: TranslationResponse| response_cues(x), |b: Seq<u8>| translation_body_rule(b));
                    }
                }
                return Err(e);
            },
        };
        match call.checkpoint() {
            Ok(()) => {},
            Err(e) => return Err(e),
        }
        let translated = match parse_translation_response_body(response.body.as_slice()) {
            Ok(t) => t,
            Err(e) => return Err(e),
        };
        match call.progress(TranslationProgress { phase: TranslationProgressPhase::Translating, done: total, total }) {
            Ok(()) => {},
            Err(e) => return Err(e),
        }
        match call.progress(TranslationProgress { phase: TranslationProgressPhase::Finalizing, done: total, total }) {
            Ok(()) => {},
            Err(e) => return Err(e),
        }
        call.finish(translated)
    }
}

/// Preflight failures as normalization errors.
pub fn map_preflight_error_to_normalization(error: OpenRouterPreflightError) -> (mapped: FilenameNormalizationError)
    ensures
        mapped == (match error {
            OpenRouterPreflightError::Cancelled => FilenameNormalizationError::Cancelled,
            OpenRouterPreflightError::Transient => FilenameNormalizationError::Transport,
            OpenRouterPreflightError::Permanent => FilenameNormalizationError::HttpStatus,
            OpenRouterPreflightError::CapabilityMissing => FilenameNormalizationError::CapabilityMissing,
        }),
{
    match error {
        OpenRouterPreflightError::Cancelled => FilenameNormalizationError::Cancelled,
        OpenRouterPreflightError::Transient => FilenameNormalizationError::Transport,
        OpenRouterPreflightError::Permanent => FilenameNormalizationError::HttpStatus,
        OpenRouterPreflightError::CapabilityMissing => FilenameNormalizationError::CapabilityMissing,
    }
}

impl<H: HttpClient, R: RetrySleeper, C: Clock, E: RequestEncoder> FilenameNormalizer for OpenRouterTranslationProvider<H, R, C, E> {
    /// The preflight must pass; the request then goes through the shared
    /// retry core.
    fn normalize(&mut self, request: &FilenameNormalizationRequest) -> (result: Result<
        FilenameNormalizationResult,
        FilenameNormalizationError,
    >)
        ensures
            !(old(self).endpoints_spec().0 == OPENROUTER_CHAT_ENDPOINT@ && old(self).endpoints_spec().1
                == model_endpoint_of(old(self).identity_spec().1)) ==> result == Err::<
                FilenameNormalizationResult,
                FilenameNormalizationError,
            >(FilenameNormalizationError::HttpStatus),
            result is Ok ==> exists|body: Seq<u8>|
                body.len() <= MAX_PROVIDER_BODY_BYTES && answers(result, #[trigger] body_verdict(body)),
    {
        let call = TranslationCall::<NoSink>::without_progress();
        match self.preflight(&call) {
            Ok(_) => {},
            Err(e) => return Err(map_preflight_error_to_normalization(e)),
        }
        let envelope = build_openrouter_body(&self.identity, request);
        let body = match self.encode(&envelope) {
            Some(b) => b,
            None => return Err(FilenameNormalizationError::InvalidRequest),
        };
        let http_request = HttpRequest::post_json(
            OPENROUTER_CHAT_ENDPOINT,
            headers(&self.api_key),
            body,
            MAX_PROVIDER_BODY_BYTES,
            PROVIDER_TIMEOUT_MS,
        );
        send_and_parse(&mut self.http, &call, &mut self.sleeper, &http_request)
    }
}

} // verus!
