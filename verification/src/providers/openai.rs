//! Direct OpenAI Responses API translation provider.
//!
//! The adapter owns one call's credential and turns the provider's untrusted
//! response into the shared translation values. It never validates cue
//! completeness or order: the local validator does. Payloads stay inside the
//! HTTP boundary; no error or diagnostic text carries one.
use crate::credentials::ApiKey;
use crate::filename_normalization::{FilenameNormalizationError, FilenameNormalizationRequest, FilenameNormalizationResult, FilenameNormalizer};
use crate::http::{HttpClient, HttpError, HttpHeader, HttpMethod, HttpRequest, HttpResponse};
use crate::providers::filename_normalization::{answers, body_verdict, build_openai_body, send_and_parse};
use crate::providers::wire::{
    analysis_prompt_input, is_analysis_input, is_translation_input, responses_envelope, responses_request,
    translation_prompt_input, translation_response_schema, translation_schema_text, PromptInput, ResponsesEnvelope,
    ANALYSIS_RESPONSE_SCHEMA,
};
use crate::providers::translation_http::{
    analysis_body_rule, analysis_instructions, answer_settles, bytes_of, attempt_rule, bearer_pair, body_of, header_pairs,
    last_answer_reads, lemma_failed_send_settles, lemma_same_request_headers, provider_post, Attempt, lemma_retry_log_posts, posted_only_to, analysis_model, analysis_system_instructions, bearer_header, parse_analysis_response_body, parse_translation_response_body,
    response_cues, send_with_retries, translation_body_rule, translation_instructions, translation_system_instructions, RequestEncoder,
    RetrySleeper, ANALYSIS_SCHEMA_NAME, MAX_PROVIDER_BODY_BYTES, PROVIDER_TIMEOUT_MS, TRANSLATION_SCHEMA_NAME,
};
use crate::text::{decimal, any_control, chars_of, has_control, same_text};
use crate::translation::{
    blank, is_blank, DocumentAnalysis, DocumentAnalysisRequest, NoSink, TranslationCall, TranslationProgress,
    TranslationProgressPhase, TranslationProgressSink, TranslationProvider, TranslationProviderError,
    TranslationProviderIdentity, TranslationRequest, TranslationResponse,
};
use vstd::prelude::*;
pub use crate::translation::{PROMPT_VERSION, SCHEMA_VERSION};

verus! {

/// The only endpoint translation requests are sent to.
pub const OPENAI_RESPONSES_ENDPOINT: &'static str = "https://api.openai.com/v1/responses";

/// The provider id of this adapter.
pub const PROVIDER_ID: &'static str = "openai";

/// One direct OpenAI provider instance for a translation job.
pub struct OpenAiTranslationProvider<H: HttpClient, R: RetrySleeper, E: RequestEncoder> {
    http: H,
    api_key: ApiKey,
    identity: TranslationProviderIdentity,
    endpoint: String,
    sleeper: R,
    encoder: E,
    encoded: Ghost<Seq<(ResponsesEnvelope, Option<Seq<u8>>)>>,
}

/// Whether a model name may be used: not blank, no control characters.
pub open spec fn usable_model(model: Seq<char>) -> bool {
    !blank(model) && !has_control(model)
}

/// A POST of `body` to `endpoint` with the credential, budget and timeout.
fn post(endpoint: &str, api_key: &ApiKey, body: &Vec<u8>) -> (request: HttpRequest)
    ensures
        provider_post(request, endpoint@, seq![bearer_pair(api_key@)], body@),
{
    let headers: Vec<HttpHeader> = vec![bearer_header(api_key)];
    let request = HttpRequest::post_json(endpoint, headers, body.clone(), MAX_PROVIDER_BODY_BYTES, PROVIDER_TIMEOUT_MS);
    assert(header_pairs(request.headers@) =~= seq![bearer_pair(api_key@)]);
    request
}

/// Whether the last envelope handed to the encoder asks `model` for the
/// translation of `request`, and the encoder gave back `body` for it.
pub open spec fn encoded_translation(
    log: Seq<(ResponsesEnvelope, Option<Seq<u8>>)>,
    model: Seq<char>,
    request: TranslationRequest,
    body: Seq<u8>,
) -> bool {
    &&& log.len() > 0
    &&& responses_request(
        log.last().0,
        model,
        translation_instructions(request.source_language@, request.target_language@, request.mode),
        TRANSLATION_SCHEMA_NAME,
        translation_schema_text(request.output_cue_ids@),
    )
    &&& is_translation_input(log.last().0.input, request)
    &&& log.last().1 == Some(body)
}

/// Whether the last envelope handed to the encoder asks `model` for the
/// analysis of `request`, and the encoder gave back `body` for it.
pub open spec fn encoded_analysis(
    log: Seq<(ResponsesEnvelope, Option<Seq<u8>>)>,
    model: Seq<char>,
    request: DocumentAnalysisRequest,
    body: Seq<u8>,
) -> bool {
    &&& log.len() > 0
    &&& responses_request(
        log.last().0,
        model,
        analysis_instructions(request.source_language@, request.target_language@),
        ANALYSIS_SCHEMA_NAME,
        ANALYSIS_RESPONSE_SCHEMA@,
    )
    &&& is_analysis_input(log.last().0.input, request)
    &&& log.last().1 == Some(body)
}

/// Whether every exchange after `before` is a POST of one body to `endpoint`
/// with the bearer header of `api_key`, and that body fits the budget.
pub open spec fn posted_bodies(
    before: Seq<(HttpRequest, Result<HttpResponse, HttpError>)>,
    after: Seq<(HttpRequest, Result<HttpResponse, HttpError>)>,
    endpoint: Seq<char>,
    api_key: Seq<char>,
) -> bool {
    &&& after.len() > before.len() ==> body_of(after[before.len() as int].0).len() <= MAX_PROVIDER_BODY_BYTES
    &&& forall|i: int|
        before.len() <= i < after.len() ==> provider_post(
            (#[trigger] after[i]).0,
            endpoint,
            seq![bearer_pair(api_key)],
            body_of(after[before.len() as int].0),
        )
}

/// A retried send of a provider POST leaves only copies of it in the log.
proof fn lemma_posted_copies(
    before: Seq<(HttpRequest, Result<HttpResponse, HttpError>)>,
    after: Seq<(HttpRequest, Result<HttpResponse, HttpError>)>,
    request: HttpRequest,
    result: Result<HttpResponse, TranslationProviderError>,
    endpoint: Seq<char>,
    api_key: Seq<char>,
)
    requires
        crate::providers::translation_http::retry_log(before, after, request, result),
        provider_post(request, endpoint, seq![bearer_pair(api_key)], body_of(request)),
        body_of(request).len() <= MAX_PROVIDER_BODY_BYTES,
    ensures
        posted_bodies(before, after, endpoint, api_key),
{
    assert forall|i: int| before.len() <= i < after.len() implies provider_post(
        (#[trigger] after[i]).0,
        endpoint,
        seq![bearer_pair(api_key)],
        body_of(after[before.len() as int].0),
    ) by {
        assert(crate::http::same_request(request, after[i].0));
        assert(crate::http::same_request(request, after[before.len() as int].0));
        lemma_same_request_headers(request, after[i].0);
    }
    if after.len() > before.len() {
        assert(crate::http::same_request(request, after[before.len() as int].0));
    }
}

/// A Responses body answering in the strict schema named `schema_name`.
fn build_request_body(
    identity: &TranslationProviderIdentity,
    instructions: String,
    input: PromptInput,
    schema_name: &'static str,
    schema: String,
) -> (body: ResponsesEnvelope)
    ensures
        responses_request(body, identity@.1, instructions@, schema_name, schema@),
        body.input == input,
{
    responses_envelope(identity.model(), instructions, input, schema_name, schema)
}

/// The body of a document analysis request.
pub fn build_analysis_request_body(identity: &TranslationProviderIdentity, request: &DocumentAnalysisRequest) -> (body:
    ResponsesEnvelope)
    ensures
        responses_request(
            body,
            identity@.1,
            analysis_instructions(request.source_language@, request.target_language@),
            ANALYSIS_SCHEMA_NAME,
            ANALYSIS_RESPONSE_SCHEMA@,
        ),
        is_analysis_input(body.input, *request),
{
    build_request_body(
        identity,
        analysis_system_instructions(request),
        PromptInput::Analysis(analysis_prompt_input(request)),
        ANALYSIS_SCHEMA_NAME,
        String::from_str(ANALYSIS_RESPONSE_SCHEMA),
    )
}

/// The body of a translation request.
pub fn build_translation_request_body(identity: &TranslationProviderIdentity, request: &TranslationRequest) -> (body:
    ResponsesEnvelope)
    ensures
        responses_request(
            body,
            identity@.1,
            translation_instructions(request.source_language@, request.target_language@, request.mode),
            TRANSLATION_SCHEMA_NAME,
            translation_schema_text(request.output_cue_ids@),
        ),
        is_translation_input(body.input, *request),
{
    build_request_body(
        identity,
        translation_system_instructions(request),
        PromptInput::Translation(translation_prompt_input(request)),
        TRANSLATION_SCHEMA_NAME,
        translation_response_schema(&request.output_cue_ids),
    )
}

impl<H: HttpClient, R: RetrySleeper, E: RequestEncoder> OpenAiTranslationProvider<H, R, E> {
    pub closed spec fn identity_spec(&self) -> (Seq<char>, Seq<char>) {
        self.identity@
    }

    pub closed spec fn endpoint_spec(&self) -> Seq<char> {
        self.endpoint@
    }

    /// The credential the provider sends.
    pub closed spec fn key_spec(&self) -> Seq<char> {
        self.api_key@
    }

    /// Every envelope handed to the encoder so far, in order, each with the
    /// bytes the encoder gave back for it.
    pub closed spec fn encoded_spec(&self) -> Seq<(ResponsesEnvelope, Option<Seq<u8>>)> {
        self.encoded@
    }

    /// Hands `envelope` to the encoder and records what it gave back.
    fn encode(&mut self, envelope: &ResponsesEnvelope) -> (body: Option<Vec<u8>>)
        ensures
            final(self).encoded_spec() == old(self).encoded_spec().push((*envelope, bytes_of(body))),
            final(self).exchanges_spec() == old(self).exchanges_spec(),
            final(self).endpoint_spec() == old(self).endpoint_spec(),
            final(self).identity_spec() == old(self).identity_spec(),
            final(self).key_spec() == old(self).key_spec(),
    {
        let body = self.encoder.responses_body(envelope);
        proof {
            self.encoded@ = self.encoded@.push((*envelope, bytes_of(body)));
        }
        body
    }

    /// What the client has exchanged so far.
    pub closed spec fn exchanges_spec(&self) -> Seq<(HttpRequest, Result<HttpResponse, HttpError>)> {
        self.http.exchanges()
    }

    /// A provider for the approved endpoint.
    pub fn new(http: H, api_key: ApiKey, model: &str, sleeper: R, encoder: E) -> (provider: Result<
        OpenAiTranslationProvider<H, R, E>,
        TranslationProviderError,
    >)
        ensures
            provider is Ok <==> usable_model(model@),
            provider matches Ok(p) ==> p.key_spec() == api_key@,
            provider matches Ok(p) ==> p.identity_spec() == (PROVIDER_ID@, model@) && p.endpoint_spec()
                == OPENAI_RESPONSES_ENDPOINT@,
            provider matches Err(e) ==> e == TranslationProviderError::Permanent,
    {
        Self::with_endpoint_and_retry_sleeper(http, api_key, model, OPENAI_RESPONSES_ENDPOINT, sleeper, encoder)
    }

    /// A provider that owns its client handle, for a worker that moves the
    /// provider onto a thread of its own; several providers may hold handles
    /// of one shared client. Otherwise exactly [`Self::new`].
    pub fn with_shared_http(http: H, api_key: ApiKey, model: &str, sleeper: R, encoder: E) -> (provider: Result<
        OpenAiTranslationProvider<H, R, E>,
        TranslationProviderError,
    >)
        ensures
            provider is Ok <==> usable_model(model@),
            provider matches Ok(p) ==> p.key_spec() == api_key@,
            provider matches Ok(p) ==> p.identity_spec() == (PROVIDER_ID@, model@) && p.endpoint_spec()
                == OPENAI_RESPONSES_ENDPOINT@,
            provider matches Err(e) ==> e == TranslationProviderError::Permanent,
    {
        Self::new(http, api_key, model, sleeper, encoder)
    }

    /// A provider with an explicit endpoint and sleeper. Requests still go
    /// out only when the endpoint is the approved one.
    pub fn with_endpoint_and_retry_sleeper(
        http: H,
        api_key: ApiKey,
        model: &str,
        endpoint: &str,
        sleeper: R,
        encoder: E,
    ) -> (provider: Result<OpenAiTranslationProvider<H, R, E>, TranslationProviderError>)
        ensures
            provider is Ok <==> usable_model(model@),
            provider matches Ok(p) ==> p.key_spec() == api_key@,
            provider matches Ok(p) ==> p.identity_spec() == (PROVIDER_ID@, model@) && p.endpoint_spec()
                == endpoint@,
            provider matches Err(e) ==> e == TranslationProviderError::Permanent,
    {
        proof {
            reveal_strlit("openai");
        }
        if is_blank(model) || any_control(chars_of(model).as_slice()) {
            return Err(TranslationProviderError::Permanent);
        }
        let identity = match TranslationProviderIdentity::new(PROVIDER_ID, model) {
            Ok(i) => i,
            Err(e) => return Err(e),
        };
        Ok(
            OpenAiTranslationProvider {
                http,
                api_key,
                identity,
                endpoint: endpoint.to_owned(),
                sleeper,
                encoder,
                encoded: Ghost(Seq::empty()),
            },
        )
    }

    /// Diagnostic text: the identity's lengths; never the credential or the
    /// endpoint.
    pub fn debug_text(&self) -> (text: String)
        ensures
            text@ == "OpenAiTranslationProvider { identity: "@ + ("TranslationProviderIdentity { provider_len: "@ + decimal(
                self.identity_spec().0.len(),
            ) + ", model_len: "@ + decimal(self.identity_spec().1.len()) + " }"@)
                + ", has_credential: true, endpoint: \"<redacted>\" }"@,
    {
        let mut text = String::from_str("OpenAiTranslationProvider { identity: ");
        text.append(self.identity.debug_text().as_str());
        text.append(", has_credential: true, endpoint: \"<redacted>\" }");
        text
    }
}

impl<H: HttpClient, R: RetrySleeper, E: RequestEncoder> TranslationProvider for OpenAiTranslationProvider<H, R, E> {
    fn identity(&self) -> (identity: TranslationProviderIdentity)
        ensures
            identity@ == self.identity_spec(),
    {
        self.identity.copy()
    }

    /// Refused before anything is sent when the endpoint is not the approved
    /// one or the transcript is empty.
    fn analyze_document<S: TranslationProgressSink>(
        &mut self,
        request: &DocumentAnalysisRequest,
        call: &TranslationCall<S>,
    ) -> (analysis: Result<DocumentAnalysis, TranslationProviderError>)
        ensures
            old(self).endpoint_spec() != OPENAI_RESPONSES_ENDPOINT@ || request.transcript@.len() == 0 ==> analysis
                == Err::<DocumentAnalysis, TranslationProviderError>(TranslationProviderError::Permanent),
            analysis matches Ok(a) ==> exists|body: Seq<u8>| #[trigger] analysis_body_rule(body) == Some(
                analysis_model(a),
            ),
            final(self).endpoint_spec() == old(self).endpoint_spec(),
            final(self).identity_spec() == old(self).identity_spec(),
            posted_only_to(old(self).exchanges_spec(), final(self).exchanges_spec(), old(self).endpoint_spec()),
            old(self).endpoint_spec() != OPENAI_RESPONSES_ENDPOINT@ || request.transcript@.len() == 0
                ==> final(self).exchanges_spec() == old(self).exchanges_spec(),
            analysis matches Ok(a) ==> last_answer_reads(
                old(self).exchanges_spec(),
                final(self).exchanges_spec(),
                |b: Seq<u8>| analysis_body_rule(b),
                analysis_model(a),
            ),
            final(self).key_spec() == old(self).key_spec(),
            posted_bodies(old(self).exchanges_spec(), final(self).exchanges_spec(), old(self).endpoint_spec(), old(self).key_spec()),
            analysis matches Err(e) ==> (e == TranslationProviderError::Transient || e
                == TranslationProviderError::ResponseTooLarge ==> final(self).exchanges_spec().len() > old(
                self,
            ).exchanges_spec().len() && attempt_rule(
                final(self).exchanges_spec().last().1,
                (final(self).exchanges_spec().len() - 1 - old(self).exchanges_spec().len()) as nat,
            ) == Attempt::Fail(e)),
            final(self).exchanges_spec().len() > old(self).exchanges_spec().len() ==> encoded_analysis(
                final(self).encoded_spec(),
                old(self).identity_spec().1,
                *request,
                body_of(final(self).exchanges_spec()[old(self).exchanges_spec().len() as int].0),
            ),
            final(self).exchanges_spec().len() > old(self).exchanges_spec().len() ==> answer_settles(
                final(self).exchanges_spec().last().1,
                analysis,
                |a: DocumentAnalysis| analysis_model(a),
                |b: Seq<u8>| analysis_body_rule(b),
            ),
    {
        if !same_text(self.endpoint.as_str(), OPENAI_RESPONSES_ENDPOINT) || request.transcript.len() == 0 {
            return Err(TranslationProviderError::Permanent);
        }
        let envelope = build_analysis_request_body(&self.identity, request);
        let body = match self.encode(&envelope) {
            Some(b) => b,
            None => return Err(TranslationProviderError::Permanent),
        };
        if body.len() > MAX_PROVIDER_BODY_BYTES {
            return Err(TranslationProviderError::Permanent);
        }
        match call.checkpoint() {
            Ok(()) => {},
            Err(e) => return Err(e),
        }
        let request = post(self.endpoint.as_str(), &self.api_key, &body);
        let ghost before = self.http.exchanges();
        let sent = send_with_retries(&mut self.http, call, &mut self.sleeper, &request);
        proof {
            lemma_retry_log_posts(before, self.http.exchanges(), request, sent);
            lemma_posted_copies(before, self.http.exchanges(), request, sent, self.endpoint@, self.api_key@);
        }
        let response = match sent {
            Ok(r) => r,
            Err(e) => {
                proof {
                    if self.http.exchanges().len() > before.len() {
                        lemma_failed_send_settles(before, self.http.exchanges(), request, e,
                            |a: DocumentAnalysis| analysis_model(a), |b: Seq<u8>| analysis_body_rule(b));
                    }
                }
                return Err(e);
            },
        };
        match call.checkpoint() {
            Ok(()) => {},
            Err(e) => return Err(e),
        }
        parse_analysis_response_body(response.body.as_slice())
    }

    /// Refused before anything is sent when the endpoint is not the approved
    /// one or no output cue is asked for. Progress goes preparing, then
    /// translating and finalizing with every cue done.
    fn translate<S: TranslationProgressSink>(
        &mut self,
        request: &TranslationRequest,
        call: &TranslationCall<S>,
    ) -> (response: Result<TranslationResponse, TranslationProviderError>)
        ensures
            old(self).endpoint_spec() != OPENAI_RESPONSES_ENDPOINT@ || request.output_cue_ids@.len() == 0
                ==> response == Err::<TranslationResponse, TranslationProviderError>(
                TranslationProviderError::Permanent,
            ),
            response matches Ok(r) ==> exists|body: Seq<u8>| #[trigger] translation_body_rule(body) == Some(
                response_cues(r),
            ),
            final(self).endpoint_spec() == old(self).endpoint_spec(),
            final(self).identity_spec() == old(self).identity_spec(),
            posted_only_to(old(self).exchanges_spec(), final(self).exchanges_spec(), old(self).endpoint_spec()),
            old(self).endpoint_spec() != OPENAI_RESPONSES_ENDPOINT@ || request.output_cue_ids@.len() == 0
                ==> final(self).exchanges_spec() == old(self).exchanges_spec(),
            response matches Ok(r) ==> last_answer_reads(
                old(self).exchanges_spec(),
                final(self).exchanges_spec(),
                |b: Seq<u8>| translation_body_rule(b),
                response_cues(r),
            ),
            final(self).key_spec() == old(self).key_spec(),
            posted_bodies(old(self).exchanges_spec(), final(self).exchanges_spec(), old(self).endpoint_spec(), old(self).key_spec()),
            response matches Err(e) ==> (e == TranslationProviderError::Transient || e
                == TranslationProviderError::ResponseTooLarge ==> final(self).exchanges_spec().len() > old(
                self,
            ).exchanges_spec().len() && attempt_rule(
                final(self).exchanges_spec().last().1,
                (final(self).exchanges_spec().len() - 1 - old(self).exchanges_spec().len()) as nat,
            ) == Attempt::Fail(e)),
            final(self).exchanges_spec().len() > old(self).exchanges_spec().len() ==> encoded_translation(
                final(self).encoded_spec(),
                old(self).identity_spec().1,
                *request,
                body_of(final(self).exchanges_spec()[old(self).exchanges_spec().len() as int].0),
            ),
            final(self).exchanges_spec().len() > old(self).exchanges_spec().len() ==> answer_settles(
                final(self).exchanges_spec().last().1,
                response,
                |r: TranslationResponse| response_cues(r),
                |b: Seq<u8>| translation_body_rule(b),
            ),
    {
        if !same_text(self.endpoint.as_str(), OPENAI_RESPONSES_ENDPOINT) {
            return Err(TranslationProviderError::Permanent);
        }
        if request.output_cue_ids.len() > u32::MAX as usize || request.output_cue_ids.len() == 0 {
            return Err(TranslationProviderError::Permanent);
        }
        let total = request.output_cue_ids.len() as u32;
        let envelope = build_translation_request_body(&self.identity, request);
        let body = match self.encode(&envelope) {
            Some(b) => b,
            None => return Err(TranslationProviderError::Permanent),
        };
        if body.len() > MAX_PROVIDER_BODY_BYTES {
            return Err(TranslationProviderError::Permanent);
        }
        match call.checkpoint() {
            Ok(()) => {},
            Err(e) => return Err(e),
        }
        match call.progress(TranslationProgress { phase: TranslationProgressPhase::Preparing, done: 0, total }) {
            Ok(()) => {},
            Err(e) => return Err(e),
        }
        let http_request = post(self.endpoint.as_str(), &self.api_key, &body);
        let ghost before = self.http.exchanges();
        let sent = send_with_retries(&mut self.http, call, &mut self.sleeper, &http_request);
        proof {
            lemma_retry_log_posts(before, self.http.exchanges(), http_request, sent);
            lemma_posted_copies(before, self.http.exchanges(), http_request, sent, self.endpoint@, self.api_key@);
        }
        let response = match sent {
            Ok(r) => r,
            Err(e) => {
                proof {
                    if self.http.exchanges().len() > before.len() {
                        lemma_failed_send_settles(before, self.http.exchanges(), http_request, e,
                            |r: TranslationResponse| response_cues(r), |b: Seq<u8>| translation_body_rule(b));
                    }
                }
                return Err(e);
            },
        };
        match call.checkpoint() {
            Ok(()) => {},
            Err(e) => return Err(e),
        }
        let translated = match parse_translation_response_body(response.body.as_slice()) {
            Ok(t) => t,
            Err(e) => return Err(e),
        };
        match call.progress(TranslationProgress { phase: TranslationProgressPhase::Translating, done: total, total }) {
            Ok(()) => {},
            Err(e) => return Err(e),
        }
        match call.progress(TranslationProgress { phase: TranslationProgressPhase::Finalizing, done: total, total }) {
            Ok(()) => {},
            Err(e) => return Err(e),
        }
        call.finish(translated)
    }
}

impl<H: HttpClient, R: RetrySleeper, E: RequestEncoder> FilenameNormalizer for OpenAiTranslationProvider<H, R, E> {
    /// Sends the filename-only request through the shared retry core.
    fn normalize(&mut self, request: &FilenameNormalizationRequest) -> (result: Result<
        FilenameNormalizationResult,
        FilenameNormalizationError,
    >)
        ensures
            result is Ok ==> exists|body: Seq<u8>|
                body.len() <= MAX_PROVIDER_BODY_BYTES && answers(result, #[trigger] body_verdict(body)),
    {
        let envelope = build_openai_body(&self.identity, request);
        let body = match self.encode(&envelope) {
            Some(b) => b,
            None => return Err(FilenameNormalizationError::InvalidRequest),
        };
        let call = TranslationCall::<NoSink>::without_progress();
        let http_request = post(OPENAI_RESPONSES_ENDPOINT, &self.api_key, &body);
        send_and_parse(&mut self.http, &call, &mut self.sleeper, &http_request)
    }
}

} // verus!
