//! What the provider request bodies carry, decided here field by field.
//!
//! Both endpoints send the same prompt input and the same strict response
//! schemas; only the envelope differs. The values are built here with exact
//! contracts; a [`RequestEncoder`] then writes them in the wire format with
//! the serializer that format needs, adding nothing of its own.
use crate::providers::translation_http::analysis_model;
use crate::text::{decimal, decimal_text};
use crate::translation::{
    AnalysisCharacter, AnalysisGlossaryEntry, DocumentAnalysis, DocumentAnalysisRequest, TranslationMode,
    TranslationRequest, PROMPT_VERSION, SCHEMA_VERSION,
};
use vstd::prelude::*;

verus! {

/// One cue of a prompt. `translate` is absent from an analysis prompt; in a
/// translation prompt it says whether the cue is asked for or only context.
pub struct PromptCue {
    pub cue_id: u32,
    pub text: String,
    pub translate: Option<bool>,
}

/// The prompt input of a document analysis.
pub struct AnalysisPromptInput {
    pub prompt_version: u32,
    pub schema_version: u32,
    pub source_language: String,
    pub target_language: String,
    pub context_terms: Vec<String>,
    pub transcript: Vec<PromptCue>,
}

/// The prompt input of one translation block.
pub struct TranslationPromptInput {
    pub prompt_version: u32,
    pub schema_version: u32,
    pub source_language: String,
    pub target_language: String,
    pub block_index: u32,
    pub block_count: u32,
    pub mode: &'static str,
    pub analysis: DocumentAnalysis,
    pub output_cue_ids: Vec<u32>,
    pub cues: Vec<PromptCue>,
}

/// What a request asks the model about, written as JSON by the encoder.
pub enum PromptInput {
    Analysis(AnalysisPromptInput),
    Translation(TranslationPromptInput),
    /// A filename normalization: an object whose one member,
    /// `filename_stem`, is this stem.
    Normalization(String),
}

/// The body of an OpenAI Responses request with a strict JSON schema.
pub struct ResponsesEnvelope {
    pub model: String,
    pub store: bool,
    pub instructions: String,
    pub input: PromptInput,
    pub format_type: &'static str,
    pub schema_name: &'static str,
    pub strict: bool,
    /// The schema, as JSON text.
    pub schema: String,
}

/// The body of an OpenRouter Chat Completions request with a strict JSON
/// schema, routed to one upstream provider only.
pub struct ChatEnvelope {
    pub model: String,
    pub system: String,
    pub user: PromptInput,
    pub format_type: &'static str,
    pub schema_name: &'static str,
    pub strict: bool,
    /// The schema, as JSON text.
    pub schema: String,
    pub provider_order: &'static str,
    pub allow_fallbacks: bool,
    pub require_parameters: bool,
    /// Whether the provider is asked to report its billed usage.
    pub include_usage: bool,
}

/// The upstream provider OpenRouter requests are routed to.
pub const UPSTREAM_PROVIDER: &'static str = "OpenAI";

/// The response format both endpoints are asked for.
pub const JSON_SCHEMA_FORMAT: &'static str = "json_schema";

/// A prompt cue as plain values.
pub open spec fn cue_model(cue: PromptCue) -> (u32, Seq<char>, Option<bool>) {
    (cue.cue_id, cue.text@, cue.translate)
}

/// How a translation mode is written in a prompt.
pub open spec fn mode_wire_name(mode: TranslationMode) -> Seq<char> {
    match mode {
        TranslationMode::Initial => "initial"@,
        TranslationMode::TargetedRepair => "targetedRepair"@,
        TranslationMode::FullRetry => "fullRetry"@,
    }
}

/// Whether two lists of strings hold the same texts in the same order.
pub open spec fn same_texts(a: Seq<String>, b: Seq<String>) -> bool {
    a.len() == b.len() && forall|i: int| 0 <= i < a.len() ==> (#[trigger] a[i])@ == b[i]@
}

/// What an analysis prompt holds of its request.
pub open spec fn analysis_input_of(input: AnalysisPromptInput, request: DocumentAnalysisRequest) -> bool {
    &&& input.prompt_version == PROMPT_VERSION
    &&& input.schema_version == SCHEMA_VERSION
    &&& input.source_language@ == request.source_language@
    &&& input.target_language@ == request.target_language@
    &&& same_texts(input.context_terms@, request.context_terms@)
    &&& input.transcript@.len() == request.transcript@.len()
    &&& forall|i: int|
        0 <= i < input.transcript@.len() ==> cue_model(#[trigger] input.transcript@[i]) == (
            request.transcript@[i].cue_id,
            request.transcript@[i].text@,
            None::<bool>,
        )
}

/// What a translation prompt holds of its request: every context cue, each
/// marked with whether its id is among the requested output ids.
pub open spec fn translation_input_of(input: TranslationPromptInput, request: TranslationRequest) -> bool {
    &&& input.prompt_version == PROMPT_VERSION
    &&& input.schema_version == SCHEMA_VERSION
    &&& input.source_language@ == request.source_language@
    &&& input.target_language@ == request.target_language@
    &&& input.block_index == request.block_index
    &&& input.block_count == request.block_count
    &&& input.mode@ == mode_wire_name(request.mode)
    &&& analysis_model(input.analysis) == analysis_model(request.analysis)
    &&& input.output_cue_ids@ == request.output_cue_ids@
    &&& input.cues@.len() == request.context_cues@.len()
    &&& forall|i: int|
        0 <= i < input.cues@.len() ==> cue_model(#[trigger] input.cues@[i]) == (
            request.context_cues@[i].cue_id,
            request.context_cues@[i].text@,
            Some(request.output_cue_ids@.contains(request.context_cues@[i].cue_id)),
        )
}

fn copy_texts(texts: &Vec<String>) -> (copy: Vec<String>)
    ensures
        same_texts(copy@, texts@),
{
    let mut copy: Vec<String> = Vec::new();
    let mut i: usize = 0;
    while i < texts.len()
        invariant
            i <= texts@.len(),
            copy@.len() == i,
            forall|k: int| 0 <= k < i ==> (#[trigger] copy@[k])@ == texts@[k]@,
        decreases texts@.len() - i,
    {
        copy.push(texts[i].clone());
        i = i + 1;
    }
    copy
}

/// A copy of an analysis, field for field.
pub fn copy_analysis(analysis: &DocumentAnalysis) -> (copy: DocumentAnalysis)
    ensures
        analysis_model(copy) == analysis_model(*analysis),
{
    let mut characters: Vec<AnalysisCharacter> = Vec::new();
    let mut i: usize = 0;
    while i < analysis.characters.len()
        invariant
            i <= analysis.characters@.len(),
            characters@.len() == i,
            forall|k: int|
                0 <= k < i ==> (#[trigger] characters@[k]).name@ == analysis.characters@[k].name@
                    && characters@[k].description@ == analysis.characters@[k].description@,
        decreases analysis.characters@.len() - i,
    {
        let c = &analysis.characters[i];
        characters.push(AnalysisCharacter { name: c.name.clone(), description: c.description.clone() });
        i = i + 1;
    }
    let mut glossary: Vec<AnalysisGlossaryEntry> = Vec::new();
    let mut j: usize = 0;
    while j < analysis.glossary.len()
        invariant
            j <= analysis.glossary@.len(),
            glossary@.len() == j,
            forall|k: int|
                0 <= k < j ==> (#[trigger] glossary@[k]).source@ == analysis.glossary@[k].source@
                    && glossary@[k].target@ == analysis.glossary@[k].target@ && glossary@[k].note@
                    == analysis.glossary@[k].note@,
        decreases analysis.glossary@.len() - j,
    {
        let g = &analysis.glossary[j];
        glossary.push(AnalysisGlossaryEntry { source: g.source.clone(), target: g.target.clone(), note: g.note.clone() });
        j = j + 1;
    }
    let copy = DocumentAnalysis { summary: analysis.summary.clone(), characters, glossary };
    assert(copy.characters@.map_values(|c: AnalysisCharacter| (c.name@, c.description@)) =~= analysis.characters@.map_values(
        |c: AnalysisCharacter| (c.name@, c.description@),
    ));
    assert(copy.glossary@.map_values(|g: AnalysisGlossaryEntry| (g.source@, g.target@, g.note@))
        =~= analysis.glossary@.map_values(|g: AnalysisGlossaryEntry| (g.source@, g.target@, g.note@)));
    copy
}

/// Whether `ids` holds `id`.
fn holds_id(ids: &Vec<u32>, id: u32) -> (found: bool)
    ensures
        found == ids@.contains(id),
{
    let mut i: usize = 0;
    while i < ids.len()
        invariant
            i <= ids@.len(),
            forall|k: int| 0 <= k < i ==> ids@[k] != id,
        decreases ids@.len() - i,
    {
        if ids[i] == id {
            assert(ids@[i as int] == id);
            return true;
        }
        i = i + 1;
    }
    false
}

/// How a translation mode is written in a prompt.
pub fn mode_name(mode: TranslationMode) -> (name: &'static str)
    ensures
        name@ == mode_wire_name(mode),
{
    proof {
        reveal_strlit("initial");
        reveal_strlit("targetedRepair");
        reveal_strlit("fullRetry");
    }
    match mode {
        TranslationMode::Initial => "initial",
        TranslationMode::TargetedRepair => "targetedRepair",
        TranslationMode::FullRetry => "fullRetry",
    }
}

/// The prompt input of a document analysis: the versions, the languages,
/// the context terms and every transcript cue, none marked.
pub fn analysis_prompt_input(request: &DocumentAnalysisRequest) -> (input: AnalysisPromptInput)
    ensures
        analysis_input_of(input, *request),
{
    let mut transcript: Vec<PromptCue> = Vec::new();
    let mut i: usize = 0;
    while i < request.transcript.len()
        invariant
            i <= request.transcript@.len(),
            transcript@.len() == i,
            forall|k: int|
                0 <= k < i ==> cue_model(#[trigger] transcript@[k]) == (
                    request.transcript@[k].cue_id,
                    request.transcript@[k].text@,
                    None::<bool>,
                ),
        decreases request.transcript@.len() - i,
    {
        let cue = &request.transcript[i];
        transcript.push(PromptCue { cue_id: cue.cue_id, text: cue.text.clone(), translate: None });
        i = i + 1;
    }
    AnalysisPromptInput {
        prompt_version: PROMPT_VERSION,
        schema_version: SCHEMA_VERSION,
        source_language: request.source_language.clone(),
        target_language: request.target_language.clone(),
        context_terms: copy_texts(&request.context_terms),
        transcript,
    }
}

/// The prompt input of one translation block: the versions, the languages,
/// the block coordinates, the mode, the analysis, the requested ids, and
/// every context cue marked with whether it is to be translated.
pub fn translation_prompt_input(request: &TranslationRequest) -> (input: TranslationPromptInput)
    ensures
        translation_input_of(input, *request),
{
    let mut cues: Vec<PromptCue> = Vec::new();
    let mut i: usize = 0;
    while i < request.context_cues.len()
        invariant
            i <= request.context_cues@.len(),
            cues@.len() == i,
            forall|k: int|
                0 <= k < i ==> cue_model(#[trigger] cues@[k]) == (
                    request.context_cues@[k].cue_id,
                    request.context_cues@[k].text@,
                    Some(request.output_cue_ids@.contains(request.context_cues@[k].cue_id)),
                ),
        decreases request.context_cues@.len() - i,
    {
        let cue = &request.context_cues[i];
        let translate = holds_id(&request.output_cue_ids, cue.cue_id);
        cues.push(PromptCue { cue_id: cue.cue_id, text: cue.text.clone(), translate: Some(translate) });
        i = i + 1;
    }
    TranslationPromptInput {
        prompt_version: PROMPT_VERSION,
        schema_version: SCHEMA_VERSION,
        source_language: request.source_language.clone(),
        target_language: request.target_language.clone(),
        block_index: request.block_index,
        block_count: request.block_count,
        mode: mode_name(request.mode),
        analysis: copy_analysis(&request.analysis),
        output_cue_ids: request.output_cue_ids.clone(),
        cues,
    }
}

/// The strict schema of a document analysis answer, as JSON text.
pub const ANALYSIS_RESPONSE_SCHEMA: &'static str = "{\"type\":\"object\",\"additionalProperties\":false,\"properties\":{\"summary\":{\"type\":\"string\",\"minLength\":1},\"characters\":{\"type\":\"array\",\"items\":{\"type\":\"object\",\"additionalProperties\":false,\"properties\":{\"name\":{\"type\":\"string\",\"minLength\":1},\"description\":{\"type\":\"string\",\"minLength\":1}},\"required\":[\"name\",\"description\"]}},\"glossary\":{\"type\":\"array\",\"items\":{\"type\":\"object\",\"additionalProperties\":false,\"properties\":{\"source\":{\"type\":\"string\",\"minLength\":1},\"target\":{\"type\":\"string\",\"minLength\":1},\"note\":{\"type\":\"string\",\"minLength\":1}},\"required\":[\"source\",\"target\",\"note\"]}}},\"required\":[\"summary\",\"characters\",\"glossary\"]}";

/// The strict schema of a filename normalization answer, as JSON text.
pub const NORMALIZATION_SCHEMA: &'static str = "{\"type\":\"object\",\"additionalProperties\":false,\"properties\":{\"title\":{\"type\":[\"string\",\"null\"]},\"year\":{\"type\":[\"integer\",\"null\"]},\"season\":{\"type\":[\"integer\",\"null\"]},\"episode\":{\"type\":[\"integer\",\"null\"]}},\"required\":[\"title\",\"year\",\"season\",\"episode\"]}";

/// The ids of a list, in decimal, separated by commas.
pub open spec fn id_list(ids: Seq<u32>) -> Seq<char>
    decreases ids.len(),
{
    if ids.len() == 0 {
        Seq::empty()
    } else if ids.len() == 1 {
        decimal(ids[0] as nat)
    } else {
        id_list(ids.drop_last()) + ","@ + decimal(ids.last() as nat)
    }
}

/// The strict schema of a translation answer for `ids`: exactly as many
/// translations as ids, each naming one of them.
pub open spec fn translation_schema_text(ids: Seq<u32>) -> Seq<char> {
    "{\"type\":\"object\",\"additionalProperties\":false,\"properties\":{\"translations\":{\"type\":\"array\",\"minItems\":"@
        + decimal(ids.len()) + ",\"maxItems\":"@ + decimal(ids.len())
        + ",\"items\":{\"type\":\"object\",\"additionalProperties\":false,\"properties\":{\"cueId\":{\"type\":\"integer\",\"enum\":["@
        + id_list(ids)
        + "]},\"text\":{\"type\":\"string\",\"minLength\":1}},\"required\":[\"cueId\",\"text\"]}}},\"required\":[\"translations\"]}"@
}

fn id_list_text(ids: &Vec<u32>) -> (text: String)
    ensures
        text@ == id_list(ids@),
{
    let mut text = String::new();
    let mut i: usize = 0;
    while i < ids.len()
        invariant
            i <= ids@.len(),
            text@ == id_list(ids@.take(i as int)),
        decreases ids@.len() - i,
    {
        assert(ids@.take(i + 1).drop_last() =~= ids@.take(i as int));
        if i > 0 {
            text.append(",");
        }
        text.append(decimal_text(ids[i] as u64).as_str());
        proof {
            reveal_strlit(",");
            if i == 0 {
                assert(ids@.take(1).len() == 1);
                assert(text@ =~= id_list(ids@.take(1)));
            } else {
                assert(text@ =~= id_list(ids@.take(i + 1)));
            }
        }
        i = i + 1;
    }
    assert(ids@.take(ids@.len() as int) =~= ids@);
    text
}

/// The strict schema of a translation answer for `output_cue_ids`, as JSON
/// text.
pub fn translation_response_schema(output_cue_ids: &Vec<u32>) -> (schema: String)
    ensures
        schema@ == translation_schema_text(output_cue_ids@),
{
    let count = decimal_text(output_cue_ids.len() as u64);
    let mut schema = String::from_str(
        "{\"type\":\"object\",\"additionalProperties\":false,\"properties\":{\"translations\":{\"type\":\"array\",\"minItems\":",
    );
    schema.append(count.as_str());
    schema.append(",\"maxItems\":");
    schema.append(count.as_str());
    schema.append(
        ",\"items\":{\"type\":\"object\",\"additionalProperties\":false,\"properties\":{\"cueId\":{\"type\":\"integer\",\"enum\":[",
    );
    schema.append(id_list_text(output_cue_ids).as_str());
    schema.append(
        "]},\"text\":{\"type\":\"string\",\"minLength\":1}},\"required\":[\"cueId\",\"text\"]}}},\"required\":[\"translations\"]}",
    );
    schema
}

/// Whether `input` is the analysis prompt of `request`.
pub open spec fn is_analysis_input(input: PromptInput, request: DocumentAnalysisRequest) -> bool {
    input matches PromptInput::Analysis(a) && analysis_input_of(a, request)
}

/// Whether `input` is the translation prompt of `request`.
pub open spec fn is_translation_input(input: PromptInput, request: TranslationRequest) -> bool {
    input matches PromptInput::Translation(t) && translation_input_of(t, request)
}

/// Whether a Responses envelope is the strict, unstored request for
/// `model` with these instructions and this schema.
pub open spec fn responses_request(
    envelope: ResponsesEnvelope,
    model: Seq<char>,
    instructions: Seq<char>,
    schema_name: &'static str,
    schema: Seq<char>,
) -> bool {
    &&& envelope.model@ == model
    &&& !envelope.store
    &&& envelope.instructions@ == instructions
    &&& envelope.format_type@ == JSON_SCHEMA_FORMAT@
    &&& envelope.schema_name == schema_name
    &&& envelope.strict
    &&& envelope.schema@ == schema
}

/// Whether a Chat Completions envelope is the strict request for `model`
/// with this system message and schema, routed to the upstream provider
/// only, asking for billed usage exactly when `include_usage`.
pub open spec fn chat_request(
    envelope: ChatEnvelope,
    model: Seq<char>,
    system: Seq<char>,
    schema_name: &'static str,
    schema: Seq<char>,
    include_usage: bool,
) -> bool {
    &&& envelope.model@ == model
    &&& envelope.system@ == system
    &&& envelope.format_type@ == JSON_SCHEMA_FORMAT@
    &&& envelope.schema_name == schema_name
    &&& envelope.strict
    &&& envelope.schema@ == schema
    &&& envelope.provider_order@ == UPSTREAM_PROVIDER@
    &&& !envelope.allow_fallbacks
    &&& envelope.require_parameters
    &&& envelope.include_usage == include_usage
}

/// A Responses request: not stored, answering in the strict schema named
/// `schema_name`.
pub fn responses_envelope(model: &str, instructions: String, input: PromptInput, schema_name: &'static str, schema: String) -> (envelope: ResponsesEnvelope)
    ensures
        envelope.model@ == model@,
        !envelope.store,
        envelope.instructions@ == instructions@,
        envelope.input == input,
        envelope.format_type@ == JSON_SCHEMA_FORMAT@,
        envelope.schema_name == schema_name,
        envelope.strict,
        envelope.schema@ == schema@,
{
    ResponsesEnvelope {
        model: model.to_owned(),
        store: false,
        instructions,
        input,
        format_type: JSON_SCHEMA_FORMAT,
        schema_name,
        strict: true,
        schema,
    }
}

/// A Chat Completions request: the instructions as the system message, the
/// input as the user message, answering in the strict schema named
/// `schema_name`, routed to the upstream provider only, with no fallback
/// and every parameter required.
pub fn chat_envelope(
    model: &str,
    system: String,
    user: PromptInput,
    schema_name: &'static str,
    schema: String,
    include_usage: bool,
) -> (envelope: ChatEnvelope)
    ensures
        envelope.model@ == model@,
        envelope.system@ == system@,
        envelope.user == user,
        envelope.format_type@ == JSON_SCHEMA_FORMAT@,
        envelope.schema_name == schema_name,
        envelope.strict,
        envelope.schema@ == schema@,
        envelope.provider_order@ == UPSTREAM_PROVIDER@,
        !envelope.allow_fallbacks,
        envelope.require_parameters,
        envelope.include_usage == include_usage,
{
    ChatEnvelope {
        model: model.to_owned(),
        system,
        user,
        format_type: JSON_SCHEMA_FORMAT,
        schema_name,
        strict: true,
        schema,
        provider_order: UPSTREAM_PROVIDER,
        allow_fallbacks: false,
        require_parameters: true,
        include_usage,
    }
}

} // verus!
