use nen_core::http::{HttpClient, HttpError, HttpHeader, HttpMethod, HttpRequest, HttpResponse};
use nen_core::providers::opensubtitles::{OpenSubtitlesApiKey, OpenSubtitlesDownloader};
use nen_core::subtitle_download::{
    SubtitleDownloadError, SubtitleDownloadRequest, SubtitleDownloader, MAX_DOWNLOAD_BYTES, MAX_DOWNLOAD_METADATA_BYTES,
    MAX_DOWNLOAD_REDIRECTS,
};

const DOWNLOAD_ENDPOINT: &str = "https://api.opensubtitles.com/api/v1/download";
const LINK: &str = "https://dl.opensubtitles.com/subtitles/fixture";
const WWW_LINK: &str = "https://www.opensubtitles.com/download/fixture/subfile/fixture.srt";
const KEY: &str = "fixture-key";

fn response(status_code: u16, headers: Vec<HttpHeader>, body: Vec<u8>) -> HttpResponse {
    HttpResponse { status_code, headers, body }
}

fn header(name: &str, value: &str) -> HttpHeader {
    HttpHeader { name: name.into(), value: value.into() }
}

fn text_response(body: &[u8]) -> HttpResponse {
    response(200, vec![header("Content-Type", "text/plain; charset=utf-8")], body.to_vec())
}

fn srt() -> Vec<u8> {
    b"1\n00:00:00,000 --> 00:00:01,000\nFixture subtitle\n".to_vec()
}

struct SequenceClient {
    expected: Vec<String>,
    responses: Vec<Result<HttpResponse, HttpError>>,
    requests: Vec<HttpRequest>,
}

impl SequenceClient {
    fn new(expected: Vec<String>, responses: Vec<Result<HttpResponse, HttpError>>) -> Self {
        Self { expected, responses, requests: Vec::new() }
    }
}

impl HttpClient for SequenceClient {
    fn exchanges(&self) -> vstd::seq::Seq<(HttpRequest, Result<HttpResponse, HttpError>)> {
        vstd::seq::Seq::empty()
    }

    fn send(&mut self, request: HttpRequest) -> Result<HttpResponse, HttpError> {
        let expected = self.expected.remove(0);
        assert_eq!(request.url, expected);
        self.requests.push(request);
        self.responses.remove(0)
    }
}

fn download(client: &mut SequenceClient) -> Result<Vec<u8>, SubtitleDownloadError> {
    let mut downloader =
        OpenSubtitlesDownloader::new(client, OpenSubtitlesApiKey::new(KEY).expect("valid fixture key"));
    downloader.download(SubtitleDownloadRequest::new(7001)).map(|d| d.bytes().to_vec())
}

fn metadata_body(link: &str) -> HttpResponse {
    response(200, vec![header("Content-Type", "application/json")], format!(r#"{{"link":"{link}"}}"#).into_bytes())
}

fn request_is_metadata(request: &HttpRequest) {
    assert!(request.method == HttpMethod::Post);
    assert_eq!(request.url, DOWNLOAD_ENDPOINT);
    assert_eq!(request.max_body_bytes, MAX_DOWNLOAD_METADATA_BYTES);
    assert_eq!(request.timeout_ms, Some(15_000));
    assert_eq!(request.body.as_deref(), Some(br#"{"file_id":7001}"#.as_slice()));
    assert!(request.headers.iter().any(|h| h.name == "Api-Key" && h.value == KEY));
    assert!(request.headers.iter().any(|h| h.name == "Content-Type" && h.value == "application/json"));
}

#[test]
fn selection_exchanges_a_private_id_then_gets_bounded_plaintext_without_reusing_key() {
    let mut client = SequenceClient::new(
        vec![DOWNLOAD_ENDPOINT.into(), LINK.into()],
        vec![
            Ok(response(
                200,
                vec![header("Content-Type", "application/json")],
                format!(r#"{{"link":"{LINK}","file_name":"fixture.srt","requests":3,"remaining":97}}"#).into_bytes(),
            )),
            Ok(text_response(&srt())),
        ],
    );
    assert_eq!(download(&mut client).expect("download"), srt());
    assert_eq!(client.requests.len(), 2);
    request_is_metadata(&client.requests[0]);
    assert!(client.requests[1].method == HttpMethod::Get);
    assert_eq!(client.requests[1].max_body_bytes, MAX_DOWNLOAD_BYTES);
    assert!(client.requests[1].headers.iter().all(|h| h.name != "Api-Key"));
}

#[test]
fn final_quota_download_uses_the_valid_link_before_the_remaining_count_reaches_zero() {
    let mut client = SequenceClient::new(
        vec![DOWNLOAD_ENDPOINT.into(), LINK.into()],
        vec![
            Ok(response(
                200,
                vec![header("Content-Type", "application/json")],
                format!(r#"{{"link":"{LINK}","requests":100,"remaining":0}}"#).into_bytes(),
            )),
            Ok(text_response(&srt())),
        ],
    );
    assert_eq!(download(&mut client).expect("the final allowed download"), srt());
    assert_eq!(client.requests.len(), 2);
}

#[test]
fn official_www_download_link_is_accepted_without_reusing_key() {
    let mut client = SequenceClient::new(
        vec![DOWNLOAD_ENDPOINT.into(), WWW_LINK.into()],
        vec![Ok(metadata_body(WWW_LINK)), Ok(text_response(&srt()))],
    );
    assert_eq!(download(&mut client).expect("official www download"), srt());
    assert_eq!(client.requests.len(), 2);
    assert!(client.requests[1].headers.iter().all(|h| h.name != "Api-Key"));
}

#[test]
fn redirect_to_official_www_download_link_is_followed() {
    let mut client = SequenceClient::new(
        vec![DOWNLOAD_ENDPOINT.into(), LINK.into(), WWW_LINK.into()],
        vec![
            Ok(metadata_body(LINK)),
            Ok(response(302, vec![header("Location", WWW_LINK)], Vec::new())),
            Ok(text_response(&srt())),
        ],
    );
    assert_eq!(download(&mut client).expect("official redirect"), srt());
    assert_eq!(client.requests.len(), 3);
}

fn rejected_before_get(link: &str) {
    let mut client = SequenceClient::new(vec![DOWNLOAD_ENDPOINT.into()], vec![Ok(metadata_body(link))]);
    assert_eq!(download(&mut client).err(), Some(SubtitleDownloadError::RedirectRejected));
    assert_eq!(client.requests.len(), 1);
}

#[test]
fn an_unapproved_link_host_never_receives_a_get() {
    rejected_before_get("https://evil.example/subtitles/fixture");
}

#[test]
fn an_http_link_is_rejected_before_get() {
    rejected_before_get("http://dl.opensubtitles.com/subtitles/fixture");
}

#[test]
fn www_host_is_limited_to_download_paths() {
    rejected_before_get("https://www.opensubtitles.com/subtitles/fixture.srt");
}

#[test]
fn a_www_lookalike_host_is_rejected_before_get() {
    rejected_before_get("https://www.opensubtitles.com.evil.example/download/fixture.srt");
}

#[test]
fn an_http_www_link_is_rejected_before_get() {
    rejected_before_get("http://www.opensubtitles.com/download/fixture.srt");
}

#[test]
fn every_redirect_hop_stays_on_an_approved_host() {
    let mut client = SequenceClient::new(
        vec![DOWNLOAD_ENDPOINT.into(), LINK.into()],
        vec![
            Ok(metadata_body(LINK)),
            Ok(response(302, vec![header("Location", "https://evil.example/subtitles/fixture")], Vec::new())),
        ],
    );
    assert_eq!(download(&mut client).err(), Some(SubtitleDownloadError::RedirectRejected));
    assert_eq!(client.requests.len(), 2);
}

#[test]
fn redirect_chain_is_capped_at_five_hops() {
    let mut expected = vec![DOWNLOAD_ENDPOINT.to_owned(), LINK.to_owned()];
    let mut responses = vec![Ok(metadata_body(LINK))];
    for index in 0..=MAX_DOWNLOAD_REDIRECTS {
        let next = format!("https://dl.opensubtitles.com/subtitles/r{index}");
        responses.push(Ok(response(302, vec![header("Location", &next)], Vec::new())));
        expected.push(next);
    }
    let mut client = SequenceClient::new(expected, responses);
    assert_eq!(download(&mut client).err(), Some(SubtitleDownloadError::RedirectRejected));
    assert_eq!(client.requests.len(), usize::from(MAX_DOWNLOAD_REDIRECTS) + 2);
}

#[test]
fn content_length_budget_is_enforced_before_accepting_the_body() {
    let mut client = SequenceClient::new(
        vec![DOWNLOAD_ENDPOINT.into(), LINK.into()],
        vec![
            Ok(metadata_body(LINK)),
            Ok(response(200, vec![header("Content-Length", &(MAX_DOWNLOAD_BYTES as u64 + 1).to_string())], srt())),
        ],
    );
    assert_eq!(download(&mut client).err(), Some(SubtitleDownloadError::ContentTooLarge));
}

#[test]
fn actual_body_budget_is_enforced() {
    let mut client = SequenceClient::new(
        vec![DOWNLOAD_ENDPOINT.into(), LINK.into()],
        vec![Ok(metadata_body(LINK)), Ok(text_response(&vec![b'x'; MAX_DOWNLOAD_BYTES + 1]))],
    );
    assert_eq!(download(&mut client).err(), Some(SubtitleDownloadError::ContentTooLarge));
}

#[test]
fn unexpected_content_type_is_rejected_before_app_attach() {
    let mut client = SequenceClient::new(
        vec![DOWNLOAD_ENDPOINT.into(), LINK.into()],
        vec![Ok(metadata_body(LINK)), Ok(response(200, vec![header("Content-Type", "application/zip")], srt()))],
    );
    assert_eq!(download(&mut client).err(), Some(SubtitleDownloadError::UnexpectedContentType));
}

#[test]
fn archive_magic_is_rejected_before_app_attach() {
    let mut client = SequenceClient::new(
        vec![DOWNLOAD_ENDPOINT.into(), LINK.into()],
        vec![Ok(metadata_body(LINK)), Ok(text_response(b"PK\x03\x04not subtitle"))],
    );
    assert_eq!(download(&mut client).err(), Some(SubtitleDownloadError::ArchiveRejected));
}

#[test]
fn quota_without_a_link_is_typed_and_does_not_make_a_second_request() {
    let mut client = SequenceClient::new(
        vec![DOWNLOAD_ENDPOINT.into()],
        vec![Ok(response(
            200,
            Vec::new(),
            br#"{"requests":100,"remaining":0,"message":"You have downloaded your allowed 100 subtitles for 24h"}"#
                .to_vec(),
        ))],
    );
    assert_eq!(download(&mut client).err(), Some(SubtitleDownloadError::QuotaExhausted));
    assert_eq!(client.requests.len(), 1);
}

#[test]
fn provider_failures_and_private_debug_values_are_payload_free() {
    let mut client = SequenceClient::new(vec![DOWNLOAD_ENDPOINT.into()], vec![Err(HttpError::Transport)]);
    assert_eq!(download(&mut client).err(), Some(SubtitleDownloadError::Transport));
    let debug = format!(
        "{} {:?}",
        SubtitleDownloadRequest::new(884_422).debug_text(),
        SubtitleDownloadError::InvalidResponse
    );
    assert!(!debug.contains("884422"));
    assert!(!debug.contains(KEY));
}
