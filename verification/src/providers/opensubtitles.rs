//! OpenSubtitles hash lookup and subtitle download.
//!
//! The lookup asks the metadata search endpoint for an exact hash match and
//! reduces the answer to a verified identity. The download exchanges a
//! private file id for a link with the key, then fetches the link without
//! it and keeps only a subtitle within budget.
//!
//! Every request goes to an approved HTTPS endpoint; every redirect hop is
//! checked against the same rule, and the chain is capped.
use crate::http::{HttpMethod, first_header_named, text_eq_ignore_ascii_case, HttpClient, HttpError, HttpHeader, HttpRequest, HttpResponse};
use crate::identity::{IdentityLookup, IdentityLookupError, MediaHash, MediaIdentityLookup, VerifiedMediaIdentity};
use crate::json::{bool_of, field, field_of, is_object, parse_json, text_of, unsigned_of, json_document, JsonValue};
use crate::persistence::hex::{hex_string, hex_text};
use crate::providers::translation_http::header_pairs;
use crate::subtitle_download::{
    DownloadedSubtitle, SubtitleDownloadError, SubtitleDownloadRequest, SubtitleDownloader, MAX_DOWNLOAD_BYTES,
    MAX_DOWNLOAD_METADATA_BYTES, MAX_DOWNLOAD_REDIRECTS,
};
use crate::text::{decimal, decimal_text, eq_ignore_ascii_case, any_control, char_is_control, chars_of, has_control, is_control_char, same_chars, string_from_chars, trim_chars, trimmed};
use vstd::prelude::*;
use vstd::string::StrSliceExecFns;
use vstd::utf8::encode_utf8;

verus! {

/// The metadata search endpoint.
pub const SEARCH_ENDPOINT: &'static str = "https://api.opensubtitles.com/api/v1/subtitles";

/// The user agent every request carries.
pub const USER_AGENT: &'static str = "Nen Player/0.1";

/// The longest redirect chain followed.
pub const MAX_REDIRECTS: u8 = 5;

/// The largest search response accepted.
pub const MAX_RESPONSE_BYTES: usize = 1048576;

/// The longest title kept, in characters.
pub const MAX_TITLE_CHARS: usize = 512;

/// An OpenSubtitles API key, trimmed and validated. Its texts never show it.
#[derive(Clone, PartialEq, Eq)]
pub struct OpenSubtitlesApiKey(String);

impl View for OpenSubtitlesApiKey {
    type V = Seq<char>;

    closed spec fn view(&self) -> Seq<char> {
        self.0@
    }
}

/// Whether a value becomes an API key: once trimmed it is non-empty, at most
/// 512 characters and free of control characters.
pub open spec fn valid_key(value: Seq<char>) -> bool {
    let t = trimmed(value);
    t.len() > 0 && t.len() <= 512 && !has_control(t)
}

impl OpenSubtitlesApiKey {
    pub fn new(value: &str) -> (key: Result<OpenSubtitlesApiKey, IdentityLookupError>)
        ensures
            key is Ok <==> valid_key(value@),
            key matches Ok(k) ==> k@ == trimmed(value@),
            key matches Err(e) ==> e == IdentityLookupError::InvalidCredential,
    {
        let chars = chars_of(value);
        let t = trim_chars(chars.as_slice());
        if t.len() == 0 || t.len() > 512 || any_control(t.as_slice()) {
            return Err(IdentityLookupError::InvalidCredential);
        }
        Ok(OpenSubtitlesApiKey(string_from_chars(t.as_slice())))
    }

    /// Diagnostic text; never the key.
    pub fn debug_text(&self) -> (text: &'static str)
        ensures
            text@ == "OpenSubtitlesApiKey(<redacted>)"@,
    {
        "OpenSubtitlesApiKey(<redacted>)"
    }

    /// Display text; never the key.
    pub fn display_text(&self) -> (text: &'static str)
        ensures
            text@ == "<redacted>"@,
    {
        "<redacted>"
    }
}

/// The index of the first character of `s` that is `a`, `b` or `c`, or the
/// length of `s` when there is none.
pub open spec fn first_of(s: Seq<char>, a: char, b: char, c: char) -> int
    decreases s.len(),
{
    if s.len() == 0 {
        0
    } else if s[0] == a || s[0] == b || s[0] == c {
        0
    } else {
        1 + first_of(s.drop_first(), a, b, c)
    }
}

proof fn lemma_first_of(s: Seq<char>, a: char, b: char, c: char)
    ensures
        0 <= first_of(s, a, b, c) <= s.len(),
        forall|k: int| 0 <= k < first_of(s, a, b, c) ==> s[k] != a && s[k] != b && s[k] != c,
        first_of(s, a, b, c) < s.len() ==> (s[first_of(s, a, b, c)] == a || s[first_of(
            s,
            a,
            b,
            c,
        )] == b || s[first_of(s, a, b, c)] == c),
    decreases s.len(),
{
    if s.len() > 0 && !(s[0] == a || s[0] == b || s[0] == c) {
        lemma_first_of(s.drop_first(), a, b, c);
        assert forall|k: int| 0 <= k < first_of(s, a, b, c) implies s[k] != a && s[k] != b && s[k]
            != c by {
            if k > 0 {
                assert(s[k] == s.drop_first()[k - 1]);
            }
        }
    }
}

/// The index of the first `a`, `b` or `c` in `s`, or its length.
fn find_first(s: &[char], a: char, b: char, c: char) -> (index: usize)
    ensures
        index == first_of(s@, a, b, c),
{
    proof {
        lemma_first_of(s@, a, b, c);
    }
    let mut i: usize = 0;
    while i < s.len()
        invariant
            i <= s@.len(),
            forall|k: int| 0 <= k < i ==> s@[k] != a && s@[k] != b && s@[k] != c,
            0 <= first_of(s@, a, b, c) <= s@.len(),
            forall|k: int| 0 <= k < first_of(s@, a, b, c) ==> s@[k] != a && s@[k] != b && s@[k] != c,
            first_of(s@, a, b, c) < s@.len() ==> (s@[first_of(s@, a, b, c)] == a || s@[first_of(
                s@,
                a,
                b,
                c,
            )] == b || s@[first_of(s@, a, b, c)] == c),
        decreases s@.len() - i,
    {
        if s[i] == a || s[i] == b || s[i] == c {
            return i;
        }
        i = i + 1;
    }
    i
}

/// Whether `s` begins with `prefix`.
pub open spec fn begins_with(s: Seq<char>, prefix: Seq<char>) -> bool {
    s.len() >= prefix.len() && s.subrange(0, prefix.len() as int) == prefix
}

fn starts_with(s: &[char], prefix: &str) -> (yes: bool)
    ensures
        yes == begins_with(s@, prefix@),
{
    let p = chars_of(prefix);
    if s.len() < p.len() {
        return false;
    }
    let head = slice_chars(s, 0, p.len());
    same_chars(head.as_slice(), p.as_slice())
}

fn slice_chars(s: &[char], from: usize, to: usize) -> (part: Vec<char>)
    requires
        from <= to <= s@.len(),
    ensures
        part@ == s@.subrange(from as int, to as int),
{
    let mut part: Vec<char> = Vec::new();
    let mut i: usize = from;
    while i < to
        invariant
            from <= i <= to <= s@.len(),
            part@ == s@.subrange(from as int, i as int),
        decreases to - i,
    {
        part.push(s[i]);
        assert(s@.subrange(from as int, i + 1) =~= s@.subrange(from as int, i as int).push(
            s@[i as int],
        ));
        i = i + 1;
    }
    part
}

/// Whether a URL is an approved search endpoint: no control characters,
/// HTTPS, one of the two API hosts, and the search path (any query or
/// fragment after it).
pub open spec fn allowed_url(url: Seq<char>) -> bool {
    let rest = url.subrange(8, url.len() as int);
    let slash = first_of(rest, '/', '/', '/');
    let host = rest.subrange(0, slash);
    let tail = rest.subrange(slash, rest.len() as int);
    let path = tail.subrange(0, first_of(tail, '?', '#', '#'));
    &&& !has_control(url)
    &&& begins_with(url, "https://"@)
    &&& slash < rest.len()
    &&& (host == "api.opensubtitles.com"@ || host == "vip-api.opensubtitles.com"@)
    &&& path == "/api/v1/subtitles"@
}

/// Whether `url` is an approved search endpoint.
pub fn is_allowed_url(url: &str) -> (allowed: bool)
    ensures
        allowed == allowed_url(url@),
{
    let chars = chars_of(url);
    if any_control(chars.as_slice()) {
        return false;
    }
    if !starts_with(chars.as_slice(), "https://") {
        proof {
            reveal_strlit("https://");
        }
        return false;
    }
    proof {
        reveal_strlit("https://");
        lemma_first_of(chars@.subrange(8, chars@.len() as int), '/', '/', '/');
    }
    let rest = slice_chars(chars.as_slice(), 8, chars.len());
    let slash = find_first(rest.as_slice(), '/', '/', '/');
    if slash >= rest.len() {
        return false;
    }
    let host = slice_chars(rest.as_slice(), 0, slash);
    let tail = slice_chars(rest.as_slice(), slash, rest.len());
    proof {
        lemma_first_of(tail@, '?', '#', '#');
    }
    let end = find_first(tail.as_slice(), '?', '#', '#');
    let path = slice_chars(tail.as_slice(), 0, end);
    let host_ok = same_chars(host.as_slice(), chars_of("api.opensubtitles.com").as_slice())
        || same_chars(host.as_slice(), chars_of("vip-api.opensubtitles.com").as_slice());
    host_ok && same_chars(path.as_slice(), chars_of("/api/v1/subtitles").as_slice())
}

/// Where a redirect's `Location` points, seen from `current`: an absolute
/// HTTPS location as it is; an absolute path on the current authority;
/// nothing for anything else.
pub open spec fn resolved_location(current: Seq<char>, location: Seq<char>) -> Option<Seq<char>> {
    if begins_with(location, "https://"@) {
        Some(location)
    } else if !begins_with(location, "/"@) {
        None
    } else if !begins_with(current, "https://"@) {
        None
    } else {
        let rest = current.subrange(8, current.len() as int);
        let authority = rest.subrange(0, first_of(rest, '/', '?', '#'));
        Some("https://"@ + authority + location)
    }
}

/// Resolves a redirect's `Location` against the current URL.
pub fn resolve_redirect(current: &str, location: &str) -> (target: Option<String>)
    ensures
        match target {
            Some(t) => resolved_location(current@, location@) == Some(t@),
            None => resolved_location(current@, location@) is None,
        },
{
    proof {
        reveal_strlit("https://");
        reveal_strlit("/");
    }
    let loc = chars_of(location);
    if starts_with(loc.as_slice(), "https://") {
        return Some(location.to_owned());
    }
    if !starts_with(loc.as_slice(), "/") {
        return None;
    }
    let cur = chars_of(current);
    if !starts_with(cur.as_slice(), "https://") {
        return None;
    }
    let rest = slice_chars(cur.as_slice(), 8, cur.len());
    proof {
        lemma_first_of(rest@, '/', '?', '#');
    }
    let end = find_first(rest.as_slice(), '/', '?', '#');
    let authority = slice_chars(rest.as_slice(), 0, end);
    let mut target = String::from_str("https://");
    target.append(string_from_chars(authority.as_slice()).as_str());
    target.append(location);
    Some(target)
}

/// The HTTP statuses that are redirects.
pub open spec fn redirect_status(status: u16) -> bool {
    status == 301 || status == 302 || status == 303 || status == 307 || status == 308
}

pub fn is_redirect(status: u16) -> (redirect: bool)
    ensures
        redirect == redirect_status(status),
{
    status == 301 || status == 302 || status == 303 || status == 307 || status == 308
}

/// Transport failures as lookup errors.
pub fn map_http_error(error: HttpError) -> (mapped: IdentityLookupError)
    ensures
        mapped == (match error {
            HttpError::Transport => IdentityLookupError::Transport,
            HttpError::ResponseTooLarge => IdentityLookupError::ResponseTooLarge,
        }),
{
    match error {
        HttpError::Transport => IdentityLookupError::Transport,
        HttpError::ResponseTooLarge => IdentityLookupError::ResponseTooLarge,
    }
}

/// What to do after one response of the chain.
pub enum Hop {
    /// Request this approved URL next.
    Follow(String),
    /// The response is the answer.
    Done,
    Fail(IdentityLookupError),
}

/// The rule for one response: a redirect is followed to an approved target
/// within the hop limit; otherwise a 2xx response within the budget is the
/// answer.
pub open spec fn hop_rule(
    current: Seq<char>,
    redirect_count: nat,
    status: u16,
    location: Option<Seq<char>>,
    body_len: nat,
) -> Result<Option<Seq<char>>, IdentityLookupError> {
    if redirect_status(status) {
        if redirect_count >= MAX_REDIRECTS {
            Err(IdentityLookupError::RedirectRejected)
        } else {
            match location {
                None => Err(IdentityLookupError::RedirectRejected),
                Some(l) => match resolved_location(current, l) {
                    Some(target) => if allowed_url(target) {
                        Ok(Some(target))
                    } else {
                        Err(IdentityLookupError::RedirectRejected)
                    },
                    None => Err(IdentityLookupError::RedirectRejected),
                },
            }
        }
    } else if !(200 <= status && status < 300) {
        Err(IdentityLookupError::HttpStatus)
    } else if body_len > MAX_RESPONSE_BYTES {
        Err(IdentityLookupError::ResponseTooLarge)
    } else {
        Ok(None)
    }
}

/// The `Location` header of a response, if it has one.
pub open spec fn location_of(response: HttpResponse) -> Option<Seq<char>> {
    match first_header_named(response.headers@, "Location"@) {
        Some(i) => Some(response.headers@[i].value@),
        None => None,
    }
}

/// Decides what one response of the chain means.
pub fn next_hop(current: &str, redirect_count: u8, response: &HttpResponse) -> (hop: Hop)
    ensures
        match hop {
            Hop::Follow(url) => hop_rule(current@, redirect_count as nat, response.status_code, location_of(*response), response.body@.len())
                == Ok::<Option<Seq<char>>, IdentityLookupError>(Some(url@)),
            Hop::Done => hop_rule(current@, redirect_count as nat, response.status_code, location_of(*response), response.body@.len())
                == Ok::<Option<Seq<char>>, IdentityLookupError>(None),
            Hop::Fail(e) => hop_rule(current@, redirect_count as nat, response.status_code, location_of(*response), response.body@.len())
                == Err::<Option<Seq<char>>, IdentityLookupError>(e),
        },
{
    if is_redirect(response.status_code) {
        if redirect_count >= MAX_REDIRECTS {
            return Hop::Fail(IdentityLookupError::RedirectRejected);
        }
        let location = match response.header("Location") {
            Some(l) => l,
            None => return Hop::Fail(IdentityLookupError::RedirectRejected),
        };
        return match resolve_redirect(current, location) {
            Some(target) => if is_allowed_url(target.as_str()) {
                Hop::Follow(target)
            } else {
                Hop::Fail(IdentityLookupError::RedirectRejected)
            },
            None => Hop::Fail(IdentityLookupError::RedirectRejected),
        };
    }
    if !(200 <= response.status_code && response.status_code < 300) {
        return Hop::Fail(IdentityLookupError::HttpStatus);
    }
    if response.body.len() > MAX_RESPONSE_BYTES {
        return Hop::Fail(IdentityLookupError::ResponseTooLarge);
    }
    Hop::Done
}

/// A redirect is only ever followed to an approved endpoint, and never past
/// the hop limit.
pub proof fn law_redirects_stay_on_approved_hosts(
    current: Seq<char>,
    redirect_count: nat,
    status: u16,
    location: Option<Seq<char>>,
    body_len: nat,
)
    requires
        hop_rule(current, redirect_count, status, location, body_len) matches Ok(Some(_)),
    ensures
        allowed_url(hop_rule(current, redirect_count, status, location, body_len)->Ok_0->0),
        redirect_count < MAX_REDIRECTS,
{
}

/// The headers of a search request.
fn search_headers(api_key: &OpenSubtitlesApiKey) -> (headers: Vec<HttpHeader>)
    ensures
        headers@.len() == 3,
        headers@[0].name@ == "Api-Key"@ && headers@[0].value@ == api_key@,
        headers@[1].name@ == "User-Agent"@ && headers@[1].value@ == USER_AGENT@,
        headers@[2].name@ == "Accept"@ && headers@[2].value@ == "application/json"@,
{
    let headers = vec![
        HttpHeader { name: String::from_str("Api-Key"), value: api_key.0.clone() },
        HttpHeader { name: String::from_str("User-Agent"), value: String::from_str(USER_AGENT) },
        HttpHeader { name: String::from_str("Accept"), value: String::from_str("application/json") },
    ];
    headers
}

/// What one response of the chain means, as [`hop_rule`] reads it.
pub open spec fn hop_of(url: Seq<char>, redirect_count: nat, response: HttpResponse) -> Result<
    Option<Seq<char>>,
    IdentityLookupError,
> {
    hop_rule(url, redirect_count, response.status_code, location_of(response), response.body@.len())
}

/// Whether the exchanges from index `start` on form one redirect chain:
/// each request after the first goes where the answer before it redirected.
pub open spec fn follows_chain(log: Seq<(HttpRequest, Result<HttpResponse, HttpError>)>, start: int) -> bool {
    forall|i: int|
        start < i < log.len() ==> ((#[trigger] log[i - 1]).1 matches Ok(r) && hop_of(
            log[i - 1].0.url@,
            (i - 1 - start) as nat,
            r,
        ) == Ok::<Option<Seq<char>>, IdentityLookupError>(Some(log[i].0.url@)))
}

/// Whether `result` is what the last answer of a chain means: a transport
/// failure mapped, or the hop rule's own failure, or the accepted response.
pub open spec fn chain_result(
    result: Result<HttpResponse, IdentityLookupError>,
    url: Seq<char>,
    redirect_count: nat,
    answer: Result<HttpResponse, HttpError>,
) -> bool {
    match answer {
        Err(HttpError::Transport) => result == Err::<HttpResponse, IdentityLookupError>(IdentityLookupError::Transport),
        Err(HttpError::ResponseTooLarge) => result == Err::<HttpResponse, IdentityLookupError>(
            IdentityLookupError::ResponseTooLarge,
        ),
        Ok(r) => match hop_of(url, redirect_count, r) {
            Ok(None) => result == Ok::<HttpResponse, IdentityLookupError>(r),
            Err(e) => result == Err::<HttpResponse, IdentityLookupError>(e),
            Ok(Some(_)) => false,
        },
    }
}

/// Whether a request is a search request to an approved URL carrying the
/// key.
pub open spec fn approved_search(request: HttpRequest, api_key: Seq<char>) -> bool {
    &&& allowed_url(request.url@)
    &&& request.method == HttpMethod::Get
    &&& request.headers@.len() == 3
    &&& request.headers@[0].value@ == api_key
}

/// Sends the search and follows approved redirects.
///
/// An initial URL that is not approved is refused before anything is sent.
/// Otherwise the first request goes to `initial`, every request is an
/// approved search, each one after the first goes where the answer before
/// it redirected, at most [`MAX_REDIRECTS`] + 1 are sent, and the last
/// answer decides the result.
pub fn request_following<H: HttpClient>(http: &mut H, api_key: &OpenSubtitlesApiKey, initial: &str) -> (result:
    Result<HttpResponse, IdentityLookupError>)
    ensures
        !allowed_url(initial@) ==> result == Err::<HttpResponse, IdentityLookupError>(
            IdentityLookupError::RedirectRejected,
        ) && (*final(http)).exchanges() == old(http).exchanges(),
        allowed_url(initial@) ==> ({
            let base = old(http).exchanges().len() as int;
            let log = (*final(http)).exchanges();
            &&& log.subrange(0, base) == old(http).exchanges()
            &&& base < log.len() <= base + MAX_REDIRECTS + 1
            &&& log[base].0.url@ == initial@
            &&& forall|i: int| base <= i < log.len() ==> approved_search((#[trigger] log[i]).0, api_key@)
            &&& follows_chain(log, base)
            &&& chain_result(result, log.last().0.url@, (log.len() - 1 - base) as nat, log.last().1)
        }),
        result matches Ok(r) ==> 200 <= r.status_code < 300 && r.body@.len() <= MAX_RESPONSE_BYTES,
{
    if !is_allowed_url(initial) {
        return Err(IdentityLookupError::RedirectRejected);
    }
    let ghost base = http.exchanges().len() as int;
    let mut current = initial.to_owned();
    let mut redirect_count: u8 = 0;
    while redirect_count <= MAX_REDIRECTS
        invariant
            allowed_url(current@),
            allowed_url(initial@),
            redirect_count <= MAX_REDIRECTS + 1,
            base == old(http).exchanges().len(),
            http.exchanges().len() == base + redirect_count,
            http.exchanges().subrange(0, base) == old(http).exchanges(),
            redirect_count == 0 ==> current@ == initial@,
            redirect_count > 0 ==> http.exchanges()[base].0.url@ == initial@,
            redirect_count > 0 ==> (http.exchanges().last().1 matches Ok(r) && hop_of(
                http.exchanges().last().0.url@,
                (redirect_count - 1) as nat,
                r,
            ) == Ok::<Option<Seq<char>>, IdentityLookupError>(Some(current@))),
            forall|i: int|
                base <= i < http.exchanges().len() ==> approved_search((#[trigger] http.exchanges()[i]).0, api_key@),
            follows_chain(http.exchanges(), base),
        decreases MAX_REDIRECTS + 1 - redirect_count,
    {
        let ghost before = http.exchanges();
        let request = HttpRequest::get(current.as_str(), search_headers(api_key), MAX_RESPONSE_BYTES);
        let outcome = http.send(request);
        proof {
            let log = http.exchanges();
            assert(log.subrange(0, base) =~= before.subrange(0, base));
            assert forall|i: int| base < i < log.len() implies ((#[trigger] log[i - 1]).1 matches Ok(r) && hop_of(
                log[i - 1].0.url@,
                (i - 1 - base) as nat,
                r,
            ) == Ok::<Option<Seq<char>>, IdentityLookupError>(Some(log[i].0.url@))) by {
                if i < log.len() - 1 {
                    assert(log[i - 1] == before[i - 1]);
                    assert(log[i] == before[i]);
                } else {
                    assert(log[i - 1] == before.last());
                }
            }
            assert forall|i: int| base <= i < log.len() implies approved_search((#[trigger] log[i]).0, api_key@) by {
                if i < log.len() - 1 {
                    assert(log[i] == before[i]);
                }
            }
            if redirect_count > 0 {
                assert(log[base] == before[base]);
            }
        }
        let response = match outcome {
            Ok(r) => r,
            Err(e) => return Err(map_http_error(e)),
        };
        match next_hop(current.as_str(), redirect_count, &response) {
            Hop::Follow(target) => {
                current = target;
            },
            Hop::Done => {
                return Ok(response);
            },
            Hop::Fail(e) => {
                return Err(e);
            },
        }
        redirect_count = redirect_count + 1;
    }
    Err(IdentityLookupError::RedirectRejected)
}

/// A bidirectional-text control character: U+202A..=U+202E or
/// U+2066..=U+2069.
pub open spec fn bidi_control(c: char) -> bool {
    ('\u{202a}' <= c && c <= '\u{202e}') || ('\u{2066}' <= c && c <= '\u{2069}')
}

pub fn is_bidi_control(c: char) -> (bidi: bool)
    ensures
        bidi == bidi_control(c),
{
    ('\u{202a}' <= c && c <= '\u{202e}') || ('\u{2066}' <= c && c <= '\u{2069}')
}

/// `s` without control and bidirectional-control characters.
pub open spec fn printable(s: Seq<char>) -> Seq<char>
    decreases s.len(),
{
    if s.len() == 0 {
        s
    } else {
        let kept = printable(s.drop_last());
        if is_control_char(s.last()) || bidi_control(s.last()) {
            kept
        } else {
            kept.push(s.last())
        }
    }
}

/// A provider title made safe to show: control and bidi-control characters
/// removed, trimmed, non-empty and at most [`MAX_TITLE_CHARS`] long.
pub open spec fn cleaned_title(value: Seq<char>) -> Option<Seq<char>> {
    let t = trimmed(printable(value));
    if t.len() == 0 || t.len() > 512 {
        None
    } else {
        Some(t)
    }
}

pub fn clean_title(value: &str) -> (title: Option<String>)
    ensures
        match title {
            Some(t) => cleaned_title(value@) == Some(t@),
            None => cleaned_title(value@) is None,
        },
{
    let chars = chars_of(value);
    let mut kept: Vec<char> = Vec::new();
    let mut i: usize = 0;
    while i < chars.len()
        invariant
            i <= chars@.len(),
            kept@ == printable(chars@.subrange(0, i as int)),
        decreases chars@.len() - i,
    {
        assert(chars@.subrange(0, i + 1).drop_last() =~= chars@.subrange(0, i as int));
        let c = chars[i];
        if !char_is_control(c) && !is_bidi_control(c) {
            kept.push(c);
        }
        i = i + 1;
    }
    assert(chars@.subrange(0, chars@.len() as int) =~= chars@);
    let t = trim_chars(kept.as_slice());
    if t.len() == 0 || t.len() > MAX_TITLE_CHARS {
        None
    } else {
        Some(string_from_chars(t.as_slice()))
    }
}

/// A positive number no larger than `maximum`, as a `u16`.
pub open spec fn bounded(value: Option<JsonValue>, maximum: u64) -> Option<u16> {
    match unsigned_of(value) {
        Some(n) => if n > 0 && n <= maximum && n <= u16::MAX {
            Some(n as u16)
        } else {
            None
        },
        None => None,
    }
}

pub fn bounded_number(value: Option<&JsonValue>, maximum: u64) -> (number: Option<u16>)
    requires
        maximum <= u16::MAX,
    ensures
        number == bounded(
            match value {
                Some(v) => Some(*v),
                None => None,
            },
            maximum,
        ),
{
    let n = match value {
        Some(v) => match v.as_u64() {
            Some(n) => n,
            None => return None,
        },
        None => return None,
    };
    if n > 0 && n <= maximum {
        Some(n as u16)
    } else {
        None
    }
}

/// A verified identity as plain values: title, year, season, episode.
pub type IdentityModel = (Seq<char>, Option<u16>, Option<u16>, Option<u16>);

pub open spec fn identity_model(identity: VerifiedMediaIdentity) -> IdentityModel {
    (identity.title@, identity.year, identity.season, identity.episode)
}

/// The first of two optional values that is present.
pub open spec fn either(first: Option<JsonValue>, second: Option<JsonValue>) -> Option<JsonValue> {
    match first {
        Some(v) => Some(v),
        None => second,
    }
}

/// The identity one search row stands for: an exact hash match with a
/// usable title. Any other row is skipped.
pub open spec fn row_identity(row: JsonValue) -> Option<IdentityModel> {
    let attributes = field(row, "attributes"@);
    let exact = bool_of(either(field_of(attributes, "moviehash_match"@), field_of(attributes, "movie_hash_match"@)));
    let details = field_of(attributes, "feature_details"@);
    if !is_object(attributes) || exact != Some(true) || !is_object(details) {
        None
    } else {
        match text_of(field_of(details, "title"@)) {
            Some(raw) => match cleaned_title(raw) {
                Some(title) => Some(
                    (
                        title,
                        bounded(field_of(details, "year"@), 9999),
                        bounded(either(field_of(details, "season_number"@), field_of(details, "season"@)), 65535),
                        bounded(either(field_of(details, "episode_number"@), field_of(details, "episode"@)), 65535),
                    ),
                ),
                None => None,
            },
            None => None,
        }
    }
}

/// The distinct identities of the rows, in the order first seen.
pub open spec fn distinct_identities(rows: Seq<JsonValue>) -> Seq<IdentityModel>
    decreases rows.len(),
{
    if rows.len() == 0 {
        Seq::empty()
    } else {
        let earlier = distinct_identities(rows.drop_last());
        match row_identity(rows.last()) {
            Some(id) => if earlier.contains(id) {
                earlier
            } else {
                earlier.push(id)
            },
            None => earlier,
        }
    }
}

/// Every identity a row stands for is among the distinct identities.
proof fn lemma_row_identities_kept(rows: Seq<JsonValue>, k: int)
    requires
        0 <= k < rows.len(),
        row_identity(rows[k]) is Some,
    ensures
        distinct_identities(rows).contains(row_identity(rows[k])->Some_0),
    decreases rows.len(),
{
    let earlier = distinct_identities(rows.drop_last());
    if k < rows.len() - 1 {
        assert(rows.drop_last()[k] == rows[k]);
        lemma_row_identities_kept(rows.drop_last(), k);
        let id = row_identity(rows[k])->Some_0;
        let j = choose|j: int| 0 <= j < earlier.len() && earlier[j] == id;
        match row_identity(rows.last()) {
            Some(last) => if !earlier.contains(last) {
                assert(earlier.push(last)[j] == id);
            },
            None => {},
        }
    } else {
        let id = row_identity(rows[k])->Some_0;
        assert(rows.last() == rows[k]);
        if !earlier.contains(id) {
            assert(earlier.push(id)[earlier.len() as int] == id);
        }
    }
}

/// The distinct identities hold nothing twice.
proof fn lemma_distinct_identities_unique(rows: Seq<JsonValue>)
    ensures
        forall|p: int, q: int|
            0 <= p < q < distinct_identities(rows).len() ==> #[trigger] distinct_identities(rows)[p]
                != #[trigger] distinct_identities(rows)[q],
    decreases rows.len(),
{
    if rows.len() > 0 {
        lemma_distinct_identities_unique(rows.drop_last());
        let earlier = distinct_identities(rows.drop_last());
        match row_identity(rows.last()) {
            Some(id) => if !earlier.contains(id) {
                let ids = earlier.push(id);
                assert forall|p: int, q: int| 0 <= p < q < ids.len() implies #[trigger] ids[p] != #[trigger] ids[q] by {
                    if q == earlier.len() {
                        assert(ids[p] == earlier[p]);
                        if ids[p] == id {
                            assert(earlier.contains(id));
                        }
                    } else {
                        assert(ids[p] == earlier[p] && ids[q] == earlier[q]);
                    }
                }
            },
            None => {},
        }
    }
}

/// Two exact rows that differ in title, year, season or episode make the
/// lookup ambiguous, whatever else the document holds; and a match names
/// the one identity every exact row carries, in full.
pub proof fn law_distinct_identities_are_ambiguous(root: JsonValue, rows: Seq<JsonValue>, a: int, b: int)
    requires
        field(root, "data"@) matches Some(JsonValue::Array(list)) && list@ == rows,
        0 <= a < rows.len(),
        0 <= b < rows.len(),
        row_identity(rows[a]) is Some,
        row_identity(rows[b]) is Some,
    ensures
        ({
            let x = row_identity(rows[a])->Some_0;
            let y = row_identity(rows[b])->Some_0;
            x.0 != y.0 || x.1 != y.1 || x.2 != y.2 || x.3 != y.3
        }) ==> document_verdict(root) == LookupVerdict::Ambiguous,
        document_verdict(root) matches LookupVerdict::Match(m) ==> ({
            let x = row_identity(rows[a])->Some_0;
            x.0 == m.0 && x.1 == m.1 && x.2 == m.2 && x.3 == m.3
        }),
{
    lemma_row_identities_kept(rows, a);
    lemma_row_identities_kept(rows, b);
    lemma_distinct_identities_unique(rows);
    let ids = distinct_identities(rows);
    let x = row_identity(rows[a])->Some_0;
    let y = row_identity(rows[b])->Some_0;
    let p = choose|p: int| 0 <= p < ids.len() && ids[p] == x;
    let q = choose|q: int| 0 <= q < ids.len() && ids[q] == y;
    if x != y {
        assert(p != q);
        assert(ids.len() >= 2);
    }
    if ids.len() == 1 {
        assert(p == 0);
    }
}

/// What a search document answers: one distinct identity is a match, none
/// is no match, several are ambiguous; a document without a `data` array is
/// invalid.
pub enum LookupVerdict {
    Match(IdentityModel),
    NoMatch,
    Ambiguous,
    Invalid,
}

pub open spec fn document_verdict(root: JsonValue) -> LookupVerdict {
    match field(root, "data"@) {
        Some(JsonValue::Array(rows)) => {
            let ids = distinct_identities(rows@);
            if ids.len() == 0 {
                LookupVerdict::NoMatch
            } else if ids.len() == 1 {
                LookupVerdict::Match(ids[0])
            } else {
                LookupVerdict::Ambiguous
            }
        },
        _ => LookupVerdict::Invalid,
    }
}

/// Whether a lookup result is what a verdict says.
pub open spec fn answers(result: Result<IdentityLookup, IdentityLookupError>, verdict: LookupVerdict) -> bool {
    match verdict {
        LookupVerdict::Match(id) => result matches Ok(IdentityLookup::Match(i)) && identity_model(i) == id,
        LookupVerdict::NoMatch => result matches Ok(IdentityLookup::NoMatch),
        LookupVerdict::Ambiguous => result matches Ok(IdentityLookup::Ambiguous),
        LookupVerdict::Invalid => result == Err::<IdentityLookup, IdentityLookupError>(IdentityLookupError::InvalidResponse),
    }
}

fn row_identity_of(row: &JsonValue) -> (identity: Option<VerifiedMediaIdentity>)
    ensures
        match identity {
            Some(i) => row_identity(*row) == Some(identity_model(i)),
            None => row_identity(*row) is None,
        },
{
    let attributes = match row.get("attributes") {
        Some(a) => a,
        None => return None,
    };
    if attributes.as_object().is_none() {
        return None;
    }
    let flag = match attributes.get("moviehash_match") {
        Some(v) => Some(v),
        None => attributes.get("movie_hash_match"),
    };
    let exact = match flag {
        Some(v) => match v.as_bool() {
            Some(b) => b,
            None => false,
        },
        None => false,
    };
    if !exact {
        return None;
    }
    let details = match attributes.get("feature_details") {
        Some(d) => d,
        None => return None,
    };
    if details.as_object().is_none() {
        return None;
    }
    let raw = match details.get("title") {
        Some(t) => match t.as_str() {
            Some(s) => s,
            None => return None,
        },
        None => return None,
    };
    let title = match clean_title(raw) {
        Some(t) => t,
        None => return None,
    };
    let season_field = match details.get("season_number") {
        Some(v) => Some(v),
        None => details.get("season"),
    };
    let episode_field = match details.get("episode_number") {
        Some(v) => Some(v),
        None => details.get("episode"),
    };
    Some(VerifiedMediaIdentity {
        title,
        year: bounded_number(details.get("year"), 9999),
        season: bounded_number(season_field, 65535),
        episode: bounded_number(episode_field, 65535),
    })
}

fn same_identity(a: &VerifiedMediaIdentity, b: &VerifiedMediaIdentity) -> (same: bool)
    ensures
        same == (identity_model(*a) == identity_model(*b)),
{
    let x = chars_of(a.title.as_str());
    let y = chars_of(b.title.as_str());
    same_chars(x.as_slice(), y.as_slice()) && a.year == b.year && a.season == b.season && a.episode
        == b.episode
}

/// Reduces a parsed search document to a lookup answer.
pub fn lookup_from_document(root: &JsonValue) -> (result: Result<IdentityLookup, IdentityLookupError>)
    ensures
        answers(result, document_verdict(*root)),
{
    let rows = match root.get("data") {
        Some(d) => match d.as_array() {
            Some(rows) => rows,
            None => return Err(IdentityLookupError::InvalidResponse),
        },
        None => return Err(IdentityLookupError::InvalidResponse),
    };
    let mut identities: Vec<VerifiedMediaIdentity> = Vec::new();
    let mut i: usize = 0;
    while i < rows.len()
        invariant
            i <= rows@.len(),
            identities@.map_values(|v: VerifiedMediaIdentity| identity_model(v)) == distinct_identities(
                rows@.subrange(0, i as int),
            ),
        decreases rows@.len() - i,
    {
        let ghost earlier = distinct_identities(rows@.subrange(0, i as int));
        assert(rows@.subrange(0, i + 1).drop_last() =~= rows@.subrange(0, i as int));
        match row_identity_of(&rows[i]) {
            Some(identity) => {
                let mut seen = false;
                let mut j: usize = 0;
                while j < identities.len()
                    invariant
                        j <= identities@.len(),
                        identities@.map_values(|v: VerifiedMediaIdentity| identity_model(v)) == earlier,
                        seen == (exists|k: int| 0 <= k < j && earlier[k] == identity_model(identity)),
                    decreases identities@.len() - j,
                {
                    assert(earlier[j as int] == identity_model(identities@[j as int]));
                    if same_identity(&identities[j], &identity) {
                        seen = true;
                    }
                    j = j + 1;
                }
                proof {
                    if earlier.contains(identity_model(identity)) {
                        let k = choose|k: int| 0 <= k < earlier.len() && earlier[k] == identity_model(identity);
                        assert(earlier[k] == identity_model(identity));
                    }
                }
                if !seen {
                    let ghost before = identities@;
                    identities.push(identity);
                    assert(identities@.map_values(|v: VerifiedMediaIdentity| identity_model(v)) =~= before.map_values(
                        |v: VerifiedMediaIdentity| identity_model(v),
                    ).push(identity_model(identity)));
                }
            },
            None => {},
        }
        i = i + 1;
    }
    assert(rows@.subrange(0, rows@.len() as int) =~= rows@);
    if identities.len() == 0 {
        Ok(IdentityLookup::NoMatch)
    } else if identities.len() == 1 {
        Ok(IdentityLookup::Match(identities.remove(0)))
    } else {
        Ok(IdentityLookup::Ambiguous)
    }
}

/// What a response body answers: serde_json's reading of it, reduced by
/// [`lookup_from_document`]; a body that is not JSON is an invalid response.
pub open spec fn body_verdict(body: Seq<u8>) -> LookupVerdict {
    match json_document(body) {
        Some(root) => document_verdict(root),
        None => LookupVerdict::Invalid,
    }
}

pub fn parse_response(body: &[u8]) -> (result: Result<IdentityLookup, IdentityLookupError>)
    ensures
        answers(result, body_verdict(body@)),
{
    match parse_json(body) {
        Some(root) => lookup_from_document(&root),
        None => Err(IdentityLookupError::InvalidResponse),
    }
}

/// The lowercase hex spelling of a media hash.
pub fn hex(hash: MediaHash) -> (text: String)
    ensures
        text@ == hex_text(hash@),
{
    hex_string(hash.as_bytes())
}

/// The search URL for a media hash.
pub open spec fn search_url(hash: MediaHash) -> Seq<char> {
    SEARCH_ENDPOINT@ + "?moviehash="@ + hex_text(hash@) + "&moviehash_match=only"@
}

/// The real OpenSubtitles lookup. The HTTP transport is injected, so tests
/// never contact the provider.
pub struct OpenSubtitlesIdentityLookup<'a, H: HttpClient> {
    http: &'a mut H,
    api_key: OpenSubtitlesApiKey,
}

impl<'a, H: HttpClient> OpenSubtitlesIdentityLookup<'a, H> {
    /// What the client has exchanged so far.
    pub closed spec fn exchanges_spec(&self) -> Seq<(HttpRequest, Result<HttpResponse, HttpError>)> {
        self.http.exchanges()
    }

    pub fn new(http: &'a mut H, api_key: OpenSubtitlesApiKey) -> (lookup: OpenSubtitlesIdentityLookup<'a, H>)
        ensures
            lookup.exchanges_spec() == old(http).exchanges(),
    {
        OpenSubtitlesIdentityLookup { http, api_key }
    }
}

impl<'a, H: HttpClient> MediaIdentityLookup for OpenSubtitlesIdentityLookup<'a, H> {
    /// Searches [`search_url`] of the hash, following approved redirects;
    /// an answer is what the final body holds.
    fn lookup_by_hash(&mut self, hash: MediaHash) -> (result: Result<IdentityLookup, IdentityLookupError>)
        ensures
            result is Ok ==> exists|body: Seq<u8>|
                body.len() <= MAX_RESPONSE_BYTES && answers(result, #[trigger] body_verdict(body)),
            final(self).exchanges_spec().subrange(0, old(self).exchanges_spec().len() as int)
                == old(self).exchanges_spec(),
            allowed_url(search_url(hash)) ==> final(self).exchanges_spec().len() > old(self).exchanges_spec().len(),
            final(self).exchanges_spec().len() > old(self).exchanges_spec().len()
                ==> final(self).exchanges_spec()[old(self).exchanges_spec().len() as int].0.url@ == search_url(hash),
            final(self).exchanges_spec().len() <= old(self).exchanges_spec().len() + MAX_REDIRECTS + 1,
            result is Ok ==> (final(self).exchanges_spec().last().1 matches Ok(r) && answers(
                result,
                body_verdict(r.body@),
            )),
    {
        let mut initial = String::from_str(SEARCH_ENDPOINT);
        initial.append("?moviehash=");
        initial.append(hex(hash).as_str());
        initial.append("&moviehash_match=only");
        assert(initial@ == search_url(hash));
        let response = match request_following(self.http, &self.api_key, initial.as_str()) {
            Ok(r) => r,
            Err(e) => return Err(e),
        };
        proof {
            let log = self.http.exchanges();
            if !allowed_url(initial@) {
                assert(false);
            }
            assert(log.last().1 == Ok::<HttpResponse, HttpError>(response)) by {
                match log.last().1 {
                    Ok(r) => {},
                    Err(_) => {},
                }
            }
        }
        parse_response(response.body.as_slice())
    }
}

/// A copy of a lookup answer.
pub fn copy_lookup(answer: &Result<IdentityLookup, IdentityLookupError>) -> (copy: Result<IdentityLookup, IdentityLookupError>)
    ensures
        match (*answer, copy) {
            (Ok(IdentityLookup::Match(a)), Ok(IdentityLookup::Match(b))) => identity_model(a) == identity_model(b),
            (Ok(IdentityLookup::NoMatch), Ok(IdentityLookup::NoMatch)) => true,
            (Ok(IdentityLookup::Ambiguous), Ok(IdentityLookup::Ambiguous)) => true,
            (Err(a), Err(b)) => a == b,
            _ => false,
        },
{
    match answer {
        Ok(IdentityLookup::Match(i)) => Ok(IdentityLookup::Match(VerifiedMediaIdentity {
            title: i.title.clone(),
            year: i.year,
            season: i.season,
            episode: i.episode,
        })),
        Ok(IdentityLookup::NoMatch) => Ok(IdentityLookup::NoMatch),
        Ok(IdentityLookup::Ambiguous) => Ok(IdentityLookup::Ambiguous),
        Err(e) => Err(*e),
    }
}

/// A deterministic lookup that always gives the same answer and counts its
/// calls.
pub struct FakeMediaIdentityLookup {
    answer: Result<IdentityLookup, IdentityLookupError>,
    calls: usize,
}

impl FakeMediaIdentityLookup {
    pub closed spec fn calls_spec(&self) -> nat {
        self.calls as nat
    }

    pub closed spec fn answer_spec(&self) -> Result<IdentityLookup, IdentityLookupError> {
        self.answer
    }

    pub fn new(answer: Result<IdentityLookup, IdentityLookupError>) -> (lookup: FakeMediaIdentityLookup)
        ensures
            lookup.calls_spec() == 0,
            lookup.answer_spec() == answer,
    {
        FakeMediaIdentityLookup { answer, calls: 0 }
    }

    /// How many lookups were made (saturating).
    pub fn calls(&self) -> (calls: usize)
        ensures
            calls == self.calls_spec(),
    {
        self.calls
    }
}

impl MediaIdentityLookup for FakeMediaIdentityLookup {
    /// The fixed answer, whatever the hash; one more call counted.
    fn lookup_by_hash(&mut self, hash: MediaHash) -> (result: Result<IdentityLookup, IdentityLookupError>)
        ensures
            match (old(self).answer_spec(), result) {
                (Ok(IdentityLookup::Match(a)), Ok(IdentityLookup::Match(b))) => identity_model(a) == identity_model(b),
                (Ok(IdentityLookup::NoMatch), Ok(IdentityLookup::NoMatch)) => true,
                (Ok(IdentityLookup::Ambiguous), Ok(IdentityLookup::Ambiguous)) => true,
                (Err(a), Err(b)) => a == b,
                _ => false,
            },
            final(self).calls_spec() == if old(self).calls_spec() < usize::MAX {
                old(self).calls_spec() + 1
            } else {
                old(self).calls_spec()
            },
            final(self).answer_spec() == old(self).answer_spec(),
    {
        if self.calls < usize::MAX {
            self.calls = self.calls + 1;
        }
        copy_lookup(&self.answer)
    }
}


/// The endpoint that exchanges a private file id for a download link.
pub const DOWNLOAD_ENDPOINT: &'static str = "https://api.opensubtitles.com/api/v1/download";

/// The time budget of each download request, in milliseconds.
pub const DOWNLOAD_TIMEOUT_MS: u64 = 15000;

/// The JSON body of the metadata exchange for `file_id`.
pub open spec fn metadata_text(file_id: u64) -> Seq<char> {
    "{\"file_id\":"@ + decimal(file_id as nat) + "}"@
}

/// The headers of the metadata exchange, by name and value: the only
/// request that carries the key.
pub open spec fn metadata_headers(api_key: Seq<char>) -> Seq<(Seq<char>, Seq<char>)> {
    seq![
        ("Api-Key"@, api_key),
        ("User-Agent"@, USER_AGENT@),
        ("Accept"@, "application/json"@),
        ("Content-Type"@, "application/json"@),
    ]
}

/// The headers of a link request, by name and value: no key.
pub open spec fn link_headers() -> Seq<(Seq<char>, Seq<char>)> {
    seq![("User-Agent"@, USER_AGENT@)]
}

/// Whether `request` is the metadata exchange for `file_id`.
pub open spec fn metadata_request_spec(request: HttpRequest, api_key: Seq<char>, file_id: u64) -> bool {
    &&& request.method == HttpMethod::Post
    &&& request.url@ == DOWNLOAD_ENDPOINT@
    &&& request.range is None
    &&& header_pairs(request.headers@) == metadata_headers(api_key)
    &&& request.max_body_bytes == MAX_DOWNLOAD_METADATA_BYTES
    &&& request.body matches Some(b) && b@ == encode_utf8(metadata_text(file_id))
    &&& request.timeout_ms == Some(DOWNLOAD_TIMEOUT_MS)
}

/// Whether `request` is a link GET of `url`, without the key.
pub open spec fn link_request_spec(request: HttpRequest, url: Seq<char>) -> bool {
    &&& request.method == HttpMethod::Get
    &&& request.url@ == url
    &&& request.range is None
    &&& header_pairs(request.headers@) == link_headers()
    &&& request.max_body_bytes == MAX_DOWNLOAD_BYTES
    &&& request.body is None
    &&& request.timeout_ms == Some(DOWNLOAD_TIMEOUT_MS)
}

/// Whether a download link may be fetched: HTTPS on the download host, or
/// the download paths of the main site, with no control character.
pub open spec fn allowed_link(url: Seq<char>) -> bool {
    &&& !has_control(url)
    &&& (begins_with(url, "https://dl.opensubtitles.com/"@) || begins_with(
        url,
        "https://www.opensubtitles.com/download/"@,
    ))
}

/// What the metadata answer says: the link to fetch, or why there is none.
/// A readable object without a link means the quota is used up.
pub open spec fn link_verdict(answer: Result<HttpResponse, HttpError>) -> Result<Seq<char>, SubtitleDownloadError> {
    match answer {
        Err(HttpError::Transport) => Err(SubtitleDownloadError::Transport),
        Err(HttpError::ResponseTooLarge) => Err(SubtitleDownloadError::ResponseTooLarge),
        Ok(r) => if r.status_code == 401 || r.status_code == 403 {
            Err(SubtitleDownloadError::Unauthorized)
        } else if r.status_code == 406 {
            Err(SubtitleDownloadError::QuotaExhausted)
        } else if !(200 <= r.status_code && r.status_code < 300) {
            Err(SubtitleDownloadError::HttpStatus)
        } else if r.body@.len() > MAX_DOWNLOAD_METADATA_BYTES {
            Err(SubtitleDownloadError::ResponseTooLarge)
        } else {
            match json_document(r.body@) {
                Some(root) => if !is_object(Some(root)) {
                    Err(SubtitleDownloadError::InvalidResponse)
                } else {
                    match text_of(field(root, "link"@)) {
                        Some(link) => Ok(link),
                        None => Err(SubtitleDownloadError::QuotaExhausted),
                    }
                },
                None => Err(SubtitleDownloadError::InvalidResponse),
            }
        },
    }
}

/// What one answer of the link chain means: a redirect to an approved link
/// within the hop limit is followed, any other redirect is refused, a
/// non-2xx status fails, and a 2xx answer ends the chain.
pub open spec fn fetch_hop(url: Seq<char>, redirect_count: nat, response: HttpResponse) -> Result<
    Option<Seq<char>>,
    SubtitleDownloadError,
> {
    if redirect_status(response.status_code) {
        if redirect_count >= MAX_DOWNLOAD_REDIRECTS {
            Err(SubtitleDownloadError::RedirectRejected)
        } else {
            match location_of(response) {
                None => Err(SubtitleDownloadError::RedirectRejected),
                Some(location) => match resolved_location(url, location) {
                    Some(target) => if allowed_link(target) {
                        Ok(Some(target))
                    } else {
                        Err(SubtitleDownloadError::RedirectRejected)
                    },
                    None => Err(SubtitleDownloadError::RedirectRejected),
                },
            }
        }
    } else if !(200 <= response.status_code && response.status_code < 300) {
        Err(SubtitleDownloadError::HttpStatus)
    } else {
        Ok(None)
    }
}

/// Whether the exchanges from index `start` on form one link chain: each
/// request after the first goes where the answer before it redirected.
pub open spec fn follows_link_chain(log: Seq<(HttpRequest, Result<HttpResponse, HttpError>)>, start: int) -> bool {
    forall|i: int|
        start < i < log.len() ==> ((#[trigger] log[i - 1]).1 matches Ok(r) && fetch_hop(
            log[i - 1].0.url@,
            (i - 1 - start) as nat,
            r,
        ) == Ok::<Option<Seq<char>>, SubtitleDownloadError>(Some(log[i].0.url@)))
}

/// Whether `result` is what the last answer of a link chain means.
pub open spec fn fetch_result(
    result: Result<HttpResponse, SubtitleDownloadError>,
    url: Seq<char>,
    redirect_count: nat,
    answer: Result<HttpResponse, HttpError>,
) -> bool {
    match answer {
        Err(HttpError::Transport) => result == Err::<HttpResponse, SubtitleDownloadError>(
            SubtitleDownloadError::Transport,
        ),
        Err(HttpError::ResponseTooLarge) => result == Err::<HttpResponse, SubtitleDownloadError>(
            SubtitleDownloadError::ContentTooLarge,
        ),
        Ok(r) => match fetch_hop(url, redirect_count, r) {
            Ok(None) => result == Ok::<HttpResponse, SubtitleDownloadError>(r),
            Err(e) => result == Err::<HttpResponse, SubtitleDownloadError>(e),
            Ok(Some(_)) => false,
        },
    }
}

/// Whether every character is an ASCII digit.
pub open spec fn all_digits(s: Seq<char>) -> bool {
    forall|i: int| 0 <= i < s.len() ==> '0' <= #[trigger] s[i] && s[i] <= '9'
}

/// The number a run of ASCII digits spells.
pub open spec fn digits_value(s: Seq<char>) -> nat
    decreases s.len(),
{
    if s.len() == 0 {
        0
    } else {
        digits_value(s.drop_last()) * 10 + ((s.last() as u32) - 48) as nat
    }
}

/// Whether the response declares a length past the download budget.
pub open spec fn declares_too_large(response: HttpResponse) -> bool {
    match first_header_named(response.headers@, "Content-Length"@) {
        Some(i) => {
            let value = trimmed(response.headers@[i].value@);
            value.len() > 0 && all_digits(value) && digits_value(value) > MAX_DOWNLOAD_BYTES
        },
        None => false,
    }
}

/// The media type of a `Content-Type` value: what comes before any
/// parameter, trimmed.
pub open spec fn media_type(value: Seq<char>) -> Seq<char> {
    trimmed(value.subrange(0, first_of(value, ';', ';', ';')))
}

/// Whether a content type may carry a subtitle file.
pub open spec fn accepted_type(value: Seq<char>) -> bool {
    let media = media_type(value);
    eq_ignore_ascii_case(media, "text/plain"@) || eq_ignore_ascii_case(media, "application/x-subrip"@)
        || eq_ignore_ascii_case(media, "application/octet-stream"@)
}

/// Whether a body starts like a ZIP or a gzip archive.
pub open spec fn archive_magic(body: Seq<u8>) -> bool {
    (body.len() >= 4 && body[0] == 0x50 && body[1] == 0x4b && body[2] == 0x03 && body[3] == 0x04) || (body.len()
        >= 2 && body[0] == 0x1f && body[1] == 0x8b)
}

/// What the fetched content is worth: a declared or actual size past the
/// budget, a content type that is no subtitle, or an archive is refused;
/// anything else is the subtitle.
pub open spec fn content_verdict(response: HttpResponse) -> Result<Seq<u8>, SubtitleDownloadError> {
    if declares_too_large(response) {
        Err(SubtitleDownloadError::ContentTooLarge)
    } else if response.body@.len() > MAX_DOWNLOAD_BYTES {
        Err(SubtitleDownloadError::ContentTooLarge)
    } else if (match first_header_named(response.headers@, "Content-Type"@) {
        Some(i) => !accepted_type(response.headers@[i].value@),
        None => false,
    }) {
        Err(SubtitleDownloadError::UnexpectedContentType)
    } else if archive_magic(response.body@) {
        Err(SubtitleDownloadError::ArchiveRejected)
    } else {
        Ok(response.body@)
    }
}

/// The metadata exchange for `file_id`.
pub fn metadata_request(api_key: &OpenSubtitlesApiKey, file_id: u64) -> (request: HttpRequest)
    ensures
        metadata_request_spec(request, api_key@, file_id),
{
    let mut text = String::from_str("{\"file_id\":");
    text.append(decimal_text(file_id).as_str());
    text.append("}");
    let body = text.as_str().as_bytes_vec();
    let headers = vec![
        HttpHeader { name: String::from_str("Api-Key"), value: api_key.0.clone() },
        HttpHeader { name: String::from_str("User-Agent"), value: String::from_str(USER_AGENT) },
        HttpHeader { name: String::from_str("Accept"), value: String::from_str("application/json") },
        HttpHeader { name: String::from_str("Content-Type"), value: String::from_str("application/json") },
    ];
    proof {
        assert(header_pairs(headers@) =~= metadata_headers(api_key@));
    }
    HttpRequest::post_json(DOWNLOAD_ENDPOINT, headers, body, MAX_DOWNLOAD_METADATA_BYTES, DOWNLOAD_TIMEOUT_MS)
}

/// A link GET of `url`, without the key.
pub fn link_request(url: &str) -> (request: HttpRequest)
    ensures
        link_request_spec(request, url@),
{
    let headers = vec![HttpHeader { name: String::from_str("User-Agent"), value: String::from_str(USER_AGENT) }];
    proof {
        assert(header_pairs(headers@) =~= link_headers());
    }
    HttpRequest {
        method: HttpMethod::Get,
        url: url.to_owned(),
        range: None,
        headers,
        max_body_bytes: MAX_DOWNLOAD_BYTES,
        body: None,
        timeout_ms: Some(DOWNLOAD_TIMEOUT_MS),
    }
}

/// Whether `url` is a download link that may be fetched.
pub fn is_allowed_link(url: &str) -> (allowed: bool)
    ensures
        allowed == allowed_link(url@),
{
    let chars = chars_of(url);
    if any_control(chars.as_slice()) {
        return false;
    }
    starts_with(chars.as_slice(), "https://dl.opensubtitles.com/") || starts_with(
        chars.as_slice(),
        "https://www.opensubtitles.com/download/",
    )
}

/// Reads the link out of the metadata answer.
pub fn link_from(answer: &Result<HttpResponse, HttpError>) -> (link: Result<String, SubtitleDownloadError>)
    ensures
        match link {
            Ok(l) => link_verdict(*answer) == Ok::<Seq<char>, SubtitleDownloadError>(l@),
            Err(e) => link_verdict(*answer) == Err::<Seq<char>, SubtitleDownloadError>(e),
        },
{
    let response = match answer {
        Ok(r) => r,
        Err(HttpError::Transport) => return Err(SubtitleDownloadError::Transport),
        Err(HttpError::ResponseTooLarge) => return Err(SubtitleDownloadError::ResponseTooLarge),
    };
    if response.status_code == 401 || response.status_code == 403 {
        return Err(SubtitleDownloadError::Unauthorized);
    }
    if response.status_code == 406 {
        return Err(SubtitleDownloadError::QuotaExhausted);
    }
    if !(200 <= response.status_code && response.status_code < 300) {
        return Err(SubtitleDownloadError::HttpStatus);
    }
    if response.body.len() > MAX_DOWNLOAD_METADATA_BYTES {
        return Err(SubtitleDownloadError::ResponseTooLarge);
    }
    let root = match parse_json(response.body.as_slice()) {
        Some(v) => v,
        None => return Err(SubtitleDownloadError::InvalidResponse),
    };
    if root.as_object().is_none() {
        return Err(SubtitleDownloadError::InvalidResponse);
    }
    proof {
        reveal_strlit("link");
    }
    match root.get("link") {
        Some(value) => match value.as_str() {
            Some(link) => Ok(link.to_owned()),
            None => Err(SubtitleDownloadError::QuotaExhausted),
        },
        None => Err(SubtitleDownloadError::QuotaExhausted),
    }
}

/// What one answer of the link chain means.
pub enum FetchHop {
    /// Fetch this approved link next.
    Follow(String),
    /// The response is the content.
    Done,
    Fail(SubtitleDownloadError),
}

/// Decides what one answer of the link chain means.
pub fn next_fetch_hop(current: &str, redirect_count: u8, response: &HttpResponse) -> (hop: FetchHop)
    ensures
        match hop {
            FetchHop::Follow(url) => fetch_hop(current@, redirect_count as nat, *response) == Ok::<
                Option<Seq<char>>,
                SubtitleDownloadError,
            >(Some(url@)),
            FetchHop::Done => fetch_hop(current@, redirect_count as nat, *response) == Ok::<
                Option<Seq<char>>,
                SubtitleDownloadError,
            >(None),
            FetchHop::Fail(e) => fetch_hop(current@, redirect_count as nat, *response) == Err::<
                Option<Seq<char>>,
                SubtitleDownloadError,
            >(e),
        },
{
    if is_redirect(response.status_code) {
        if redirect_count >= MAX_DOWNLOAD_REDIRECTS {
            return FetchHop::Fail(SubtitleDownloadError::RedirectRejected);
        }
        let location = match response.header("Location") {
            Some(l) => l,
            None => return FetchHop::Fail(SubtitleDownloadError::RedirectRejected),
        };
        return match resolve_redirect(current, location) {
            Some(target) => if is_allowed_link(target.as_str()) {
                FetchHop::Follow(target)
            } else {
                FetchHop::Fail(SubtitleDownloadError::RedirectRejected)
            },
            None => FetchHop::Fail(SubtitleDownloadError::RedirectRejected),
        };
    }
    if !(200 <= response.status_code && response.status_code < 300) {
        return FetchHop::Fail(SubtitleDownloadError::HttpStatus);
    }
    FetchHop::Done
}

/// Whether a declared length is past the download budget.
fn declared_too_large(value: &str) -> (too_large: bool)
    ensures
        too_large == ({
            let v = trimmed(value@);
            v.len() > 0 && all_digits(v) && digits_value(v) > MAX_DOWNLOAD_BYTES
        }),
{
    let chars = chars_of(value);
    let v = trim_chars(chars.as_slice());
    assert(v@ == trimmed(value@));
    if v.len() == 0 {
        return false;
    }
    let mut capped: usize = 0;
    let mut i: usize = 0;
    while i < v.len()
        invariant
            i <= v@.len(),
            v@ == trimmed(value@),
            all_digits(v@.subrange(0, i as int)),
            capped == (if digits_value(v@.subrange(0, i as int)) > MAX_DOWNLOAD_BYTES {
                (MAX_DOWNLOAD_BYTES + 1) as int
            } else {
                digits_value(v@.subrange(0, i as int)) as int
            }),
        decreases v@.len() - i,
    {
        let c = v[i];
        if !('0' <= c && c <= '9') {
            proof {
                assert(v@[i as int] == c);
                assert(!all_digits(v@));
            }
            return false;
        }
        let ghost prefix = v@.subrange(0, i + 1);
        assert(prefix.drop_last() =~= v@.subrange(0, i as int));
        assert(prefix.last() == c);
        let d = (c as u32 - 48) as usize;
        if capped > MAX_DOWNLOAD_BYTES {
            assert(digits_value(prefix) > MAX_DOWNLOAD_BYTES) by (nonlinear_arith)
                requires
                    digits_value(prefix) == digits_value(prefix.drop_last()) * 10 + d,
                    digits_value(prefix.drop_last()) > MAX_DOWNLOAD_BYTES,
            ;
        } else {
            capped = capped * 10 + d;
            if capped > MAX_DOWNLOAD_BYTES {
                capped = MAX_DOWNLOAD_BYTES + 1;
            }
        }
        assert forall|k: int| 0 <= k < prefix.len() implies '0' <= #[trigger] prefix[k] && prefix[k] <= '9' by {
            if k < i {
                assert(prefix[k] == v@.subrange(0, i as int)[k]);
            }
        }
        i = i + 1;
    }
    assert(v@.subrange(0, v@.len() as int) =~= v@);
    capped > MAX_DOWNLOAD_BYTES
}

/// Whether a `Content-Type` value may carry a subtitle file.
fn is_accepted_type(value: &str) -> (accepted: bool)
    ensures
        accepted == accepted_type(value@),
{
    let chars = chars_of(value);
    proof {
        lemma_first_of(chars@, ';', ';', ';');
    }
    let end = find_first(chars.as_slice(), ';', ';', ';');
    let head = slice_chars(chars.as_slice(), 0, end);
    let media = string_from_chars(trim_chars(head.as_slice()).as_slice());
    text_eq_ignore_ascii_case(media.as_str(), "text/plain") || text_eq_ignore_ascii_case(
        media.as_str(),
        "application/x-subrip",
    ) || text_eq_ignore_ascii_case(media.as_str(), "application/octet-stream")
}

/// Whether a body starts like a ZIP or a gzip archive.
fn has_archive_magic(body: &[u8]) -> (archive: bool)
    ensures
        archive == archive_magic(body@),
{
    (body.len() >= 4 && body[0] == 0x50 && body[1] == 0x4b && body[2] == 0x03 && body[3] == 0x04) || (body.len()
        >= 2 && body[0] == 0x1f && body[1] == 0x8b)
}

/// Judges the fetched content and keeps it when it is a subtitle.
pub fn check_content(response: HttpResponse) -> (content: Result<DownloadedSubtitle, SubtitleDownloadError>)
    ensures
        match content {
            Ok(d) => content_verdict(response) == Ok::<Seq<u8>, SubtitleDownloadError>(d@),
            Err(e) => content_verdict(response) == Err::<Seq<u8>, SubtitleDownloadError>(e),
        },
{
    let ghost r = response;
    match response.header("Content-Length") {
        Some(value) => if declared_too_large(value) {
            return Err(SubtitleDownloadError::ContentTooLarge);
        },
        None => {},
    }
    if response.body.len() > MAX_DOWNLOAD_BYTES {
        return Err(SubtitleDownloadError::ContentTooLarge);
    }
    match response.header("Content-Type") {
        Some(value) => if !is_accepted_type(value) {
            return Err(SubtitleDownloadError::UnexpectedContentType);
        },
        None => {},
    }
    if has_archive_magic(response.body.as_slice()) {
        return Err(SubtitleDownloadError::ArchiveRejected);
    }
    DownloadedSubtitle::new(response.body)
}

/// Fetches an approved download link and follows approved redirects.
///
/// The first request goes to `initial`; every request is a link GET
/// without the key to an approved link; each one after the first goes where
/// the answer before it redirected; at most [`MAX_DOWNLOAD_REDIRECTS`] + 1
/// are sent, and the last answer decides the result.
pub fn fetch_following<H: HttpClient>(http: &mut H, initial: &str) -> (result: Result<
    HttpResponse,
    SubtitleDownloadError,
>)
    requires
        allowed_link(initial@),
    ensures
        ({
            let base = old(http).exchanges().len() as int;
            let log = (*final(http)).exchanges();
            &&& log.subrange(0, base) == old(http).exchanges()
            &&& base < log.len() <= base + MAX_DOWNLOAD_REDIRECTS + 1
            &&& log[base].0.url@ == initial@
            &&& forall|i: int|
                base <= i < log.len() ==> link_request_spec((#[trigger] log[i]).0, log[i].0.url@) && allowed_link(
                    log[i].0.url@,
                )
            &&& follows_link_chain(log, base)
            &&& fetch_result(result, log.last().0.url@, (log.len() - 1 - base) as nat, log.last().1)
        }),
{
    let ghost base = http.exchanges().len() as int;
    let mut current = initial.to_owned();
    let mut redirect_count: u8 = 0;
    while redirect_count <= MAX_DOWNLOAD_REDIRECTS
        invariant
            allowed_link(current@),
            redirect_count <= MAX_DOWNLOAD_REDIRECTS + 1,
            base == old(http).exchanges().len(),
            http.exchanges().len() == base + redirect_count,
            http.exchanges().subrange(0, base) == old(http).exchanges(),
            redirect_count == 0 ==> current@ == initial@,
            redirect_count > 0 ==> http.exchanges()[base].0.url@ == initial@,
            redirect_count > 0 ==> (http.exchanges().last().1 matches Ok(r) && fetch_hop(
                http.exchanges().last().0.url@,
                (redirect_count - 1) as nat,
                r,
            ) == Ok::<Option<Seq<char>>, SubtitleDownloadError>(Some(current@))),
            forall|i: int|
                base <= i < http.exchanges().len() ==> link_request_spec(
                    (#[trigger] http.exchanges()[i]).0,
                    http.exchanges()[i].0.url@,
                ) && allowed_link(http.exchanges()[i].0.url@),
            follows_link_chain(http.exchanges(), base),
        decreases MAX_DOWNLOAD_REDIRECTS + 1 - redirect_count,
    {
        let ghost before = http.exchanges();
        let request = link_request(current.as_str());
        let outcome = http.send(request);
        proof {
            let log = http.exchanges();
            assert(log.subrange(0, base) =~= before.subrange(0, base));
            assert forall|i: int| base < i < log.len() implies ((#[trigger] log[i - 1]).1 matches Ok(r) && fetch_hop(
                log[i - 1].0.url@,
                (i - 1 - base) as nat,
                r,
            ) == Ok::<Option<Seq<char>>, SubtitleDownloadError>(Some(log[i].0.url@))) by {
                if i < log.len() - 1 {
                    assert(log[i - 1] == before[i - 1]);
                    assert(log[i] == before[i]);
                } else {
                    assert(log[i - 1] == before.last());
                }
            }
            assert forall|i: int| base <= i < log.len() implies link_request_spec(
                (#[trigger] log[i]).0,
                log[i].0.url@,
            ) && allowed_link(log[i].0.url@) by {
                if i < log.len() - 1 {
                    assert(log[i] == before[i]);
                }
            }
            if redirect_count > 0 {
                assert(log[base] == before[base]);
            }
        }
        let response = match outcome {
            Ok(r) => r,
            Err(HttpError::Transport) => return Err(SubtitleDownloadError::Transport),
            Err(HttpError::ResponseTooLarge) => return Err(SubtitleDownloadError::ContentTooLarge),
        };
        match next_fetch_hop(current.as_str(), redirect_count, &response) {
            FetchHop::Follow(target) => {
                current = target;
            },
            FetchHop::Done => {
                return Ok(response);
            },
            FetchHop::Fail(e) => {
                return Err(e);
            },
        }
        redirect_count = redirect_count + 1;
    }
    Err(SubtitleDownloadError::RedirectRejected)
}

/// Downloads OpenSubtitles files: the key buys a link, and the link is
/// fetched without it.
pub struct OpenSubtitlesDownloader<H: HttpClient> {
    http: H,
    api_key: OpenSubtitlesApiKey,
}

impl<H: HttpClient> OpenSubtitlesDownloader<H> {
    pub fn new(http: H, api_key: OpenSubtitlesApiKey) -> (downloader: OpenSubtitlesDownloader<H>)
        ensures
            downloader.key_spec() == api_key@,
            downloader.exchanges_spec() == http.exchanges(),
    {
        OpenSubtitlesDownloader { http, api_key }
    }

    /// The key the downloader spends.
    pub closed spec fn key_spec(&self) -> Seq<char> {
        self.api_key@
    }

    /// What the client has exchanged so far.
    pub closed spec fn exchanges_spec(&self) -> Seq<(HttpRequest, Result<HttpResponse, HttpError>)> {
        self.http.exchanges()
    }

    /// Diagnostic text; never the key.
    pub fn debug_text(&self) -> (text: &'static str)
        ensures
            text@ == "OpenSubtitlesDownloader { api_key: \"<redacted>\" }"@,
    {
        "OpenSubtitlesDownloader { api_key: \"<redacted>\" }"
    }
}

/// Whether a download after `before` went as the rules say: the metadata
/// exchange first, with the key; then, for an approved link, a chain of
/// link requests without it; and the result is what the answers mean.
pub open spec fn download_log(
    before: Seq<(HttpRequest, Result<HttpResponse, HttpError>)>,
    after: Seq<(HttpRequest, Result<HttpResponse, HttpError>)>,
    api_key: Seq<char>,
    file_id: u64,
    result: Result<DownloadedSubtitle, SubtitleDownloadError>,
) -> bool {
    let base = before.len() as int;
    &&& after.subrange(0, base) == before
    &&& base < after.len() <= base + MAX_DOWNLOAD_REDIRECTS + 2
    &&& metadata_request_spec(after[base].0, api_key, file_id)
    &&& match link_verdict(after[base].1) {
        Err(e) => result == Err::<DownloadedSubtitle, SubtitleDownloadError>(e) && after.len() == base + 1,
        Ok(link) => if !allowed_link(link) {
            result == Err::<DownloadedSubtitle, SubtitleDownloadError>(SubtitleDownloadError::RedirectRejected)
                && after.len() == base + 1
        } else {
            &&& after.len() > base + 1
            &&& after[base + 1].0.url@ == link
            &&& forall|i: int|
                base + 1 <= i < after.len() ==> link_request_spec((#[trigger] after[i]).0, after[i].0.url@)
                    && allowed_link(after[i].0.url@)
            &&& follows_link_chain(after, base + 1)
            &&& exists|fetched: Result<HttpResponse, SubtitleDownloadError>|
                #[trigger] fetch_result(fetched, after.last().0.url@, (after.len() - 2 - base) as nat, after.last().1)
                    && match fetched {
                    Err(e) => result == Err::<DownloadedSubtitle, SubtitleDownloadError>(e),
                    Ok(r) => match content_verdict(r) {
                        Ok(bytes) => result matches Ok(d) && d@ == bytes,
                        Err(e) => result == Err::<DownloadedSubtitle, SubtitleDownloadError>(e),
                    },
                }
        },
    }
}

impl<H: HttpClient> SubtitleDownloader for OpenSubtitlesDownloader<H> {
    /// Exchanges the private id for a link with the key, refuses a link
    /// that is not approved before fetching it, fetches it without the key,
    /// and keeps the content only when it is a subtitle within budget.
    fn download(&mut self, request: SubtitleDownloadRequest) -> (result: Result<
        DownloadedSubtitle,
        SubtitleDownloadError,
    >)
        ensures
            final(self).key_spec() == old(self).key_spec(),
            download_log(
                old(self).exchanges_spec(),
                final(self).exchanges_spec(),
                old(self).key_spec(),
                request.private_file_id,
                result,
            ),
    {
        let ghost base = self.http.exchanges().len() as int;
        let ghost log0 = self.http.exchanges();
        let metadata = metadata_request(&self.api_key, request.private_file_id);
        let ghost sent = metadata;
        let answer = self.http.send(metadata);
        let ghost log1 = self.http.exchanges();
        proof {
            assert(log1.subrange(0, base) =~= log0);
            assert(log1[base] == (sent, answer));
        }
        let link = match link_from(&answer) {
            Ok(l) => l,
            Err(e) => return Err(e),
        };
        if !is_allowed_link(link.as_str()) {
            return Err(SubtitleDownloadError::RedirectRejected);
        }
        let fetched = fetch_following(&mut self.http, link.as_str());
        proof {
            let log = self.http.exchanges();
            assert(log.subrange(0, base + 1) == log1);
            assert(log.subrange(0, base) =~= log1.subrange(0, base));
            assert(log[base] == log1[base]);
            assert(fetch_result(fetched, log.last().0.url@, (log.len() - 2 - base) as nat, log.last().1));
        }
        let response = match fetched {
            Ok(r) => r,
            Err(e) => return Err(e),
        };
        check_content(response)
    }
}

} // verus!
