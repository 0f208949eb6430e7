//! Transport-neutral HTTP port for remote media evidence.
//!
//! The port knows nothing about identity, URLs are never printed, and
//! response bodies are bounded by each request. Redirect and evidence
//! semantics belong to the application layer; an adapter performs one request
//! at a time.
use crate::text::{ascii_lower, chars_of, decimal, decimal_text, eq_ignore_ascii_case, same_text};
use vstd::prelude::*;

verus! {

/// The largest redirect chain accepted for one evidence collection.
pub const MAX_REDIRECTS: u8 = 5;

/// The largest response a remote evidence request may return.
pub const MAX_RESPONSE_BYTES: usize = 65536;

#[derive(Clone, Copy, PartialEq, Eq, Structural)]
pub enum HttpMethod {
    Head,
    Get,
    Post,
}

pub open spec fn method_debug(method: HttpMethod) -> Seq<char> {
    match method {
        HttpMethod::Head => "Head"@,
        HttpMethod::Get => "Get"@,
        HttpMethod::Post => "Post"@,
    }
}

impl HttpMethod {
    /// Diagnostic text: the variant's name.
    pub fn debug_text(self) -> (text: &'static str)
        ensures
            text@ == method_debug(self),
    {
        match self {
            HttpMethod::Head => "Head",
            HttpMethod::Get => "Get",
            HttpMethod::Post => "Post",
        }
    }
}

#[derive(Clone, Copy, PartialEq, Eq, Structural)]
pub enum ByteRange {
    Inclusive { start: u64, end: u64 },
    Suffix { length: u64 },
}

pub open spec fn range_debug(range: ByteRange) -> Seq<char> {
    match range {
        ByteRange::Inclusive { start, end } => "Inclusive { start: "@ + decimal(start as nat)
            + ", end: "@ + decimal(end as nat) + " }"@,
        ByteRange::Suffix { length } => "Suffix { length: "@ + decimal(length as nat) + " }"@,
    }
}

impl ByteRange {
    /// Diagnostic text, in the shape of a derived `Debug`.
    pub fn debug_text(self) -> (text: String)
        ensures
            text@ == range_debug(self),
    {
        match self {
            ByteRange::Inclusive { start, end } => {
                let mut text = String::from_str("Inclusive { start: ");
                text.append(decimal_text(start).as_str());
                text.append(", end: ");
                text.append(decimal_text(end).as_str());
                text.append(" }");
                text
            },
            ByteRange::Suffix { length } => {
                let mut text = String::from_str("Suffix { length: ");
                text.append(decimal_text(length).as_str());
                text.append(" }");
                text
            },
        }
    }
}

/// One request made by an adapter. The URL never appears in its diagnostic
/// text: it can name a private host or carry a token in its query. Neither
/// do header values or the body, which can carry a credential or a provider
/// payload.
#[derive(Clone, PartialEq, Eq)]
pub struct HttpRequest {
    pub method: HttpMethod,
    pub url: String,
    pub range: Option<ByteRange>,
    pub headers: Vec<HttpHeader>,
    pub max_body_bytes: usize,
    pub body: Option<Vec<u8>>,
    pub timeout_ms: Option<u64>,
}

pub open spec fn optional_range_debug(range: Option<ByteRange>) -> Seq<char> {
    match range {
        Some(r) => "Some("@ + range_debug(r) + ")"@,
        None => "None"@,
    }
}

pub open spec fn optional_number_debug(value: Option<nat>) -> Seq<char> {
    match value {
        Some(n) => "Some("@ + decimal(n) + ")"@,
        None => "None"@,
    }
}

fn optional_number_text(value: Option<u64>) -> (text: String)
    ensures
        text@ == optional_number_debug(
            match value {
                Some(n) => Some(n as nat),
                None => None,
            },
        ),
{
    match value {
        Some(n) => {
            let mut text = String::from_str("Some(");
            text.append(decimal_text(n).as_str());
            text.append(")");
            text
        },
        None => String::from_str("None"),
    }
}

/// Whether two header lists are the same, name for name and value for value.
pub open spec fn same_headers(a: Seq<HttpHeader>, b: Seq<HttpHeader>) -> bool {
    a.len() == b.len() && forall|i: int| 0 <= i < a.len() ==> #[trigger] same_header(a[i], b[i])
}

pub open spec fn same_header(a: HttpHeader, b: HttpHeader) -> bool {
    a.name@ == b.name@ && a.value@ == b.value@
}

fn headers_equal(a: &Vec<HttpHeader>, b: &Vec<HttpHeader>) -> (same: bool)
    ensures
        same == same_headers(a@, b@),
{
    if a.len() != b.len() {
        return false;
    }
    let mut i: usize = 0;
    while i < a.len()
        invariant
            i <= a@.len(),
            a@.len() == b@.len(),
            forall|k: int| 0 <= k < i ==> #[trigger] same_header(a@[k], b@[k]),
        decreases a@.len() - i,
    {
        if !same_text(a[i].name.as_str(), b[i].name.as_str()) || !same_text(
            a[i].value.as_str(),
            b[i].value.as_str(),
        ) {
            assert(!same_header(a@[i as int], b@[i as int]));
            return false;
        }
        i = i + 1;
    }
    true
}

fn bytes_equal(x: &[u8], y: &[u8]) -> (same: bool)
    ensures
        same == (x@ == y@),
{
    if x.len() != y.len() {
        return false;
    }
    let mut i: usize = 0;
    while i < x.len()
        invariant
            i <= x@.len(),
            x@.len() == y@.len(),
            forall|k: int| 0 <= k < i ==> x@[k] == y@[k],
        decreases x@.len() - i,
    {
        if x[i] != y[i] {
            assert(x@[i as int] != y@[i as int]);
            return false;
        }
        i = i + 1;
    }
    assert(x@ =~= y@);
    true
}

fn bodies_equal(a: &Option<Vec<u8>>, b: &Option<Vec<u8>>) -> (same: bool)
    ensures
        same == (match (*a, *b) {
            (Some(x), Some(y)) => x@ == y@,
            (None, None) => true,
            _ => false,
        }),
{
    match (a, b) {
        (Some(x), Some(y)) => bytes_equal(x.as_slice(), y.as_slice()),
        (None, None) => true,
        _ => false,
    }
}

/// Whether `request` is the same request as `expected`.
pub open spec fn same_request(expected: HttpRequest, request: HttpRequest) -> bool {
    &&& expected.method == request.method
    &&& expected.url@ == request.url@
    &&& expected.range == request.range
    &&& same_headers(expected.headers@, request.headers@)
    &&& expected.max_body_bytes == request.max_body_bytes
    &&& match (expected.body, request.body) {
        (Some(x), Some(y)) => x@ == y@,
        (None, None) => true,
        _ => false,
    }
    &&& expected.timeout_ms == request.timeout_ms
}

/// The diagnostic text of a request: no URL, no header value, no body.
pub open spec fn request_debug(request: HttpRequest) -> Seq<char> {
    "HttpRequest { method: "@ + method_debug(request.method) + ", url: \"<redacted>\", range: "@
        + optional_range_debug(request.range) + ", header_count: "@ + decimal(
        request.headers@.len(),
    ) + ", max_body_bytes: "@ + decimal(request.max_body_bytes as nat) + ", body_length: "@
        + optional_number_debug(
        match request.body {
            Some(b) => Some(b@.len()),
            None => None,
        },
    ) + ", timeout_ms: "@ + optional_number_debug(
        match request.timeout_ms {
            Some(t) => Some(t as nat),
            None => None,
        },
    ) + " }"@
}

impl HttpRequest {
    /// A `HEAD` request: no range, no headers, no body accepted.
    pub fn head(url: &str) -> (request: HttpRequest)
        ensures
            request.method == HttpMethod::Head,
            request.url@ == url@,
            request.range is None,
            request.headers@.len() == 0,
            request.max_body_bytes == 0,
            request.body is None,
            request.timeout_ms is None,
    {
        HttpRequest {
            method: HttpMethod::Head,
            url: url.to_owned(),
            range: None,
            headers: Vec::new(),
            max_body_bytes: 0,
            body: None,
            timeout_ms: None,
        }
    }

    /// A ranged `GET` request accepting up to [`MAX_RESPONSE_BYTES`].
    pub fn range(url: &str, range: ByteRange) -> (request: HttpRequest)
        ensures
            request.method == HttpMethod::Get,
            request.url@ == url@,
            request.range == Some(range),
            request.headers@.len() == 0,
            request.max_body_bytes == MAX_RESPONSE_BYTES,
            request.body is None,
            request.timeout_ms is None,
    {
        HttpRequest {
            method: HttpMethod::Get,
            url: url.to_owned(),
            range: Some(range),
            headers: Vec::new(),
            max_body_bytes: MAX_RESPONSE_BYTES,
            body: None,
            timeout_ms: None,
        }
    }

    /// A `GET` request with the given headers and response budget.
    pub fn get(url: &str, headers: Vec<HttpHeader>, max_body_bytes: usize) -> (request: HttpRequest)
        ensures
            request.method == HttpMethod::Get,
            request.url@ == url@,
            request.range is None,
            request.headers@ == headers@,
            request.max_body_bytes == max_body_bytes,
            request.body is None,
            request.timeout_ms is None,
    {
        HttpRequest {
            method: HttpMethod::Get,
            url: url.to_owned(),
            range: None,
            headers,
            max_body_bytes,
            body: None,
            timeout_ms: None,
        }
    }

    /// A `POST` request carrying a JSON body, with a response budget and a
    /// timeout.
    pub fn post_json(
        url: &str,
        headers: Vec<HttpHeader>,
        body: Vec<u8>,
        max_body_bytes: usize,
        timeout_ms: u64,
    ) -> (request: HttpRequest)
        ensures
            request.method == HttpMethod::Post,
            request.url@ == url@,
            request.range is None,
            request.headers@ == headers@,
            request.max_body_bytes == max_body_bytes,
            request.body matches Some(b) && b@ == body@,
            request.timeout_ms == Some(timeout_ms),
    {
        HttpRequest {
            method: HttpMethod::Post,
            url: url.to_owned(),
            range: None,
            headers,
            max_body_bytes,
            body: Some(body),
            timeout_ms: Some(timeout_ms),
        }
    }

    /// Whether two requests are the same request.
    pub fn same_as(&self, other: &HttpRequest) -> (same: bool)
        ensures
            same == same_request(*self, *other),
    {
        self.method == other.method && same_text(self.url.as_str(), other.url.as_str())
            && self.range == other.range && headers_equal(&self.headers, &other.headers)
            && self.max_body_bytes == other.max_body_bytes && bodies_equal(&self.body, &other.body)
            && self.timeout_ms == other.timeout_ms
    }

    /// Diagnostic text: the method, the range, how many headers, the budget,
    /// the body's length and the timeout; never the URL, a header value or
    /// the body.
    pub fn debug_text(&self) -> (text: String)
        ensures
            text@ == request_debug(*self),
    {
        let mut text = String::from_str("HttpRequest { method: ");
        text.append(self.method.debug_text());
        text.append(", url: \"<redacted>\", range: ");
        match self.range {
            Some(r) => {
                text.append("Some(");
                text.append(r.debug_text().as_str());
                text.append(")");
            },
            None => {
                text.append("None");
            },
        }
        text.append(", header_count: ");
        text.append(decimal_text(self.headers.len() as u64).as_str());
        text.append(", max_body_bytes: ");
        text.append(decimal_text(self.max_body_bytes as u64).as_str());
        text.append(", body_length: ");
        let body_length = match &self.body {
            Some(b) => Some(b.len() as u64),
            None => None,
        };
        text.append(optional_number_text(body_length).as_str());
        text.append(", timeout_ms: ");
        text.append(optional_number_text(self.timeout_ms).as_str());
        text.append(" }");
        text
    }
}

#[derive(Clone, PartialEq, Eq)]
pub struct HttpHeader {
    pub name: String,
    pub value: String,
}

impl HttpHeader {
    /// Diagnostic text; the value is redacted, the name is shown.
    pub fn debug_text(&self) -> (text: String)
        ensures
            text@ == "HttpHeader { name: \""@ + self.name@ + "\", value: \"<redacted>\" }"@,
    {
        let mut text = String::from_str("HttpHeader { name: \"");
        text.append(self.name.as_str());
        text.append("\", value: \"<redacted>\" }");
        text
    }
}

#[derive(Clone, PartialEq, Eq)]
pub struct HttpResponse {
    pub status_code: u16,
    pub headers: Vec<HttpHeader>,
    pub body: Vec<u8>,
}

/// The index of the first header named `name`, compared ignoring ASCII
/// case, if there is one.
pub open spec fn first_header_named(headers: Seq<HttpHeader>, name: Seq<char>) -> Option<int> {
    if exists|i: int| 0 <= i < headers.len() && eq_ignore_ascii_case(#[trigger] headers[i].name@, name) {
        let i = choose|i: int|
            0 <= i < headers.len() && eq_ignore_ascii_case(#[trigger] headers[i].name@, name)
                && forall|k: int| 0 <= k < i ==> !eq_ignore_ascii_case(#[trigger] headers[k].name@, name);
        Some(i)
    } else {
        None
    }
}

/// Whether two strings are equal ignoring ASCII case.
pub fn text_eq_ignore_ascii_case(a: &str, b: &str) -> (same: bool)
    ensures
        same == eq_ignore_ascii_case(a@, b@),
{
    let x = chars_of(a);
    let y = chars_of(b);
    if x.len() != y.len() {
        return false;
    }
    let mut i: usize = 0;
    while i < x.len()
        invariant
            i <= x@.len(),
            x@.len() == y@.len(),
            x@ == a@,
            y@ == b@,
            forall|k: int| 0 <= k < i ==> ascii_lower(#[trigger] x@[k]) == ascii_lower(y@[k]),
        decreases x@.len() - i,
    {
        if lower_char(x[i]) != lower_char(y[i]) {
            return false;
        }
        i = i + 1;
    }
    true
}

fn lower_char(c: char) -> (lower: char)
    ensures
        lower == ascii_lower(c),
{
    if 'A' <= c && c <= 'Z' {
        ((c as u8) + 32) as char
    } else {
        c
    }
}

impl HttpResponse {
    /// The value of the first header named `name`, ignoring ASCII case.
    pub fn header(&self, name: &str) -> (value: Option<&str>)
        ensures
            match first_header_named(self.headers@, name@) {
                Some(i) => (value matches Some(v) && v@ == self.headers@[i].value@),
                None => value is None,
            },
    {
        let mut i: usize = 0;
        while i < self.headers.len()
            invariant
                i <= self.headers@.len(),
                forall|k: int|
                    0 <= k < i ==> !eq_ignore_ascii_case(#[trigger] self.headers@[k].name@, name@),
            decreases self.headers@.len() - i,
        {
            if text_eq_ignore_ascii_case(self.headers[i].name.as_str(), name) {
                proof {
                    let headers = self.headers@;
                    let j = i as int;
                    assert(eq_ignore_ascii_case(headers[j].name@, name@));
                    let c = choose|c: int|
                        0 <= c < headers.len() && eq_ignore_ascii_case(
                            #[trigger] headers[c].name@,
                            name@,
                        ) && forall|k: int|
                            0 <= k < c ==> !eq_ignore_ascii_case(#[trigger] headers[k].name@, name@);
                    if c < j {
                    } else if c > j {
                        assert(!eq_ignore_ascii_case(headers[j].name@, name@));
                    }
                    assert(c == j);
                }
                return Some(self.headers[i].value.as_str());
            }
            i = i + 1;
        }
        None
    }

    /// Diagnostic text: the status, how many headers, how long the body.
    pub fn debug_text(&self) -> (text: String)
        ensures
            text@ == "HttpResponse { status_code: "@ + decimal(self.status_code as nat)
                + ", header_count: "@ + decimal(self.headers@.len()) + ", body_length: "@
                + decimal(self.body@.len()) + " }"@,
    {
        let mut text = String::from_str("HttpResponse { status_code: ");
        text.append(decimal_text(self.status_code as u64).as_str());
        text.append(", header_count: ");
        text.append(decimal_text(self.headers.len() as u64).as_str());
        text.append(", body_length: ");
        text.append(decimal_text(self.body.len() as u64).as_str());
        text.append(" }");
        text
    }
}

/// Adapter failures contain no URL, header or body payload.
#[derive(Clone, Copy, Debug, PartialEq, Eq, Structural)]
pub enum HttpError {
    Transport,
    ResponseTooLarge,
}

impl HttpError {
    /// The human-readable text of the error.
    pub fn display_text(self) -> (text: &'static str)
        ensures
            text@ == (match self {
                HttpError::Transport => "transport error"@,
                HttpError::ResponseTooLarge => "response too large"@,
            }),
    {
        match self {
            HttpError::Transport => "transport error",
            HttpError::ResponseTooLarge => "response too large",
        }
    }
}

/// Performs one bounded request. Redirects are deliberately not part of this
/// trait: the application layer validates every redirect target.
///
/// `exchanges` is every request handed to the client so far, each with the
/// answer it got, in order: one more per call.
pub trait HttpClient {
    spec fn exchanges(&self) -> Seq<(HttpRequest, Result<HttpResponse, HttpError>)>;

    fn send(&mut self, request: HttpRequest) -> (response: Result<HttpResponse, HttpError>)
        ensures
            final(self).exchanges() == old(self).exchanges().push((request, response)),
    ;
}

/// A borrowed client is a client: its exchanges are those of the client it
/// borrows.
impl<'a, H: HttpClient> HttpClient for &'a mut H {
    open spec fn exchanges(&self) -> Seq<(HttpRequest, Result<HttpResponse, HttpError>)> {
        (**self).exchanges()
    }

    fn send(&mut self, request: HttpRequest) -> (response: Result<HttpResponse, HttpError>) {
        (**self).send(request)
    }
}

/// A deterministic in-memory response source: it answers the requests it
/// was given, in order, and refuses anything else.
pub struct FakeHttpClient {
    responses: Vec<(HttpRequest, Result<HttpResponse, HttpError>)>,
    exchanges: Ghost<Seq<(HttpRequest, Result<HttpResponse, HttpError>)>>,
}

impl FakeHttpClient {
    pub closed spec fn scripted(&self) -> Seq<(HttpRequest, Result<HttpResponse, HttpError>)> {
        self.responses@
    }

    pub fn new(responses: Vec<(HttpRequest, Result<HttpResponse, HttpError>)>) -> (client:
        FakeHttpClient)
        ensures
            client.scripted() == responses@,
            client.exchanges() == Seq::<(HttpRequest, Result<HttpResponse, HttpError>)>::empty(),
    {
        FakeHttpClient { responses, exchanges: Ghost(Seq::empty()) }
    }
}

/// Whether `request` is the scripted request `expected`.
pub open spec fn matches_script(expected: HttpRequest, request: HttpRequest) -> bool {
    same_request(expected, request)
}

impl HttpClient for FakeHttpClient {
    closed spec fn exchanges(&self) -> Seq<(HttpRequest, Result<HttpResponse, HttpError>)> {
        self.exchanges@
    }

    /// Answers the next scripted request with its scripted response; a
    /// request that is not the next scripted one, or one past the script, is
    /// a transport error and consumes nothing.
    fn send(&mut self, request: HttpRequest) -> (response: Result<HttpResponse, HttpError>)
        ensures
            old(self).scripted().len() == 0 ==> response == Err::<HttpResponse, HttpError>(
                HttpError::Transport,
            ) && final(self).scripted() == old(self).scripted(),
            old(self).scripted().len() > 0 && !matches_script(old(self).scripted()[0].0, request)
                ==> response == Err::<HttpResponse, HttpError>(HttpError::Transport)
                && final(self).scripted() == old(self).scripted(),
            old(self).scripted().len() > 0 && matches_script(old(self).scripted()[0].0, request)
                ==> response == old(self).scripted()[0].1
                && final(self).scripted() == old(self).scripted().drop_first(),
    {
        let ghost logged = request;
        let response = if self.responses.len() == 0 {
            Err(HttpError::Transport)
        } else if !self.responses[0].0.same_as(&request) {
            Err(HttpError::Transport)
        } else {
            let (_, response) = self.responses.remove(0);
            assert(self.responses@ =~= old(self).scripted().drop_first());
            response
        };
        proof {
            self.exchanges@ = self.exchanges@.push((logged, response));
        }
        response
    }
}

} // verus!
