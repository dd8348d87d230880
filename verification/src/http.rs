//! HTTP helpers: the `Range` request header, the headers a response answers
//! with, and the errors of a failed request.
use vstd::prelude::*;

use reqwest::header::HeaderMap;
use reqwest::Error as ReqwestError;

use crate::text::{decimal, parse_u64, parse_u64_spec, push_decimal, str_eq};

verus! {

/// Header maps of the `http` crate, as re-exported by `reqwest`.
#[verifier::external_type_specification]
#[verifier::external_body]
#[verifier::reject_recursive_types(T)]
pub struct ExHeaderMap<T>(HeaderMap<T>);

/// Header values of the `http` crate, as re-exported by `reqwest`.
#[verifier::external_type_specification]
#[verifier::external_body]
pub struct ExHeaderValue(reqwest::header::HeaderValue);

/// Errors of `reqwest`.
#[verifier::external_type_specification]
#[verifier::external_body]
pub struct ExReqwestError(ReqwestError);

/// Responses of `reqwest`.
#[verifier::external_type_specification]
#[verifier::external_body]
pub struct ExReqwestResponse(reqwest::Response);

/// The name of the HTTP range header.
pub const RANGE_HEADER_KEY: &'static str = "Range";

/// The content type of a response: a top-level type such as `audio` and a
/// subtype such as `mpeg`.
#[derive(Clone, Debug, PartialEq, Eq)]
pub struct ContentType {
    /// The top-level type.
    pub ty: String,
    /// The subtype.
    pub subtype: String,
}

/// The type and subtype that `mediatype` reads from a `Content-Type` value,
/// or `None` when it does not parse.
pub uninterp spec fn media_type_parts(value: Seq<char>) -> Option<(Seq<char>, Seq<char>)>;

/// Calls `<MediaTypeBuf as FromStr>::from_str` and keeps the type and subtype
/// (`MediaTypeBuf::ty` and `MediaTypeBuf::subty`) of a value that parses.
#[verifier::external_body]
fn parse_media_type(value: &str) -> (r: Option<ContentType>)
    ensures
        match r {
            Some(ct) => media_type_parts(value@) == Some((ct.ty@, ct.subtype@)),
            None => media_type_parts(value@) is None,
        },
{
    match value.parse::<mediatype::MediaTypeBuf>() {
        Ok(m) => Some(ContentType { ty: m.ty().to_string(), subtype: m.subty().to_string() }),
        Err(_) => None,
    }
}

/// The content type announced by a `Content-Type` header value: none when the
/// header is missing or does not parse as a media type.
pub fn content_type_from_header(value: Option<&str>) -> (r: Option<ContentType>)
    ensures
        match value {
            None => r is None,
            Some(v) => match r {
                Some(ct) => media_type_parts(v@) == Some((ct.ty@, ct.subtype@)),
                None => media_type_parts(v@) is None,
            },
        },
{
    match value {
        None => None,
        Some(v) => parse_media_type(v),
    }
}

/// The content length announced by a `Content-Length` header value: the value
/// read as an unsigned integer, or none when it is missing or invalid.
pub fn parse_content_length(value: Option<&str>) -> (r: Option<u64>)
    ensures
        r == match value {
            Some(v) => parse_u64_spec(v@),
            None => None,
        },
{
    match value {
        Some(v) => parse_u64(v),
        None => None,
    }
}

/// A way to read single headers of a response.
pub trait ResponseHeaders {
    /// The value of the header `name`, if present and readable as a string.
    fn header(&self, name: &str) -> Option<&str>;
}

/// The bytes of the value that `HeaderMap::get` finds under the header name
/// `key` (the first value of that name; names match without regard to case),
/// or none when there is no such header or `key` is no valid header name.
pub uninterp spec fn header_bytes(headers: HeaderMap, key: Seq<char>) -> Option<Seq<u8>>;

/// Whether a byte of a header value is visible ASCII or a tab.
pub open spec fn visible_ascii(b: u8) -> bool {
    (32 <= b && b < 127) || b == 9
}

/// A header value read as a string: its bytes as characters when all of them
/// are visible ASCII or tabs, else none.
pub open spec fn header_text(bytes: Seq<u8>) -> Option<Seq<char>> {
    if forall|i: int| 0 <= i < bytes.len() ==> visible_ascii(#[trigger] bytes[i]) {
        Some(Seq::new(bytes.len(), |i: int| bytes[i] as char))
    } else {
        None
    }
}

/// The value of the header `key` read as a string, when present and readable.
pub open spec fn header_str(headers: HeaderMap, key: Seq<char>) -> Option<Seq<char>> {
    match header_bytes(headers, key) {
        Some(b) => header_text(b),
        None => None,
    }
}

/// Calls `HeaderMap::get` and `HeaderValue::to_str`: the value found under
/// `key`, when there is one and all its bytes are visible ASCII or tabs.
#[verifier::external_body]
fn get_header_str<'a>(headers: &'a HeaderMap, key: &str) -> (r: Option<&'a str>)
    ensures
        match header_bytes(*headers, key@) {
            Some(b) => header_text(b) == match r {
                Some(s) => Some(s@),
                None => None::<Seq<char>>,
            },
            None => r is None,
        },
{
    match headers.get(key) {
        Some(value) => match value.to_str() {
            Ok(s) => Some(s),
            Err(_) => None,
        },
        None => None,
    }
}

impl ResponseHeaders for HeaderMap {
    fn header(&self, name: &str) -> (r: Option<&str>)
        ensures
            header_str(*self, name@) == match r {
                Some(s) => Some(s@),
                None => None::<Seq<char>>,
            },
    {
        get_header_str(self, name)
    }
}

/// The characters of `content-length`.
pub open spec fn content_length_key() -> Seq<char> {
    seq!['c', 'o', 'n', 't', 'e', 'n', 't', '-', 'l', 'e', 'n', 'g', 't', 'h']
}

/// The characters of `content-type`.
pub open spec fn content_type_key() -> Seq<char> {
    seq!['c', 'o', 'n', 't', 'e', 'n', 't', '-', 't', 'y', 'p', 'e']
}

/// The characters of `Accept-Ranges`.
pub open spec fn accept_ranges_key() -> Seq<char> {
    seq!['A', 'c', 'c', 'e', 'p', 't', '-', 'R', 'a', 'n', 'g', 'e', 's']
}

/// The content length a response announces in its `Content-Length` header:
/// none when the header is missing, unreadable or no unsigned integer.
pub fn header_content_length(headers: &HeaderMap) -> (r: Option<u64>)
    ensures
        r == match header_str(*headers, content_length_key()) {
            Some(v) => parse_u64_spec(v),
            None => None,
        },
{
    let key = "content-length";
    proof {
        reveal_strlit("content-length");
    }
    assert(key@ =~= content_length_key());
    parse_content_length(get_header_str(headers, key))
}

/// The content type a response announces in its `Content-Type` header: none
/// when the header is missing, unreadable or no media type.
pub fn header_content_type(headers: &HeaderMap) -> (r: Option<ContentType>)
    ensures
        match header_str(*headers, content_type_key()) {
            None => r is None,
            Some(v) => match r {
                Some(ct) => media_type_parts(v) == Some((ct.ty@, ct.subtype@)),
                None => media_type_parts(v) is None,
            },
        },
{
    let key = "content-type";
    proof {
        reveal_strlit("content-type");
    }
    assert(key@ =~= content_type_key());
    content_type_from_header(get_header_str(headers, key))
}

/// Whether a response accepts range requests: its `Accept-Ranges` header is
/// present and is not `none`.
pub fn supports_range_request(headers: &HeaderMap) -> (r: bool)
    ensures
        r == match header_str(*headers, accept_ranges_key()) {
            Some(v) => v != none_chars(),
            None => false,
        },
{
    let key = "Accept-Ranges";
    proof {
        reveal_strlit("Accept-Ranges");
    }
    assert(key@ =~= accept_ranges_key());
    accepts_ranges(get_header_str(headers, key))
}

/// The characters of `none`.
pub open spec fn none_chars() -> Seq<char> {
    seq!['n', 'o', 'n', 'e']
}

/// Whether a response accepts range requests, from its `Accept-Ranges` value:
/// it does when the header is present and is not `none`.
pub fn accepts_ranges(accept_ranges: Option<&str>) -> (r: bool)
    ensures
        r == match accept_ranges {
            Some(v) => v@ != none_chars(),
            None => false,
        },
{
    match accept_ranges {
        Some(v) => {
            let mut none = String::new();
            none.push('n');
            none.push('o');
            none.push('n');
            none.push('e');
            assert(none@ =~= none_chars());
            !str_eq(v, none.as_str())
        },
        None => false,
    }
}

/// The characters of `bytes=`.
pub open spec fn bytes_eq_chars() -> Seq<char> {
    seq!['b', 'y', 't', 'e', 's', '=']
}

/// Formats a range header value for bytes, such as `bytes=200-400`, or
/// `bytes=200-` with no end.
pub fn format_range_header_bytes(start: u64, end: Option<u64>) -> (r: String)
    ensures
        r@ == bytes_eq_chars() + decimal(start as nat) + seq!['-'] + match end {
            Some(e) => decimal(e as nat),
            None => Seq::<char>::empty(),
        },
{
    let mut s = String::new();
    s.push('b');
    s.push('y');
    s.push('t');
    s.push('e');
    s.push('s');
    s.push('=');
    assert(s@ =~= bytes_eq_chars());
    push_decimal(&mut s, start);
    s.push('-');
    match end {
        Some(e) => {
            push_decimal(&mut s, e);
        },
        None => {
            assert(s@ =~= s@ + Seq::<char>::empty());
        },
    }
    s
}

/// What a seek to a range of an HTTP stream sends.
#[derive(Clone, Copy, Debug, PartialEq, Eq)]
pub enum RangeRequest {
    /// The range starts at the end of the stream: nothing is left to fetch.
    EmptyStream,
    /// Request from `start`, up to the inclusive `end` when given.
    Request { start: u64, end: Option<u64> },
}

/// Turns a seek to `[start, end)` into a range request: a start at the content
/// length yields an empty stream; otherwise the exclusive end becomes the
/// inclusive end that HTTP expects.
pub fn range_request(start: u64, end: Option<u64>, content_length: Option<u64>) -> (r: RangeRequest)
    requires
        content_length == Some(start) || end != Some(0u64),
    ensures
        r == if content_length == Some(start) {
            RangeRequest::EmptyStream
        } else {
            RangeRequest::Request {
                start,
                end: match end {
                    Some(e) => Some((e - 1) as u64),
                    None => None,
                },
            }
        },
{
    let at_end = match content_length {
        Some(len) => len == start,
        None => false,
    };
    if at_end {
        return RangeRequest::EmptyStream;
    }
    let end = match end {
        Some(e) => Some(e - 1),
        None => None,
    };
    RangeRequest::Request { start, end }
}

/// The text `<reqwest::Error as Display>::fmt` writes for an error.
pub uninterp spec fn error_display(error: ReqwestError) -> Seq<char>;

/// Calls `<reqwest::Error as Display>::fmt`: the text of the error.
#[verifier::external_body]
fn error_text(error: &ReqwestError) -> (r: String)
    ensures
        r@ == error_display(*error),
{
    format!("{error}")
}

/// The error of an HTTP request that got an unsuccessful response.
#[derive(Debug)]
pub struct FetchError {
    source: ReqwestError,
    response: reqwest::Response,
}

impl FetchError {
    /// The underlying error.
    pub closed spec fn spec_source(&self) -> ReqwestError {
        self.source
    }

    /// The response.
    pub closed spec fn spec_response(&self) -> reqwest::Response {
        self.response
    }

    /// Creates the error from the status error and the response.
    pub fn new(source: ReqwestError, response: reqwest::Response) -> (r: Self)
        ensures
            r.spec_source() == source,
            r.spec_response() == response,
    {
        FetchError { source, response }
    }

    /// Error source.
    pub fn source(&self) -> (r: &ReqwestError)
        ensures
            *r == self.spec_source(),
    {
        &self.source
    }

    /// Http response.
    pub fn response(&self) -> (r: &reqwest::Response)
        ensures
            *r == self.spec_response(),
    {
        &self.response
    }

    /// The message of the error: `Failed to fetch: ` followed by the text of
    /// the underlying error.
    pub fn message(&self) -> (r: String)
        ensures
            r@ == "Failed to fetch: "@ + error_display(self.spec_source()),
    {
        let mut out = String::from_str("Failed to fetch: ");
        let text = error_text(&self.source);
        out.append(text.as_str());
        out
    }

    /// Gives back the error and the response.
    pub fn into_parts(self) -> (r: (ReqwestError, reqwest::Response))
        ensures
            r.0 == self.spec_source(),
            r.1 == self.spec_response(),
    {
        (self.source, self.response)
    }
}

/// Whether an HTTP status is a client or a server error (4xx or 5xx).
pub open spec fn is_error_status(status: u16) -> bool {
    400 <= status <= 599
}

/// The status code of a response, as `Response::status` and
/// `StatusCode::as_u16` read it.
pub uninterp spec fn response_status(response: reqwest::Response) -> u16;

/// A response together with its status code, read from it when it arrived.
#[derive(Debug)]
pub struct HttpResponse {
    response: reqwest::Response,
    status: u16,
}

/// Calls `Response::status` and `StatusCode::as_u16`, and keeps the code
/// beside the response.
#[verifier::external_body]
fn with_status(response: reqwest::Response) -> (r: HttpResponse)
    ensures
        r.spec_response() == response,
        r.spec_status() == response_status(response),
{
    let status = response.status().as_u16();
    HttpResponse { response, status }
}

/// Calls `Response::error_for_status_ref`, which makes an error exactly when
/// the status is a client or server error (4xx or 5xx).
#[verifier::external_body]
fn status_error(response: &HttpResponse) -> (r: Option<ReqwestError>)
    ensures
        r is Some <==> is_error_status(response_status(response.spec_response())),
{
    match response.response.error_for_status_ref() {
        Ok(_) => None,
        Err(e) => Some(e),
    }
}

impl HttpResponse {
    /// The response.
    pub closed spec fn spec_response(&self) -> reqwest::Response {
        self.response
    }

    /// The status code.
    pub closed spec fn spec_status(&self) -> u16 {
        self.status
    }

    /// The status kept is the response's own.
    #[verifier::type_invariant]
    closed spec fn status_is_the_responses(self) -> bool {
        self.status == response_status(self.response)
    }

    /// Reads the status of a response that arrived.
    pub fn new(response: reqwest::Response) -> (r: Self)
        ensures
            r.spec_response() == response,
            r.spec_status() == response_status(response),
    {
        with_status(response)
    }

    /// The status code.
    pub fn status(&self) -> (r: u16)
        ensures
            r == self.spec_status(),
    {
        self.status
    }

    /// The response.
    pub fn into_response(self) -> (r: reqwest::Response)
        ensures
            r == self.spec_response(),
    {
        self.response
    }
}

/// Turns a response with an error status (4xx or 5xx) into a [`FetchError`]
/// that keeps the response (so that its body can still be read); any other
/// response is handed back as it is.
pub fn into_result(response: HttpResponse) -> (r: Result<reqwest::Response, FetchError>)
    ensures
        match r {
            Ok(resp) => resp == response.spec_response() && !is_error_status(response.spec_status()),
            Err(e) => e.spec_response() == response.spec_response() && is_error_status(
                response.spec_status(),
            ),
        },
{
    proof {
        use_type_invariant(&response);
    }
    match status_error(&response) {
        Some(error) => Err(FetchError::new(error, response.into_response())),
        None => Ok(response.into_response()),
    }
}

} // verus!
