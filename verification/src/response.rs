//! The response translator: from the backend's response to the response
//! that the client is sent.
//!
//! Content types are parsed by the `mime` crate. What it makes of a content
//! type is named by [`mime_subtype`].
use crate::body::{failure_text, BodyError};
use crate::config::ConfigMap;
use crate::filters::templates::ResponseFilter;
use crate::header::{
    check_text, find_header, first_value, header_views, is_text, rewrite_headers,
    rewritten_headers, Header, InvalidHeader, Side, CONTENT_TYPE,
};
use crate::text::{ascii_chars, is_ascii_bytes, lemma_ascii_encoding, lemma_encode_injective, str_eq};
use vstd::prelude::*;
use vstd::string::*;
use vstd::utf8::{encode_utf8, valid_utf8};

verus! {

/// The status of every response that reports a failure of the proxy itself.
pub const FAILURE_STATUS: u16 = 403;

/// The subtype that routes a body through the filters.
pub const HTML: &'static str = "html";

/// The subtype of a content type as `mime::Mime` parses it, in lower case
/// and without a `+suffix`; `None` where the content type does not parse.
pub uninterp spec fn mime_subtype(content_type: Seq<char>) -> Option<Seq<char>>;

/// Parses a content type with `Mime::from_str` and hands out the subtype
/// (`Mime::subtype`, `Name::as_str`), or the error's text (its `Display`).
///
/// Trusted: the subtype is the one that [`mime_subtype`] names, and an error
/// comes exactly where it names none. Nothing is claimed of the error's text.
#[verifier::external_body]
fn parse_subtype(content_type: &str) -> (r: Result<String, String>)
    ensures
        match r {
            Ok(subtype) => mime_subtype(content_type@) == Some(subtype@),
            Err(_) => mime_subtype(content_type@) is None,
        },
{
    match content_type.parse::<::mime::Mime>() {
        Ok(mime) => Ok(mime.subtype().as_str().to_owned()),
        Err(e) => Err(e.to_string()),
    }
}

/// Reads bytes as a string, through `core::str::from_utf8`.
///
/// Trusted: it succeeds exactly on well-formed UTF-8, and the string it
/// returns is the one that the bytes encode.
#[verifier::external_body]
fn utf8_text(bytes: &[u8]) -> (r: Option<&str>)
    ensures
        r is Some <==> valid_utf8(bytes@),
        r matches Some(text) ==> encode_utf8(text@) == bytes@,
{
    core::str::from_utf8(bytes).ok()
}

/// How a response body reaches the client.
#[derive(Clone, Copy, Debug, PartialEq, Eq, Structural)]
pub enum BodyRoute {
    /// Read in full as text and passed through the filter chain.
    Filter,
    /// Streamed through unmodified.
    PassThrough,
}

/// Why a content type could not be classified.
#[derive(Debug)]
pub enum ContentTypeError {
    /// The header value cannot be read as text.
    NotText,
    /// The content type does not parse; the parser's report is attached.
    Unparsable(String),
}

impl ContentTypeError {
    /// A one-line description.
    pub fn message(&self) -> (r: String)
        ensures
            r@ == match *self {
                ContentTypeError::NotText =>
                    "failed to parse the response content type as string: failed to convert header to a str"@,
                ContentTypeError::Unparsable(cause) => "failed to parse the response content type: "@
                    + cause@,
            },
    {
        match self {
            ContentTypeError::NotText =>
                "failed to parse the response content type as string: failed to convert header to a str".to_owned(),
            ContentTypeError::Unparsable(cause) => {
                let mut out = "failed to parse the response content type: ".to_owned();
                out.append(cause.as_str());
                out
            },
        }
    }
}

/// The route for a parsed subtype: the filters for `html`, pass-through for
/// every other.
pub open spec fn route_of(subtype: Seq<char>) -> BodyRoute {
    if subtype == HTML@ {
        BodyRoute::Filter
    } else {
        BodyRoute::PassThrough
    }
}

/// The route for a response with the given content type header, `None` for
/// a response without one: pass-through without the header, the route of
/// the subtype with it. `Err(true)` where the value cannot be read as text,
/// `Err(false)` where it does not parse.
pub open spec fn classified(content_type: Option<Seq<u8>>) -> Result<BodyRoute, bool> {
    match content_type {
        None => Ok(BodyRoute::PassThrough),
        Some(value) => if !is_text(value) {
            Err(true)
        } else {
            match mime_subtype(ascii_chars(value)) {
                Some(subtype) => Ok(route_of(subtype)),
                None => Err(false),
            }
        },
    }
}

/// The route for the outcome of parsing a content type: the subtype's route,
/// or the failure with the parser's report.
pub fn route_of_subtype(parsed: Result<String, String>) -> (r: Result<BodyRoute, ContentTypeError>)
    ensures
        match parsed {
            Ok(subtype) => r == Ok::<BodyRoute, ContentTypeError>(route_of(subtype@)),
            Err(cause) => r matches Err(ContentTypeError::Unparsable(text)) && text@ == cause@,
        },
{
    match parsed {
        Ok(subtype) => if str_eq(subtype.as_str(), HTML) {
            Ok(BodyRoute::Filter)
        } else {
            Ok(BodyRoute::PassThrough)
        },
        Err(cause) => Err(ContentTypeError::Unparsable(cause)),
    }
}

/// Text bytes are ASCII.
proof fn lemma_text_is_ascii(value: Seq<u8>)
    requires
        is_text(value),
    ensures
        is_ascii_bytes(value),
{
    assert forall|i: int| 0 <= i < value.len() implies #[trigger] value[i] < 128 by {
        assert(crate::header::is_text_byte(value[i]));
    }
}

/// Classifies a response by its content type header.
pub fn classify(content_type: Option<&[u8]>) -> (r: Result<BodyRoute, ContentTypeError>)
    ensures
        match r {
            Ok(route) => classified(content_type_view(content_type)) == Ok::<BodyRoute, bool>(route),
            Err(ContentTypeError::NotText) => classified(content_type_view(content_type)) == Err::<
                BodyRoute,
                bool,
            >(true),
            Err(ContentTypeError::Unparsable(_)) => classified(content_type_view(content_type))
                == Err::<BodyRoute, bool>(false),
        },
{
    let value = match content_type {
        None => {
            return Ok(BodyRoute::PassThrough);
        },
        Some(value) => value,
    };
    if !check_text(value) {
        return Err(ContentTypeError::NotText);
    }
    proof {
        lemma_text_is_ascii(value@);
        lemma_ascii_encoding(value@);
    }
    match utf8_text(value) {
        Some(text) => {
            proof {
                lemma_encode_injective(text@, ascii_chars(value@));
            }
            route_of_subtype(parse_subtype(text))
        },
        None => Err(ContentTypeError::NotText),
    }
}

/// The bytes of an optional header value.
pub open spec fn content_type_view(content_type: Option<&[u8]>) -> Option<Seq<u8>> {
    match content_type {
        Some(value) => Some(value@),
        None => None,
    }
}

/// A failure of the proxy itself. Each is answered with a plain-text
/// response of status [`FAILURE_STATUS`] and ends the request.
#[derive(Debug)]
pub enum ProxyError {
    /// A header value could not be rewritten.
    Header(InvalidHeader),
    /// The request body was not relayed.
    Body(BodyError),
    /// The backend could not be reached; `path` is the path that was asked
    /// for, without the mount prefix.
    Upstream { path: String, cause: String },
    /// The content type of the response could not be classified.
    ContentType(ContentTypeError),
    /// The body of an HTML response could not be read as text.
    BodyDecode(String),
}

impl ProxyError {
    /// The status of the response.
    pub fn status(&self) -> (r: u16)
        ensures
            r == FAILURE_STATUS,
    {
        FAILURE_STATUS
    }

    /// The text of the response, which names the stage that failed.
    pub open spec fn text(&self) -> Seq<char> {
        match *self {
            ProxyError::Header(e) => "invalid header: "@ + e.name@,
            ProxyError::Body(e) => failure_text(e@),
            ProxyError::Upstream { path, cause } => "failed to find the url (/"@ + path@ + "): "@
                + cause@,
            ProxyError::ContentType(ContentTypeError::NotText) =>
                "failed to parse the response content type as string: failed to convert header to a str"@,
            ProxyError::ContentType(ContentTypeError::Unparsable(cause)) =>
                "failed to parse the response content type: "@ + cause@,
            ProxyError::BodyDecode(cause) => "failed to parse the response body as string: "@
                + cause@,
        }
    }

    /// The text of the response.
    pub fn message(&self) -> (r: String)
        ensures
            r@ == self.text(),
    {
        match self {
            ProxyError::Header(e) => e.message(),
            ProxyError::Body(e) => e.message(),
            ProxyError::Upstream { path, cause } => {
                let mut out = "failed to find the url (/".to_owned();
                out.append(path.as_str());
                out.append("): ");
                out.append(cause.as_str());
                out
            },
            ProxyError::ContentType(e) => e.message(),
            ProxyError::BodyDecode(cause) => {
                let mut out = "failed to parse the response body as string: ".to_owned();
                out.append(cause.as_str());
                out
            },
        }
    }
}

/// What the client is sent, but for the body.
#[derive(Debug)]
pub struct ResponsePlan {
    /// The headers to send, in order.
    pub headers: Vec<Header>,
    /// How the body reaches the client.
    pub route: BodyRoute,
    /// The length to announce for a body that is streamed through.
    pub content_length: Option<u64>,
}

/// The length hint of a response: the backend's, for a body that is
/// streamed through; none for a body that is rewritten.
pub open spec fn length_hint(route: BodyRoute, content_length: Option<u64>) -> Option<u64> {
    match route {
        BodyRoute::PassThrough => content_length,
        BodyRoute::Filter => None,
    }
}

/// Translates the head of the backend's response: the headers with the
/// backend's host replaced by the client's, the route of the body by the
/// content type, and the length hint. Header rewriting comes first, so an
/// unpatchable header is reported before a bad content type.
pub fn translate_response(
    headers: &Vec<Header>,
    content_length: Option<u64>,
    proxy_host: &str,
    host: &str,
) -> (r: Result<ResponsePlan, ProxyError>)
    ensures
        match rewritten_headers(
            Side::Response,
            header_views(headers@),
            encode_utf8(proxy_host@),
            encode_utf8(host@),
        ) {
            Err(name) => r matches Err(ProxyError::Header(e)) && e.name@ == name,
            Ok(rewritten) => match classified(first_value(header_views(headers@), CONTENT_TYPE@)) {
                Err(not_text) => r matches Err(ProxyError::ContentType(e)) && (e
                    is NotText <==> not_text),
                Ok(route) => r matches Ok(plan) && header_views(plan.headers@) == rewritten
                    && plan.route == route && plan.content_length == length_hint(
                    route,
                    content_length,
                ),
            },
        },
{
    let rewritten = match rewrite_headers(Side::Response, headers, proxy_host, host) {
        Ok(rewritten) => rewritten,
        Err(e) => {
            return Err(ProxyError::Header(e));
        },
    };
    let content_type = match find_header(headers, CONTENT_TYPE) {
        Some(header) => Some(header.value.as_slice()),
        None => None,
    };
    match classify(content_type) {
        Ok(route) => {
            let hint = match route {
                BodyRoute::PassThrough => content_length,
                BodyRoute::Filter => None,
            };
            Ok(ResponsePlan { headers: rewritten, route, content_length: hint })
        },
        Err(e) => Err(ProxyError::ContentType(e)),
    }
}

/// The body of an HTML response as the client gets it: the text passed
/// through the filters with the request's parameters, or the failure to read
/// the body as text.
pub fn filter_body<F: ResponseFilter>(
    filters: &F,
    params: &ConfigMap,
    body: Result<String, String>,
) -> (r: Result<String, ProxyError>)
    ensures
        match body {
            Ok(text) => r matches Ok(out) && out@ == filters.filtered(params@, text@),
            Err(cause) => r matches Err(ProxyError::BodyDecode(text)) && text@ == cause@,
        },
{
    match body {
        Ok(text) => Ok(filters.filter(params, text)),
        Err(cause) => Err(ProxyError::BodyDecode(cause)),
    }
}

} // verus!
