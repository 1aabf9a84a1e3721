//! The request translator: from an inbound request to the request that is
//! sent to the backend.
use crate::config::{Config, ConfigMap};
use crate::header::{rewrite_headers, rewritten_headers, header_views, Header, InvalidHeader, Side};
use crate::text::{str_eq, strip_prefix};
use vstd::prelude::*;
use vstd::string::*;
use vstd::utf8::encode_utf8;

verus! {

/// Parameter name of the inbound connection's scheme.
pub const PARAM_SCHEME: &'static str = "scheme";

/// Parameter name of the inbound connection's authority.
pub const PARAM_HOST: &'static str = "host";

/// The path with the mount prefix removed from its start, once; the path
/// itself where it does not begin with the prefix.
pub open spec fn stripped_path(path: Seq<char>, base_url: Seq<char>) -> Seq<char> {
    if base_url.is_prefix_of(path) {
        path.skip(base_url.len() as int)
    } else {
        path
    }
}

/// The query as it is appended to a path: nothing for an empty query, the
/// query behind a question mark otherwise.
pub open spec fn query_suffix(query: Seq<char>) -> Seq<char> {
    if query.len() == 0 {
        Seq::empty()
    } else {
        seq!['?'] + query
    }
}

/// The path on the backend: the backend prefix, the stripped path, and the
/// query.
pub open spec fn outbound_path(config: Config, path: Seq<char>, query: Seq<char>) -> Seq<char> {
    config.proxy_base_url@ + stripped_path(path, config.base_url@) + query_suffix(query)
}

/// The URL on the backend: scheme, authority and outbound path.
pub open spec fn outbound_url(config: Config, path: Seq<char>, query: Seq<char>) -> Seq<char> {
    config.proxy_scheme@ + seq![':', '/', '/'] + config.proxy_host@ + outbound_path(
        config,
        path,
        query,
    )
}

/// Whether a request with the given method carries a body to the backend:
/// only `PATCH`, `POST` and `PUT` do.
pub open spec fn has_body(method: Seq<char>) -> bool {
    method == "PATCH"@ || method == "POST"@ || method == "PUT"@
}

/// The prefix is stripped at most once: of a path made of the prefix and a
/// remainder, the remainder is left, even where it begins with the prefix
/// again.
pub proof fn lemma_stripped_once(base_url: Seq<char>, rest: Seq<char>)
    ensures
        stripped_path(base_url + rest, base_url) == rest,
{
    let path = base_url + rest;
    assert(path.subrange(0, base_url.len() as int) =~= base_url);
    assert(path.skip(base_url.len() as int) =~= rest);
}

/// Removes the mount prefix from the start of the path.
pub fn strip_base_url<'a>(path: &'a str, base_url: &str) -> (r: &'a str)
    ensures
        r@ == stripped_path(path@, base_url@),
{
    match strip_prefix(path, base_url) {
        Some(rest) => {
            proof {
                lemma_stripped_once(base_url@, rest@);
            }
            rest
        },
        None => path,
    }
}

/// The path to ask the backend for.
pub fn proxy_path(config: &Config, path: &str, query: &str) -> (r: String)
    ensures
        r@ == outbound_path(*config, path@, query@),
{
    let mut out = config.proxy_base_url.clone();
    out.append(strip_base_url(path, config.base_url.as_str()));
    if !query.is_empty() {
        proof {
            reveal_strlit("?");
        }
        out.append("?");
        out.append(query);
        assert(out@ =~= outbound_path(*config, path@, query@));
    } else {
        assert(out@ =~= outbound_path(*config, path@, query@));
    }
    out
}

/// The URL to ask the backend for.
pub fn proxy_url(config: &Config, path: &str, query: &str) -> (r: String)
    ensures
        r@ == outbound_url(*config, path@, query@),
{
    let mut out = config.proxy_scheme.clone();
    proof {
        reveal_strlit("://");
    }
    out.append("://");
    out.append(config.proxy_host.as_str());
    let tail = proxy_path(config, path, query);
    out.append(tail.as_str());
    assert("://"@ =~= seq![':', '/', '/']);
    out
}

/// The tail of the route pattern, which matches every remainder of a path.
pub const ROUTE_TAIL: &'static str = "{path:.*}";

/// The pattern of the one route that the proxy serves: every path under the
/// mount path, whatever the method.
pub fn route_pattern(config: &Config) -> (r: String)
    ensures
        r@ == config.base_url@ + ROUTE_TAIL@,
{
    let mut out = config.base_url.clone();
    out.append(ROUTE_TAIL);
    out
}

/// Whether the body of a request with the given method is read and
/// forwarded.
pub fn forwards_body(method: &str) -> (r: bool)
    ensures
        r == has_body(method@),
{
    str_eq(method, "PATCH") || str_eq(method, "POST") || str_eq(method, "PUT")
}

/// The parameter map of one request: a copy of the base map, extended with
/// the scheme and the authority of the inbound connection.
pub fn request_params(base: &ConfigMap, scheme: &str, host: &str) -> (r: ConfigMap)
    ensures
        r@ == base@.insert(PARAM_SCHEME@, scheme@).insert(PARAM_HOST@, host@),
{
    let mut map = base.clone();
    map.insert(PARAM_SCHEME.to_owned(), scheme.to_owned());
    map.insert(PARAM_HOST.to_owned(), host.to_owned());
    map
}

/// The request that is sent to the backend.
#[derive(Debug)]
pub struct OutboundRequest {
    /// The URL on the backend.
    pub url: String,
    /// The headers to send, in order.
    pub headers: Vec<Header>,
    /// Whether the inbound body is read and attached.
    pub with_body: bool,
}

/// Translates an inbound request: the URL on the backend, the headers with
/// the client's host replaced by the backend's, and the body policy. Fails
/// on the first header whose value cannot be patched.
pub fn translate_request(
    config: &Config,
    method: &str,
    path: &str,
    query: &str,
    headers: &Vec<Header>,
    host: &str,
    compression: bool,
) -> (r: Result<OutboundRequest, InvalidHeader>)
    ensures
        match r {
            Ok(out) => {
                &&& out.url@ == outbound_url(*config, path@, query@)
                &&& out.with_body == has_body(method@)
                &&& rewritten_headers(
                    Side::Request { compression },
                    header_views(headers@),
                    encode_utf8(host@),
                    encode_utf8(config.proxy_host@),
                ) == Ok::<Seq<(Seq<char>, Seq<u8>)>, Seq<char>>(header_views(out.headers@))
            },
            Err(e) => rewritten_headers(
                Side::Request { compression },
                header_views(headers@),
                encode_utf8(host@),
                encode_utf8(config.proxy_host@),
            ) == Err::<Seq<(Seq<char>, Seq<u8>)>, Seq<char>>(e.name@),
        },
{
    let url = proxy_url(config, path, query);
    let side = Side::Request { compression };
    match rewrite_headers(side, headers, host, config.proxy_host.as_str()) {
        Ok(rewritten) => Ok(
            OutboundRequest { url, headers: rewritten, with_body: forwards_body(method) },
        ),
        Err(e) => Err(e),
    }
}

} // verus!
