//! Header rewriting in both directions: which headers are dropped, which have
//! the host patched, and which pass through.
//!
//! Header names are taken in lower case, the form in which HTTP libraries hand
//! them out. Header values are bytes.
//!
//! Host patching is a plain substring substitution. It is right only as long
//! as the host string does not occur in a value as part of something else.
use crate::text::{append_bytes, replace_all, replace_bytes, str_eq, lemma_replace_whole};
use vstd::prelude::*;
use vstd::string::*;
use vstd::utf8::encode_utf8;

verus! {

/// The encodings that the client accepts.
pub const ACCEPT_ENCODING: &'static str = "accept-encoding";

/// The hop-by-hop connection options.
pub const CONNECTION: &'static str = "connection";

/// The encoding of the body, which no longer holds once the body is rewritten.
pub const CONTENT_ENCODING: &'static str = "content-encoding";

/// The length of the body, which no longer holds once the body is rewritten.
pub const CONTENT_LENGTH: &'static str = "content-length";

/// The content security policy, which no longer fits once hosts are replaced.
pub const CONTENT_SECURITY_POLICY: &'static str = "content-security-policy";

/// The media type of the body.
pub const CONTENT_TYPE: &'static str = "content-type";

/// The authority that the request is addressed to.
pub const HOST: &'static str = "host";

/// The origin that the request comes from.
pub const ORIGIN: &'static str = "origin";

/// The page that the request was made from.
pub const REFERER: &'static str = "referer";

/// The host that an earlier proxy was asked for.
pub const X_FORWARDED_HOST: &'static str = "x-forwarded-host";

/// One header line.
#[derive(Debug)]
pub struct Header {
    /// The name, in lower case.
    pub name: String,
    /// The value.
    pub value: Vec<u8>,
}

impl View for Header {
    type V = (Seq<char>, Seq<u8>);

    open spec fn view(&self) -> (Seq<char>, Seq<u8>) {
        (self.name@, self.value@)
    }
}

/// The name and value of each header of a list.
pub open spec fn header_views(headers: Seq<Header>) -> Seq<(Seq<char>, Seq<u8>)> {
    headers.map_values(|h: Header| h@)
}

/// A header whose value cannot be rewritten.
#[derive(Debug)]
pub struct InvalidHeader {
    /// The name of the header.
    pub name: String,
}

impl InvalidHeader {
    /// A one-line description naming the header.
    pub fn message(&self) -> (r: String)
        ensures
            r@ == "invalid header: "@ + self.name@,
    {
        let mut out = "invalid header: ".to_owned();
        out.append(self.name.as_str());
        out
    }
}

/// A byte that may stand in a value that is read as text: visible ASCII,
/// space or tab.
pub open spec fn is_text_byte(b: u8) -> bool {
    (32 <= b && b < 127) || b == 9
}

/// A byte that may stand in a header value: anything but the control
/// characters, tab excepted.
pub open spec fn is_value_byte(b: u8) -> bool {
    (32 <= b && b != 127) || b == 9
}

/// Whether a value can be read as text.
pub open spec fn is_text(value: Seq<u8>) -> bool {
    forall|i: int| 0 <= i < value.len() ==> is_text_byte(#[trigger] value[i])
}

/// Whether the bytes form a header value.
pub open spec fn is_value(value: Seq<u8>) -> bool {
    forall|i: int| 0 <= i < value.len() ==> is_value_byte(#[trigger] value[i])
}

/// The value with every occurrence of `from` replaced by `to`. `None` where
/// the value cannot be read as text, or where the result is no header value.
pub open spec fn patched(value: Seq<u8>, from: Seq<u8>, to: Seq<u8>) -> Option<Seq<u8>> {
    if is_text(value) && is_value(replace_all(value, from, to)) {
        Some(replace_all(value, from, to))
    } else {
        None
    }
}

/// The direction in which headers travel.
#[derive(Clone, Copy, Debug, PartialEq, Eq, Structural)]
pub enum Side {
    /// From the client to the backend. `compression` says whether the
    /// deployment can decompress responses.
    Request { compression: bool },
    /// From the backend to the client.
    Response,
}

/// What is done with a header.
#[derive(Clone, Copy, Debug, PartialEq, Eq, Structural)]
pub enum Action {
    /// The header is left out.
    Drop,
    /// The header is forwarded with the host replaced in its value.
    Patch,
    /// The header is forwarded as it is.
    Keep,
}

/// What is done with the header of the given name.
///
/// On the way to the backend, `connection` and `x-forwarded-host` are
/// dropped, and `accept-encoding` too unless responses can be decompressed;
/// `host`, `origin` and `referer` are patched; everything else is kept. On
/// the way back, `content-encoding`, `content-length` and
/// `content-security-policy` are dropped and everything else is patched.
pub open spec fn action_of(side: Side, name: Seq<char>) -> Action {
    match side {
        Side::Request { compression } => {
            if name == CONNECTION@ || name == X_FORWARDED_HOST@ || (!compression && name
                == ACCEPT_ENCODING@) {
                Action::Drop
            } else if name == HOST@ || name == ORIGIN@ || name == REFERER@ {
                Action::Patch
            } else {
                Action::Keep
            }
        },
        Side::Response => {
            if name == CONTENT_ENCODING@ || name == CONTENT_LENGTH@ || name
                == CONTENT_SECURITY_POLICY@ {
                Action::Drop
            } else {
                Action::Patch
            }
        },
    }
}

/// What becomes of one header: `Ok(None)` where it is dropped, the value to
/// forward, or `Err` where the value cannot be patched.
pub open spec fn rewritten_value(
    side: Side,
    header: (Seq<char>, Seq<u8>),
    from: Seq<u8>,
    to: Seq<u8>,
) -> Result<Option<Seq<u8>>, ()> {
    match action_of(side, header.0) {
        Action::Drop => Ok(None),
        Action::Keep => Ok(Some(header.1)),
        Action::Patch => match patched(header.1, from, to) {
            Some(value) => Ok(Some(value)),
            None => Err(()),
        },
    }
}

/// What becomes of a list of headers: the headers to forward, in their
/// order, or the name of the first header whose value cannot be patched.
pub open spec fn rewritten_headers(
    side: Side,
    headers: Seq<(Seq<char>, Seq<u8>)>,
    from: Seq<u8>,
    to: Seq<u8>,
) -> Result<Seq<(Seq<char>, Seq<u8>)>, Seq<char>>
    decreases headers.len(),
{
    if headers.len() == 0 {
        Ok(Seq::empty())
    } else {
        match rewritten_headers(side, headers.drop_last(), from, to) {
            Err(name) => Err(name),
            Ok(done) => match rewritten_value(side, headers.last(), from, to) {
                Err(_) => Err(headers.last().0),
                Ok(None) => Ok(done),
                Ok(Some(value)) => Ok(done.push((headers.last().0, value))),
            },
        }
    }
}

/// Whether every byte of the value can be read as text.
pub fn check_text(value: &[u8]) -> (r: bool)
    ensures
        r == is_text(value@),
{
    let mut i: usize = 0;
    while i < value.len()
        invariant
            i <= value.len(),
            forall|j: int| 0 <= j < i ==> is_text_byte(#[trigger] value@[j]),
        decreases value.len() - i,
    {
        let b = value[i];
        if !((32 <= b && b < 127) || b == 9) {
            return false;
        }
        i += 1;
    }
    true
}

/// Whether the bytes form a header value.
pub fn check_value(value: &[u8]) -> (r: bool)
    ensures
        r == is_value(value@),
{
    let mut i: usize = 0;
    while i < value.len()
        invariant
            i <= value.len(),
            forall|j: int| 0 <= j < i ==> is_value_byte(#[trigger] value@[j]),
        decreases value.len() - i,
    {
        let b = value[i];
        if !((32 <= b && b != 127) || b == 9) {
            return false;
        }
        i += 1;
    }
    true
}

/// Replaces every occurrence of the host `src` in the value by `target`.
/// Fails, naming the header, where the value cannot be read as text or where
/// the result is no header value.
pub fn patch_host(key: &str, value: &[u8], src: &str, target: &str) -> (r: Result<
    Vec<u8>,
    InvalidHeader,
>)
    ensures
        match r {
            Ok(v) => patched(value@, encode_utf8(src@), encode_utf8(target@)) == Some(v@),
            Err(e) => patched(value@, encode_utf8(src@), encode_utf8(target@)) is None && e.name@
                == key@,
        },
{
    if !check_text(value) {
        return Err(InvalidHeader { name: key.to_owned() });
    }
    let out = replace_bytes(value, src.as_bytes(), target.as_bytes());
    if !check_value(out.as_slice()) {
        return Err(InvalidHeader { name: key.to_owned() });
    }
    Ok(out)
}

/// What is done with the header of the given name.
pub fn action(side: Side, name: &str) -> (r: Action)
    ensures
        r == action_of(side, name@),
{
    match side {
        Side::Request { compression } => {
            if str_eq(name, CONNECTION) || str_eq(name, X_FORWARDED_HOST) || (!compression
                && str_eq(name, ACCEPT_ENCODING)) {
                Action::Drop
            } else if str_eq(name, HOST) || str_eq(name, ORIGIN) || str_eq(name, REFERER) {
                Action::Patch
            } else {
                Action::Keep
            }
        },
        Side::Response => {
            if str_eq(name, CONTENT_ENCODING) || str_eq(name, CONTENT_LENGTH) || str_eq(
                name,
                CONTENT_SECURITY_POLICY,
            ) {
                Action::Drop
            } else {
                Action::Patch
            }
        },
    }
}

/// A copy of the bytes.
pub fn copy_bytes(value: &[u8]) -> (r: Vec<u8>)
    ensures
        r@ == value@,
{
    let mut out: Vec<u8> = Vec::new();
    append_bytes(&mut out, value);
    assert(Seq::<u8>::empty() + value@ =~= value@);
    out
}

/// Rewrites one header: `Ok(None)` where it is dropped, the value to forward
/// otherwise.
pub fn rewrite_header(side: Side, header: &Header, from: &str, to: &str) -> (r: Result<
    Option<Vec<u8>>,
    InvalidHeader,
>)
    ensures
        match r {
            Ok(Some(value)) => rewritten_value(side, header@, encode_utf8(from@), encode_utf8(to@))
                == Ok::<Option<Seq<u8>>, ()>(Some(value@)),
            Ok(None) => rewritten_value(side, header@, encode_utf8(from@), encode_utf8(to@)) == Ok::<
                Option<Seq<u8>>,
                (),
            >(None),
            Err(e) => rewritten_value(side, header@, encode_utf8(from@), encode_utf8(to@)) is Err
                && e.name@ == header.name@,
        },
{
    match action(side, header.name.as_str()) {
        Action::Drop => Ok(None),
        Action::Keep => Ok(Some(copy_bytes(header.value.as_slice()))),
        Action::Patch => match patch_host(header.name.as_str(), header.value.as_slice(), from, to) {
            Ok(value) => Ok(Some(value)),
            Err(e) => Err(e),
        },
    }
}

/// Rewrites a list of headers, replacing the host `from` by `to` where the
/// direction asks for it. Stops at the first header whose value cannot be
/// patched.
pub fn rewrite_headers(side: Side, headers: &Vec<Header>, from: &str, to: &str) -> (r: Result<
    Vec<Header>,
    InvalidHeader,
>)
    ensures
        match r {
            Ok(out) => rewritten_headers(
                side,
                header_views(headers@),
                encode_utf8(from@),
                encode_utf8(to@),
            ) == Ok::<Seq<(Seq<char>, Seq<u8>)>, Seq<char>>(header_views(out@)),
            Err(e) => rewritten_headers(
                side,
                header_views(headers@),
                encode_utf8(from@),
                encode_utf8(to@),
            ) == Err::<Seq<(Seq<char>, Seq<u8>)>, Seq<char>>(e.name@),
        },
{
    let ghost all = header_views(headers@);
    let ghost f = encode_utf8(from@);
    let ghost t = encode_utf8(to@);
    let mut out: Vec<Header> = Vec::new();
    let mut i: usize = 0;
    assert(all.take(0) =~= Seq::empty());
    assert(header_views(out@) =~= Seq::empty());
    while i < headers.len()
        invariant
            i <= headers@.len(),
            all == header_views(headers@),
            f == encode_utf8(from@),
            t == encode_utf8(to@),
            rewritten_headers(side, all.take(i as int), f, t) == Ok::<
                Seq<(Seq<char>, Seq<u8>)>,
                Seq<char>,
            >(header_views(out@)),
        decreases headers@.len() - i,
    {
        let header = &headers[i];
        let ghost prefix = all.take(i as int + 1);
        assert(prefix.drop_last() =~= all.take(i as int));
        assert(prefix.last() == header@);
        match rewrite_header(side, header, from, to) {
            Err(e) => {
                proof {
                    lemma_rewritten_error(side, all, i as int + 1, f, t);
                }
                return Err(e);
            },
            Ok(None) => {},
            Ok(Some(value)) => {
                let ghost before = header_views(out@);
                out.push(Header { name: header.name.clone(), value });
                assert(header_views(out@) =~= before.push((header.name@, value@)));
            },
        }
        i += 1;
    }
    assert(all.take(i as int) =~= all);
    Ok(out)
}

/// An error in a prefix of the list is the error of the whole list.
proof fn lemma_rewritten_error(
    side: Side,
    headers: Seq<(Seq<char>, Seq<u8>)>,
    n: int,
    from: Seq<u8>,
    to: Seq<u8>,
)
    requires
        0 <= n <= headers.len(),
        rewritten_headers(side, headers.take(n), from, to) is Err,
    ensures
        rewritten_headers(side, headers, from, to) == rewritten_headers(
            side,
            headers.take(n),
            from,
            to,
        ),
    decreases headers.len() - n,
{
    if n < headers.len() {
        assert(headers.take(n + 1).drop_last() =~= headers.take(n));
        lemma_rewritten_error(side, headers, n + 1, from, to);
    } else {
        assert(headers.take(n) =~= headers);
    }
}

/// The value of the first header of the given name.
pub open spec fn first_value(headers: Seq<(Seq<char>, Seq<u8>)>, name: Seq<char>) -> Option<
    Seq<u8>,
>
    decreases headers.len(),
{
    if headers.len() == 0 {
        None
    } else if headers[0].0 == name {
        Some(headers[0].1)
    } else {
        first_value(headers.drop_first(), name)
    }
}

/// The first header of the given name.
pub fn find_header<'a>(headers: &'a Vec<Header>, name: &str) -> (r: Option<&'a Header>)
    ensures
        match r {
            Some(header) => header.name@ == name@ && first_value(header_views(headers@), name@)
                == Some(header.value@),
            None => first_value(header_views(headers@), name@) is None,
        },
{
    let ghost all = header_views(headers@);
    let mut i: usize = 0;
    assert(all.skip(0) =~= all);
    while i < headers.len()
        invariant
            i <= headers@.len(),
            all == header_views(headers@),
            first_value(all.skip(i as int), name@) == first_value(all, name@),
        decreases headers@.len() - i,
    {
        assert(all.skip(i as int)[0] == headers@[i as int]@);
        assert(all.skip(i as int).drop_first() =~= all.skip(i as int + 1));
        if str_eq(headers[i].name.as_str(), name) {
            return Some(&headers[i]);
        }
        i += 1;
    }
    None
}

/// A host that the client asked for comes back: a request header that holds
/// the client's host goes out holding the backend's, and a response header
/// that holds the backend's host comes back holding the client's.
pub proof fn lemma_host_round_trip(host: Seq<u8>, proxy_host: Seq<u8>)
    requires
        host.len() > 0,
        proxy_host.len() > 0,
        is_text(host),
        is_text(proxy_host),
    ensures
        patched(host, host, proxy_host) == Some(proxy_host),
        patched(proxy_host, proxy_host, host) == Some(host),
{
    lemma_replace_whole(host, proxy_host);
    lemma_replace_whole(proxy_host, host);
    assert(is_value(proxy_host)) by {
        assert forall|i: int| 0 <= i < proxy_host.len() implies is_value_byte(
            #[trigger] proxy_host[i],
        ) by {
            assert(is_text_byte(proxy_host[i]));
        }
    }
    assert(is_value(host)) by {
        assert forall|i: int| 0 <= i < host.len() implies is_value_byte(#[trigger] host[i]) by {
            assert(is_text_byte(host[i]));
        }
    }
}

} // verus!
