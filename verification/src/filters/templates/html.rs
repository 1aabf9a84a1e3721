//! The rule set for HTML documents.
//!
//! Attributes with a root-relative value lose their leading slash, a `<base>`
//! element is injected after the opening `<head>` tag so that the now relative
//! values resolve against the mount path, and script shims after the opening
//! `<body>` tag rewrite the URLs that scripts build at run time.
use crate::config::FIELD_BASE_URL;
use crate::filters::base::regex::ResponseFilterBuilder;
use crate::template::{rendered, template_of, well_formed, Piece};
use vstd::prelude::*;

verus! {

/// The name of the rule set.
pub const NAME: &'static str = "html";

/// A root-relative `href` attribute, up to its leading slash.
pub const HREF_PATTERN: &'static str = r#"(href=")/"#;

/// A root-relative `src` attribute, up to its leading slash.
pub const SRC_PATTERN: &'static str = r#"(src=")/"#;

/// A root-relative `url` attribute, up to its leading slash.
pub const URL_PATTERN: &'static str = r#"(url=")/"#;

/// Keeps the attribute's opening and leaves the slash out, which makes the value relative.
pub const WITHOUT_SLASH: &'static str = r#"${{1}}"#;

/// The opening `<head>` tag with its attributes.
pub const HEAD_PATTERN: &'static str = r#"<head[ \.\_\-\=A-Za-z0-9'"]*>"#;

/// The tag followed by a `<base>` element that points at the mount path.
pub const BASE_ELEMENT: &'static str = r#"${{0}}<base href="{base_url}">"#;

/// The opening `<body>` tag with its attributes.
pub const BODY_PATTERN: &'static str = r#"<body[ \.\_\-\=A-Za-z0-9'"]*>"#;

/// The tag followed by a script that wraps `Element.appendChild`.
pub const APPEND_CHILD_SHIM: &'static str = r#"${{0}}<script>(function() {{ var proxied = Element.prototype.appendChild; Element.prototype.appendChild = function() {{ if (arguments[0].src !== undefined && arguments[0].src.startsWith('/') && !arguments[0].src.startsWith('{base_url}')) {{ arguments[0].src = arguments[0].src.replace('/', '{base_url}'); }} if (arguments[0].src !== undefined && arguments[0].src.startsWith('{scheme}://{host}/') && !arguments[0].src.startsWith('{scheme}://{base_url_with_host}')) {{ arguments[0].src = arguments[0].src.replace('{scheme}://{host}/', '{scheme}://{base_url_with_host}'); }} if (arguments[0].href !== undefined && arguments[0].href.startsWith('{scheme}://{host}/') && !arguments[0].href.startsWith('{scheme}://{base_url_with_host}')) {{ arguments[0].href = arguments[0].href.replace('{scheme}://{host}/', '{scheme}://{base_url_with_host}'); }} return proxied.apply(this, [].slice.call(arguments)); if (arguments[0].url !== undefined && arguments[0].url.startsWith('{scheme}://{host}/') && !arguments[0].url.startsWith('{scheme}://{base_url_with_host}')) {{ arguments[0].url = arguments[0].url.replace('{scheme}://{host}/', '{scheme}://{base_url_with_host}'); }} }}; }})()</script>"#;

/// The tag followed by a script that wraps `Element.setAttribute`.
pub const SET_ATTRIBUTE_SHIM: &'static str = r#"${{0}}<script>(function() {{ var proxied = Element.prototype.setAttribute; Element.prototype.setAttribute = function(key, value) {{ if (['href', 'src', 'url'].includes(key)) {{ if (value.startsWith('/') && !value.startsWith('{base_url}')) {{ value = value.replace('/', '{base_url}'); }} else if (value.startsWith('{scheme}://{host}/') && !value.startsWith('{scheme}://{base_url_with_host}')) {{ value = value.replace('{scheme}://{host}/', '{scheme}://{base_url_with_host}'); }} }} return proxied.apply(this, [key, value]); }}; }})();</script>"#;

/// The tag followed by a script that wraps `XMLHttpRequest.open`.
pub const XHR_OPEN_SHIM: &'static str = r#"${{0}}<script>(function() {{ var proxied = window.XMLHttpRequest.prototype.open; window.XMLHttpRequest.prototype.open = function() {{ if (arguments[1].startsWith('{scheme}://{host}/') && !arguments[1].startsWith('{scheme}://{base_url_with_host}')) {{ arguments[1] = arguments[1].replace('{scheme}://{host}/', '{scheme}://{base_url_with_host}'); }} return proxied.apply(this, [].slice.call(arguments)); }}; }})();</script>"#;

/// The tag followed by a script that wraps `XMLHttpRequest.send`.
pub const XHR_SEND_SHIM: &'static str = r#"${{0}}<script>(function() {{ var proxied = window.XMLHttpRequest.prototype.send; window.XMLHttpRequest.prototype.send = function() {{ if (arguments[1].startsWith('{scheme}://{host}/') && !arguments[1].startsWith('{scheme}://{base_url_with_host}')) {{ arguments[1] = arguments[1].replace('{scheme}://{host}/', '{scheme}://{base_url_with_host}'); }} return proxied.apply(this, [].slice.call(arguments)); }}; }})();</script>"#;

/// The tag followed by a script that wraps `window.fetch`.
pub const FETCH_SHIM: &'static str = r#"${{0}}<script>(function() {{ var proxied = window.fetch; window.fetch = function() {{ if (arguments[0].startsWith('/') && !arguments[0].startsWith('{base_url}')) {{ arguments[0] = arguments[0].replace('/', '{base_url}'); }} return Promise.resolve(proxied.apply(this, [].slice.call(arguments))); }}; }})();</script>"#;

/// The rules of the set, in the order in which they are applied.
pub open spec fn rules() -> Seq<ResponseFilterBuilder<'static>> {
    seq![
        ResponseFilterBuilder { name: NAME, re: HREF_PATTERN, rep: WITHOUT_SLASH },
        ResponseFilterBuilder { name: NAME, re: SRC_PATTERN, rep: WITHOUT_SLASH },
        ResponseFilterBuilder { name: NAME, re: URL_PATTERN, rep: WITHOUT_SLASH },
        ResponseFilterBuilder { name: NAME, re: HEAD_PATTERN, rep: BASE_ELEMENT },
        ResponseFilterBuilder { name: NAME, re: BODY_PATTERN, rep: APPEND_CHILD_SHIM },
        ResponseFilterBuilder { name: NAME, re: BODY_PATTERN, rep: SET_ATTRIBUTE_SHIM },
        ResponseFilterBuilder { name: NAME, re: BODY_PATTERN, rep: XHR_OPEN_SHIM },
        ResponseFilterBuilder { name: NAME, re: BODY_PATTERN, rep: XHR_SEND_SHIM },
        ResponseFilterBuilder { name: NAME, re: BODY_PATTERN, rep: FETCH_SHIM },
    ]
}

/// The descriptions of the rules of the set, in order.
pub fn response_filter_builder() -> (r: [ResponseFilterBuilder<'static>; 9])
    ensures
        r@ == rules(),
{
    let r = [
        ResponseFilterBuilder { name: NAME, re: HREF_PATTERN, rep: WITHOUT_SLASH },
        ResponseFilterBuilder { name: NAME, re: SRC_PATTERN, rep: WITHOUT_SLASH },
        ResponseFilterBuilder { name: NAME, re: URL_PATTERN, rep: WITHOUT_SLASH },
        ResponseFilterBuilder { name: NAME, re: HEAD_PATTERN, rep: BASE_ELEMENT },
        ResponseFilterBuilder { name: NAME, re: BODY_PATTERN, rep: APPEND_CHILD_SHIM },
        ResponseFilterBuilder { name: NAME, re: BODY_PATTERN, rep: SET_ATTRIBUTE_SHIM },
        ResponseFilterBuilder { name: NAME, re: BODY_PATTERN, rep: XHR_OPEN_SHIM },
        ResponseFilterBuilder { name: NAME, re: BODY_PATTERN, rep: XHR_SEND_SHIM },
        ResponseFilterBuilder { name: NAME, re: BODY_PATTERN, rep: FETCH_SHIM },
    ];
    assert(r@ =~= rules());
    r
}

/// The pieces of the replacement that leaves the slash out: a reference to
/// the first capture group, and no placeholder.
pub open spec fn without_slash_pieces() -> Seq<Piece> {
    seq![Piece::Text("$"@), Piece::Open, Piece::Text("1"@), Piece::Close]
}

/// The pieces of the replacement that injects the `<base>` element: a
/// reference to the whole match, and the element with the mount path as its
/// `href`.
pub open spec fn base_element_pieces() -> Seq<Piece> {
    seq![
        Piece::Text("$"@),
        Piece::Open,
        Piece::Text("0"@),
        Piece::Close,
        Piece::Text("<base href=\""@),
        Piece::Param(FIELD_BASE_URL@),
        Piece::Text("\">"@),
    ]
}

/// The slash rules need no parameter: their replacement is always the first
/// capture group.
pub proof fn lemma_without_slash(params: Map<Seq<char>, Seq<char>>)
    ensures
        well_formed(without_slash_pieces()),
        template_of(without_slash_pieces()) == WITHOUT_SLASH@,
        rendered(without_slash_pieces(), params) == Some("${1}"@),
{
    reveal_strlit("$");
    reveal_strlit("1");
    reveal_strlit("${{1}}");
    reveal_strlit("${1}");
    let p0 = without_slash_pieces();
    let p1 = p0.drop_first();
    let p2 = p1.drop_first();
    let p3 = p2.drop_first();
    let p4 = p3.drop_first();
    assert(p4 =~= Seq::<Piece>::empty());
    assert(template_of(p4) =~= Seq::<char>::empty());
    assert(template_of(p3) =~= seq!['}', '}']);
    assert(template_of(p2) =~= seq!['1', '}', '}']);
    assert(template_of(p1) =~= seq!['{', '{', '1', '}', '}']);
    assert(template_of(p0) =~= WITHOUT_SLASH@);
    assert(rendered(p4, params) == Some(Seq::<char>::empty()));
    assert(rendered(p3, params).unwrap() =~= seq!['}']);
    assert(rendered(p2, params).unwrap() =~= seq!['1', '}']);
    assert(rendered(p1, params).unwrap() =~= seq!['{', '1', '}']);
    assert(rendered(p0, params).unwrap() =~= "${1}"@);
}

/// The `<base>` rule needs the mount path: with it, the replacement is the
/// whole match followed by the element that points at it; without it, the
/// replacement cannot be rendered.
pub proof fn lemma_base_element(params: Map<Seq<char>, Seq<char>>)
    ensures
        well_formed(base_element_pieces()),
        template_of(base_element_pieces()) == BASE_ELEMENT@,
        rendered(base_element_pieces(), params) == if params.contains_key(FIELD_BASE_URL@) {
            Some("${0}<base href=\""@ + params[FIELD_BASE_URL@] + "\">"@)
        } else {
            None
        },
{
    reveal_strlit("$");
    reveal_strlit("0");
    reveal_strlit("<base href=\"");
    reveal_strlit("\">");
    reveal_strlit("base_url");
    reveal_strlit("${0}<base href=\"");
    reveal_strlit(r#"${{0}}<base href="{base_url}">"#);
    let p0 = base_element_pieces();
    let p1 = p0.drop_first();
    let p2 = p1.drop_first();
    let p3 = p2.drop_first();
    let p4 = p3.drop_first();
    let p5 = p4.drop_first();
    let p6 = p5.drop_first();
    let p7 = p6.drop_first();
    assert(p7 =~= Seq::<Piece>::empty());
    let key = FIELD_BASE_URL@;
    let open = "<base href=\""@;
    let close = "\">"@;
    assert(template_of(p7) =~= Seq::<char>::empty());
    assert(template_of(p6) =~= close);
    assert(template_of(p5) =~= seq!['{'] + key + seq!['}'] + close);
    assert(template_of(p4) =~= open + (seq!['{'] + key + seq!['}'] + close));
    assert(template_of(p3) =~= seq!['}', '}'] + template_of(p4));
    assert(template_of(p2) =~= seq!['0'] + template_of(p3));
    assert(template_of(p1) =~= seq!['{', '{'] + template_of(p2));
    assert(template_of(p0) =~= seq!['$'] + template_of(p1));
    assert(template_of(p0) =~= BASE_ELEMENT@);
    assert(rendered(p7, params) == Some(Seq::<char>::empty()));
    assert(rendered(p6, params).unwrap() =~= close);
    if params.contains_key(key) {
        let value = params[key];
        assert(rendered(p5, params).unwrap() =~= value + close);
        assert(rendered(p4, params).unwrap() =~= open + (value + close));
        assert(rendered(p3, params).unwrap() =~= seq!['}'] + (open + (value + close)));
        assert(rendered(p2, params).unwrap() =~= seq!['0', '}'] + (open + (value + close)));
        assert(rendered(p1, params).unwrap() =~= seq!['{', '0', '}'] + (open + (value + close)));
        assert(rendered(p0, params).unwrap() =~= seq!['$', '{', '0', '}'] + (open + (value
            + close)));
        assert(rendered(p0, params).unwrap() =~= "${0}<base href=\""@ + value + close);
    } else {
        assert(rendered(p5, params) is None);
        assert(rendered(p4, params) is None);
        assert(rendered(p3, params) is None);
        assert(rendered(p2, params) is None);
        assert(rendered(p1, params) is None);
    }
}

} // verus!
