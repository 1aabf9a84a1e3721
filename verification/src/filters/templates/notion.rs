//! The rule set for pages of the Notion site generator.
//!
//! Two settings that the generator embeds in its pages are pointed at the
//! proxy, and `history.replaceState` is gated behind a sentinel argument so
//! that the page's own script cannot put the backend's URL back.
use crate::filters::base::regex::ResponseFilterBuilder;
use vstd::prelude::*;

verus! {

/// The name of the rule set.
pub const NAME: &'static str = "notion";

/// The embedded `domainBaseUrl` setting with an absolute URL.
pub const DOMAIN_BASE_URL_PATTERN: &'static str = r#"(domainBaseUrl:")https?://[\.\/a-z]+""#;

/// The setting pointed at the proxy's own scheme and host.
pub const DOMAIN_BASE_URL: &'static str = r#"${{1}}{scheme}://{base_url_with_host}""#;

/// The embedded `publicDomainName` setting.
pub const PUBLIC_DOMAIN_NAME_PATTERN: &'static str = r#"(publicDomainName:")[\.a-z]+""#;

/// The setting pointed at the proxy's own host.
pub const PUBLIC_DOMAIN_NAME: &'static str = r#"${{1}}{host}""#;

/// The opening `<body>` tag with its attributes.
pub const BODY_PATTERN: &'static str = r#"<body[ \.\_\-\=A-Za-z0-9'"]*>"#;

/// The tag followed by a script that lets `history.replaceState` through only with the sentinel argument.
pub const REPLACE_STATE_GATE: &'static str = r#"${{0}}<script>(function() {{ var proxied = window.history.replaceState; window.history.replaceState = function(state) {{ if (arguments[1] !== 'bypass') return; return proxied.apply(window.history, arguments); }}; }})();</script>"#;

/// The rules of the set, in the order in which they are applied.
pub open spec fn rules() -> Seq<ResponseFilterBuilder<'static>> {
    seq![
        ResponseFilterBuilder { name: NAME, re: DOMAIN_BASE_URL_PATTERN, rep: DOMAIN_BASE_URL },
        ResponseFilterBuilder { name: NAME, re: PUBLIC_DOMAIN_NAME_PATTERN, rep: PUBLIC_DOMAIN_NAME },
        ResponseFilterBuilder { name: NAME, re: BODY_PATTERN, rep: REPLACE_STATE_GATE },
    ]
}

/// The descriptions of the rules of the set, in order.
pub fn response_filter_builder() -> (r: [ResponseFilterBuilder<'static>; 3])
    ensures
        r@ == rules(),
{
    let r = [
        ResponseFilterBuilder { name: NAME, re: DOMAIN_BASE_URL_PATTERN, rep: DOMAIN_BASE_URL },
        ResponseFilterBuilder { name: NAME, re: PUBLIC_DOMAIN_NAME_PATTERN, rep: PUBLIC_DOMAIN_NAME },
        ResponseFilterBuilder { name: NAME, re: BODY_PATTERN, rep: REPLACE_STATE_GATE },
    ];
    assert(r@ =~= rules());
    r
}

} // verus!
