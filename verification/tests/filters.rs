use path_proxy::config::ConfigMap;
use path_proxy::filters::base::regex::ResponseFilterBuilder as RegexBuilder;
use path_proxy::filters::templates::{html, notion, BuildError};
use path_proxy::filters::{DefaultResponseFilter, FilterSet, ResponseFilter, ResponseFilterBuilder};
use path_proxy::template::TemplateError;

fn params(pairs: &[(&str, &str)]) -> ConfigMap {
    let mut map = ConfigMap::new();
    for (key, value) in pairs {
        map.insert(key.to_string(), value.to_string());
    }
    map
}

fn request_params() -> ConfigMap {
    params(&[
        ("base_url", "/p/"),
        ("proxy_base_url", "/"),
        ("proxy_host", "backend.internal"),
        ("proxy_scheme", "https"),
        ("proxy_base_url_with_host", "backend.internal/"),
        ("scheme", "https"),
        ("host", "proxy.example"),
    ])
}

fn rule(re: &'static str, rep: &'static str) -> RegexBuilder<'static> {
    RegexBuilder { name: "test", re, rep }
}

#[test]
fn rule_replaces_every_match() {
    let filter = rule("a+", "<{x}>").try_build().unwrap();
    assert_eq!(filter.filter(&params(&[("x", "1")]), "aa b a".to_string()), "<1> b <1>");
}

#[test]
fn rule_expands_capture_groups() {
    let filter = rule("(k)=(v)", "${{2}}={{$1}}").try_build().unwrap();
    assert_eq!(filter.filter(&ConfigMap::new(), "k=v".to_string()), "v={k}");
}

#[test]
fn rule_leaves_unmatched_bodies() {
    let filter = rule("z", "{x}").try_build().unwrap();
    assert_eq!(filter.filter(&params(&[("x", "1")]), "abc".to_string()), "abc");
}

#[test]
fn rule_with_unresolved_parameter_fails_open() {
    let filter = rule("a", "{missing}").try_build().unwrap();
    let body = "banana \u{1F34C} a{b}".to_string();
    assert_eq!(filter.filter(&params(&[("x", "1")]), body.clone()), body);
    assert_eq!(filter.filter(&ConfigMap::new(), body.clone()), body);
}

#[test]
fn rule_with_malformed_template_fails_open() {
    for rep in ["{", "}", "{a", "a}b", "{:x}", "{x:q}"] {
        let filter = rule("a", rep).try_build().unwrap();
        assert_eq!(filter.filter(&params(&[("x", "1")]), "banana".to_string()), "banana");
    }
}

#[test]
fn rule_with_a_format_code() {
    let filter = rule("a", "[{x:>3}]").try_build().unwrap();
    assert_eq!(filter.filter(&params(&[("x", "1")]), "a".to_string()), "[  1]");
}

#[test]
fn apply_takes_the_rendering() {
    let filter = rule("a", "unused").try_build().unwrap();
    assert_eq!(filter.apply(Ok("o".to_string()), "banana".to_string()), "bonono");
    assert_eq!(filter.apply(Ok("$0$0".to_string()), "ab".to_string()), "aab");
    assert_eq!(
        filter.apply(Err(TemplateError::KeyError("x".to_string())), "banana".to_string()),
        "banana"
    );
    assert_eq!(
        filter.apply(Err(TemplateError::Invalid("x".to_string())), "banana".to_string()),
        "banana"
    );
}

#[test]
fn template_error_messages() {
    assert_eq!(TemplateError::Invalid("a".to_string()).message(), "Invalid(a)");
    assert_eq!(TemplateError::KeyError("b".to_string()).message(), "KeyError(b)");
    assert_eq!(TemplateError::TypeError("c".to_string()).message(), "TypeError(c)");
}

#[test]
fn invalid_pattern_is_a_build_error() {
    let err: BuildError = match rule("(", "x").try_build() {
        Err(e) => e,
        Ok(_) => panic!("the pattern should not compile"),
    };
    assert_eq!(err.name, "test");
    assert!(!err.cause.is_empty());
    assert_eq!(
        err.message(),
        format!("failed to init a regex response filter (test): {}", err.cause)
    );
}

#[test]
fn array_builds_a_chain_in_order() {
    let chain = [rule("a", "b"), rule("b", "c"), rule("c", "{x}")].try_build().unwrap();
    assert_eq!(chain.len(), 3);
    assert_eq!(chain.filter(&params(&[("x", "d")]), "abc".to_string()), "ddd");
    let reversed = [rule("c", "{x}"), rule("b", "c"), rule("a", "b")].try_build().unwrap();
    assert_eq!(reversed.filter(&params(&[("x", "d")]), "abc".to_string()), "bcd");
}

#[test]
fn chain_skips_only_the_rule_that_cannot_render() {
    let chain = [rule("a", "{nope}"), rule("b", "{x}")].try_build().unwrap();
    assert_eq!(chain.filter(&params(&[("x", "1")]), "ab".to_string()), "a1");
}

#[test]
fn empty_chain_is_the_identity() {
    let none: [RegexBuilder<'static>; 0] = [];
    let chain = none.try_build().unwrap();
    assert_eq!(chain.len(), 0);
    assert_eq!(chain.filter(&ConfigMap::new(), "body".to_string()), "body");
}

#[test]
fn array_reports_the_first_rule_that_fails() {
    let builders = [
        RegexBuilder { name: "one", re: "a", rep: "b" },
        RegexBuilder { name: "two", re: "(", rep: "b" },
        RegexBuilder { name: "three", re: "[", rep: "b" },
    ];
    match builders.try_build() {
        Err(e) => assert_eq!(e.name, "two"),
        Ok(_) => panic!("the chain should not build"),
    }
}

#[test]
fn catalog_sizes_and_names() {
    let html = html::response_filter_builder();
    assert_eq!(html.len(), 9);
    assert!(html.iter().all(|b| b.name == "html"));
    assert_eq!(html[0].re, "(href=\")/");
    assert_eq!(html[1].re, "(src=\")/");
    assert_eq!(html[2].re, "(url=\")/");
    assert_eq!(html[0].rep, "${{1}}");
    assert_eq!(html[3].re, "<head[ \\.\\_\\-\\=A-Za-z0-9'\"]*>");
    assert_eq!(html[3].rep, "${{0}}<base href=\"{base_url}\">");
    assert!(html[4..].iter().all(|b| b.re == "<body[ \\.\\_\\-\\=A-Za-z0-9'\"]*>"));
    assert!(html[4].rep.contains("Element.prototype.appendChild"));
    assert!(html[5].rep.contains("Element.prototype.setAttribute"));
    assert!(html[6].rep.contains("XMLHttpRequest.prototype.open"));
    assert!(html[7].rep.contains("XMLHttpRequest.prototype.send"));
    assert!(html[8].rep.contains("window.fetch"));
    let notion = notion::response_filter_builder();
    assert_eq!(notion.len(), 3);
    assert!(notion.iter().all(|b| b.name == "notion"));
    assert_eq!(notion[1].rep, "${{1}}{host}\"");
    assert!(notion[2].rep.contains("'bypass'"));
}

#[test]
fn catalog_builds() {
    assert_eq!(FilterSet::Html.try_build().unwrap().len(), 9);
    assert_eq!(FilterSet::Notion.try_build().unwrap().len(), 3);
    assert_eq!(DefaultResponseFilter.try_build().unwrap().len(), 2);
}

#[test]
fn html_injects_base_after_head() {
    let filters = FilterSet::Html.try_build().unwrap();
    let out = filters.filter(&request_params(), "<head id=\"h\">".to_string());
    assert!(out.contains("<head id=\"h\"><base href=\"/p/\">"), "{}", out);
    assert_eq!(out, "<head id=\"h\"><base href=\"/p/\">");
}

#[test]
fn html_strips_the_leading_slash() {
    let filters = FilterSet::Html.try_build().unwrap();
    let params = request_params();
    assert_eq!(
        filters.filter(&params, "href=\"/style.css\"".to_string()),
        "href=\"style.css\""
    );
    assert_eq!(filters.filter(&params, "src=\"/a/b.js\"".to_string()), "src=\"a/b.js\"");
    assert_eq!(filters.filter(&params, "url=\"/img.png\"".to_string()), "url=\"img.png\"");
    assert_eq!(
        filters.filter(&params, "href=\"https://x/y\" href=\"rel\"".to_string()),
        "href=\"https://x/y\" href=\"rel\""
    );
}

#[test]
fn html_injects_the_fetch_shim_after_body() {
    let filters = FilterSet::Html.try_build().unwrap();
    let out = filters.filter(&request_params(), "<body class=\"c\">x".to_string());
    assert!(out.starts_with("<body class=\"c\"><script>"), "{}", out);
    assert!(out.ends_with("</script>x"), "{}", out);
    assert!(out.contains("var proxied = window.fetch;"));
    assert!(out.contains("arguments[0].replace('/', '/p/')"));
    assert!(!out.contains("{base_url}"));
}

#[test]
fn html_rules_with_unresolved_parameters_change_nothing() {
    let filters = FilterSet::Html.try_build().unwrap();
    let out = filters.filter(&request_params(), "<body>".to_string());
    assert!(!out.contains("appendChild"));
    assert!(!out.contains("setAttribute"));
    assert!(!out.contains("XMLHttpRequest"));
}

#[test]
fn html_shims_appear_once_their_parameters_resolve() {
    let filters = FilterSet::Html.try_build().unwrap();
    let mut params = request_params();
    params.insert("base_url_with_host".to_string(), "proxy.example/p/".to_string());
    let out = filters.filter(&params, "<body>".to_string());
    assert!(out.starts_with("<body><script>"));
    assert!(out.contains("Element.prototype.appendChild"));
    assert!(out.contains("Element.prototype.setAttribute"));
    assert!(out.contains("window.XMLHttpRequest.prototype.open"));
    assert!(out.contains("window.XMLHttpRequest.prototype.send"));
    assert!(out.contains("startsWith('https://proxy.example/')"));
    assert!(out.contains("'https://proxy.example/p/'"));
}

#[test]
fn html_without_parameters_only_strips_slashes() {
    let filters = FilterSet::Html.try_build().unwrap();
    let body = "<head><body><a href=\"/x\">".to_string();
    assert_eq!(filters.filter(&ConfigMap::new(), body), "<head><body><a href=\"x\">");
}

#[test]
fn notion_points_the_public_domain_at_the_proxy() {
    let filters = FilterSet::Notion.try_build().unwrap();
    let out = filters.filter(
        &request_params(),
        "publicDomainName:\"www.notion.so\",domainBaseUrl:\"https://www.notion.so\"".to_string(),
    );
    assert_eq!(
        out,
        "publicDomainName:\"proxy.example\",domainBaseUrl:\"https://www.notion.so\""
    );
}

#[test]
fn notion_points_the_base_url_at_the_proxy_once_it_resolves() {
    let filters = FilterSet::Notion.try_build().unwrap();
    let mut params = request_params();
    params.insert("base_url_with_host".to_string(), "proxy.example/p/".to_string());
    let out = filters.filter(&params, "domainBaseUrl:\"https://www.notion.so\"".to_string());
    assert_eq!(out, "domainBaseUrl:\"https://proxy.example/p/\"");
}

#[test]
fn notion_gates_replace_state() {
    let filters = FilterSet::Notion.try_build().unwrap();
    let out = filters.filter(&request_params(), "<body>".to_string());
    assert!(out.starts_with("<body><script>"));
    assert!(out.contains("if (arguments[1] !== 'bypass') return;"));
    assert!(out.contains("function(state) {"));
}

#[test]
fn default_filter_applies_html_then_notion() {
    let filters = DefaultResponseFilter.try_build().unwrap();
    let out = filters.filter(
        &request_params(),
        "<head><a href=\"/x\">publicDomainName:\"a.b\"".to_string(),
    );
    assert_eq!(out, "<head><base href=\"/p/\"><a href=\"x\">publicDomainName:\"proxy.example\"");
}

#[test]
fn default_filter_agrees_with_the_sets_in_turn() {
    let body = "<html><head lang='en'><body id=\"b\"><img src=\"/i.png\"></body>".to_string();
    let params = request_params();
    let html = FilterSet::Html.try_build().unwrap();
    let notion = FilterSet::Notion.try_build().unwrap();
    let all = DefaultResponseFilter.try_build().unwrap();
    let expected = notion.filter(&params, html.filter(&params, body.clone()));
    assert_eq!(all.filter(&params, body), expected);
}

#[test]
fn build_error_carries_the_compiler_report() {
    for pattern in ["(", "[", "a{2,1}", "\\"] {
        let expected = regex::Regex::new(pattern).unwrap_err().to_string();
        match (RegexBuilder { name: "test", re: pattern, rep: "x" }).try_build() {
            Err(e) => {
                assert_eq!(e.name, "test");
                assert_eq!(e.cause, expected);
            }
            Ok(_) => panic!("the pattern should not compile"),
        }
    }
}

#[test]
fn array_passes_the_first_error_on_unchanged() {
    let alone = match (RegexBuilder { name: "two", re: "(", rep: "b" }).try_build() {
        Err(e) => e,
        Ok(_) => panic!("the pattern should not compile"),
    };
    let builders = [
        RegexBuilder { name: "one", re: "a", rep: "b" },
        RegexBuilder { name: "two", re: "(", rep: "b" },
        RegexBuilder { name: "three", re: "[", rep: "b" },
    ];
    match builders.try_build() {
        Err(e) => {
            assert_eq!(e.name, alone.name);
            assert_eq!(e.cause, alone.cause);
            assert_eq!(e.message(), alone.message());
        }
        Ok(_) => panic!("the chain should not build"),
    }
}
