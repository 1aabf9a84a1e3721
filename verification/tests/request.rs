use path_proxy::config::{Config, ConfigMap};
use path_proxy::header::Header;
use path_proxy::request::{
    forwards_body, proxy_path, proxy_url, request_params, route_pattern, strip_base_url,
    translate_request,
};

fn config(base_url: &str, proxy_base_url: &str) -> Config {
    let mut inputs = ConfigMap::new();
    inputs.insert("BASE_URL".to_string(), base_url.to_string());
    inputs.insert("PROXY_BASE_URL".to_string(), proxy_base_url.to_string());
    inputs.insert("PROXY_HOST".to_string(), "backend.internal".to_string());
    Config::resolve(&inputs).unwrap()
}

#[test]
fn path_rewrite_with_query() {
    assert_eq!(proxy_path(&config("/app/", "/site/"), "/app/foo", "x=1"), "/site/foo?x=1");
}

#[test]
fn path_rewrite_without_query() {
    assert_eq!(proxy_path(&config("/app/", "/site/"), "/app/foo", ""), "/site/foo");
}

#[test]
fn path_outside_the_mount_is_used_unmodified() {
    assert_eq!(proxy_path(&config("/app/", "/site/"), "/other", "a=b&c"), "/site//other?a=b&c");
}

#[test]
fn prefix_is_stripped_once() {
    assert_eq!(strip_base_url("/app/app/foo", "/app/"), "app/foo");
    assert_eq!(proxy_path(&config("/app/", "/"), "/app/app/foo", ""), "/app/foo");
}

#[test]
fn prefix_is_stripped_only_at_the_start() {
    assert_eq!(strip_base_url("/x/app/foo", "/app/"), "/x/app/foo");
}

#[test]
fn root_mount_strips_the_leading_slash() {
    assert_eq!(strip_base_url("/foo/bar", "/"), "foo/bar");
    assert_eq!(strip_base_url("/", "/"), "");
    assert_eq!(proxy_path(&config("/", "/"), "/foo/bar", "q"), "/foo/bar?q");
}

#[test]
fn url_has_scheme_and_authority() {
    assert_eq!(
        proxy_url(&config("/app/", "/site/"), "/app/foo", "x=1"),
        "https://backend.internal/site/foo?x=1"
    );
    assert_eq!(proxy_url(&config("/", "/"), "/", ""), "https://backend.internal/");
}

#[test]
fn only_mutating_methods_forward_a_body() {
    assert!(forwards_body("PATCH"));
    assert!(forwards_body("POST"));
    assert!(forwards_body("PUT"));
    assert!(!forwards_body("GET"));
    assert!(!forwards_body("HEAD"));
    assert!(!forwards_body("DELETE"));
    assert!(!forwards_body("OPTIONS"));
    assert!(!forwards_body("post"));
    assert!(!forwards_body(""));
}

#[test]
fn request_params_extend_a_copy() {
    let base = config("/app/", "/site/").to_map();
    let params = request_params(&base, "http", "proxy.example:8080");
    assert_eq!(params.get("scheme").map(|v| v.as_str()), Some("http"));
    assert_eq!(params.get("host").map(|v| v.as_str()), Some("proxy.example:8080"));
    assert_eq!(params.get("base_url").map(|v| v.as_str()), Some("/app/"));
    assert_eq!(params.get("proxy_host").map(|v| v.as_str()), Some("backend.internal"));
    assert!(base.get("scheme").is_none());
    assert!(base.get("host").is_none());
}

#[test]
fn request_params_override_earlier_values() {
    let mut base = ConfigMap::new();
    base.insert("host".to_string(), "stale".to_string());
    let params = request_params(&base, "https", "fresh");
    assert_eq!(params.get("host").map(|v| v.as_str()), Some("fresh"));
}

#[test]
fn translate_request_puts_it_together() {
    let headers = vec![
        Header { name: "host".to_string(), value: b"proxy.example".to_vec() },
        Header { name: "connection".to_string(), value: b"close".to_vec() },
        Header { name: "accept".to_string(), value: b"text/html".to_vec() },
    ];
    let out = translate_request(
        &config("/app/", "/site/"),
        "POST",
        "/app/form",
        "a=1",
        &headers,
        "proxy.example",
        false,
    )
    .unwrap();
    assert_eq!(out.url, "https://backend.internal/site/form?a=1");
    assert!(out.with_body);
    assert_eq!(out.headers.len(), 2);
    assert_eq!(out.headers[0].name, "host");
    assert_eq!(out.headers[0].value, b"backend.internal".to_vec());
    assert_eq!(out.headers[1].name, "accept");
    assert_eq!(out.headers[1].value, b"text/html".to_vec());
}

#[test]
fn translate_request_without_body() {
    let out =
        translate_request(&config("/", "/"), "GET", "/x", "", &Vec::new(), "p.example", true)
            .unwrap();
    assert!(!out.with_body);
    assert!(out.headers.is_empty());
    assert_eq!(out.url, "https://backend.internal/x");
}

#[test]
fn translate_request_names_the_invalid_header() {
    let headers = vec![Header { name: "referer".to_string(), value: vec![0x80] }];
    let err = translate_request(&config("/", "/"), "GET", "/", "", &headers, "p", false)
        .unwrap_err();
    assert_eq!(err.name, "referer");
}

#[test]
fn route_covers_everything_under_the_mount_path() {
    assert_eq!(route_pattern(&config("/app/", "/site/")), "/app/{path:.*}");
    assert_eq!(route_pattern(&config("/", "/")), "/{path:.*}");
}
