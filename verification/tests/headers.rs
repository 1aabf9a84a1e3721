use path_proxy::header::{
    action, check_text, check_value, copy_bytes, find_header, patch_host, rewrite_header,
    rewrite_headers, Action, Header, InvalidHeader, Side,
};

fn header(name: &str, value: &[u8]) -> Header {
    Header { name: name.to_string(), value: value.to_vec() }
}

fn pairs(headers: &[Header]) -> Vec<(String, Vec<u8>)> {
    headers.iter().map(|h| (h.name.clone(), h.value.clone())).collect()
}

const OUT: Side = Side::Request { compression: false };

#[test]
fn request_actions() {
    assert_eq!(action(OUT, "connection"), Action::Drop);
    assert_eq!(action(OUT, "accept-encoding"), Action::Drop);
    assert_eq!(action(OUT, "x-forwarded-host"), Action::Drop);
    assert_eq!(action(OUT, "host"), Action::Patch);
    assert_eq!(action(OUT, "origin"), Action::Patch);
    assert_eq!(action(OUT, "referer"), Action::Patch);
    assert_eq!(action(OUT, "accept"), Action::Keep);
    assert_eq!(action(OUT, "content-length"), Action::Keep);
    assert_eq!(action(OUT, "x-forwarded-for"), Action::Keep);
}

#[test]
fn request_keeps_accept_encoding_with_compression() {
    let side = Side::Request { compression: true };
    assert_eq!(action(side, "accept-encoding"), Action::Keep);
    assert_eq!(action(side, "connection"), Action::Drop);
    assert_eq!(action(side, "host"), Action::Patch);
}

#[test]
fn response_actions() {
    assert_eq!(action(Side::Response, "content-encoding"), Action::Drop);
    assert_eq!(action(Side::Response, "content-length"), Action::Drop);
    assert_eq!(action(Side::Response, "content-security-policy"), Action::Drop);
    assert_eq!(action(Side::Response, "content-type"), Action::Patch);
    assert_eq!(action(Side::Response, "location"), Action::Patch);
    assert_eq!(action(Side::Response, "connection"), Action::Patch);
    assert_eq!(action(Side::Response, "host"), Action::Patch);
}

#[test]
fn text_bytes() {
    assert!(check_text(b""));
    assert!(check_text(b"text/html; charset=utf-8"));
    assert!(check_text(b"a\tb ~"));
    assert!(!check_text(b"a\nb"));
    assert!(!check_text(&[0x7f]));
    assert!(!check_text(&[0x80]));
    assert!(!check_text("é".as_bytes()));
    assert!(!check_text(&[31]));
}

#[test]
fn value_bytes() {
    assert!(check_value(b""));
    assert!(check_value(b"a\tb ~"));
    assert!(check_value(&[0x80, 0xff]));
    assert!(check_value("é".as_bytes()));
    assert!(!check_value(&[0x7f]));
    assert!(!check_value(b"a\r\nb"));
    assert!(!check_value(&[0]));
}

#[test]
fn copy_bytes_copies() {
    assert_eq!(copy_bytes(b"abc"), b"abc".to_vec());
    assert_eq!(copy_bytes(b""), Vec::<u8>::new());
}

#[test]
fn patch_host_replaces_every_occurrence() {
    let out = patch_host(
        "referer",
        b"https://proxy.example/a?next=proxy.example",
        "proxy.example",
        "backend.internal",
    )
    .unwrap();
    assert_eq!(out, b"https://backend.internal/a?next=backend.internal".to_vec());
}

#[test]
fn patch_host_leaves_other_values() {
    assert_eq!(patch_host("origin", b"null", "proxy.example", "b.internal").unwrap(), b"null");
}

#[test]
fn patch_host_rejects_values_that_are_no_text() {
    let err = patch_host("host", &[b'a', 0xe9], "a", "b").unwrap_err();
    assert_eq!(err.name, "host");
    let err = patch_host("x-custom", b"a\x7f", "a", "b").unwrap_err();
    assert_eq!(err.name, "x-custom");
}

#[test]
fn patch_host_rejects_results_that_are_no_values() {
    let err = patch_host("host", b"proxy.example", "proxy.example", "evil\r\nx: y").unwrap_err();
    assert_eq!(err.name, "host");
    assert_eq!(err.message(), "invalid header: host");
}

#[test]
fn patch_host_accepts_targets_beyond_ascii() {
    let out = patch_host("host", b"proxy.example", "proxy.example", "bücher.example").unwrap();
    assert_eq!(out, "bücher.example".as_bytes().to_vec());
}

#[test]
fn patch_host_with_empty_source_inserts_everywhere() {
    assert_eq!(patch_host("host", b"ab", "", "-").unwrap(), b"-a-b-".to_vec());
}

#[test]
fn invalid_header_message() {
    assert_eq!(InvalidHeader { name: "origin".to_string() }.message(), "invalid header: origin");
}

#[test]
fn rewrite_header_drops_patches_keeps() {
    assert_eq!(rewrite_header(OUT, &header("connection", b"keep-alive"), "p", "b").unwrap(), None);
    assert_eq!(
        rewrite_header(OUT, &header("host", b"p.example"), "p.example", "b.internal").unwrap(),
        Some(b"b.internal".to_vec())
    );
    assert_eq!(
        rewrite_header(OUT, &header("x-note", b"see p.example"), "p.example", "b.internal")
            .unwrap(),
        Some(b"see p.example".to_vec())
    );
    assert_eq!(
        rewrite_header(OUT, &header("x-raw", &[0xff, 0x00]), "p", "b").unwrap(),
        Some(vec![0xff, 0x00])
    );
    assert_eq!(
        rewrite_header(OUT, &header("host", &[0xff]), "p", "b").unwrap_err().name,
        "host"
    );
}

#[test]
fn request_headers_are_rewritten_in_order() {
    let inbound = vec![
        header("host", b"proxy.example"),
        header("connection", b"keep-alive"),
        header("accept", b"*/*"),
        header("accept-encoding", b"gzip"),
        header("x-forwarded-host", b"elsewhere.example"),
        header("referer", b"https://proxy.example/app/index.html"),
        header("origin", b"https://proxy.example"),
        header("cookie", b"site=proxy.example"),
    ];
    let out = rewrite_headers(OUT, &inbound, "proxy.example", "backend.internal").unwrap();
    assert_eq!(
        pairs(&out),
        vec![
            ("host".to_string(), b"backend.internal".to_vec()),
            ("accept".to_string(), b"*/*".to_vec()),
            ("referer".to_string(), b"https://backend.internal/app/index.html".to_vec()),
            ("origin".to_string(), b"https://backend.internal".to_vec()),
            ("cookie".to_string(), b"site=proxy.example".to_vec()),
        ]
    );
}

#[test]
fn request_headers_stop_at_the_first_invalid_header() {
    let inbound = vec![
        header("accept", b"*/*"),
        header("origin", &[0xc3, 0x28]),
        header("referer", &[0xff]),
    ];
    let err = rewrite_headers(OUT, &inbound, "proxy.example", "backend.internal").unwrap_err();
    assert_eq!(err.name, "origin");
}

#[test]
fn response_headers_are_rewritten_in_order() {
    let backend = vec![
        header("content-type", b"text/html"),
        header("content-length", b"120"),
        header("content-encoding", b"gzip"),
        header("content-security-policy", b"default-src 'self'"),
        header("location", b"https://backend.internal/site/next"),
        header("set-cookie", b"a=b; Domain=backend.internal"),
    ];
    let out =
        rewrite_headers(Side::Response, &backend, "backend.internal", "proxy.example").unwrap();
    assert_eq!(
        pairs(&out),
        vec![
            ("content-type".to_string(), b"text/html".to_vec()),
            ("location".to_string(), b"https://proxy.example/site/next".to_vec()),
            ("set-cookie".to_string(), b"a=b; Domain=proxy.example".to_vec()),
        ]
    );
}

#[test]
fn response_headers_fail_on_values_that_are_no_text() {
    let backend = vec![header("x-raw", &[0xff])];
    let err = rewrite_headers(Side::Response, &backend, "b", "p").unwrap_err();
    assert_eq!(err.name, "x-raw");
}

#[test]
fn dropped_response_headers_are_not_inspected() {
    let backend = vec![header("content-security-policy", &[0xff])];
    assert!(rewrite_headers(Side::Response, &backend, "b", "p").unwrap().is_empty());
}

#[test]
fn host_round_trip() {
    let request = vec![header("host", b"proxy.example")];
    let out = rewrite_headers(OUT, &request, "proxy.example", "backend.internal").unwrap();
    assert_eq!(pairs(&out), vec![("host".to_string(), b"backend.internal".to_vec())]);

    let response = vec![header("location", b"https://backend.internal/welcome")];
    let back =
        rewrite_headers(Side::Response, &response, "backend.internal", "proxy.example").unwrap();
    assert_eq!(
        pairs(&back),
        vec![("location".to_string(), b"https://proxy.example/welcome".to_vec())]
    );

    let echoed = rewrite_headers(Side::Response, &out, "backend.internal", "proxy.example").unwrap();
    assert_eq!(pairs(&echoed), pairs(&request));
}

#[test]
fn find_header_takes_the_first() {
    let headers = vec![
        header("accept", b"a"),
        header("content-type", b"text/html"),
        header("content-type", b"application/json"),
    ];
    assert_eq!(find_header(&headers, "content-type").unwrap().value, b"text/html".to_vec());
    assert!(find_header(&headers, "content-length").is_none());
    assert!(find_header(&Vec::new(), "accept").is_none());
}
