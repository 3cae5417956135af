use visualizer_proxy::headers::equals_ignoring_case;
use visualizer_proxy::headers::filter_headers;
use visualizer_proxy::headers::is_reserved_header;
use visualizer_proxy::headers::Header;
use visualizer_proxy::registry::is_secret_field;
use visualizer_proxy::url::build_url;

fn header(name: &str, value: &str) -> Header {
    Header { name: name.to_string(), value: value.as_bytes().to_vec() }
}

fn names_and_values(hs: &[Header]) -> Vec<(String, Vec<u8>)> {
    hs.iter().map(|h| (h.name.clone(), h.value.clone())).collect()
}

#[test]
fn url_without_port_or_query() {
    assert_eq!(build_url("http", "example.com", "", "items", None), "http://example.com/items");
}

#[test]
fn url_with_port_and_query() {
    assert_eq!(
        build_url("https", "example.com", "8443", "items", Some("a=1")),
        "https://example.com:8443/items?a=1"
    );
}

#[test]
fn url_host_trailing_slash_not_doubled() {
    assert_eq!(build_url("http", "example.com/", "", "items", None), "http://example.com/items");
    assert_eq!(build_url("http", "example.com///", "", "a/b", None), "http://example.com/a/b");
}

#[test]
fn url_empty_query_keeps_question_mark() {
    assert_eq!(build_url("http", "example.com", "", "items", Some("")), "http://example.com/items?");
}

#[test]
fn url_path_and_query_not_reencoded() {
    assert_eq!(
        build_url("http", "h", "81", "a%20b/c", Some("x=%2F&y")),
        "http://h:81/a%20b/c?x=%2F&y"
    );
}

#[test]
fn url_empty_path() {
    assert_eq!(build_url("http", "h", "", "", None), "http://h/");
}

#[test]
fn case_insensitive_comparison() {
    assert!(equals_ignoring_case("X-Target-Id", "x-target-id"));
    assert!(equals_ignoring_case("HOST", "host"));
    assert!(!equals_ignoring_case("hosts", "host"));
    assert!(!equals_ignoring_case("h0st", "host"));
    assert!(equals_ignoring_case("", ""));
}

#[test]
fn reserved_header_names() {
    for n in ["Host", "host", "X-TARGET-ID", "x-target-url", "AuThOrIzAtIoN"] {
        assert!(is_reserved_header(n), "{}", n);
    }
    for n in ["accept", "x-target", "x-target-ids", "proxy-authorization", ""] {
        assert!(!is_reserved_header(n), "{}", n);
    }
}

#[test]
fn header_filter_keeps_exactly_others_in_order() {
    let input = vec![
        header("accept", "*/*"),
        header("Host", "localhost:2027"),
        header("x-custom", "1"),
        header("X-Target-Id", "svc1"),
        header("x-TARGET-url", "http://elsewhere"),
        header("AUTHORIZATION", "Bearer caller"),
        header("x-custom", "2"),
        header("content-type", "application/json"),
    ];
    let out = filter_headers(&input);
    assert_eq!(
        names_and_values(&out),
        vec![
            ("accept".to_string(), b"*/*".to_vec()),
            ("x-custom".to_string(), b"1".to_vec()),
            ("x-custom".to_string(), b"2".to_vec()),
            ("content-type".to_string(), b"application/json".to_vec()),
        ]
    );
}

#[test]
fn header_filter_without_reserved_is_identity() {
    let input = vec![header("a", "1"), header("b", "2"), header("a", "3")];
    let out = filter_headers(&input);
    assert_eq!(names_and_values(&out), names_and_values(&input));
}

#[test]
fn header_filter_empty() {
    assert!(filter_headers(&Vec::new()).is_empty());
}

#[test]
fn host_only_filter() {
    let input = vec![header("HOST", "x"), header("authorization", "Bearer a"), header("x-target-id", "s")];
    let out = visualizer_proxy::headers::remove_host_header(&input);
    assert_eq!(
        names_and_values(&out),
        vec![("authorization".to_string(), b"Bearer a".to_vec()), ("x-target-id".to_string(), b"s".to_vec())]
    );
}

#[test]
fn secret_fields() {
    assert!(is_secret_field("clientSecret"));
    assert!(is_secret_field("password"));
    assert!(is_secret_field("token"));
    assert!(!is_secret_field("clientId"));
    assert!(!is_secret_field("Token"));
    assert!(!is_secret_field("tokenUrl"));
}
