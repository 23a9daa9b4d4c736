use curl_lite::address::{check_parsed, classify_message, validate, ParsedUrl, UrlErrorKind};
use curl_lite::form::{form_pairs, split_first};
use curl_lite::json::{sort_json_keys, JsonValue};
use curl_lite::keys::key_le_text;
use curl_lite::method::resolve_method;
use curl_lite::request::{build_request, RequestBody, RequestError};
use curl_lite::response::{decimal_text, examine, json_body_message, status_failure_message, Delivery, Shown};
use curl_lite::text::{contains_text, same_text, same_text_ignore_ascii_case};

fn pairs(v: &[(&str, &str)]) -> Vec<(String, String)> {
    v.iter().map(|(a, b)| (a.to_string(), b.to_string())).collect()
}

fn url(raw: &str) -> curl_lite::address::ValidatedUrl {
    match validate(raw) {
        Ok(u) => u,
        Err(_) => panic!("expected a valid URL"),
    }
}

fn num(s: &str) -> JsonValue {
    JsonValue::Number(s.to_string())
}

fn obj(members: Vec<(&str, JsonValue)>) -> JsonValue {
    JsonValue::Object(members.into_iter().map(|(k, v)| (k.to_string(), v)).collect())
}

fn keys_of(v: &JsonValue) -> Vec<String> {
    match v {
        JsonValue::Object(m) => m.iter().map(|(k, _)| k.clone()).collect(),
        _ => panic!("expected an object"),
    }
}

#[test]
fn form_data_alone_makes_post() {
    assert_eq!(resolve_method(None, true, false), "POST");
}

#[test]
fn json_data_alone_makes_post() {
    assert_eq!(resolve_method(None, false, true), "POST");
}

#[test]
fn no_body_makes_get() {
    assert_eq!(resolve_method(None, false, false), "GET");
}

#[test]
fn explicit_method_is_kept_verbatim() {
    assert_eq!(resolve_method(Some("PUT"), true, false), "PUT");
    assert_eq!(resolve_method(Some("delete"), false, true), "delete");
    assert_eq!(resolve_method(Some("PUT"), false, false), "PUT");
}

#[test]
fn explicit_get_with_body_becomes_post() {
    assert_eq!(resolve_method(Some("get"), true, false), "POST");
    assert_eq!(resolve_method(Some("GeT"), false, true), "POST");
    assert_eq!(resolve_method(Some("get"), false, false), "get");
}

#[test]
fn text_without_scheme_lacks_base_protocol() {
    let r = validate("not a url");
    assert!(matches!(r, Err(UrlErrorKind::MissingBaseProtocol)));
    if let Err(k) = r {
        assert_eq!(k.message(), "Error: The URL does not have a valid base protocol.");
    }
}

#[test]
fn ftp_scheme_is_refused() {
    let r = validate("ftp://host");
    assert!(matches!(r, Err(UrlErrorKind::UnsupportedScheme)));
    if let Err(k) = r {
        assert_eq!(k.message(), "Error: The URL does not have a valid base protocol.");
    }
}

#[test]
fn port_out_of_range_is_invalid_port() {
    let r = validate("http://host:99999");
    assert!(matches!(r, Err(UrlErrorKind::InvalidPort)));
    if let Err(k) = r {
        assert_eq!(k.message(), "Error: The URL contains an invalid port number.");
    }
}

#[test]
fn bad_ip_addresses_are_classified() {
    assert!(matches!(validate("http://[::1"), Err(UrlErrorKind::InvalidIPv6)));
    assert!(matches!(validate("http://256.256.256.256/"), Err(UrlErrorKind::InvalidIPv4)));
}

#[test]
fn http_and_https_urls_pass() {
    let u = url("http://example.com");
    assert_eq!(u.scheme, "http");
    assert_eq!(u.href, "http://example.com/");
    let s = url("HTTPS://Example.com/a?b=c");
    assert_eq!(s.scheme, "https");
    assert_eq!(s.href, "https://example.com/a?b=c");
}

#[test]
fn parser_messages_are_classified_by_phrase() {
    assert!(matches!(classify_message("relative URL without a base".to_string()), UrlErrorKind::MissingBaseProtocol));
    assert!(matches!(classify_message("invalid IPv4 address".to_string()), UrlErrorKind::InvalidIPv4));
    assert!(matches!(classify_message("invalid IPv6 address".to_string()), UrlErrorKind::InvalidIPv6));
    match classify_message("empty host".to_string()) {
        UrlErrorKind::Other(m) => assert_eq!(m, "empty host"),
        _ => panic!("expected Other"),
    }
    let k = classify_message("empty host".to_string());
    assert_eq!(k.message(), "Error: empty host");
}

#[test]
fn parsed_url_with_other_scheme_is_refused() {
    let p = ParsedUrl { scheme: "mailto".to_string(), href: "mailto:a@b.c".to_string() };
    assert!(matches!(check_parsed(Ok(p)), Err(UrlErrorKind::UnsupportedScheme)));
    let q = ParsedUrl { scheme: "https".to_string(), href: "https://x.test/".to_string() };
    match check_parsed(Ok(q)) {
        Ok(u) => assert_eq!(u.href, "https://x.test/"),
        Err(_) => panic!("expected success"),
    }
}

#[test]
fn form_pairs_drop_pieces_without_equals() {
    assert_eq!(form_pairs("a=1&b=2&broken"), pairs(&[("a", "1"), ("b", "2")]));
}

#[test]
fn form_pairs_split_at_first_equals() {
    assert_eq!(form_pairs("k=v=w&=x&y="), pairs(&[("k", "v=w"), ("", "x"), ("y", "")]));
    assert_eq!(form_pairs(""), pairs(&[]));
    assert_eq!(form_pairs("&&"), pairs(&[]));
    assert_eq!(form_pairs("ä=ö"), pairs(&[("ä", "ö")]));
}

#[test]
fn split_first_finds_first_separator() {
    assert_eq!(split_first("a=b=c", '='), Some(("a".to_string(), "b=c".to_string())));
    assert_eq!(split_first("abc", '='), None);
}

#[test]
fn get_request_has_no_body() {
    let r = build_request("GET", url("http://x.test"), None, None);
    match r {
        Ok(q) => {
            assert_eq!(q.method, "GET");
            assert_eq!(q.url, "http://x.test/");
            assert!(matches!(q.body, RequestBody::Empty));
            assert_eq!(q.body.content_type(), None);
        },
        Err(_) => panic!("expected a request"),
    }
}

#[test]
fn other_methods_are_sent_as_get() {
    match build_request("PUT", url("http://x.test"), Some("a=1"), None) {
        Ok(q) => {
            assert_eq!(q.method, "GET");
            assert!(matches!(q.body, RequestBody::Empty));
        },
        Err(_) => panic!("expected a request"),
    }
}

#[test]
fn post_without_data_is_refused() {
    let r = build_request("POST", url("http://x.test"), None, None);
    assert!(matches!(r, Err(RequestError::MissingData)));
    if let Err(e) = r {
        assert_eq!(e.message(), "Error: POST method requires -d or --json data.");
    }
}

#[test]
fn post_with_form_data_encodes_pairs() {
    match build_request("POST", url("http://x.test"), Some("a=1&b=2&broken"), None) {
        Ok(q) => {
            assert_eq!(q.method, "POST");
            assert_eq!(q.body.content_type(), Some("application/x-www-form-urlencoded".to_string()));
            match q.body {
                RequestBody::Form(p) => assert_eq!(p, pairs(&[("a", "1"), ("b", "2")])),
                _ => panic!("expected a form body"),
            }
        },
        Err(_) => panic!("expected a request"),
    }
}

#[test]
fn post_json_takes_priority_over_form() {
    match build_request("POST", url("http://x.test"), Some("a=1"), Some("{\"k\": [1, 2]}")) {
        Ok(q) => {
            assert_eq!(q.body.content_type(), Some("application/json".to_string()));
            match q.body {
                RequestBody::Json(b) => assert_eq!(b, "{\"k\":[1,2]}"),
                _ => panic!("expected a JSON body"),
            }
        },
        Err(_) => panic!("expected a request"),
    }
}

#[test]
fn post_with_malformed_json_is_refused() {
    let r = build_request("POST", url("http://x.test"), None, Some("{not json"));
    assert!(matches!(r, Err(RequestError::InvalidJson)));
}

#[test]
fn json_keys_sorted_at_every_depth() {
    let v = obj(vec![("b", num("1")), ("a", obj(vec![("d", num("2")), ("c", num("3"))]))]);
    let s = sort_json_keys(v);
    assert_eq!(keys_of(&s), vec!["a".to_string(), "b".to_string()]);
    match &s {
        JsonValue::Object(m) => {
            assert_eq!(keys_of(&m[0].1), vec!["c".to_string(), "d".to_string()]);
            assert!(matches!(&m[1].1, JsonValue::Number(n) if n == "1"));
        },
        _ => panic!("expected an object"),
    }
}

#[test]
fn json_arrays_keep_order_and_sort_inside() {
    let v = JsonValue::Array(vec![
        num("3"),
        obj(vec![("z", JsonValue::Null), ("Z", JsonValue::Bool(true)), ("zz", JsonValue::Str("s".to_string()))]),
        num("1"),
    ]);
    match sort_json_keys(v) {
        JsonValue::Array(items) => {
            assert_eq!(items.len(), 3);
            assert!(matches!(&items[0], JsonValue::Number(n) if n == "3"));
            assert_eq!(keys_of(&items[1]), vec!["Z".to_string(), "z".to_string(), "zz".to_string()]);
            assert!(matches!(&items[2], JsonValue::Number(n) if n == "1"));
        },
        _ => panic!("expected an array"),
    }
}

#[test]
fn failure_status_hides_body() {
    let shown = examine(Delivery::Received { status: 404, body: Some("{\"secret\": 1}".to_string()) });
    match shown {
        Shown::Text(t) => assert_eq!(t, "Error: Request failed with status code: 404."),
        Shown::Json(_) => panic!("body must not be shown"),
    }
    match examine(Delivery::Received { status: 500, body: None }) {
        Shown::Text(t) => assert_eq!(t, "Error: Request failed with status code: 500."),
        Shown::Json(_) => panic!("body must not be shown"),
    }
}

#[test]
fn connection_failure_gives_generic_message() {
    match examine(Delivery::ConnectFailed) {
        Shown::Text(t) => assert_eq!(
            t,
            "Error: Unable to connect to the server. Perhaps the network is offline or the server hostname cannot be resolved."
        ),
        Shown::Json(_) => panic!("expected a message"),
    }
}

#[test]
fn plain_body_is_shown_raw() {
    match examine(Delivery::Received { status: 200, body: Some("hello".to_string()) }) {
        Shown::Text(t) => assert_eq!(t, "Response body:\nhello"),
        Shown::Json(_) => panic!("not JSON"),
    }
    match examine(Delivery::Received { status: 204, body: None }) {
        Shown::Text(t) => assert_eq!(t, "Response body:\nNo response body."),
        Shown::Json(_) => panic!("not JSON"),
    }
}

#[test]
fn json_body_is_handed_on() {
    match examine(Delivery::Received { status: 201, body: Some("{\"b\":1,\"a\":2}".to_string()) }) {
        Shown::Json(c) => assert_eq!(c, "{\"b\":1,\"a\":2}"),
        Shown::Text(_) => panic!("expected JSON"),
    }
    assert_eq!(json_body_message("{}"), "Response body (JSON with sorted keys):\n{}");
}

#[test]
fn status_range_edges() {
    assert!(matches!(examine(Delivery::Received { status: 199, body: None }), Shown::Text(t) if t == "Error: Request failed with status code: 199."));
    assert!(matches!(examine(Delivery::Received { status: 300, body: None }), Shown::Text(t) if t == "Error: Request failed with status code: 300."));
    assert!(matches!(examine(Delivery::Received { status: 299, body: Some("x".to_string()) }), Shown::Text(t) if t == "Response body:\nx"));
}

#[test]
fn decimal_notation() {
    assert_eq!(decimal_text(0), "0");
    assert_eq!(decimal_text(7), "7");
    assert_eq!(decimal_text(404), "404");
    assert_eq!(decimal_text(65535), "65535");
    assert_eq!(status_failure_message(404), "Error: Request failed with status code: 404.");
}

#[test]
fn text_helpers() {
    assert!(same_text("abc", "abc"));
    assert!(!same_text("abc", "abd"));
    assert!(same_text_ignore_ascii_case("GeT", "get"));
    assert!(!same_text_ignore_ascii_case("GETS", "get"));
    assert!(contains_text("a relative URL here", "relative URL"));
    assert!(!contains_text("relative", "relative URL"));
    assert!(contains_text("x", ""));
}

#[test]
fn key_order() {
    assert!(key_le_text("a", "b"));
    assert!(!key_le_text("b", "a"));
    assert!(key_le_text("a", "ab"));
    assert!(!key_le_text("ab", "a"));
    assert!(key_le_text("Z", "a"));
    assert!(key_le_text("", ""));
}

fn json_body_of(data: &str) -> String {
    match build_request("POST", url("http://x.test"), None, Some(data)) {
        Ok(q) => {
            assert_eq!(q.method, "POST");
            assert_eq!(q.url, "http://x.test/");
            match q.body {
                RequestBody::Json(b) => b,
                _ => panic!("expected a JSON body"),
            }
        },
        Err(_) => panic!("expected a request"),
    }
}

#[test]
fn json_body_is_the_data_serialised_again() {
    assert_eq!(json_body_of("{\"k\":1}"), "{\"k\":1}");
    assert_eq!(json_body_of("{ \"a\" : [1, 2] }"), "{\"a\":[1,2]}");
    assert_eq!(json_body_of(" null "), "null");
}

#[test]
fn json_response_is_the_body_document() {
    match examine(Delivery::Received { status: 200, body: Some("{\"b\":1,\"a\":{\"d\":2,\"c\":3}}".to_string()) }) {
        Shown::Json(c) => assert_eq!(c, "{\"b\":1,\"a\":{\"d\":2,\"c\":3}}"),
        Shown::Text(_) => panic!("expected JSON"),
    }
}

#[test]
fn piece_without_equals_leaves_pairs_unchanged() {
    assert_eq!(form_pairs("a=1&b=2&x"), form_pairs("a=1&b=2"));
    assert_eq!(form_pairs("&x"), form_pairs(""));
}
