use simpleproxy::header::{duplicate_headers, Header};
use simpleproxy::request::{make_request, request_url, InboundRequest};
use simpleproxy::translate::{
    forwarded_for_value, get_request_host, joined, opens_group, translate_headers, values_of,
};

fn h(name: &str, value: &str) -> Header {
    Header::new(name.to_string(), value.to_string())
}

fn pairs(headers: &[Header]) -> Vec<(String, String)> {
    headers.iter().map(|x| (x.name.clone(), x.value.clone())).collect()
}

fn p(name: &str, value: &str) -> (String, String) {
    (name.to_string(), value.to_string())
}

#[test]
fn forwarded_for_is_chained() {
    let inbound = vec![h("X-Forwarded-For", "1.2.3.4")];
    assert_eq!(forwarded_for_value(&inbound, "5.6.7.8"), "1.2.3.4 5.6.7.8");
}

#[test]
fn forwarded_for_starts_with_the_client() {
    assert_eq!(forwarded_for_value(&[].to_vec(), "9.9.9.9"), "9.9.9.9");
    assert_eq!(forwarded_for_value(&vec![h("Accept", "*/*")], "9.9.9.9"), "9.9.9.9");
}

#[test]
fn empty_forwarded_for_is_kept_as_it_is() {
    assert_eq!(forwarded_for_value(&vec![h("x-forwarded-for", "")], "5.6.7.8"), "");
}

#[test]
fn forwarded_for_uses_the_first_inbound_value() {
    let inbound = vec![h("x-forwarded-for", "1.1.1.1"), h("X-FORWARDED-FOR", "2.2.2.2")];
    assert_eq!(forwarded_for_value(&inbound, "3.3.3.3"), "1.1.1.1 3.3.3.3");
}

#[test]
fn forwarded_for_is_chained_whatever_the_first_value_holds() {
    let inbound = vec![h("x-forwarded-for", "caf\u{e9}"), h("x-forwarded-for", "2.2.2.2")];
    assert_eq!(forwarded_for_value(&inbound, "3.3.3.3"), "caf\u{e9} 3.3.3.3");
    let out = translate_headers(&inbound, "3.3.3.3", "http", "a.com");
    assert_eq!(out[0], h("x-forwarded-for", "caf\u{e9}; 2.2.2.2"));
    assert_eq!(out[3], h("X-Forwarded-For", "caf\u{e9} 3.3.3.3"));
}

#[test]
fn forwarded_for_with_unknown_client() {
    assert_eq!(forwarded_for_value(&vec![h("x-forwarded-for", "1.2.3.4")], ""), "1.2.3.4 ");
    assert_eq!(forwarded_for_value(&Vec::new(), ""), "");
}

#[test]
fn values_of_one_name_are_joined_in_order() {
    let inbound = vec![h("Accept", "a"), h("Cookie", "x=1"), h("accept", "b"), h("ACCEPT", "c")];
    assert_eq!(joined(&inbound, "Accept"), "a; b; c");
    assert_eq!(joined(&inbound, "cookie"), "x=1");
    assert_eq!(joined(&inbound, "missing"), "");
    let found: Vec<String> = values_of(&inbound, "accept").into_iter().cloned().collect();
    assert_eq!(found, vec!["a".to_string(), "b".to_string(), "c".to_string()]);
}

#[test]
fn values_that_are_not_text_are_joined_like_any_other() {
    let inbound = vec![h("A", "one"), h("A", "tw\u{f6}"), h("A", "three"), h("B", "\u{80}")];
    assert_eq!(joined(&inbound, "a"), "one; tw\u{f6}; three");
    assert_eq!(joined(&inbound, "b"), "\u{80}");
    let out = translate_headers(&inbound, "", "http", "a.com");
    assert_eq!(out[0], h("a", "one; tw\u{f6}; three"));
    assert_eq!(out[1], h("b", "\u{80}"));
}

#[test]
fn each_name_is_carried_once_with_its_values_in_order() {
    let inbound = vec![h("Accept", "a"), h("Cookie", "x"), h("Accept", "b")];
    let out = translate_headers(&inbound, "1.1.1.1", "http", "a.com");
    let accept: Vec<&Header> =
        out.iter().filter(|x| x.name.eq_ignore_ascii_case("accept")).collect();
    assert_eq!(accept.len(), 1);
    assert_eq!(accept[0].value, "a; b");
    let cookie: Vec<&Header> =
        out.iter().filter(|x| x.name.eq_ignore_ascii_case("cookie")).collect();
    assert_eq!(cookie.len(), 1);
    assert_eq!(cookie[0].value, "x");
    let empty = vec![h("Accept", ""), h("Accept", "b"), h("Accept", "")];
    assert_eq!(joined(&empty, "accept"), "; b; ");
}

#[test]
fn groups_open_at_the_first_header_of_a_name() {
    let inbound = vec![h("A", "1"), h("B", "2"), h("a", "3")];
    assert!(opens_group(&inbound, 0));
    assert!(opens_group(&inbound, 1));
    assert!(!opens_group(&inbound, 2));
}

#[test]
fn headers_are_translated() {
    let inbound = vec![
        h("Accept", "text/html"),
        h("Host", "ignored.example"),
        h("X-Forwarded-For", "1.2.3.4"),
        h("accept", "text/plain"),
        h("User-Agent", "test"),
    ];
    let out = translate_headers(&inbound, "5.6.7.8", "https", "a.com");
    assert_eq!(
        pairs(&out),
        vec![
            p("accept", "text/html; text/plain"),
            p("x-forwarded-for", "1.2.3.4"),
            p("user-agent", "test"),
            p("Host", "a.com"),
            p("X-Real-IP", "5.6.7.8"),
            p("X-Forwarded-For", "1.2.3.4 5.6.7.8"),
            p("X-Forwarded-Proto", "https"),
            p("X-Forwarded-Host", "a.com"),
        ]
    );
}

#[test]
fn exactly_one_host_header_goes_upstream() {
    let inbound = vec![h("host", "x"), h("HOST", "y"), h("Host", "z")];
    let out = translate_headers(&inbound, "1.1.1.1", "http", "real.example");
    let hosts: Vec<&Header> =
        out.iter().filter(|x| x.name.eq_ignore_ascii_case("host")).collect();
    assert_eq!(hosts.len(), 1);
    assert_eq!(hosts[0].value, "real.example");
    assert_eq!(out.len(), 5);
}

#[test]
fn translation_without_inbound_headers() {
    let out = translate_headers(&Vec::new(), "", "http", "a.com");
    assert_eq!(
        pairs(&out),
        vec![
            p("Host", "a.com"),
            p("X-Real-IP", ""),
            p("X-Forwarded-For", ""),
            p("X-Forwarded-Proto", "http"),
            p("X-Forwarded-Host", "a.com"),
        ]
    );
}

#[test]
fn arrival_order_across_names_does_not_change_the_set() {
    let one = vec![h("A", "1"), h("B", "x"), h("a", "2"), h("b", "y")];
    let two = vec![h("B", "x"), h("A", "1"), h("b", "y"), h("a", "2")];
    let mut left = pairs(&translate_headers(&one, "9.9.9.9", "http", "h"));
    let mut right = pairs(&translate_headers(&two, "9.9.9.9", "http", "h"));
    left.sort();
    right.sort();
    assert_eq!(left, right);
    assert!(left.contains(&p("a", "1; 2")));
    assert!(left.contains(&p("b", "x; y")));
}

#[test]
fn order_within_a_name_is_kept() {
    let one = vec![h("A", "1"), h("A", "2")];
    let two = vec![h("A", "2"), h("A", "1")];
    assert_eq!(joined(&one, "a"), "1; 2");
    assert_eq!(joined(&two, "a"), "2; 1");
}

#[test]
fn request_host_comes_from_the_host_header_first() {
    let inbound = vec![h("Accept", "*/*"), h("host", "a.com"), h("Host", "b.com")];
    assert_eq!(get_request_host(&inbound, Some("target.example")), Some("a.com"));
    assert_eq!(get_request_host(&inbound, None), Some("a.com"));
}

#[test]
fn request_host_falls_back_to_the_request_target() {
    let inbound = vec![h("Accept", "*/*")];
    assert_eq!(get_request_host(&inbound, Some("target.example")), Some("target.example"));
    assert_eq!(get_request_host(&inbound, None), None);
}

#[test]
fn host_header_that_is_not_text_gives_no_host() {
    let inbound = vec![h("Host", "b\u{fc}cher.example"), h("Host", "a.com")];
    assert_eq!(get_request_host(&inbound, Some("target.example")), None);
}

#[test]
fn target_url_is_base_then_path_then_query() {
    assert_eq!(request_url("http://u1", "/bar", ""), "http://u1/bar");
    assert_eq!(request_url("http://u1", "/bar", "a=1&b=2"), "http://u1/bar?a=1&b=2");
    assert_eq!(request_url("http://u1", "", ""), "http://u1");
    assert_eq!(request_url("http://u1", "", "q"), "http://u1?q");
}

#[test]
fn upstream_request_is_assembled() {
    let req = InboundRequest {
        method: "POST".to_string(),
        path: "/foo/bar".to_string(),
        query: "k=v".to_string(),
        headers: vec![h("Content-Type", "text/plain")],
        target_host: None,
        client_ip: Some("5.6.7.8".to_string()),
        scheme: "http".to_string(),
    };
    let out = make_request(&req, "/bar", b"payload".to_vec(), "http://u1", "a.com");
    assert_eq!(out.method, "POST");
    assert_eq!(out.url, "http://u1/bar?k=v");
    assert_eq!(out.body, b"payload".to_vec());
    assert_eq!(
        pairs(&out.headers),
        vec![
            p("content-type", "text/plain"),
            p("Host", "a.com"),
            p("X-Real-IP", "5.6.7.8"),
            p("X-Forwarded-For", "5.6.7.8"),
            p("X-Forwarded-Proto", "http"),
            p("X-Forwarded-Host", "a.com"),
        ]
    );
}

#[test]
fn unknown_client_address_is_sent_as_empty() {
    let req = InboundRequest {
        method: "GET".to_string(),
        path: "/".to_string(),
        query: String::new(),
        headers: Vec::new(),
        target_host: None,
        client_ip: None,
        scheme: "https".to_string(),
    };
    let out = make_request(&req, "/", Vec::new(), "http://u", "a.com");
    assert_eq!(out.headers[1], h("X-Real-IP", ""));
    assert_eq!(out.headers[2], h("X-Forwarded-For", ""));
}

#[test]
fn headers_are_copied() {
    let original = vec![h("A", "1"), h("B", "2")];
    assert_eq!(duplicate_headers(&original), original);
    assert_eq!(original[0].clone(), original[0].duplicate());
}
