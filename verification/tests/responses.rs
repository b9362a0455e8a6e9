use simpleproxy::config::{ProxyConfig, Route};
use simpleproxy::header::Header;
use simpleproxy::response::{
    get_server_header, lay_over, not_found_response, own_response, plain_response, remove_named,
    set_header, translate_response, ForwardOutcome, BAD_GATEWAY, NOT_FOUND, SERVICE_UNAVAILABLE,
};

fn h(name: &str, value: &str) -> Header {
    Header::new(name.to_string(), value.to_string())
}

fn plain_route(extra: Option<Vec<Header>>) -> Route {
    Route {
        path_prefix: None,
        host: None,
        default: Some(true),
        upstream: "http://u".to_string(),
        strip_path_prefix: None,
        response_headers: extra,
    }
}

fn configured(value: &str) -> ProxyConfig {
    ProxyConfig { error_server_header: Some(value.to_string()) }
}

#[test]
fn server_header_is_the_configured_one_or_empty() {
    assert_eq!(get_server_header(Some(&configured("simpleproxy"))), "simpleproxy");
    assert_eq!(get_server_header(Some(&ProxyConfig::default())), "");
    assert_eq!(get_server_header(None), "");
}

#[test]
fn missing_route_gives_404_with_the_server_header() {
    let with = not_found_response(Some(&configured("edge")));
    assert_eq!(with.status, 404);
    assert_eq!(with.headers, vec![h("Server", "edge")]);
    assert!(with.body.is_empty());
    let without = not_found_response(None);
    assert_eq!(without.status, NOT_FOUND);
    assert_eq!(without.headers, vec![h("Server", "")]);
    assert!(without.body.is_empty());
}

#[test]
fn failed_forwarding_gives_502_with_the_error_text() {
    let outcome = ForwardOutcome::Failure("connection refused".to_string());
    let r = translate_response(outcome, Some(&configured("edge")), &plain_route(None));
    assert_eq!(r.status, 502);
    assert_eq!(r.status, BAD_GATEWAY);
    assert_eq!(r.headers, vec![h("Server", "edge")]);
    assert_eq!(r.body, b"connection refused".to_vec());
}

#[test]
fn failure_text_is_sent_as_utf8() {
    let outcome = ForwardOutcome::Failure("zu sp\u{e4}t".to_string());
    let r = translate_response(outcome, None, &plain_route(None));
    assert_eq!(r.body, "zu sp\u{e4}t".as_bytes().to_vec());
    assert_eq!(r.headers, vec![h("Server", "")]);
}

#[test]
fn unreadable_upstream_body_gives_a_bare_503() {
    let extra = Some(vec![h("X-Extra", "1")]);
    let r = translate_response(
        ForwardOutcome::BodyUnreadable,
        Some(&configured("edge")),
        &plain_route(extra),
    );
    assert_eq!(r.status, SERVICE_UNAVAILABLE);
    assert_eq!(r.status, 503);
    assert!(r.headers.is_empty());
    assert!(r.body.is_empty());
}

#[test]
fn upstream_answer_is_passed_on() {
    let outcome = ForwardOutcome::Response {
        status: 201,
        headers: vec![h("Set-Cookie", "a=1"), h("Set-Cookie", "b=2"), h("Server", "up")],
        body: b"created".to_vec(),
    };
    let r = translate_response(outcome, Some(&configured("edge")), &plain_route(None));
    assert_eq!(r.status, 201);
    assert_eq!(r.headers, vec![h("Set-Cookie", "a=1"), h("Set-Cookie", "b=2"), h("Server", "up")]);
    assert_eq!(r.body, b"created".to_vec());
}

#[test]
fn route_headers_take_precedence() {
    let outcome = ForwardOutcome::Response {
        status: 200,
        headers: vec![h("Cache-Control", "no-store"), h("X-Frame-Options", "ALLOW"), h("Via", "x")],
        body: Vec::new(),
    };
    let extra = vec![h("x-frame-options", "DENY"), h("X-New", "1")];
    let r = translate_response(outcome, None, &plain_route(Some(extra)));
    assert_eq!(
        r.headers,
        vec![
            h("Cache-Control", "no-store"),
            h("Via", "x"),
            h("x-frame-options", "DENY"),
            h("X-New", "1"),
        ]
    );
}

#[test]
fn later_route_header_of_a_name_wins() {
    let base = vec![h("A", "0"), h("B", "0")];
    let extra = vec![h("A", "1"), h("C", "1"), h("a", "2")];
    assert_eq!(lay_over(base, &extra), vec![h("B", "0"), h("C", "1"), h("a", "2")]);
    assert_eq!(lay_over(vec![h("A", "0")], &Vec::new()), vec![h("A", "0")]);
}

#[test]
fn headers_are_removed_and_set_by_name() {
    let base = vec![h("A", "1"), h("b", "2"), h("a", "3")];
    assert_eq!(remove_named(base.clone(), "A"), vec![h("b", "2")]);
    assert_eq!(remove_named(base.clone(), "c"), base);
    assert_eq!(set_header(base.clone(), h("B", "9")), vec![h("A", "1"), h("a", "3"), h("B", "9")]);
}

#[test]
fn own_responses_are_marked() {
    let r = own_response(418, Some(&configured("pot")), b"tea".to_vec());
    assert_eq!(r.status, 418);
    assert_eq!(r.headers, vec![h("Server", "pot")]);
    assert_eq!(r.body, b"tea".to_vec());
    let bare = plain_response(502);
    assert_eq!(bare.status, 502);
    assert!(bare.headers.is_empty() && bare.body.is_empty());
}
