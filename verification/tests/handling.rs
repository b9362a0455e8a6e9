use simpleproxy::config::{Config, NetConfig, ProxyConfig, Route};
use simpleproxy::handler::{borrow_routes, on_arrival, on_body, step, Action, Event, HandlerState};
use simpleproxy::header::Header;
use simpleproxy::request::InboundRequest;
use simpleproxy::response::{ForwardOutcome, OutboundResponse};

fn h(name: &str, value: &str) -> Header {
    Header::new(name.to_string(), value.to_string())
}

fn config() -> Config {
    Config {
        net: NetConfig::default(),
        tls: None,
        routes: vec![
            Route {
                path_prefix: Some("/foo".to_string()),
                host: Some("a.com".to_string()),
                default: None,
                upstream: "http://u1".to_string(),
                strip_path_prefix: Some(true),
                response_headers: Some(vec![h("X-Route", "one")]),
            },
            Route {
                path_prefix: None,
                host: Some("b.com".to_string()),
                default: None,
                upstream: "http://u2".to_string(),
                strip_path_prefix: None,
                response_headers: None,
            },
        ],
        proxy: Some(ProxyConfig { error_server_header: Some("edge".to_string()) }),
    }
}

fn request(host: Option<&str>, path: &str) -> InboundRequest {
    InboundRequest {
        method: "GET".to_string(),
        path: path.to_string(),
        query: "q=1".to_string(),
        headers: match host {
            Some(name) => vec![h("Host", name), h("Accept", "*/*")],
            None => vec![h("Accept", "*/*")],
        },
        target_host: None,
        client_ip: Some("5.6.7.8".to_string()),
        scheme: "http".to_string(),
    }
}

fn bare(status: u16) -> Action {
    Action::Respond(OutboundResponse { status, headers: Vec::new(), body: Vec::new() })
}

#[test]
fn request_is_handled_from_arrival_to_response() {
    let config = config();
    let req = request(Some("a.com"), "/foo/bar");
    let (state, action) = step(&config, &req, &HandlerState::Received, Event::Arrived).unwrap();
    assert_eq!(state, HandlerState::AwaitingBody { host: "a.com".to_string() });
    assert_eq!(action, Action::ReadBody);

    let (state, action) = step(&config, &req, &state, Event::Body(b"in".to_vec())).unwrap();
    assert_eq!(state, HandlerState::AwaitingUpstream { route: 0 });
    match action {
        Action::Forward(out) => {
            assert_eq!(out.method, "GET");
            assert_eq!(out.url, "http://u1/bar?q=1");
            assert_eq!(out.body, b"in".to_vec());
            assert_eq!(out.headers[0], h("accept", "*/*"));
            assert_eq!(out.headers[1], h("Host", "a.com"));
            assert_eq!(out.headers[3], h("X-Forwarded-For", "5.6.7.8"));
            assert_eq!(out.headers.len(), 6);
        }
        other => panic!("expected a request to forward, got {:?}", other),
    }

    let outcome = ForwardOutcome::Response {
        status: 200,
        headers: vec![h("Content-Type", "text/plain")],
        body: b"out".to_vec(),
    };
    let (state, action) = step(&config, &req, &state, Event::Forwarded(outcome)).unwrap();
    assert_eq!(state, HandlerState::Sent);
    assert_eq!(
        action,
        Action::Respond(OutboundResponse {
            status: 200,
            headers: vec![h("Content-Type", "text/plain"), h("X-Route", "one")],
            body: b"out".to_vec(),
        })
    );
    assert_eq!(step(&config, &req, &state, Event::Arrived), None);
}

#[test]
fn request_without_host_is_answered_with_502() {
    let req = request(None, "/");
    let (state, action) = step(&config(), &req, &HandlerState::Received, Event::Arrived).unwrap();
    assert_eq!(state, HandlerState::Sent);
    assert_eq!(action, bare(502));
    assert_eq!(on_arrival(&req), (HandlerState::Sent, bare(502)));
}

#[test]
fn host_of_the_request_target_is_used_without_host_header() {
    let mut req = request(None, "/");
    req.target_host = Some("b.com".to_string());
    let (state, action) = on_arrival(&req);
    assert_eq!(state, HandlerState::AwaitingBody { host: "b.com".to_string() });
    assert_eq!(action, Action::ReadBody);
}

#[test]
fn unreadable_request_body_is_answered_with_503() {
    let state = HandlerState::AwaitingBody { host: "a.com".to_string() };
    let req = request(Some("a.com"), "/foo");
    let (state, action) = step(&config(), &req, &state, Event::BodyFailed).unwrap();
    assert_eq!(state, HandlerState::Sent);
    assert_eq!(action, bare(503));
}

#[test]
fn request_for_an_unknown_host_is_answered_with_404() {
    let req = request(Some("c.com"), "/x");
    let (state, action) = on_body(&config(), &req, "c.com", Vec::new());
    assert_eq!(state, HandlerState::Sent);
    assert_eq!(
        action,
        Action::Respond(OutboundResponse {
            status: 404,
            headers: vec![h("Server", "edge")],
            body: Vec::new(),
        })
    );
    let mut unmarked = config();
    unmarked.proxy = None;
    let (_, action) = on_body(&unmarked, &req, "c.com", Vec::new());
    assert_eq!(
        action,
        Action::Respond(OutboundResponse {
            status: 404,
            headers: vec![h("Server", "")],
            body: Vec::new(),
        })
    );
}

#[test]
fn failed_forwarding_is_answered_with_502_and_the_reason() {
    let state = HandlerState::AwaitingUpstream { route: 1 };
    let req = request(Some("b.com"), "/");
    let event = Event::Forwarded(ForwardOutcome::Failure("connection refused".to_string()));
    let (state, action) = step(&config(), &req, &state, event).unwrap();
    assert_eq!(state, HandlerState::Sent);
    assert_eq!(
        action,
        Action::Respond(OutboundResponse {
            status: 502,
            headers: vec![h("Server", "edge")],
            body: b"connection refused".to_vec(),
        })
    );
}

#[test]
fn unreadable_upstream_body_is_answered_with_503() {
    let state = HandlerState::AwaitingUpstream { route: 0 };
    let req = request(Some("a.com"), "/foo");
    let event = Event::Forwarded(ForwardOutcome::BodyUnreadable);
    assert_eq!(step(&config(), &req, &state, event), Some((HandlerState::Sent, bare(503))));
}

#[test]
fn path_is_kept_for_a_route_that_does_not_strip() {
    let req = request(Some("b.com"), "/foo/bar");
    let (state, action) = on_body(&config(), &req, "b.com", Vec::new());
    assert_eq!(state, HandlerState::AwaitingUpstream { route: 1 });
    match action {
        Action::Forward(out) => assert_eq!(out.url, "http://u2/foo/bar?q=1"),
        other => panic!("expected a request to forward, got {:?}", other),
    }
}

#[test]
fn events_out_of_turn_decide_nothing() {
    let config = config();
    let req = request(Some("a.com"), "/foo");
    let waiting = HandlerState::AwaitingBody { host: "a.com".to_string() };
    let upstream = HandlerState::AwaitingUpstream { route: 0 };
    let stray = HandlerState::AwaitingUpstream { route: 2 };
    let failure = || Event::Forwarded(ForwardOutcome::BodyUnreadable);
    assert_eq!(step(&config, &req, &HandlerState::Received, Event::BodyFailed), None);
    assert_eq!(step(&config, &req, &HandlerState::Received, Event::Body(Vec::new())), None);
    assert_eq!(step(&config, &req, &HandlerState::Received, failure()), None);
    assert_eq!(step(&config, &req, &waiting, Event::Arrived), None);
    assert_eq!(step(&config, &req, &waiting, failure()), None);
    assert_eq!(step(&config, &req, &upstream, Event::Arrived), None);
    assert_eq!(step(&config, &req, &upstream, Event::BodyFailed), None);
    assert_eq!(step(&config, &req, &stray, failure()), None);
    assert_eq!(step(&config, &req, &HandlerState::Sent, failure()), None);
    assert_eq!(step(&config, &req, &HandlerState::Sent, Event::BodyFailed), None);
}

#[test]
fn routes_are_borrowed_in_order() {
    let config = config();
    let refs = borrow_routes(&config.routes);
    assert_eq!(refs.len(), 2);
    assert_eq!(refs[0].upstream, "http://u1");
    assert_eq!(refs[1].upstream, "http://u2");
}
