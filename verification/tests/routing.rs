use simpleproxy::config::Route;
use simpleproxy::route::{
    build_request_path, choose_route, first_route_in_tier, resolve_route, route_in_tier, Tier,
};
use simpleproxy::text::chars_of;

fn route(host: Option<&str>, path: Option<&str>, default: Option<bool>, upstream: &str) -> Route {
    Route {
        path_prefix: path.map(String::from),
        host: host.map(String::from),
        default,
        upstream: upstream.to_string(),
        strip_path_prefix: None,
        response_headers: None,
    }
}

fn chosen(table: &[Route], host: &str, path: &str) -> Option<String> {
    choose_route(host, path, table.iter().collect()).map(|r| r.upstream.clone())
}

#[test]
fn host_and_path_route_is_chosen_before_the_default() {
    let table = vec![
        route(Some("a.com"), Some("/api"), None, "http://u1"),
        route(None, None, Some(true), "http://u2"),
    ];
    assert_eq!(chosen(&table, "a.com", "/api/x"), Some("http://u1".to_string()));
    assert_eq!(chosen(&table, "b.com", "/other"), Some("http://u2".to_string()));
}

#[test]
fn no_route_and_no_default_gives_nothing() {
    let table = vec![route(Some("a.com"), Some("/api"), None, "http://u1")];
    assert_eq!(chosen(&table, "b.com", "/other"), None);
    assert_eq!(chosen(&[], "a.com", "/"), None);
}

#[test]
fn host_and_path_beats_an_earlier_host_only_route() {
    let table = vec![
        route(Some("a.com"), None, None, "http://host-only"),
        route(Some("a.com"), Some("/api"), None, "http://host-and-path"),
    ];
    assert_eq!(chosen(&table, "a.com", "/api/x"), Some("http://host-and-path".to_string()));
    assert_eq!(chosen(&table, "a.com", "/web"), Some("http://host-only".to_string()));
}

#[test]
fn host_route_beats_an_earlier_path_route() {
    let table = vec![
        route(None, Some("/api"), None, "http://path-only"),
        route(Some("a.com"), None, None, "http://host-only"),
    ];
    assert_eq!(chosen(&table, "a.com", "/api/x"), Some("http://host-only".to_string()));
    assert_eq!(chosen(&table, "b.com", "/api/x"), Some("http://path-only".to_string()));
}

#[test]
fn path_route_beats_an_earlier_default() {
    let table = vec![
        route(None, None, Some(true), "http://fallback"),
        route(None, Some("/api"), None, "http://path-only"),
    ];
    assert_eq!(chosen(&table, "x.com", "/api"), Some("http://path-only".to_string()));
    assert_eq!(chosen(&table, "x.com", "/ap"), Some("http://fallback".to_string()));
}

#[test]
fn first_route_of_a_tier_wins() {
    let table = vec![
        route(Some("a.com"), Some("/a"), None, "http://first"),
        route(Some("a.com"), Some("/a"), None, "http://second"),
    ];
    assert_eq!(chosen(&table, "a.com", "/a/b"), Some("http://first".to_string()));
    let defaults = vec![
        route(None, None, Some(true), "http://d1"),
        route(None, None, Some(true), "http://d2"),
    ];
    assert_eq!(chosen(&defaults, "a.com", "/"), Some("http://d1".to_string()));
}

#[test]
fn host_route_applies_even_when_its_prefix_does_not_match() {
    let table = vec![
        route(Some("a.com"), Some("/api"), None, "http://a"),
        route(None, Some("/web"), None, "http://web"),
    ];
    assert_eq!(chosen(&table, "a.com", "/web/x"), Some("http://a".to_string()));
}

#[test]
fn host_is_compared_exactly() {
    let table = vec![route(Some("a.com"), None, None, "http://a")];
    assert_eq!(chosen(&table, "A.com", "/"), None);
    assert_eq!(chosen(&table, "a.com:80", "/"), None);
}

#[test]
fn default_of_another_host_still_serves_as_fallback() {
    let table = vec![route(Some("b.com"), None, Some(true), "http://b")];
    assert_eq!(chosen(&table, "a.com", "/"), Some("http://b".to_string()));
}

#[test]
fn default_must_be_true_to_count() {
    let table = vec![route(None, None, Some(false), "http://no")];
    assert_eq!(chosen(&table, "a.com", "/"), None);
}

#[test]
fn resolve_route_gives_the_index() {
    let table = vec![
        route(None, None, Some(true), "http://d"),
        route(Some("a.com"), None, None, "http://a"),
    ];
    let refs: Vec<&Route> = table.iter().collect();
    assert_eq!(resolve_route("a.com", "/", &refs), Some(1));
    assert_eq!(resolve_route("b.com", "/", &refs), Some(0));
}

#[test]
fn tiers_are_told_apart() {
    let r = route(Some("a.com"), Some("/api"), Some(true), "http://a");
    let path = chars_of("/api/x");
    assert!(route_in_tier(Tier::HostAndPath, &r, "a.com", &path));
    assert!(route_in_tier(Tier::Host, &r, "a.com", &path));
    assert!(route_in_tier(Tier::Path, &r, "z.com", &path));
    assert!(!route_in_tier(Tier::HostAndPath, &r, "z.com", &path));
    assert!(route_in_tier(Tier::Fallback, &r, "z.com", &chars_of("/")));
    assert!(!route_in_tier(Tier::Path, &r, "a.com", &chars_of("/ap")));
    let table = vec![route(None, None, None, "http://n"), r];
    let refs: Vec<&Route> = table.iter().collect();
    assert_eq!(first_route_in_tier(Tier::Host, "a.com", &path, &refs), Some(1));
    assert_eq!(first_route_in_tier(Tier::Host, "q.com", &path, &refs), None);
}

#[test]
fn prefix_is_stripped_when_asked_for() {
    let mut r = route(None, Some("/foo"), None, "http://u");
    r.strip_path_prefix = Some(true);
    assert_eq!(build_request_path("/foo/bar", &r), "/bar");
}

#[test]
fn path_is_kept_when_stripping_is_off_or_absent() {
    let mut r = route(None, Some("/foo"), None, "http://u");
    assert_eq!(build_request_path("/foo/bar", &r), "/foo/bar");
    r.strip_path_prefix = Some(false);
    assert_eq!(build_request_path("/foo/bar", &r), "/foo/bar");
    let mut no_prefix = route(None, None, None, "http://u");
    no_prefix.strip_path_prefix = Some(true);
    assert_eq!(build_request_path("/foo/bar", &no_prefix), "/foo/bar");
}

#[test]
fn only_the_first_occurrence_is_removed() {
    let mut r = route(None, Some("/foo"), None, "http://u");
    r.strip_path_prefix = Some(true);
    assert_eq!(build_request_path("/foo/foo/bar", &r), "/foo/bar");
    assert_eq!(build_request_path("/a/foo/b", &r), "/a/b");
    assert_eq!(build_request_path("/bar", &r), "/bar");
    assert_eq!(build_request_path("/foo", &r), "");
    assert_eq!(build_request_path("/fo", &r), "/fo");
}
