//! Picking the route for a request, and the path that is sent upstream.
//!
//! Routes are tried in four tiers. The first tier that holds a matching route
//! wins, and within a tier the route that stands first in the table wins:
//!
//! 1. routes whose host equals the request's host and whose path prefix
//!    begins the request's path;
//! 2. routes whose host equals the request's host, whatever their path prefix
//!    says;
//! 3. routes whose path prefix begins the request's path, whatever their host
//!    says;
//! 4. routes marked as fallback.

use crate::config::{Route, RouteView};
use crate::search::{least_from, lemma_least_from};
use crate::text::{chars_of, has_prefix, matches_at, remove_first, same_text, without_first};
use std::borrow::Cow;
use vstd::prelude::*;

verus! {

/// The four ways a route can apply to a request, most specific first.
#[derive(Debug, Clone, Copy, PartialEq, Eq, Structural)]
pub enum Tier {
    HostAndPath,
    Host,
    Path,
    Fallback,
}

impl Tier {
    /// The position of the tier: lower ranks are tried first.
    pub open spec fn rank(self) -> int {
        match self {
            Tier::HostAndPath => 0,
            Tier::Host => 1,
            Tier::Path => 2,
            Tier::Fallback => 3,
        }
    }
}

/// Whether the route's path prefix begins `path`.
pub open spec fn path_matches(route: RouteView, path: Seq<char>) -> bool {
    route.path_prefix matches Some(prefix) && has_prefix(path, prefix)
}

/// Whether `route` applies to a request for `host` and `path` in tier `tier`.
pub open spec fn in_tier(tier: Tier, route: RouteView, host: Seq<char>, path: Seq<char>) -> bool {
    match tier {
        Tier::HostAndPath => route.host == Some(host) && path_matches(route, path),
        Tier::Host => route.host == Some(host),
        Tier::Path => path_matches(route, path),
        Tier::Fallback => route.default == Some(true),
    }
}

/// Whether no route of the table is in `tier`.
pub open spec fn tier_is_empty(
    routes: Seq<RouteView>,
    host: Seq<char>,
    path: Seq<char>,
    tier: Tier,
) -> bool {
    forall|j: int| 0 <= j < routes.len() ==> !in_tier(tier, #[trigger] routes[j], host, path)
}

/// Whether the route at `i` is the first of the table in `tier`.
pub open spec fn first_of_tier(
    routes: Seq<RouteView>,
    host: Seq<char>,
    path: Seq<char>,
    tier: Tier,
    i: int,
) -> bool {
    &&& 0 <= i < routes.len()
    &&& in_tier(tier, routes[i], host, path)
    &&& forall|j: int| 0 <= j < i ==> !in_tier(tier, #[trigger] routes[j], host, path)
}

/// Whether the route at `i` is chosen through `tier`: it is the first route
/// of that tier, and every tier tried before it is empty.
pub open spec fn wins(
    routes: Seq<RouteView>,
    host: Seq<char>,
    path: Seq<char>,
    tier: Tier,
    i: int,
) -> bool {
    &&& first_of_tier(routes, host, path, tier, i)
    &&& forall|u: Tier| u.rank() < tier.rank() ==> tier_is_empty(routes, host, path, u)
}

/// The index of the first route in `tier`.
pub open spec fn first_in_tier(
    routes: Seq<RouteView>,
    host: Seq<char>,
    path: Seq<char>,
    tier: Tier,
) -> Option<int> {
    least_from(0, routes.len() as int, |i: int| in_tier(tier, routes[i], host, path))
}

/// The index of the route chosen for a request, if any route applies.
pub open spec fn resolve(routes: Seq<RouteView>, host: Seq<char>, path: Seq<char>) -> Option<int> {
    if first_in_tier(routes, host, path, Tier::HostAndPath) is Some {
        first_in_tier(routes, host, path, Tier::HostAndPath)
    } else if first_in_tier(routes, host, path, Tier::Host) is Some {
        first_in_tier(routes, host, path, Tier::Host)
    } else if first_in_tier(routes, host, path, Tier::Path) is Some {
        first_in_tier(routes, host, path, Tier::Path)
    } else {
        first_in_tier(routes, host, path, Tier::Fallback)
    }
}

/// [`first_in_tier`] finds the first route of the tier, and finds none only
/// when the tier is empty.
pub proof fn lemma_first_in_tier(
    routes: Seq<RouteView>,
    host: Seq<char>,
    path: Seq<char>,
    tier: Tier,
)
    ensures
        match first_in_tier(routes, host, path, tier) {
            Some(i) => first_of_tier(routes, host, path, tier, i),
            None => tier_is_empty(routes, host, path, tier),
        },
{
    let p = |i: int| in_tier(tier, routes[i], host, path);
    lemma_least_from(0, routes.len() as int, p);
    match first_in_tier(routes, host, path, tier) {
        Some(i) => {
            assert(p(i));
            assert forall|j: int| 0 <= j < i implies !in_tier(
                tier,
                #[trigger] routes[j],
                host,
                path,
            ) by {
                assert(!p(j));
            }
        },
        None => {
            assert forall|j: int| 0 <= j < routes.len() implies !in_tier(
                tier,
                #[trigger] routes[j],
                host,
                path,
            ) by {
                assert(!p(j));
            }
        },
    }
}

/// Tier order: the chosen route is the first of some tier, and no tier that
/// is tried before that one holds any route. No route is chosen only when all
/// four tiers are empty.
pub proof fn lemma_resolve_respects_tiers(
    routes: Seq<RouteView>,
    host: Seq<char>,
    path: Seq<char>,
)
    ensures
        match resolve(routes, host, path) {
            Some(i) => exists|t: Tier| wins(routes, host, path, t, i),
            None => forall|t: Tier| tier_is_empty(routes, host, path, t),
        },
{
    lemma_first_in_tier(routes, host, path, Tier::HostAndPath);
    lemma_first_in_tier(routes, host, path, Tier::Host);
    lemma_first_in_tier(routes, host, path, Tier::Path);
    lemma_first_in_tier(routes, host, path, Tier::Fallback);
    match resolve(routes, host, path) {
        Some(i) => {
            let t = if first_in_tier(routes, host, path, Tier::HostAndPath) is Some {
                Tier::HostAndPath
            } else if first_in_tier(routes, host, path, Tier::Host) is Some {
                Tier::Host
            } else if first_in_tier(routes, host, path, Tier::Path) is Some {
                Tier::Path
            } else {
                Tier::Fallback
            };
            assert forall|u: Tier| u.rank() < t.rank() implies tier_is_empty(
                routes,
                host,
                path,
                u,
            ) by {
                match u {
                    Tier::HostAndPath => {},
                    Tier::Host => {},
                    Tier::Path => {},
                    Tier::Fallback => {},
                }
            }
            assert(wins(routes, host, path, t, i));
        },
        None => {
            assert forall|t: Tier| tier_is_empty(routes, host, path, t) by {
                match t {
                    Tier::HostAndPath => {},
                    Tier::Host => {},
                    Tier::Path => {},
                    Tier::Fallback => {},
                }
            }
        },
    }
}

/// At most one route can win, and it wins through one tier only.
pub proof fn lemma_winner_is_unique(
    routes: Seq<RouteView>,
    host: Seq<char>,
    path: Seq<char>,
    t: Tier,
    i: int,
    u: Tier,
    j: int,
)
    requires
        wins(routes, host, path, t, i),
        wins(routes, host, path, u, j),
    ensures
        t == u,
        i == j,
{
    if t.rank() < u.rank() {
        assert(tier_is_empty(routes, host, path, t));
        assert(!in_tier(t, routes[i], host, path));
    }
    if u.rank() < t.rank() {
        assert(tier_is_empty(routes, host, path, u));
        assert(!in_tier(u, routes[j], host, path));
    }
    assert(t == u);
    if i < j {
        assert(!in_tier(u, routes[i], host, path));
    }
    if j < i {
        assert(!in_tier(t, routes[j], host, path));
    }
}

/// A route that wins is the one [`resolve`] returns.
pub proof fn lemma_winner_is_resolved(
    routes: Seq<RouteView>,
    host: Seq<char>,
    path: Seq<char>,
    t: Tier,
    i: int,
)
    requires
        wins(routes, host, path, t, i),
    ensures
        resolve(routes, host, path) == Some(i),
{
    lemma_resolve_respects_tiers(routes, host, path);
    match resolve(routes, host, path) {
        Some(k) => {
            let u = choose|u: Tier| wins(routes, host, path, u, k);
            lemma_winner_is_unique(routes, host, path, t, i, u, k);
        },
        None => {
            assert(tier_is_empty(routes, host, path, t));
            assert(!in_tier(t, routes[i], host, path));
        },
    }
}

/// Order within a tier: when tier `t` decides, because every tier tried
/// before it is empty, and two routes of the table are both in `t`, the
/// chosen route is the first route of `t`, which stands no later than the
/// earlier of the two.
pub proof fn lemma_first_inserted_wins(
    routes: Seq<RouteView>,
    host: Seq<char>,
    path: Seq<char>,
    t: Tier,
    j: int,
    k: int,
)
    requires
        forall|u: Tier| u.rank() < t.rank() ==> tier_is_empty(routes, host, path, u),
        0 <= j < k < routes.len(),
        in_tier(t, routes[j], host, path),
        in_tier(t, routes[k], host, path),
    ensures
        resolve(routes, host, path) matches Some(i) && i <= j && first_of_tier(
            routes,
            host,
            path,
            t,
            i,
        ),
{
    lemma_resolve_respects_tiers(routes, host, path);
    match resolve(routes, host, path) {
        Some(i) => {
            let w = choose|w: Tier| wins(routes, host, path, w, i);
            if w.rank() < t.rank() {
                assert(tier_is_empty(routes, host, path, w));
                assert(!in_tier(w, routes[i], host, path));
            }
            if t.rank() < w.rank() {
                assert(tier_is_empty(routes, host, path, t));
                assert(!in_tier(t, routes[j], host, path));
            }
            assert(w == t);
            if j < i {
                assert(!in_tier(t, routes[j], host, path));
            }
        },
        None => {
            assert(tier_is_empty(routes, host, path, t));
            assert(!in_tier(t, routes[j], host, path));
        },
    }
}

/// A fallback route whose host is the request's host never waits for the
/// last tier: it already applies in the host tier. So when the fallback tier
/// decides, no fallback route names the request's host.
pub proof fn lemma_fallback_has_no_host_match(
    routes: Seq<RouteView>,
    host: Seq<char>,
    path: Seq<char>,
    i: int,
    j: int,
)
    requires
        wins(routes, host, path, Tier::Fallback, i),
        0 <= j < routes.len(),
    ensures
        routes[j].host != Some(host),
{
    assert(Tier::Host.rank() < Tier::Fallback.rank());
    assert(tier_is_empty(routes, host, path, Tier::Host));
    assert(!in_tier(Tier::Host, routes[j], host, path));
}

/// The contents of a list of borrowed routes, in order.
pub open spec fn borrowed_views(routes: Seq<&Route>) -> Seq<RouteView> {
    routes.map_values(|r: &Route| r@)
}

/// Whether the route names exactly `host`.
pub fn host_matches(route: &Route, host: &str) -> (r: bool)
    ensures
        r == (route@.host == Some(host@)),
{
    match &route.host {
        Some(h) => same_text(h.as_str(), host),
        None => false,
    }
}

/// Whether the route's path prefix begins the path whose characters are `path`.
pub fn prefix_matches(route: &Route, path: &Vec<char>) -> (r: bool)
    ensures
        r == path_matches(route@, path@),
{
    match &route.path_prefix {
        Some(prefix) => {
            let pat = chars_of(prefix.as_str());
            matches_at(path, &pat, 0)
        },
        None => false,
    }
}

/// Whether `route` applies in `tier` to a request for `host` and the path
/// whose characters are `path`.
pub fn route_in_tier(tier: Tier, route: &Route, host: &str, path: &Vec<char>) -> (r: bool)
    ensures
        r == in_tier(tier, route@, host@, path@),
{
    match tier {
        Tier::HostAndPath => host_matches(route, host) && prefix_matches(route, path),
        Tier::Host => host_matches(route, host),
        Tier::Path => prefix_matches(route, path),
        Tier::Fallback => match route.default {
            Some(d) => d,
            None => false,
        },
    }
}

/// The index of the first route in `tier`.
pub fn first_route_in_tier(tier: Tier, host: &str, path: &Vec<char>, routes: &Vec<&Route>) -> (r:
    Option<usize>)
    ensures
        match r {
            Some(i) => first_in_tier(borrowed_views(routes@), host@, path@, tier) == Some(
                i as int,
            ),
            None => first_in_tier(borrowed_views(routes@), host@, path@, tier) is None,
        },
{
    let ghost views = borrowed_views(routes@);
    let ghost p = |i: int| in_tier(tier, views[i], host@, path@);
    let mut i: usize = 0;
    while i < routes.len()
        invariant
            i <= routes.len(),
            views == borrowed_views(routes@),
            p == (|i: int| in_tier(tier, views[i], host@, path@)),
            least_from(0, routes.len() as int, p) == least_from(i as int, routes.len() as int, p),
        decreases routes.len() - i,
    {
        if route_in_tier(tier, routes[i], host, path) {
            assert(p(i as int));
            return Some(i);
        }
        assert(!p(i as int));
        i += 1;
    }
    None
}

/// The index of the route chosen for a request, if any route applies.
pub fn resolve_route(host: &str, path: &str, routes: &Vec<&Route>) -> (r: Option<usize>)
    ensures
        match r {
            Some(i) => resolve(borrowed_views(routes@), host@, path@) == Some(i as int) && i
                < routes.len(),
            None => resolve(borrowed_views(routes@), host@, path@) is None,
        },
{
    proof {
        lemma_resolve_respects_tiers(borrowed_views(routes@), host@, path@);
    }
    let chars = chars_of(path);
    let found = first_route_in_tier(Tier::HostAndPath, host, &chars, routes);
    if found.is_some() {
        return found;
    }
    let found = first_route_in_tier(Tier::Host, host, &chars, routes);
    if found.is_some() {
        return found;
    }
    let found = first_route_in_tier(Tier::Path, host, &chars, routes);
    if found.is_some() {
        return found;
    }
    first_route_in_tier(Tier::Fallback, host, &chars, routes)
}

/// Chooses the route for a request for `host` and `path`.
///
/// The chosen route is the first route of the first tier that is not empty.
/// `None` is returned exactly when no route applies in any tier.
pub fn choose_route<'a>(host: &str, path: &str, routes: Vec<&'a Route>) -> (r: Option<&'a Route>)
    ensures
        match r {
            Some(route) => exists|t: Tier, i: int|
                wins(borrowed_views(routes@), host@, path@, t, i) && route == routes@[i],
            None => forall|t: Tier| tier_is_empty(borrowed_views(routes@), host@, path@, t),
        },
        match resolve(borrowed_views(routes@), host@, path@) {
            Some(i) => r == Some(routes@[i]),
            None => r is None,
        },
{
    proof {
        lemma_resolve_respects_tiers(borrowed_views(routes@), host@, path@);
    }
    match resolve_route(host, path, &routes) {
        Some(i) => {
            let route: &'a Route = routes[i];
            proof {
                let t = choose|t: Tier| wins(borrowed_views(routes@), host@, path@, t, i as int);
                assert(wins(borrowed_views(routes@), host@, path@, t, i as int) && route
                    == routes@[i as int]);
            }
            Some(route)
        },
        None => None,
    }
}

/// The path sent upstream: `path` without the first occurrence of the route's
/// path prefix when the route asks for stripping, else `path` itself.
pub open spec fn rewritten(path: Seq<char>, route: RouteView) -> Seq<char> {
    match (route.path_prefix, route.strip_path_prefix) {
        (Some(prefix), Some(true)) => remove_first(path, prefix),
        _ => path,
    }
}

/// Builds the path that is used in the upstream request, as the route
/// prescribes. The result may be empty.
pub fn build_request_path<'a>(orig_path: &'a str, route: &Route) -> (r: Cow<'a, str>)
    ensures
        r@ == rewritten(orig_path@, route@),
        route@.strip_path_prefix != Some(true) ==> r@ == orig_path@,
        route@.path_prefix is None ==> r@ == orig_path@,
{
    if let (Some(path_prefix), Some(strip_path_prefix)) = (
        &route.path_prefix,
        route.strip_path_prefix,
    ) {
        if strip_path_prefix {
            return Cow::Owned(without_first(orig_path, path_prefix.as_str()));
        }
    }
    Cow::Borrowed(orig_path)
}

} // verus!
