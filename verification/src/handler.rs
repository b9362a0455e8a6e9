//! The decisions taken while one request is handled.
//!
//! Handling a request alternates between work that only the transport can do
//! (reading a body, sending a request) and decisions. The decisions are made
//! here: [`step`] takes the state of the handling and the event that just
//! happened, and gives the next state and what the transport is to do next.
//!
//! ```text
//! Received --Arrived--> AwaitingBody --Body--> AwaitingUpstream --Forwarded--> Sent
//!     |                      |  |
//!     | no host              |  | no route, or body unreadable
//!     +-------> Sent <-------+--+
//! ```
//!
//! Every path ends in `Sent`, and a response is handed out exactly on the
//! step that enters `Sent`.

use crate::config::{route_views, Config, Route, RouteView};
use crate::request::{
    make_request, upstream_request, InboundRequest, InboundRequestView, OutboundRequest,
    OutboundRequestView,
};
use crate::response::{
    bare_response, marked_response, not_found_response, plain_response, server_header,
    translate_response, translated, ForwardOutcome, ForwardOutcomeView, OutboundResponse,
    OutboundResponseView, BAD_GATEWAY, NOT_FOUND, SERVICE_UNAVAILABLE,
};
use crate::route::{
    borrowed_views, build_request_path, lemma_resolve_respects_tiers, resolve, resolve_route,
    rewritten, wins, Tier,
};
use crate::translate::{get_request_host, requested_host};
use std::borrow::Cow;
use vstd::prelude::*;
use vstd::string::StringExecFns;

verus! {

/// How far the handling of a request has come.
#[derive(Debug, Clone, PartialEq, Eq)]
pub enum HandlerState {
    /// The request has arrived; nothing is decided yet.
    Received,
    /// The host is known; the body is being read.
    AwaitingBody { host: String },
    /// The request was sent upstream over the route at this index of the
    /// routing table; the outcome is awaited.
    AwaitingUpstream { route: usize },
    /// The response has been handed out.
    Sent,
}

/// The mathematical content of a [`HandlerState`].
pub enum HandlerStateView {
    Received,
    AwaitingBody { host: Seq<char> },
    AwaitingUpstream { route: int },
    Sent,
}

impl View for HandlerState {
    type V = HandlerStateView;

    open spec fn view(&self) -> HandlerStateView {
        match self {
            HandlerState::Received => HandlerStateView::Received,
            HandlerState::AwaitingBody { host } => HandlerStateView::AwaitingBody { host: host@ },
            HandlerState::AwaitingUpstream { route } => HandlerStateView::AwaitingUpstream {
                route: *route as int,
            },
            HandlerState::Sent => HandlerStateView::Sent,
        }
    }
}

/// What the transport reports back.
#[derive(Debug, Clone, PartialEq, Eq)]
pub enum Event {
    /// The head of the request is at hand.
    Arrived,
    /// The request body was read in full.
    Body(Vec<u8>),
    /// The request body could not be read.
    BodyFailed,
    /// Forwarding ended with this outcome.
    Forwarded(ForwardOutcome),
}

/// The mathematical content of an [`Event`].
pub enum EventView {
    Arrived,
    Body(Seq<u8>),
    BodyFailed,
    Forwarded(ForwardOutcomeView),
}

impl View for Event {
    type V = EventView;

    open spec fn view(&self) -> EventView {
        match self {
            Event::Arrived => EventView::Arrived,
            Event::Body(bytes) => EventView::Body(bytes@),
            Event::BodyFailed => EventView::BodyFailed,
            Event::Forwarded(outcome) => EventView::Forwarded(outcome@),
        }
    }
}

/// What the transport is to do next.
#[derive(Debug, Clone, PartialEq, Eq)]
pub enum Action {
    /// Read the request body in full, then report `Body` or `BodyFailed`.
    ReadBody,
    /// Send this request upstream and read the whole answer, then report
    /// `Forwarded`.
    Forward(OutboundRequest),
    /// Send this response to the client. Nothing is to be reported.
    Respond(OutboundResponse),
}

/// The mathematical content of an [`Action`].
pub enum ActionView {
    ReadBody,
    Forward(OutboundRequestView),
    Respond(OutboundResponseView),
}

impl View for Action {
    type V = ActionView;

    open spec fn view(&self) -> ActionView {
        match self {
            Action::ReadBody => ActionView::ReadBody,
            Action::Forward(request) => ActionView::Forward(request@),
            Action::Respond(response) => ActionView::Respond(response@),
        }
    }
}

/// Whether `event` is one that can happen in `state`, and `state` names a
/// route that the table of `routes` entries holds.
pub open spec fn accepts(state: HandlerStateView, event: EventView, routes: int) -> bool {
    match state {
        HandlerStateView::Received => event is Arrived,
        HandlerStateView::AwaitingBody { .. } => event is Body || event is BodyFailed,
        HandlerStateView::AwaitingUpstream { route } => event is Forwarded && 0 <= route < routes,
        HandlerStateView::Sent => false,
    }
}

/// How many decisions lie behind a state.
pub open spec fn progress(state: HandlerStateView) -> int {
    match state {
        HandlerStateView::Received => 0,
        HandlerStateView::AwaitingBody { .. } => 1,
        HandlerStateView::AwaitingUpstream { .. } => 2,
        HandlerStateView::Sent => 3,
    }
}

/// The `Server` header value that `config` prescribes for responses of the
/// proxy's own making.
pub open spec fn configured_server(config: &Config) -> Seq<char> {
    match config.proxy {
        Some(proxy) => server_header(Some(&proxy)),
        None => server_header(None),
    }
}

/// The decision on a request whose head has arrived: its body is read when
/// it names a host, and it is answered with a bare 502 when it does not.
pub open spec fn arrival(request: InboundRequestView) -> (HandlerStateView, ActionView) {
    match requested_host(request.headers, request.target_host) {
        Some(host) => (HandlerStateView::AwaitingBody { host }, ActionView::ReadBody),
        None => (HandlerStateView::Sent, ActionView::Respond(bare_response(BAD_GATEWAY))),
    }
}

/// The decision on a request for `host` whose body has been read: it is
/// forwarded over the chosen route with the rewritten path, and answered
/// with 404 when no route applies.
pub open spec fn routing(
    routes: Seq<RouteView>,
    server: Seq<char>,
    request: InboundRequestView,
    host: Seq<char>,
    body: Seq<u8>,
) -> (HandlerStateView, ActionView) {
    match resolve(routes, host, request.path) {
        Some(i) => (
            HandlerStateView::AwaitingUpstream { route: i },
            ActionView::Forward(
                upstream_request(
                    request,
                    rewritten(request.path, routes[i]),
                    body,
                    routes[i].upstream,
                    host,
                ),
            ),
        ),
        None => (
            HandlerStateView::Sent,
            ActionView::Respond(marked_response(NOT_FOUND, server, Seq::empty())),
        ),
    }
}

/// The next state and the action for `event` in `state`; nothing when the
/// event cannot happen in the state.
pub open spec fn next(
    routes: Seq<RouteView>,
    server: Seq<char>,
    request: InboundRequestView,
    state: HandlerStateView,
    event: EventView,
) -> Option<(HandlerStateView, ActionView)> {
    match (state, event) {
        (HandlerStateView::Received, EventView::Arrived) => Some(arrival(request)),
        (HandlerStateView::AwaitingBody { host }, EventView::Body(body)) => Some(
            routing(routes, server, request, host, body),
        ),
        (HandlerStateView::AwaitingBody { host }, EventView::BodyFailed) => Some(
            (HandlerStateView::Sent, ActionView::Respond(bare_response(SERVICE_UNAVAILABLE))),
        ),
        (HandlerStateView::AwaitingUpstream { route }, EventView::Forwarded(outcome)) => if 0
            <= route < routes.len() {
            Some(
                (
                    HandlerStateView::Sent,
                    ActionView::Respond(translated(outcome, server, routes[route])),
                ),
            )
        } else {
            None
        },
        _ => None,
    }
}

/// A step is taken exactly for the events that the state accepts. Every step
/// moves the handling forward, a response is handed out exactly on the step
/// that enters `Sent`, and the state that follows names only a route that the
/// table holds. So a request is answered once, after at most three steps.
pub proof fn lemma_step_advances(
    routes: Seq<RouteView>,
    server: Seq<char>,
    request: InboundRequestView,
    state: HandlerStateView,
    event: EventView,
)
    ensures
        next(routes, server, request, state, event) is Some <==> accepts(
            state,
            event,
            routes.len() as int,
        ),
        next(routes, server, request, state, event) matches Some((after, action)) ==> {
            &&& progress(state) < progress(after) <= 3
            &&& action is Respond <==> after is Sent
            &&& after matches HandlerStateView::AwaitingUpstream { route } ==> 0 <= route
                < routes.len()
        },
{
    if let HandlerStateView::AwaitingBody { host } = state {
        lemma_resolve_respects_tiers(routes, host, request.path);
        if let Some(i) = resolve(routes, host, request.path) {
            let t = choose|t: Tier| wins(routes, host, request.path, t, i);
            assert(wins(routes, host, request.path, t, i));
        }
    }
}

/// References to the routes of a table, in order.
pub fn borrow_routes(routes: &Vec<Route>) -> (r: Vec<&Route>)
    ensures
        r@.len() == routes@.len(),
        forall|i: int| 0 <= i < r@.len() ==> *(#[trigger] r@[i]) == routes@[i],
        borrowed_views(r@) == route_views(routes@),
{
    let mut r: Vec<&Route> = Vec::new();
    let mut i: usize = 0;
    while i < routes.len()
        invariant
            i <= routes.len(),
            r@.len() == i,
            forall|k: int| 0 <= k < i ==> *(#[trigger] r@[k]) == routes@[k],
        decreases routes.len() - i,
    {
        r.push(&routes[i]);
        i += 1;
    }
    assert(borrowed_views(r@) =~= route_views(routes@));
    r
}

/// The decision on a request whose head has arrived: read the body when the
/// request names a host, answer 502 when it does not.
pub fn on_arrival(request: &InboundRequest) -> (r: (HandlerState, Action))
    ensures
        (r.0@, r.1@) == arrival(request@),
{
    let target = match &request.target_host {
        Some(h) => Some(h.as_str()),
        None => None,
    };
    match get_request_host(&request.headers, target) {
        Some(host) => (
            HandlerState::AwaitingBody { host: String::from_str(host) },
            Action::ReadBody,
        ),
        None => (HandlerState::Sent, Action::Respond(plain_response(BAD_GATEWAY))),
    }
}

/// The decision on a request for `host` whose body has been read: forward it
/// over the chosen route, or answer 404 when no route applies.
pub fn on_body(config: &Config, request: &InboundRequest, host: &str, body: Vec<u8>) -> (r: (
    HandlerState,
    Action,
))
    ensures
        (r.0@, r.1@) == routing(
            route_views(config.routes@),
            configured_server(config),
            request@,
            host@,
            body@,
        ),
{
    let routes = borrow_routes(&config.routes);
    match resolve_route(host, request.path.as_str(), &routes) {
        Some(i) => {
            let route = &config.routes[i];
            let path = build_request_path(request.path.as_str(), route);
            let forwarded = make_request(
                request,
                match &path {
                    Cow::Borrowed(kept) => kept,
                    Cow::Owned(stripped) => stripped.as_str(),
                },
                body,
                route.upstream.as_str(),
                host,
            );
            (HandlerState::AwaitingUpstream { route: i }, Action::Forward(forwarded))
        },
        None => (HandlerState::Sent, Action::Respond(not_found_response(config.proxy.as_ref()))),
    }
}

/// Takes the decision that `event` calls for in `state`.
///
/// Returns the next state and what the transport is to do next, or `None`
/// when the event cannot happen in the state; nothing is decided then.
pub fn step(config: &Config, request: &InboundRequest, state: &HandlerState, event: Event) -> (r:
    Option<(HandlerState, Action)>)
    ensures
        match r {
            Some((after, action)) => next(
                route_views(config.routes@),
                configured_server(config),
                request@,
                state@,
                event@,
            ) == Some((after@, action@)),
            None => next(
                route_views(config.routes@),
                configured_server(config),
                request@,
                state@,
                event@,
            ) is None,
        },
        r is Some <==> accepts(state@, event@, config.routes@.len() as int),
        r matches Some((after, action)) ==> {
            &&& progress(state@) < progress(after@)
            &&& action is Respond <==> after is Sent
            &&& after matches HandlerState::AwaitingUpstream { route } ==> route
                < config.routes@.len()
        },
{
    proof {
        lemma_step_advances(
            route_views(config.routes@),
            configured_server(config),
            request@,
            state@,
            event@,
        );
    }
    match state {
        HandlerState::Received => match event {
            Event::Arrived => Some(on_arrival(request)),
            _ => None,
        },
        HandlerState::AwaitingBody { host } => match event {
            Event::Body(body) => Some(on_body(config, request, host.as_str(), body)),
            Event::BodyFailed => Some(
                (HandlerState::Sent, Action::Respond(plain_response(SERVICE_UNAVAILABLE))),
            ),
            _ => None,
        },
        HandlerState::AwaitingUpstream { route } => match event {
            Event::Forwarded(outcome) => if *route < config.routes.len() {
                Some(
                    (
                        HandlerState::Sent,
                        Action::Respond(
                            translate_response(
                                outcome,
                                config.proxy.as_ref(),
                                &config.routes[*route],
                            ),
                        ),
                    ),
                )
            } else {
                None
            },
            _ => None,
        },
        HandlerState::Sent => None,
    }
}

} // verus!
