//! Shaping the response that goes back to the client.
//!
//! A response is either the upstream server's answer, with the route's own
//! headers laid over it, or one that the proxy makes up itself because it
//! could not obtain an answer.

use crate::config::{ProxyConfig, Route, RouteView};
use crate::header::{header_views, Header, HeaderView};
use crate::text::{same_name, same_name_text};
use crate::translate::occurs;
use vstd::prelude::*;
use vstd::string::StrSliceExecFns;
use vstd::string::StringExecFns;
use vstd::utf8::encode_utf8;

verus! {

/// Status of a response to a request that no route applies to.
pub const NOT_FOUND: u16 = 404;

/// Status of a response to a request that could not be forwarded.
pub const BAD_GATEWAY: u16 = 502;

/// Status of a response when a body could not be read.
pub const SERVICE_UNAVAILABLE: u16 = 503;

/// How forwarding a request ended.
#[derive(Debug, Clone, PartialEq, Eq)]
pub enum ForwardOutcome {
    /// The upstream server answered, and its body was read in full.
    Response { status: u16, headers: Vec<Header>, body: Vec<u8> },
    /// The upstream server answered, but its body could not be read.
    BodyUnreadable,
    /// No answer was obtained; the text says why.
    Failure(String),
}

/// The mathematical content of a [`ForwardOutcome`].
pub enum ForwardOutcomeView {
    Response { status: u16, headers: Seq<HeaderView>, body: Seq<u8> },
    BodyUnreadable,
    Failure(Seq<char>),
}

impl View for ForwardOutcome {
    type V = ForwardOutcomeView;

    open spec fn view(&self) -> ForwardOutcomeView {
        match self {
            ForwardOutcome::Response { status, headers, body } => ForwardOutcomeView::Response {
                status: *status,
                headers: header_views(headers@),
                body: body@,
            },
            ForwardOutcome::BodyUnreadable => ForwardOutcomeView::BodyUnreadable,
            ForwardOutcome::Failure(text) => ForwardOutcomeView::Failure(text@),
        }
    }
}

/// The response sent to the client.
#[derive(Debug, Clone, PartialEq, Eq)]
pub struct OutboundResponse {
    pub status: u16,
    pub headers: Vec<Header>,
    pub body: Vec<u8>,
}

/// The mathematical content of an [`OutboundResponse`].
pub struct OutboundResponseView {
    pub status: u16,
    pub headers: Seq<HeaderView>,
    pub body: Seq<u8>,
}

impl View for OutboundResponse {
    type V = OutboundResponseView;

    open spec fn view(&self) -> OutboundResponseView {
        OutboundResponseView {
            status: self.status,
            headers: header_views(self.headers@),
            body: self.body@,
        }
    }
}

/// The configured value of the `Server` header on responses of the proxy's
/// own making; empty when none is configured.
pub open spec fn server_header(proxy_config: Option<&ProxyConfig>) -> Seq<char> {
    match proxy_config {
        Some(config) => match config.error_server_header {
            Some(value) => value@,
            None => Seq::empty(),
        },
        None => Seq::empty(),
    }
}

/// A response without headers and without a body.
pub open spec fn bare_response(status: u16) -> OutboundResponseView {
    OutboundResponseView { status, headers: Seq::empty(), body: Seq::empty() }
}

/// A response of the proxy's own making that says so in its `Server` header.
pub open spec fn marked_response(status: u16, server: Seq<char>, body: Seq<u8>) -> OutboundResponseView {
    OutboundResponseView {
        status,
        headers: seq![HeaderView { name: "Server"@, value: server }],
        body,
    }
}

/// `headers` without those named `name`.
pub open spec fn without_name(headers: Seq<HeaderView>, name: Seq<char>) -> Seq<HeaderView>
    decreases headers.len(),
{
    if headers.len() == 0 {
        Seq::empty()
    } else {
        let rest = without_name(headers.drop_last(), name);
        if same_name(headers.last().name, name) {
            rest
        } else {
            rest.push(headers.last())
        }
    }
}

/// `headers` with `header` as the only header of its name, at the end.
pub open spec fn with_header(headers: Seq<HeaderView>, header: HeaderView) -> Seq<HeaderView> {
    without_name(headers, header.name).push(header)
}

/// `base` with each header of `extra` set in turn.
pub open spec fn overlay(base: Seq<HeaderView>, extra: Seq<HeaderView>) -> Seq<HeaderView>
    decreases extra.len(),
{
    if extra.len() == 0 {
        base
    } else {
        with_header(overlay(base, extra.drop_last()), extra.last())
    }
}

/// The headers of a successful response: the upstream headers, with the
/// route's response headers laid over them.
pub open spec fn response_headers(upstream: Seq<HeaderView>, route: RouteView) -> Seq<HeaderView> {
    match route.response_headers {
        Some(extra) => overlay(upstream, extra),
        None => upstream,
    }
}

/// The response for the outcome of forwarding a request over `route`.
pub open spec fn translated(
    outcome: ForwardOutcomeView,
    server: Seq<char>,
    route: RouteView,
) -> OutboundResponseView {
    match outcome {
        ForwardOutcomeView::Response { status, headers, body } => OutboundResponseView {
            status,
            headers: response_headers(headers, route),
            body,
        },
        ForwardOutcomeView::BodyUnreadable => bare_response(SERVICE_UNAVAILABLE),
        ForwardOutcomeView::Failure(text) => marked_response(
            BAD_GATEWAY,
            server,
            encode_utf8(text),
        ),
    }
}

/// The value of the `Server` header on responses of the proxy's own making.
pub fn get_server_header(proxy_config: Option<&ProxyConfig>) -> (r: String)
    ensures
        r@ == server_header(proxy_config),
{
    match proxy_config {
        Some(config) => match &config.error_server_header {
            Some(value) => value.clone(),
            None => String::new(),
        },
        None => String::new(),
    }
}

/// A response without headers and without a body.
pub fn plain_response(status: u16) -> (r: OutboundResponse)
    ensures
        r@ == bare_response(status),
{
    let r = OutboundResponse { status, headers: Vec::new(), body: Vec::new() };
    assert(header_views(r.headers@) =~= Seq::<HeaderView>::empty());
    r
}

/// A response of the proxy's own making, with the configured `Server` header.
pub fn own_response(status: u16, proxy_config: Option<&ProxyConfig>, body: Vec<u8>) -> (r:
    OutboundResponse)
    ensures
        r@ == marked_response(status, server_header(proxy_config), body@),
{
    let mut headers: Vec<Header> = Vec::new();
    headers.push(Header::new(String::from_str("Server"), get_server_header(proxy_config)));
    assert(header_views(headers@) =~= seq![
        HeaderView { name: "Server"@, value: server_header(proxy_config) },
    ]);
    OutboundResponse { status, headers, body }
}

/// The response to a request that no route applies to: status 404, the
/// configured `Server` header, no body.
pub fn not_found_response(proxy_config: Option<&ProxyConfig>) -> (r: OutboundResponse)
    ensures
        r@ == marked_response(NOT_FOUND, server_header(proxy_config), Seq::empty()),
{
    own_response(NOT_FOUND, proxy_config, Vec::new())
}

/// `headers` without those named `name`.
pub fn remove_named(headers: Vec<Header>, name: &str) -> (r: Vec<Header>)
    ensures
        header_views(r@) == without_name(header_views(headers@), name@),
{
    let ghost views = header_views(headers@);
    let mut r: Vec<Header> = Vec::new();
    let mut i: usize = 0;
    assert(views.take(0) =~= Seq::<HeaderView>::empty());
    assert(header_views(r@) =~= Seq::<HeaderView>::empty());
    while i < headers.len()
        invariant
            i <= headers.len(),
            views == header_views(headers@),
            header_views(r@) == without_name(views.take(i as int), name@),
        decreases headers.len() - i,
    {
        let ghost before = r@;
        assert(views.take(i + 1).drop_last() =~= views.take(i as int));
        if !same_name_text(headers[i].name.as_str(), name) {
            r.push(headers[i].duplicate());
            assert(header_views(r@) =~= header_views(before).push(views[i as int]));
        }
        i += 1;
    }
    assert(views.take(headers.len() as int) =~= views);
    r
}

/// `headers` with `header` as the only header of its name, at the end.
pub fn set_header(headers: Vec<Header>, header: Header) -> (r: Vec<Header>)
    ensures
        header_views(r@) == with_header(header_views(headers@), header@),
{
    let mut r = remove_named(headers, header.name.as_str());
    let ghost before = r@;
    r.push(header);
    assert(header_views(r@) =~= header_views(before).push(header@));
    r
}

/// `base` with each header of `extra` set in turn.
pub fn lay_over(base: Vec<Header>, extra: &Vec<Header>) -> (r: Vec<Header>)
    ensures
        header_views(r@) == overlay(header_views(base@), header_views(extra@)),
{
    let ghost base_views = header_views(base@);
    let ghost extra_views = header_views(extra@);
    let mut r = base;
    let mut i: usize = 0;
    assert(extra_views.take(0) =~= Seq::<HeaderView>::empty());
    while i < extra.len()
        invariant
            i <= extra.len(),
            extra_views == header_views(extra@),
            header_views(r@) == overlay(base_views, extra_views.take(i as int)),
        decreases extra.len() - i,
    {
        assert(extra_views.take(i + 1).drop_last() =~= extra_views.take(i as int));
        r = set_header(r, extra[i].duplicate());
        i += 1;
    }
    assert(extra_views.take(extra.len() as int) =~= extra_views);
    r
}

/// Turns the outcome of forwarding a request over `route` into the response
/// for the client.
///
/// An answer keeps its status and body, and gets the route's response headers
/// laid over its own. An answer whose body could not be read becomes a bare
/// 503. A failure becomes a 502 that carries the configured `Server` header
/// and the failure's text as its body.
pub fn translate_response(
    outcome: ForwardOutcome,
    proxy_config: Option<&ProxyConfig>,
    route: &Route,
) -> (r: OutboundResponse)
    ensures
        r@ == translated(outcome@, server_header(proxy_config), route@),
{
    match outcome {
        ForwardOutcome::Response { status, headers, body } => {
            let headers = match &route.response_headers {
                Some(extra) => lay_over(headers, extra),
                None => headers,
            };
            OutboundResponse { status, headers, body }
        },
        ForwardOutcome::BodyUnreadable => plain_response(SERVICE_UNAVAILABLE),
        ForwardOutcome::Failure(text) => own_response(
            BAD_GATEWAY,
            proxy_config,
            text.as_str().as_bytes_vec(),
        ),
    }
}

/// Whether the header at `i` is the last of its name in `headers`.
pub open spec fn last_of_name(headers: Seq<HeaderView>, i: int) -> bool {
    &&& 0 <= i < headers.len()
    &&& forall|j: int| i < j < headers.len() ==> !same_name((#[trigger] headers[j]).name, headers[i].name)
}

/// Removing a name removes the headers of that name and no others.
pub proof fn lemma_without_name_contains(headers: Seq<HeaderView>, name: Seq<char>, e: HeaderView)
    ensures
        without_name(headers, name).contains(e) <==> headers.contains(e) && !same_name(
            e.name,
            name,
        ),
    decreases headers.len(),
{
    if headers.len() > 0 {
        let rest = headers.drop_last();
        lemma_without_name_contains(rest, name, e);
        let kept = without_name(rest, name);
        if headers.contains(e) {
            let k = choose|k: int| 0 <= k < headers.len() && headers[k] == e;
            if k < rest.len() {
                assert(rest[k] == e);
            }
        }
        if rest.contains(e) {
            let k = choose|k: int| 0 <= k < rest.len() && rest[k] == e;
            assert(headers[k] == e);
        }
        assert(headers[headers.len() - 1] == headers.last());
        if !same_name(headers.last().name, name) {
            let all = kept.push(headers.last());
            assert(all[all.len() - 1] == headers.last());
            if kept.contains(e) {
                let k = choose|k: int| 0 <= k < kept.len() && kept[k] == e;
                assert(all[k] == e);
            }
            if all.contains(e) {
                let k = choose|k: int| 0 <= k < all.len() && all[k] == e;
                if k < kept.len() {
                    assert(kept[k] == e);
                }
            }
        }
    }
}

/// The headers laid over a response take precedence where names collide.
///
/// After `extra` is laid over `base`, the result holds exactly: the headers
/// of `base` whose name no header of `extra` has, and of each name in `extra`
/// the header that stands last under that name.
pub proof fn lemma_overlay_precedence(base: Seq<HeaderView>, extra: Seq<HeaderView>, e: HeaderView)
    ensures
        overlay(base, extra).contains(e) <==> (base.contains(e) && !occurs(extra, e.name)) || (
        exists|i: int| #[trigger] last_of_name(extra, i) && extra[i] == e),
    decreases extra.len(),
{
    if extra.len() == 0 {
        assert(!occurs(extra, e.name));
    } else {
        let rest = extra.drop_last();
        let last = extra.last();
        let n = extra.len() - 1;
        lemma_overlay_precedence(base, rest, e);
        let under = overlay(base, rest);
        let kept = without_name(under, last.name);
        lemma_without_name_contains(under, last.name, e);
        let all = kept.push(last);
        assert(all[all.len() - 1] == last);
        assert(extra[n] == last);
        assert(last_of_name(extra, n));
        if all.contains(e) {
            let k = choose|k: int| 0 <= k < all.len() && all[k] == e;
            if k < kept.len() {
                assert(kept[k] == e);
                assert(kept.contains(e));
                if base.contains(e) && !occurs(rest, e.name) {
                    if occurs(extra, e.name) {
                        let j = choose|j: int|
                            0 <= j < extra.len() && same_name((#[trigger] extra[j]).name, e.name);
                        if j < n {
                            assert(same_name(rest[j].name, e.name));
                        }
                    }
                } else {
                    let i = choose|i: int| #[trigger] last_of_name(rest, i) && rest[i] == e;
                    assert forall|j: int| i < j < extra.len() implies !same_name(
                        (#[trigger] extra[j]).name,
                        extra[i].name,
                    ) by {
                        if j < n {
                            assert(!same_name(rest[j].name, rest[i].name));
                        }
                    }
                    assert(last_of_name(extra, i) && extra[i] == e);
                }
            } else {
                assert(last_of_name(extra, n) && extra[n] == e);
            }
        }
        if base.contains(e) && !occurs(extra, e.name) {
            assert(!same_name(extra[n].name, e.name));
            assert(!occurs(rest, e.name)) by {
                if occurs(rest, e.name) {
                    let j = choose|j: int|
                        0 <= j < rest.len() && same_name((#[trigger] rest[j]).name, e.name);
                    assert(same_name(extra[j].name, e.name));
                }
            }
            assert(under.contains(e));
            assert(kept.contains(e));
            let k = choose|k: int| 0 <= k < kept.len() && kept[k] == e;
            assert(all[k] == e);
        }
        if exists|i: int| #[trigger] last_of_name(extra, i) && extra[i] == e {
            let i = choose|i: int| #[trigger] last_of_name(extra, i) && extra[i] == e;
            if i == n {
                assert(all[all.len() - 1] == e);
            } else {
                assert(!same_name(extra[n].name, extra[i].name));
                assert forall|j: int| i < j < rest.len() implies !same_name(
                    (#[trigger] rest[j]).name,
                    rest[i].name,
                ) by {
                    assert(!same_name(extra[j].name, extra[i].name));
                }
                assert(last_of_name(rest, i) && rest[i] == e);
                assert(under.contains(e));
                assert(kept.contains(e));
                let k = choose|k: int| 0 <= k < kept.len() && kept[k] == e;
                assert(all[k] == e);
            }
        }
    }
}

} // verus!
