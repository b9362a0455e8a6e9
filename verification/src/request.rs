//! The request as it arrives, and the request that is sent upstream.

use crate::header::{header_views, Header, HeaderView};
use crate::translate::{outbound_headers, translate_headers};
use vstd::prelude::*;
use vstd::string::StringExecFns;

verus! {

/// What the transport hands over about an inbound request, apart from its
/// body.
#[derive(Debug, Clone, PartialEq, Eq)]
pub struct InboundRequest {
    /// The request method, as sent.
    pub method: String,
    /// The path of the request target.
    pub path: String,
    /// The query string without the leading `?`; empty when there is none.
    pub query: String,
    /// The headers in order of arrival; a name may occur more than once.
    pub headers: Vec<Header>,
    /// The host named in the request target, if it names one.
    pub target_host: Option<String>,
    /// The address of the client, as far as the transport knows it.
    pub client_ip: Option<String>,
    /// The scheme the request arrived over.
    pub scheme: String,
}

/// The mathematical content of an [`InboundRequest`].
pub struct InboundRequestView {
    pub method: Seq<char>,
    pub path: Seq<char>,
    pub query: Seq<char>,
    pub headers: Seq<HeaderView>,
    pub target_host: Option<Seq<char>>,
    pub client_ip: Option<Seq<char>>,
    pub scheme: Seq<char>,
}

impl View for InboundRequest {
    type V = InboundRequestView;

    open spec fn view(&self) -> InboundRequestView {
        InboundRequestView {
            method: self.method@,
            path: self.path@,
            query: self.query@,
            headers: header_views(self.headers@),
            target_host: match self.target_host {
                Some(h) => Some(h@),
                None => None,
            },
            client_ip: match self.client_ip {
                Some(a) => Some(a@),
                None => None,
            },
            scheme: self.scheme@,
        }
    }
}

/// The request that the transport is asked to send upstream.
#[derive(Debug, Clone, PartialEq, Eq)]
pub struct OutboundRequest {
    pub method: String,
    /// The absolute URL of the target.
    pub url: String,
    pub headers: Vec<Header>,
    pub body: Vec<u8>,
}

/// The mathematical content of an [`OutboundRequest`].
pub struct OutboundRequestView {
    pub method: Seq<char>,
    pub url: Seq<char>,
    pub headers: Seq<HeaderView>,
    pub body: Seq<u8>,
}

impl View for OutboundRequest {
    type V = OutboundRequestView;

    open spec fn view(&self) -> OutboundRequestView {
        OutboundRequestView {
            method: self.method@,
            url: self.url@,
            headers: header_views(self.headers@),
            body: self.body@,
        }
    }
}

/// The client address that is passed on: the known address, or the empty
/// string.
pub open spec fn known_address(client_ip: Option<Seq<char>>) -> Seq<char> {
    match client_ip {
        Some(a) => a,
        None => Seq::empty(),
    }
}

/// The URL of the upstream target: the upstream base, then the path, then,
/// only when the query is not empty, `?` and the query.
pub open spec fn target_url(upstream: Seq<char>, path: Seq<char>, query: Seq<char>) -> Seq<char> {
    if query.len() == 0 {
        upstream + path
    } else {
        upstream + path + "?"@ + query
    }
}

/// The request sent upstream for `req`, with the rewritten `path`.
pub open spec fn upstream_request(
    req: InboundRequestView,
    path: Seq<char>,
    body: Seq<u8>,
    upstream: Seq<char>,
    original_host: Seq<char>,
) -> OutboundRequestView {
    OutboundRequestView {
        method: req.method,
        url: target_url(upstream, path, req.query),
        headers: outbound_headers(
            req.headers,
            known_address(req.client_ip),
            req.scheme,
            original_host,
        ),
        body,
    }
}

/// The URL of the upstream target, see [`target_url`].
pub fn request_url(upstream: &str, path: &str, query: &str) -> (r: String)
    ensures
        r@ == target_url(upstream@, path@, query@),
{
    let mut url = String::from_str(upstream);
    url.append(path);
    if !query.is_empty() {
        url.append("?");
        url.append(query);
    }
    url
}

/// Makes the request that is sent to the upstream server: the method and the
/// body as they came, the target built from `upstream`, `path` and the query,
/// and the translated headers.
pub fn make_request(
    req: &InboundRequest,
    path: &str,
    body: Vec<u8>,
    upstream: &str,
    original_host: &str,
) -> (r: OutboundRequest)
    ensures
        r@ == upstream_request(req@, path@, body@, upstream@, original_host@),
{
    let client_ip = match &req.client_ip {
        Some(a) => a.as_str(),
        None => "",
    };
    proof {
        reveal_strlit("");
        assert(""@ =~= Seq::<char>::empty());
    }
    OutboundRequest {
        method: req.method.clone(),
        url: request_url(upstream, path, req.query.as_str()),
        headers: translate_headers(&req.headers, client_ip, req.scheme.as_str(), original_host),
        body,
    }
}

} // verus!
