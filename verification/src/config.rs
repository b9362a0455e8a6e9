//! The proxy's configuration: where it listens, its routing table, and the
//! rules a routing table has to obey before the proxy may serve.

use crate::header::{header_views, Header, HeaderView};
use crate::search::{least_from, lemma_least_from};
use crate::text::{decimal, push_decimal};
use vstd::prelude::*;
use vstd::string::StringExecFns;

verus! {

/// One routing rule.
#[derive(Debug, Clone, PartialEq, Eq)]
pub struct Route {
    /// The path prefix for this route to match on.
    pub path_prefix: Option<String>,
    /// The host this route matches on, compared exactly.
    pub host: Option<String>,
    /// Whether this is the fallback route when no other route matches.
    pub default: Option<bool>,
    /// The upstream server, scheme included.
    pub upstream: String,
    /// Whether `path_prefix` is removed from the path that is forwarded.
    pub strip_path_prefix: Option<bool>,
    /// Headers added to every successful response of this route.
    pub response_headers: Option<Vec<Header>>,
}

/// The mathematical content of a [`Route`].
pub struct RouteView {
    pub path_prefix: Option<Seq<char>>,
    pub host: Option<Seq<char>>,
    pub default: Option<bool>,
    pub upstream: Seq<char>,
    pub strip_path_prefix: Option<bool>,
    pub response_headers: Option<Seq<HeaderView>>,
}

/// The characters of an optional string.
pub open spec fn text_view(s: Option<String>) -> Option<Seq<char>> {
    match s {
        Some(t) => Some(t@),
        None => None,
    }
}

impl View for Route {
    type V = RouteView;

    open spec fn view(&self) -> RouteView {
        RouteView {
            path_prefix: text_view(self.path_prefix),
            host: text_view(self.host),
            default: self.default,
            upstream: self.upstream@,
            strip_path_prefix: self.strip_path_prefix,
            response_headers: match self.response_headers {
                Some(h) => Some(header_views(h@)),
                None => None,
            },
        }
    }
}

/// The contents of a routing table, in order.
pub open spec fn route_views(routes: Seq<Route>) -> Seq<RouteView> {
    routes.map_values(|r: Route| r@)
}

/// Settings of the proxy itself.
#[derive(Debug, Clone, PartialEq, Eq)]
pub struct ProxyConfig {
    /// The value of the `Server` header on responses that the proxy makes up
    /// itself, so that an error can be told from one of the upstream server.
    pub error_server_header: Option<String>,
}

/// Where the proxy listens.
#[derive(Debug, Clone, PartialEq, Eq)]
pub struct NetConfig {
    pub port: u16,
    pub bind_address: String,
}

/// Where the certificate chain and the private key are kept.
#[derive(Debug, Clone, PartialEq, Eq)]
pub struct TlsConfig {
    pub pubkey: String,
    pub privkey: String,
}

/// The whole configuration.
#[derive(Debug, Clone, PartialEq, Eq)]
pub struct Config {
    pub net: NetConfig,
    pub tls: Option<TlsConfig>,
    pub routes: Vec<Route>,
    pub proxy: Option<ProxyConfig>,
}

/// Why a configuration could not be used.
#[derive(Debug, Clone, PartialEq, Eq)]
pub enum ConfigError {
    /// Reading or writing the file failed.
    Io(String),
    /// The configuration could not be written down.
    TomlSer(String),
    /// The file does not hold a configuration.
    TomlDe(String),
    /// A path named in the configuration does not exist.
    FileNotFound(String),
    /// The configuration breaks a rule.
    InvalidConfig(String),
}

/// The mathematical content of a [`ConfigError`].
pub enum ConfigErrorView {
    Io(Seq<char>),
    TomlSer(Seq<char>),
    TomlDe(Seq<char>),
    FileNotFound(Seq<char>),
    InvalidConfig(Seq<char>),
}

impl View for ConfigError {
    type V = ConfigErrorView;

    open spec fn view(&self) -> ConfigErrorView {
        match self {
            ConfigError::Io(s) => ConfigErrorView::Io(s@),
            ConfigError::TomlSer(s) => ConfigErrorView::TomlSer(s@),
            ConfigError::TomlDe(s) => ConfigErrorView::TomlDe(s@),
            ConfigError::FileNotFound(s) => ConfigErrorView::FileNotFound(s@),
            ConfigError::InvalidConfig(s) => ConfigErrorView::InvalidConfig(s@),
        }
    }
}

/// The text shown for an error.
pub open spec fn error_text(e: ConfigErrorView) -> Seq<char> {
    match e {
        ConfigErrorView::Io(s) => s,
        ConfigErrorView::TomlSer(s) => "Failed to serialize: "@ + s,
        ConfigErrorView::TomlDe(s) => "Failed to deserialize: "@ + s,
        ConfigErrorView::FileNotFound(s) => "Configured path does not exist: "@ + s,
        ConfigErrorView::InvalidConfig(s) => "Invalid configuration: "@ + s,
    }
}

impl ConfigError {
    /// The text shown for this error.
    pub fn message(&self) -> (r: String)
        ensures
            r@ == error_text(self@),
    {
        match self {
            ConfigError::Io(s) => s.clone(),
            ConfigError::TomlSer(s) => String::from_str("Failed to serialize: ").concat(
                s.as_str(),
            ),
            ConfigError::TomlDe(s) => String::from_str("Failed to deserialize: ").concat(
                s.as_str(),
            ),
            ConfigError::FileNotFound(s) => String::from_str(
                "Configured path does not exist: ",
            ).concat(s.as_str()),
            ConfigError::InvalidConfig(s) => String::from_str("Invalid configuration: ").concat(
                s.as_str(),
            ),
        }
    }
}

/// Whether a route is marked as a fallback.
pub open spec fn is_default(r: RouteView) -> bool {
    r.default == Some(true)
}

/// How many fallback routes the table holds for `host`; `None` counts the
/// fallback routes that name no host.
pub open spec fn default_count(routes: Seq<RouteView>, host: Option<Seq<char>>) -> nat
    decreases routes.len(),
{
    if routes.len() == 0 {
        0
    } else {
        let rest = default_count(routes.drop_last(), host);
        if is_default(routes.last()) && routes.last().host == host {
            rest + 1
        } else {
            rest
        }
    }
}

/// Whether the route at `i` is a fallback for a host that has more than one.
pub open spec fn conflicts_at(routes: Seq<RouteView>, i: int) -> bool {
    0 <= i < routes.len() && is_default(routes[i]) && routes[i].host is Some && default_count(
        routes,
        routes[i].host,
    ) > 1
}

/// The complaint about a host with `count` fallback routes.
pub open spec fn host_conflict_text(host: Seq<char>, count: nat) -> Seq<char> {
    "The host "@ + host + " may only have 1 default route. It currently has "@ + decimal(count)
}

/// The complaint about `count` fallback routes that name no host.
pub open spec fn hostless_conflict_text(count: nat) -> Seq<char> {
    "There may only be 1 default route without a specified host. There are currently "@
        + decimal(count)
}

/// A routing table is valid when every host has at most one fallback route,
/// and at most one fallback route names no host.
pub open spec fn valid_routes(routes: Seq<RouteView>) -> bool {
    &&& forall|i: int| 0 <= i < routes.len() ==> !conflicts_at(routes, i)
    &&& default_count(routes, None) <= 1
}

/// What checking a routing table comes to: the complaint about the first
/// route that is a fallback for a host with several, else the complaint about
/// several fallbacks without a host, else success.
pub open spec fn routes_verdict(routes: Seq<RouteView>) -> Result<(), ConfigErrorView> {
    match least_from(0, routes.len() as int, |i: int| conflicts_at(routes, i)) {
        Some(i) => Err(
            ConfigErrorView::InvalidConfig(
                host_conflict_text(routes[i].host->0, default_count(routes, routes[i].host)),
            ),
        ),
        None => if default_count(routes, None) > 1 {
            Err(
                ConfigErrorView::InvalidConfig(
                    hostless_conflict_text(default_count(routes, None)),
                ),
            )
        } else {
            Ok(())
        },
    }
}

/// A routing table passes the check exactly when it is valid.
pub proof fn lemma_verdict_ok_iff_valid(routes: Seq<RouteView>)
    ensures
        routes_verdict(routes) is Ok <==> valid_routes(routes),
{
    let p = |i: int| conflicts_at(routes, i);
    lemma_least_from(0, routes.len() as int, p);
    match least_from(0, routes.len() as int, p) {
        Some(i) => {
            assert(p(i));
            assert(conflicts_at(routes, i));
        },
        None => {
            assert forall|i: int| 0 <= i < routes.len() implies !conflicts_at(routes, i) by {
                assert(!p(i));
            }
        },
    }
}

/// Whether two optional strings hold the same text, or are both absent.
pub fn same_optional_text(a: &Option<String>, b: &Option<String>) -> (r: bool)
    ensures
        r == (text_view(*a) == text_view(*b)),
{
    match (a, b) {
        (Some(x), Some(y)) => *x == *y,
        (None, None) => true,
        _ => false,
    }
}

/// How many fallback routes the table holds for `host`.
pub fn count_defaults(routes: &Vec<Route>, host: &Option<String>) -> (r: usize)
    ensures
        r == default_count(route_views(routes@), text_view(*host)),
{
    let mut count: usize = 0;
    let mut i: usize = 0;
    while i < routes.len()
        invariant
            i <= routes.len(),
            count <= i,
            count == default_count(route_views(routes@.take(i as int)), text_view(*host)),
        decreases routes.len() - i,
    {
        proof {
            let next = route_views(routes@.take(i + 1));
            assert(next.drop_last() =~= route_views(routes@.take(i as int)));
            assert(next.last() == routes@[i as int]@);
        }
        let route = &routes[i];
        let marked = match route.default {
            Some(d) => d,
            None => false,
        };
        if marked && same_optional_text(&route.host, host) {
            count += 1;
        }
        i += 1;
    }
    assert(routes@.take(routes.len() as int) =~= routes@);
    count
}

/// Checks the rule on fallback routes.
pub fn check_routes(routes: &Vec<Route>) -> (r: Result<(), ConfigError>)
    ensures
        match r {
            Ok(()) => routes_verdict(route_views(routes@)) is Ok,
            Err(e) => routes_verdict(route_views(routes@)) == Err::<(), ConfigErrorView>(e@),
        },
        r is Ok <==> valid_routes(route_views(routes@)),
{
    let ghost views = route_views(routes@);
    let ghost p = |i: int| conflicts_at(views, i);
    proof {
        lemma_verdict_ok_iff_valid(views);
    }
    let mut i: usize = 0;
    while i < routes.len()
        invariant
            i <= routes.len(),
            views == route_views(routes@),
            p == (|i: int| conflicts_at(views, i)),
            least_from(0, routes.len() as int, p) == least_from(i as int, routes.len() as int, p),
        decreases routes.len() - i,
    {
        let route = &routes[i];
        let marked = match route.default {
            Some(d) => d,
            None => false,
        };
        if marked {
            if let Some(host) = &route.host {
                let count = count_defaults(routes, &route.host);
                if count > 1 {
                    assert(p(i as int));
                    let mut text = String::from_str("The host ");
                    text.append(host.as_str());
                    text.append(" may only have 1 default route. It currently has ");
                    push_decimal(&mut text, count);
                    return Err(ConfigError::InvalidConfig(text));
                }
            }
        }
        assert(!p(i as int));
        i += 1;
    }
    let hostless = count_defaults(routes, &None);
    if hostless > 1 {
        let mut text = String::from_str(
            "There may only be 1 default route without a specified host. There are currently ",
        );
        push_decimal(&mut text, hostless);
        return Err(ConfigError::InvalidConfig(text));
    }
    Ok(())
}

impl Config {
    /// What validation comes to, given whether the two files named under
    /// `tls` exist.
    pub open spec fn verdict(&self, pubkey_exists: bool, privkey_exists: bool) -> Result<
        (),
        ConfigErrorView,
    > {
        match self.tls {
            Some(tls) => if !pubkey_exists {
                Err(ConfigErrorView::FileNotFound(tls.pubkey@))
            } else if !privkey_exists {
                Err(ConfigErrorView::FileNotFound(tls.privkey@))
            } else {
                routes_verdict(route_views(self.routes@))
            },
            None => routes_verdict(route_views(self.routes@)),
        }
    }

    /// Validates the configuration. The caller says whether the certificate
    /// file and the key file exist; both answers are ignored when no TLS is
    /// configured.
    pub fn validate(&self, pubkey_exists: bool, privkey_exists: bool) -> (r: Result<
        (),
        ConfigError,
    >)
        ensures
            match r {
                Ok(()) => self.verdict(pubkey_exists, privkey_exists) is Ok,
                Err(e) => self.verdict(pubkey_exists, privkey_exists) == Err::<
                    (),
                    ConfigErrorView,
                >(e@),
            },
            r is Ok <==> (self.tls is Some ==> pubkey_exists && privkey_exists) && valid_routes(
                route_views(self.routes@),
            ),
    {
        proof {
            lemma_verdict_ok_iff_valid(route_views(self.routes@));
        }
        if let Some(tls) = &self.tls {
            if !pubkey_exists {
                return Err(ConfigError::FileNotFound(tls.pubkey.clone()));
            }
            if !privkey_exists {
                return Err(ConfigError::FileNotFound(tls.privkey.clone()));
            }
        }
        check_routes(&self.routes)
    }
}

impl Default for ProxyConfig {
    /// No `Server` header value is configured.
    fn default() -> (r: ProxyConfig)
        ensures
            r.error_server_header is None,
    {
        ProxyConfig { error_server_header: None }
    }
}

impl Default for NetConfig {
    /// Port 8080 on every address.
    fn default() -> (r: NetConfig)
        ensures
            r.port == 8080,
            r.bind_address@ == "0.0.0.0"@,
    {
        NetConfig { port: 8080, bind_address: String::from_str("0.0.0.0") }
    }
}

impl Default for TlsConfig {
    /// Placeholder paths, to be replaced by the operator.
    fn default() -> (r: TlsConfig)
        ensures
            r.privkey@ == "/etc/your/priv/key.pem"@,
            r.pubkey@ == "/etc/your/pub/key.pem"@,
    {
        TlsConfig {
            privkey: String::from_str("/etc/your/priv/key.pem"),
            pubkey: String::from_str("/etc/your/pub/key.pem"),
        }
    }
}

/// The example route that a fresh configuration holds.
pub open spec fn example_route() -> RouteView {
    RouteView {
        path_prefix: Some("/bar"@),
        host: Some("foo.example.com"@),
        default: Some(false),
        upstream: "http://foo-bar.internal.example.com:8080"@,
        strip_path_prefix: Some(false),
        response_headers: None,
    }
}

impl Default for Route {
    /// The example route.
    fn default() -> (r: Route)
        ensures
            r@ == example_route(),
    {
        Route {
            host: Some(String::from_str("foo.example.com")),
            path_prefix: Some(String::from_str("/bar")),
            upstream: String::from_str("http://foo-bar.internal.example.com:8080"),
            default: Some(false),
            strip_path_prefix: Some(false),
            response_headers: None,
        }
    }
}

impl Default for Config {
    /// The configuration written out when none exists yet: the default
    /// listener, placeholder TLS paths, and the example route.
    fn default() -> (r: Config)
        ensures
            r.net.port == 8080,
            r.net.bind_address@ == "0.0.0.0"@,
            r.tls matches Some(tls) && tls.privkey@ == "/etc/your/priv/key.pem"@ && tls.pubkey@
                == "/etc/your/pub/key.pem"@,
            route_views(r.routes@) == seq![example_route()],
            r.proxy is None,
            valid_routes(route_views(r.routes@)),
    {
        let mut routes: Vec<Route> = Vec::new();
        routes.push(Route::default());
        proof {
            let views = route_views(routes@);
            assert(views =~= seq![example_route()]);
            assert(views.drop_last() =~= Seq::<RouteView>::empty());
            assert(default_count(views.drop_last(), None) == 0);
            assert(default_count(views, None) == 0);
        }
        Config {
            net: NetConfig::default(),
            tls: Some(TlsConfig::default()),
            routes,
            proxy: None,
        }
    }
}

} // verus!
