//! The target of a connection: where the proxy connects to.
//!
//! A tunnel names its target as `host:port`. A plain request names it by an
//! absolute URL, which the `url` crate parses. The port is the one that the
//! URL names, else the usual one for its scheme, else [`DEFAULT_PORT`].

use vstd::prelude::*;
use crate::event::{Address, Ending, EndingView};
use crate::request::{opening_of, read_opening, Opening, OpeningView};

verus! {

/// The port for a URL that names none and whose scheme has no usual one.
pub const DEFAULT_PORT: u16 = 80;

/// The host of a URL.
#[derive(Clone, Debug, PartialEq, Eq)]
pub enum Host {
    /// A domain name, to be resolved.
    Domain(String),
    /// An IPv4 address, as its 32 bits.
    Ipv4(u32),
    /// An IPv6 address, as its 128 bits.
    Ipv6(u128),
}

/// The mathematical content of a [`Host`].
pub enum HostView {
    Domain(Seq<char>),
    Ipv4(u32),
    Ipv6(u128),
}

impl View for Host {
    type V = HostView;

    open spec fn view(&self) -> HostView {
        match self {
            Host::Domain(name) => HostView::Domain(name@),
            Host::Ipv4(bits) => HostView::Ipv4(*bits),
            Host::Ipv6(bits) => HostView::Ipv6(*bits),
        }
    }
}

/// What a parsed URL says of its server: the host, if it has one, and the
/// port that it names or, where it names none, the usual one for its scheme,
/// if there is either.
#[derive(Clone, Debug, PartialEq, Eq)]
pub struct Location {
    pub host: Option<Host>,
    pub port: Option<u16>,
}

/// The mathematical content of a [`Location`].
pub struct LocationView {
    pub host: Option<HostView>,
    pub port: Option<u16>,
}

impl View for Location {
    type V = LocationView;

    open spec fn view(&self) -> LocationView {
        LocationView {
            host: match self.host {
                Some(host) => Some(host@),
                None => None,
            },
            port: self.port,
        }
    }
}

/// The mathematical content of a URL parser's answer.
pub open spec fn location_view(parsed: Result<Location, String>) -> Result<
    LocationView,
    Seq<char>,
> {
    match parsed {
        Ok(location) => Ok(location@),
        Err(detail) => Err(detail@),
    }
}

/// What the `url` crate makes of `text` as an absolute URL: the host and port
/// of the URL that it parsed, or the text of its error.
pub uninterp spec fn parsed_url(text: Seq<char>) -> Result<LocationView, Seq<char>>;

/// Runs `url::Url::parse` on `text` and reads the result's `host()` and
/// `port_or_known_default()`.
///
/// Trusted: the answer is the parser's, which depends on the text alone. On
/// success it carries the URL's host, variant for variant, with an address as
/// its bits, and the URL's port or the one usual for its scheme; on failure,
/// the parser's error as `Display` prints it.
#[verifier::external_body]
fn parse_url(text: &str) -> (parsed: Result<Location, String>)
    ensures
        location_view(parsed) == parsed_url(text@),
{
    match url::Url::parse(text) {
        Ok(found) => {
            let host = match found.host() {
                Some(url::Host::Domain(name)) => Some(Host::Domain(name.to_string())),
                Some(url::Host::Ipv4(ip)) => Some(Host::Ipv4(ip.to_bits())),
                Some(url::Host::Ipv6(ip)) => Some(Host::Ipv6(ip.to_bits())),
                None => None,
            };
            Ok(Location { host, port: found.port_or_known_default() })
        },
        Err(error) => Err(error.to_string()),
    }
}

/// What a connect call is given.
#[derive(Clone, Debug, PartialEq, Eq)]
pub enum Target {
    /// An authority, `host:port`, for the connect call to resolve.
    Authority(String),
    /// A resolved address.
    Address(Address),
}

/// The mathematical content of a [`Target`].
pub enum TargetView {
    Authority(Seq<char>),
    Address(Address),
}

impl View for Target {
    type V = TargetView;

    open spec fn view(&self) -> TargetView {
        match self {
            Target::Authority(authority) => TargetView::Authority(authority@),
            Target::Address(address) => TargetView::Address(*address),
        }
    }
}

/// Where a connection goes.
#[derive(Clone, Debug, PartialEq, Eq)]
pub enum Route {
    /// A tunnel to this authority, `host:port`, as the client wrote it.
    Tunnel(String),
    /// A plain exchange with this host at this port.
    Forward { host: Host, port: u16 },
}

/// The mathematical content of a [`Route`].
pub enum RouteView {
    Tunnel(Seq<char>),
    Forward { host: HostView, port: u16 },
}

impl View for Route {
    type V = RouteView;

    open spec fn view(&self) -> RouteView {
        match self {
            Route::Tunnel(authority) => RouteView::Tunnel(authority@),
            Route::Forward { host, port } => RouteView::Forward { host: host@, port: *port },
        }
    }
}

/// The mathematical content of a routing decision.
pub open spec fn route_view(decided: Result<Route, Ending>) -> Result<RouteView, EndingView> {
    match decided {
        Ok(route) => Ok(route@),
        Err(ending) => Err(ending@),
    }
}

/// Where a parsed URL leads.
///
/// A parser error ends the connection with that error's text. So does a URL
/// without a host. Otherwise the route is to the URL's host, at the port
/// that the parser gave or, where it gave none, at [`DEFAULT_PORT`].
pub open spec fn located(parsed: Result<LocationView, Seq<char>>) -> Result<RouteView, EndingView> {
    match parsed {
        Err(detail) => Err(EndingView::Protocol(detail)),
        Ok(location) => match location.host {
            None => Err(EndingView::Unreachable("No host name in the URL"@)),
            Some(host) => Ok(
                RouteView::Forward {
                    host,
                    port: match location.port {
                        Some(port) => port,
                        None => DEFAULT_PORT,
                    },
                },
            ),
        },
    }
}

/// Where the opening request `received` leads: a tunnel goes to the authority
/// that the request names, any other request to the server of its URL.
pub open spec fn routed(received: Seq<u8>) -> Result<RouteView, EndingView> {
    match opening_of(received) {
        Err(ending) => Err(ending),
        Ok(OpeningView::Tunnel(authority)) => Ok(RouteView::Tunnel(authority)),
        Ok(OpeningView::Absolute(text)) => located(parsed_url(text)),
    }
}

/// Decides where a parsed URL leads.
pub fn locate(parsed: Result<Location, String>) -> (decided: Result<Route, Ending>)
    ensures
        route_view(decided) == located(location_view(parsed)),
{
    match parsed {
        Err(detail) => Err(Ending::Protocol(detail)),
        Ok(location) => match location.host {
            None => Err(Ending::Unreachable(String::from_str("No host name in the URL"))),
            Some(host) => {
                let port = match location.port {
                    Some(port) => port,
                    None => DEFAULT_PORT,
                };
                Ok(Route::Forward { host, port })
            },
        },
    }
}

/// Parses the opening request `received` and decides where it leads.
pub fn route(received: &[u8]) -> (decided: Result<Route, Ending>)
    ensures
        route_view(decided) == routed(received@),
{
    match read_opening(received) {
        Err(ending) => Err(ending),
        Ok(Opening::Tunnel(authority)) => Ok(Route::Tunnel(authority)),
        Ok(Opening::Absolute(text)) => locate(parse_url(text.as_str())),
    }
}

} // verus!
