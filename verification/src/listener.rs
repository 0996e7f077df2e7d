//! Where a console listens, told from its URL, and the rules of accepting
//! connections.

use crate::console::Peer;
use crate::text::{push_decimal, same_text, decimal};
use vstd::prelude::*;
use vstd::string::*;

verus! {

/// The port of a `tcp` console whose URL names none.
pub const DEFAULT_PORT: u16 = 4200;

/// The parts of a URL that the console reads.
#[derive(Clone, Debug, PartialEq, Eq)]
pub struct UrlParts {
    /// The URL in its normal form.
    pub text: String,
    pub scheme: String,
    pub host: Option<String>,
    pub port: Option<u16>,
    pub path: String,
}

/// The mathematical content of [`UrlParts`].
pub struct UrlFields {
    pub text: Seq<char>,
    pub scheme: Seq<char>,
    pub host: Option<Seq<char>>,
    pub port: Option<u16>,
    pub path: Seq<char>,
}

impl View for UrlParts {
    type V = UrlFields;

    open spec fn view(&self) -> UrlFields {
        UrlFields {
            text: self.text@,
            scheme: self.scheme@,
            host: match self.host {
                Some(h) => Some(h@),
                None => None,
            },
            port: self.port,
            path: self.path@,
        }
    }
}

/// What the URL parser makes of `text`: the parts of the URL, or `None`
/// where `text` is no absolute URL.
pub uninterp spec fn url_parse(text: Seq<char>) -> Option<UrlFields>;

/// Calls `url::Url::parse` and copies what `as_str`, `scheme`, `host_str`,
/// `port` and `path` give for the URL it returns. Trusted: the outcome is a
/// function of the text alone.
#[verifier::external_body]
fn parse_url(text: &str) -> (parts: Option<UrlParts>)
    ensures
        match parts {
            Some(p) => url_parse(text@) == Some(p@),
            None => url_parse(text@) is None,
        },
{
    match url::Url::parse(text) {
        Ok(u) => Some(
            UrlParts {
                text: u.as_str().to_string(),
                scheme: u.scheme().to_string(),
                host: u.host_str().map(|h| h.to_string()),
                port: u.port(),
                path: u.path().to_string(),
            },
        ),
        Err(_) => None,
    }
}

/// Where a console listens.
#[derive(Clone, Debug, PartialEq, Eq)]
pub enum Endpoint {
    /// A TCP socket on this host and port.
    Tcp { host: String, port: u16 },
    /// A UNIX domain socket at this path. A socket file left there by an
    /// earlier run is removed before the socket is bound.
    Unix { path: String },
}

/// The mathematical content of an [`Endpoint`].
pub enum EndpointSpec {
    Tcp { host: Seq<char>, port: u16 },
    Unix { path: Seq<char> },
}

impl View for Endpoint {
    type V = EndpointSpec;

    open spec fn view(&self) -> EndpointSpec {
        match self {
            Endpoint::Tcp { host, port } => EndpointSpec::Tcp { host: host@, port: *port },
            Endpoint::Unix { path } => EndpointSpec::Unix { path: path@ },
        }
    }
}

/// Why a console cannot listen on a URL.
#[derive(Clone, Copy, Debug, Hash, PartialEq, Eq, Structural)]
pub enum ListenError {
    /// The text is no URL.
    InvalidUrl,
    /// The scheme is neither `tcp` nor `unix`.
    UnknownScheme,
    /// A `tcp` URL names no host.
    MissingHost,
}

/// The endpoint that the parts of a URL stand for: for `tcp` the host and
/// the port, 4200 where the URL names none; for `unix` the path.
pub open spec fn endpoint_for(parts: UrlFields) -> Result<EndpointSpec, ListenError> {
    if parts.scheme == "tcp"@ {
        match parts.host {
            Some(host) => Ok(
                EndpointSpec::Tcp {
                    host,
                    port: match parts.port {
                        Some(port) => port,
                        None => DEFAULT_PORT,
                    },
                },
            ),
            None => Err(ListenError::MissingHost),
        }
    } else if parts.scheme == "unix"@ {
        Ok(EndpointSpec::Unix { path: parts.path })
    } else {
        Err(ListenError::UnknownScheme)
    }
}

/// The endpoint that a URL text stands for.
pub open spec fn endpoint_at(parsed: Option<UrlFields>) -> Result<EndpointSpec, ListenError> {
    match parsed {
        Some(parts) => endpoint_for(parts),
        None => Err(ListenError::InvalidUrl),
    }
}

/// Whether `r` holds what `expected` says.
pub open spec fn is_endpoint(
    r: Result<Endpoint, ListenError>,
    expected: Result<EndpointSpec, ListenError>,
) -> bool {
    match expected {
        Ok(e) => r matches Ok(x) && x@ == e,
        Err(e) => r == Err::<Endpoint, ListenError>(e),
    }
}

impl Endpoint {
    /// Tells from the parts of a URL where the console listens.
    pub fn from_parts(parts: &UrlParts) -> (r: Result<Endpoint, ListenError>)
        ensures
            is_endpoint(r, endpoint_for(parts@)),
    {
        if same_text(parts.scheme.as_str(), "tcp") {
            match &parts.host {
                Some(host) => {
                    let port = match parts.port {
                        Some(port) => port,
                        None => DEFAULT_PORT,
                    };
                    Ok(Endpoint::Tcp { host: host.clone(), port })
                },
                None => Err(ListenError::MissingHost),
            }
        } else if same_text(parts.scheme.as_str(), "unix") {
            Ok(Endpoint::Unix { path: parts.path.clone() })
        } else {
            Err(ListenError::UnknownScheme)
        }
    }

    /// Tells from a URL where the console listens: `tcp://HOST:PORT`, with
    /// port 4200 where none is named, or `unix:///path/to/socket`.
    pub fn new(url: &str) -> (r: Result<Endpoint, ListenError>)
        ensures
            is_endpoint(r, endpoint_at(url_parse(url@))),
    {
        match parse_url(url) {
            Some(parts) => Endpoint::from_parts(&parts),
            None => Err(ListenError::InvalidUrl),
        }
    }
}

/// The address of a client that connected over TCP, as a URL text.
pub open spec fn tcp_address(ip: Seq<char>, port: u16) -> Seq<char> {
    "tcp://"@ + ip + ":"@ + decimal(port as nat)
}

/// The address of a client that connected over a UNIX socket, as a URL
/// text; a client whose socket has no path is `unnamed`.
pub open spec fn unix_address(path: Option<Seq<char>>) -> Seq<char> {
    "unix://"@ + match path {
        Some(p) => p,
        None => "unnamed"@,
    }
}

/// The peer whose address reads as a URL, if it does.
pub open spec fn peer_at(parsed: Option<UrlFields>) -> Option<Seq<char>> {
    match parsed {
        Some(parts) => Some(parts.text),
        None => None,
    }
}

/// Whether `peer` is the outside client with the address `address`, or
/// nobody where there is no address.
pub open spec fn is_peer_at(peer: Option<Peer>, address: Option<Seq<char>>) -> bool {
    match address {
        Some(a) => peer matches Some(Peer::Extern(url)) && url@ == a,
        None => peer is None,
    }
}

/// The outside client whose address the URL parser made `parsed` of.
pub fn peer_from_url(parsed: Option<UrlParts>) -> (peer: Option<Peer>)
    ensures
        is_peer_at(
            peer,
            peer_at(
                match parsed {
                    Some(p) => Some(p@),
                    None => None,
                },
            ),
        ),
{
    match parsed {
        Some(parts) => Some(Peer::Extern(parts.text)),
        None => None,
    }
}

/// The peer for a client that connected over TCP from `ip` and `port`:
/// known by the URL `tcp://ip:port`, or nobody where that is no URL.
pub fn tcp_peer(ip: &str, port: u16) -> (peer: Option<Peer>)
    ensures
        is_peer_at(peer, peer_at(url_parse(tcp_address(ip@, port)))),
{
    let mut address = String::from_str("tcp://");
    address.append(ip);
    address.append(":");
    push_decimal(&mut address, port as u64);
    assert(address@ =~= tcp_address(ip@, port));
    peer_from_url(parse_url(address.as_str()))
}

/// The peer for a client that connected over a UNIX socket bound to
/// `path`, if it is bound to one: known by the URL `unix://path`, or nobody
/// where that is no URL.
pub fn unix_peer(path: Option<&str>) -> (peer: Option<Peer>)
    ensures
        is_peer_at(
            peer,
            peer_at(
                url_parse(
                    unix_address(
                        match path {
                            Some(p) => Some(p@),
                            None => None,
                        },
                    ),
                ),
            ),
        ),
{
    let mut address = String::from_str("unix://");
    match path {
        Some(p) => address.append(p),
        None => address.append("unnamed"),
    }
    peer_from_url(parse_url(address.as_str()))
}

/// What happens to a listener.
#[derive(Clone, Copy, Debug, Hash, PartialEq, Eq, Structural)]
pub enum ServerInput {
    /// A client connected.
    Accepted,
    /// Accepting failed.
    AcceptFailed,
    /// One of the listener's connections ended.
    ConnectionEnded,
    /// The console is being stopped.
    Stop,
}

/// What a listener does next.
#[derive(Clone, Copy, Debug, Hash, PartialEq, Eq, Structural)]
pub enum ServerOutput {
    /// Serve the client that connected on a connection of its own.
    Serve,
    /// Turn the client that connected away.
    Refuse,
    /// Go on.
    Continue,
    /// Accept no more, and wait for the connections that are open.
    Drain,
    /// The listener is done.
    Finish,
}

/// Where a listener stands.
#[derive(Clone, Copy, Debug, Hash, PartialEq, Eq, Structural)]
pub enum ServerPhase {
    /// Clients are accepted.
    Accepting,
    /// No client is accepted any more; open connections are waited for.
    Draining,
    /// The listener is done.
    Finished,
}

/// A listener and the number of its open connections.
#[derive(Clone, Copy, Debug, Hash, PartialEq, Eq, Structural)]
pub struct Server {
    pub phase: ServerPhase,
    pub open: usize,
}

/// Whether a listener may accept a client: not once the event loop is gone,
/// and not once the console is being stopped.
pub open spec fn may_accept(server: Server, event_loop_closed: bool) -> bool {
    server.phase == ServerPhase::Accepting && !event_loop_closed
}

/// What a listener that is `server` turns into on `input`, and what it does.
/// `event_loop_closed` says whether the event loop is gone.
pub open spec fn server_step(server: Server, input: ServerInput, event_loop_closed: bool) -> (
    Server,
    ServerOutput,
) {
    match server.phase {
        ServerPhase::Finished => (server, ServerOutput::Finish),
        ServerPhase::Draining => match input {
            ServerInput::ConnectionEnded => if server.open <= 1 {
                (Server { phase: ServerPhase::Finished, open: 0 }, ServerOutput::Finish)
            } else {
                (Server { phase: server.phase, open: (server.open - 1) as usize }, ServerOutput::Drain)
            },
            ServerInput::Accepted => (server, ServerOutput::Refuse),
            _ => (server, ServerOutput::Drain),
        },
        ServerPhase::Accepting => match input {
            ServerInput::Accepted => if !event_loop_closed && server.open < usize::MAX {
                (Server { phase: server.phase, open: (server.open + 1) as usize }, ServerOutput::Serve)
            } else {
                (server, ServerOutput::Refuse)
            },
            ServerInput::AcceptFailed => (
                Server { phase: ServerPhase::Finished, open: server.open },
                ServerOutput::Finish,
            ),
            ServerInput::ConnectionEnded => (
                Server {
                    phase: server.phase,
                    open: if server.open > 0 {
                        (server.open - 1) as usize
                    } else {
                        0
                    },
                },
                ServerOutput::Continue,
            ),
            ServerInput::Stop => if server.open == 0 {
                (Server { phase: ServerPhase::Finished, open: 0 }, ServerOutput::Finish)
            } else {
                (Server { phase: ServerPhase::Draining, open: server.open }, ServerOutput::Drain)
            },
        },
    }
}

impl Server {
    /// A listener that accepts clients and has no connection yet.
    pub fn new() -> (server: Server)
        ensures
            server == (Server { phase: ServerPhase::Accepting, open: 0 }),
    {
        Server { phase: ServerPhase::Accepting, open: 0 }
    }

    /// Whether the listener may accept a client now.
    pub fn accepts(&self, event_loop_closed: bool) -> (r: bool)
        ensures
            r == may_accept(*self, event_loop_closed),
    {
        self.phase == ServerPhase::Accepting && !event_loop_closed
    }

    /// Takes what happened to the listener and says what it does next.
    pub fn handle(&mut self, input: ServerInput, event_loop_closed: bool) -> (output: ServerOutput)
        ensures
            (*final(self), output) == server_step(*old(self), input, event_loop_closed),
    {
        match self.phase {
            ServerPhase::Finished => ServerOutput::Finish,
            ServerPhase::Draining => match input {
                ServerInput::ConnectionEnded => {
                    if self.open <= 1 {
                        self.open = 0;
                        self.phase = ServerPhase::Finished;
                        ServerOutput::Finish
                    } else {
                        self.open = self.open - 1;
                        ServerOutput::Drain
                    }
                },
                ServerInput::Accepted => ServerOutput::Refuse,
                _ => ServerOutput::Drain,
            },
            ServerPhase::Accepting => match input {
                ServerInput::Accepted => {
                    if !event_loop_closed && self.open < usize::MAX {
                        self.open = self.open + 1;
                        ServerOutput::Serve
                    } else {
                        ServerOutput::Refuse
                    }
                },
                ServerInput::AcceptFailed => {
                    self.phase = ServerPhase::Finished;
                    ServerOutput::Finish
                },
                ServerInput::ConnectionEnded => {
                    if self.open > 0 {
                        self.open = self.open - 1;
                    }
                    ServerOutput::Continue
                },
                ServerInput::Stop => {
                    if self.open == 0 {
                        self.phase = ServerPhase::Finished;
                        ServerOutput::Finish
                    } else {
                        self.phase = ServerPhase::Draining;
                        ServerOutput::Drain
                    }
                },
            },
        }
    }
}

/// Once the console is being stopped no client is served any more, and a
/// listener that was stopped finishes only when none of its connections is
/// open.
pub proof fn stop_refuses_and_waits(server: Server, input: ServerInput, event_loop_closed: bool)
    requires
        server.phase == ServerPhase::Draining,
        server.open > 0,
    ensures
        server_step(server, input, event_loop_closed).1 != ServerOutput::Serve,
        server_step(server, input, event_loop_closed).0.phase == ServerPhase::Finished
            ==> server_step(server, input, event_loop_closed).0.open == 0,
        server_step(server, input, event_loop_closed).0.phase == ServerPhase::Draining
            ==> server_step(server, input, event_loop_closed).0.open > 0,
{
}

} // verus!
