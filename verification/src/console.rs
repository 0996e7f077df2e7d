//! The rules of a console connection: the handshake, the permission that
//! each request needs, what is answered at once and what goes on to the
//! event loop, and when the connection is closed.

use crate::api;
use crate::api::{
    Configuration, Connect, ConnectNack, Message, Notification, Permission, Request, Response,
    Token,
};
use crate::container::{Container, ContainerId};
use crate::error::IoKind;
use crate::event::{CGroupEvent, ContainerEvent, ExitStatus};
use crate::version::Version;
use vstd::prelude::*;
use vstd::std_specs::convert::FromSpecImpl;
use vstd::string::*;

verus! {

/// Frames that a connection accepts per second, unless configured.
pub const DEFAULT_REQUESTS_PER_SECOND: usize = 1024;

/// Largest frame that is not package content, unless configured.
pub const DEFAULT_MAX_REQUEST_SIZE: usize = 1024 * 1024;

/// Largest package that may be installed, unless configured.
pub const DEFAULT_MAX_INSTALL_STREAM_SIZE: u64 = 256 * 1000000;

/// Seconds a package stream may stay idle between two chunks, unless
/// configured.
pub const DEFAULT_NPK_STREAM_TIMEOUT: u64 = 5;

/// Seconds a client has for its first frame.
pub const DEFAULT_CONNECT_TIMEOUT: u64 = 5;

/// Why a connection ends with an error.
#[derive(Clone, Debug, PartialEq, Eq)]
pub enum Error {
    /// The peer broke the protocol.
    Protocol(String),
    /// An input or output failure, with what was being done.
    Io(String, IoKind),
    /// The runtime is shutting down.
    Shutdown,
}

/// Who is at the other end of a connection.
#[derive(Clone, Debug, PartialEq, Eq)]
pub enum Peer {
    /// A client outside the runtime, known by the address it connected from.
    Extern(String),
    /// A container of this runtime.
    Container(Container),
}

impl Peer {
    /// The identity that the peer is told it has: its own where it is a
    /// container, `remote:0.0.0` where it is not.
    pub open spec fn identity(self) -> ContainerId {
        match self {
            Peer::Extern(_) => ContainerId {
                name: "remote"@,
                version: Version { major: 0, minor: 0, patch: 0 },
            },
            Peer::Container(c) => c@,
        }
    }

    /// The name under which the peer takes part in tokens: the container's
    /// name, or `extern`.
    pub open spec fn token_name(self) -> Seq<char> {
        match self {
            Peer::Extern(_) => "extern"@,
            Peer::Container(c) => c@.name,
        }
    }

    /// The printable form: `Remote(address)` or `Container(name:version)`.
    pub open spec fn text(self) -> Seq<char> {
        match self {
            Peer::Extern(url) => "Remote("@ + url@ + ")"@,
            Peer::Container(c) => "Container("@ + c@.text() + ")"@,
        }
    }

    /// The identity that the peer is told it has.
    pub fn ident(&self) -> (c: Container)
        ensures
            c@ == self.identity(),
    {
        match self {
            Peer::Extern(_) => Container::new(String::from_str("remote"), Version::new(0, 0, 0)),
            Peer::Container(c) => c.clone(),
        }
    }

    /// The name under which the peer takes part in tokens.
    pub fn user(&self) -> (name: String)
        ensures
            name@ == self.token_name(),
    {
        match self {
            Peer::Extern(_) => String::from_str("extern"),
            Peer::Container(c) => c.name().clone(),
        }
    }

    /// The printable form of the peer.
    pub fn to_string(&self) -> (s: String)
        ensures
            s@ == self.text(),
    {
        match self {
            Peer::Extern(url) => {
                let mut s = String::from_str("Remote(");
                s.append(url.as_str());
                s.append(")");
                s
            },
            Peer::Container(c) => {
                let mut s = String::from_str("Container(");
                let inner = c.to_string();
                s.append(inner.as_str());
                s.append(")");
                s
            },
        }
    }
}

/// The exit status as the wire shows it: the same code, the same signal.
pub open spec fn wire_status(e: ExitStatus) -> api::ExitStatus {
    match e {
        ExitStatus::Exit(code) => api::ExitStatus::Exit { code },
        ExitStatus::Signalled(signal) => api::ExitStatus::Signalled { signal: signal as u32 },
    }
}

/// The notification that tells subscribers of `event` on `container`.
pub open spec fn notification_of(container: Container, event: ContainerEvent) -> Notification {
    match event {
        ContainerEvent::Started => Notification::Started(container),
        ContainerEvent::Exit(status) => Notification::Exit(container, wire_status(status)),
        ContainerEvent::Installed => Notification::Install(container),
        ContainerEvent::Uninstalled => Notification::Uninstall(container),
        ContainerEvent::CGroup(CGroupEvent::Memory(memory)) => Notification::CGroup(
            container,
            api::CgroupNotification::Memory(
                api::MemoryNotification {
                    low: memory.low,
                    high: memory.high,
                    max: memory.max,
                    oom: memory.oom,
                    oom_kill: memory.oom_kill,
                },
            ),
        ),
    }
}

impl From<ExitStatus> for api::ExitStatus {
    fn from(e: ExitStatus) -> (r: api::ExitStatus) {
        match e {
            ExitStatus::Exit(code) => api::ExitStatus::Exit { code },
            ExitStatus::Signalled(signal) => api::ExitStatus::Signalled { signal: signal as u32 },
        }
    }
}

impl FromSpecImpl<ExitStatus> for api::ExitStatus {
    open spec fn obeys_from_spec() -> bool {
        true
    }

    open spec fn from_spec(e: ExitStatus) -> api::ExitStatus {
        wire_status(e)
    }
}

impl From<(Container, ContainerEvent)> for Notification {
    fn from(p: (Container, ContainerEvent)) -> (n: Notification) {
        let (container, event) = p;
        match event {
            ContainerEvent::Started => Notification::Started(container),
            ContainerEvent::Exit(status) => Notification::Exit(
                container,
                api::ExitStatus::from(status),
            ),
            ContainerEvent::Installed => Notification::Install(container),
            ContainerEvent::Uninstalled => Notification::Uninstall(container),
            ContainerEvent::CGroup(event) => match event {
                CGroupEvent::Memory(memory) => Notification::CGroup(
                    container,
                    api::CgroupNotification::Memory(
                        api::MemoryNotification {
                            low: memory.low,
                            high: memory.high,
                            max: memory.max,
                            oom: memory.oom,
                            oom_kill: memory.oom_kill,
                        },
                    ),
                ),
            },
        }
    }
}

impl FromSpecImpl<(Container, ContainerEvent)> for Notification {
    open spec fn obeys_from_spec() -> bool {
        true
    }

    open spec fn from_spec(p: (Container, ContainerEvent)) -> Notification {
        notification_of(p.0, p.1)
    }
}

/// What a connection does next.
#[derive(Clone, Debug, PartialEq, Eq)]
pub enum Output {
    /// Nothing: wait for the next input.
    Nothing,
    /// Send this frame to the peer.
    Send(Message),
    /// Hand this request to the event loop and wait for its reply.
    Forward(Request),
    /// Stream `size` bytes of package content from the peer to the event
    /// loop, for the repository named, and wait for the reply.
    Install { repository: String, size: u64 },
    /// Make a token for `user` and `target` with the secret `shared`, and
    /// hand it back as the reply.
    CreateToken { user: String, target: Vec<u8>, shared: Vec<u8> },
    /// Check `token` for `user` and `target` with the secret `shared`, and
    /// hand the verdict back as the reply.
    VerifyToken { token: Token, user: Vec<u8>, target: String, shared: Vec<u8> },
    /// Close the connection.
    Close,
}

/// The largest package that `configuration` lets a client install.
pub open spec fn install_limit(configuration: Configuration) -> u64 {
    match configuration.max_npk_install_size {
        Some(limit) => limit,
        None => DEFAULT_MAX_INSTALL_STREAM_SIZE,
    }
}

/// Whether `result` is what a request from `peer` leads to on a connection
/// with the settings `configuration`.
///
/// A request whose permission the connection lacks is answered with
/// `PermissionDenied` and goes no further. Of the others, `Ident` is
/// answered at once; an install of more than the limit is an error; an
/// install within the limit, and the two token requests, are handed out
/// with what they need; every other request goes to the event loop as it
/// is.
pub open spec fn answers(
    peer: Peer,
    configuration: Configuration,
    request: Request,
    result: Result<Output, Error>,
) -> bool {
    let needed = api::required(request);
    if !configuration.permissions.has(needed) {
        result == Ok::<Output, Error>(
            Output::Send(
                Message::Response {
                    response: Response::Error(
                        api::Error::PermissionDenied {
                            permissions: configuration.permissions,
                            required: needed,
                        },
                    ),
                },
            ),
        )
    } else {
        match request {
            Request::Ident => {
                &&& result matches Ok(
                    Output::Send(Message::Response { response: Response::Ident(c) }),
                )
                &&& c@ == peer.identity()
            },
            Request::Install { repository, size } => if size > install_limit(configuration) {
                &&& result matches Err(Error::Io(context, kind))
                &&& context@ == "npk size too large"@
                &&& kind == IoKind::InvalidData
            } else {
                result == Ok::<Output, Error>(Output::Install { repository, size })
            },
            Request::TokenCreate { target, shared } => {
                &&& result matches Ok(Output::CreateToken { user, target: t, shared: s })
                &&& user@ == peer.token_name()
                &&& t == target
                &&& s == shared
            },
            Request::TokenVerify { token, user, shared } => {
                &&& result matches Ok(Output::VerifyToken { token: k, user: u, target, shared: s })
                &&& k == token
                &&& u == user
                &&& target@ == peer.token_name()
                &&& s == shared
            },
            _ => result == Ok::<Output, Error>(Output::Forward(request)),
        }
    }
}

/// Decides what a request leads to: checks the permission that the request
/// needs, answers what the connection can answer itself, and says what goes
/// on to the event loop.
pub fn process_request(peer: &Peer, configuration: &Configuration, request: Request) -> (result:
    Result<Output, Error>)
    ensures
        answers(*peer, *configuration, request, result),
{
    let needed = api::required_permission(&request);
    if !configuration.permissions.contains(needed) {
        return Ok(
            Output::Send(
                Message::Response {
                    response: Response::Error(
                        api::Error::PermissionDenied {
                            permissions: configuration.permissions,
                            required: needed,
                        },
                    ),
                },
            ),
        );
    }
    match request {
        Request::Ident => Ok(
            Output::Send(Message::Response { response: Response::Ident(peer.ident()) }),
        ),
        Request::Install { repository, size } => {
            let limit = match configuration.max_npk_install_size {
                Some(limit) => limit,
                None => DEFAULT_MAX_INSTALL_STREAM_SIZE,
            };
            if size > limit {
                Err(Error::Io(String::from_str("npk size too large"), IoKind::InvalidData))
            } else {
                Ok(Output::Install { repository, size })
            }
        },
        Request::TokenCreate { target, shared } => Ok(
            Output::CreateToken { user: peer.user(), target, shared },
        ),
        Request::TokenVerify { token, user, shared } => Ok(
            Output::VerifyToken { token, user, target: peer.user(), shared },
        ),
        request => Ok(Output::Forward(request)),
    }
}

/// Where a connection stands.
#[derive(Clone, Copy, Debug, Hash, PartialEq, Eq, Structural)]
pub enum Phase {
    /// The client has not said `Connect` yet.
    Handshake,
    /// The handshake is done and no request is under way.
    Open { subscribed: bool },
    /// A request is under way: the connection waits for its reply.
    Waiting { subscribed: bool },
    /// The connection is closed.
    Closed,
}

/// What happens to a connection.
#[derive(Clone, Debug, PartialEq, Eq)]
pub enum Input {
    /// A frame arrived from the peer.
    Frame(Message),
    /// What arrived from the peer is no frame, or a frame that is too large.
    Broken,
    /// The peer closed the stream.
    End,
    /// The peer took too long.
    Timeout,
    /// The console is being stopped.
    Stop,
    /// The runtime tells of an event on a container.
    Event(Container, ContainerEvent),
    /// The connection was too slow and missed notifications.
    Lagged,
    /// The runtime tells of no more events.
    EventsClosed,
    /// The reply to the request that is under way.
    Reply(Response),
    /// The request that is under way got no reply: the event loop is gone,
    /// or the package stream broke or stalled.
    Failed,
    /// A frame could not be sent to the peer.
    SendFailed,
}

/// One console connection.
#[derive(Clone, Debug, PartialEq, Eq)]
pub struct Connection {
    pub peer: Peer,
    pub configuration: Configuration,
    pub phase: Phase,
}

/// The answer to a client's `Connect`, and the phase that follows it.
pub open spec fn handshake(configuration: Configuration, version: Version, subscribe: bool) -> (
    Connect,
    Phase,
) {
    if version != api::api_version() {
        (
            Connect::Nack {
                error: ConnectNack::InvalidProtocolVersion { version: api::api_version() },
            },
            Phase::Closed,
        )
    } else if subscribe && !configuration.permissions.has(Permission::Notifications) {
        (Connect::Nack { error: ConnectNack::PermissionDenied }, Phase::Closed)
    } else {
        (Connect::Ack { configuration }, Phase::Open { subscribed: subscribe })
    }
}

/// The phase after a request led to `output`: a frame that is sent at once
/// leaves the connection open, everything else is waited for.
pub open spec fn phase_after_request(output: Output, subscribed: bool) -> Phase {
    match output {
        Output::Send(_) => Phase::Open { subscribed },
        _ => Phase::Waiting { subscribed },
    }
}

/// Whether a connection that was `before` and met `input` may be `after`
/// and do `output`.
pub open spec fn follows(before: Connection, input: Input, after: Connection, output: Output) -> bool {
    &&& after.peer == before.peer
    &&& after.configuration == before.configuration
    &&& match before.phase {
        Phase::Handshake => match input {
            Input::Frame(
                Message::Connect { connect: Connect::Connect { version, subscribe_notifications } },
            ) => {
                let (reply, phase) = handshake(
                    before.configuration,
                    version,
                    subscribe_notifications,
                );
                output == Output::Send(Message::Connect { connect: reply }) && after.phase == phase
            },
            _ => output == Output::Close && after.phase == Phase::Closed,
        },
        Phase::Open { subscribed } => match input {
            Input::Frame(Message::Request { request }) => {
                exists|result: Result<Output, Error>|
                    {
                        &&& #[trigger] answers(before.peer, before.configuration, request, result)
                        &&& match result {
                            Ok(o) => output == o && after.phase == phase_after_request(
                                o,
                                subscribed,
                            ),
                            Err(_) => output == Output::Close && after.phase == Phase::Closed,
                        }
                    }
            },
            Input::Event(container, event) => {
                &&& after.phase == before.phase
                &&& output == if subscribed {
                    Output::Send(
                        Message::Notification { notification: notification_of(container, event) },
                    )
                } else {
                    Output::Nothing
                }
            },
            _ => output == Output::Close && after.phase == Phase::Closed,
        },
        Phase::Waiting { subscribed } => match input {
            Input::Reply(response) => {
                &&& output == Output::Send(Message::Response { response })
                &&& after.phase == Phase::Open { subscribed }
            },
            Input::Event(container, event) => {
                &&& after.phase == before.phase
                &&& output == if subscribed {
                    Output::Send(
                        Message::Notification { notification: notification_of(container, event) },
                    )
                } else {
                    Output::Nothing
                }
            },
            _ => output == Output::Close && after.phase == Phase::Closed,
        },
        Phase::Closed => output == Output::Close && after.phase == Phase::Closed,
    }
}

impl Connection {
    /// A connection with `peer` that has not shaken hands yet.
    pub fn new(peer: Peer, configuration: Configuration) -> (c: Connection)
        ensures
            c == (Connection { peer, configuration, phase: Phase::Handshake }),
    {
        Connection { peer, configuration, phase: Phase::Handshake }
    }

    /// Whether the connection is closed.
    pub fn is_closed(&self) -> (r: bool)
        ensures
            r == (self.phase == Phase::Closed),
    {
        match self.phase {
            Phase::Closed => true,
            _ => false,
        }
    }

    /// Answers a client's `Connect`: refuses a protocol version that is not
    /// this runtime's, refuses a subscription that the connection has no
    /// permission for, and acknowledges otherwise with the settings of the
    /// connection.
    fn connect(&mut self, version: Version, subscribe: bool) -> (reply: Connect)
        requires
            old(self).phase == Phase::Handshake,
        ensures
            (reply, final(self).phase) == handshake(old(self).configuration, version, subscribe),
            final(self).peer == old(self).peer,
            final(self).configuration == old(self).configuration,
    {
        let expected = api::version();
        if version != expected {
            self.phase = Phase::Closed;
            Connect::Nack { error: ConnectNack::InvalidProtocolVersion { version: expected } }
        } else if subscribe && !self.configuration.permissions.contains(Permission::Notifications) {
            self.phase = Phase::Closed;
            Connect::Nack { error: ConnectNack::PermissionDenied }
        } else {
            self.phase = Phase::Open { subscribed: subscribe };
            Connect::Ack { configuration: self.configuration }
        }
    }

    /// Closes the connection.
    fn close(&mut self) -> (output: Output)
        ensures
            output == Output::Close,
            final(self).phase == Phase::Closed,
            final(self).peer == old(self).peer,
            final(self).configuration == old(self).configuration,
    {
        self.phase = Phase::Closed;
        Output::Close
    }

    /// Takes what happened to the connection and says what the connection
    /// does next.
    ///
    /// Before the handshake only a `Connect` frame is taken; everything else
    /// closes the connection. Afterwards a request is decided as
    /// [`process_request`] says, an event is passed on to a subscriber, the
    /// reply to the request under way is sent to the peer, and everything
    /// else closes the connection.
    pub fn handle(&mut self, input: Input) -> (output: Output)
        ensures
            follows(*old(self), input, *final(self), output),
    {
        match self.phase {
            Phase::Handshake => match input {
                Input::Frame(
                    Message::Connect {
                        connect: Connect::Connect { version, subscribe_notifications },
                    },
                ) => {
                    let reply = self.connect(version, subscribe_notifications);
                    Output::Send(Message::Connect { connect: reply })
                },
                _ => self.close(),
            },
            Phase::Open { subscribed } => match input {
                Input::Frame(Message::Request { request }) => {
                    let result = process_request(&self.peer, &self.configuration, request);
                    match result {
                        Ok(output) => {
                            match &output {
                                Output::Send(_) => {},
                                _ => {
                                    self.phase = Phase::Waiting { subscribed };
                                },
                            }
                            assert(answers(old(self).peer, old(self).configuration, request, result));
                            output
                        },
                        Err(_) => {
                            assert(answers(old(self).peer, old(self).configuration, request, result));
                            self.close()
                        },
                    }
                },
                Input::Event(container, event) => self.notify(subscribed, container, event),
                _ => self.close(),
            },
            Phase::Waiting { subscribed } => match input {
                Input::Reply(response) => {
                    self.phase = Phase::Open { subscribed };
                    Output::Send(Message::Response { response })
                },
                Input::Event(container, event) => self.notify(subscribed, container, event),
                _ => self.close(),
            },
            Phase::Closed => Output::Close,
        }
    }

    /// Passes an event on to the peer if it has subscribed.
    fn notify(&self, subscribed: bool, container: Container, event: ContainerEvent) -> (output:
        Output)
        ensures
            output == if subscribed {
                Output::Send(
                    Message::Notification { notification: notification_of(container, event) },
                )
            } else {
                Output::Nothing
            },
    {
        if subscribed {
            Output::Send(
                Message::Notification { notification: Notification::from((container, event)) },
            )
        } else {
            Output::Nothing
        }
    }
}

/// Whether `output` hands something to the event loop or starts work for the
/// peer: a forwarded request, an install, or a token operation.
pub open spec fn is_work(output: Output) -> bool {
    output is Forward || output is Install || output is CreateToken || output is VerifyToken
}

/// A client that says `Connect` with a protocol version other than this
/// runtime's is sent `InvalidProtocolVersion` with this runtime's version,
/// and the connection is closed.
pub proof fn wrong_version_is_refused(
    before: Connection,
    version: Version,
    subscribe: bool,
    after: Connection,
    output: Output,
)
    requires
        before.phase == Phase::Handshake,
        version != api::api_version(),
        follows(
            before,
            Input::Frame(
                Message::Connect {
                    connect: Connect::Connect { version, subscribe_notifications: subscribe },
                },
            ),
            after,
            output,
        ),
    ensures
        output == Output::Send(
            Message::Connect {
                connect: Connect::Nack {
                    error: ConnectNack::InvalidProtocolVersion { version: api::api_version() },
                },
            },
        ),
        after.phase == Phase::Closed,
{
}

/// A client that asks for notifications on a connection without the
/// `Notifications` permission is sent `PermissionDenied`, and the connection
/// is closed.
pub proof fn subscription_needs_permission(
    before: Connection,
    after: Connection,
    output: Output,
)
    requires
        before.phase == Phase::Handshake,
        !before.configuration.permissions.has(Permission::Notifications),
        follows(
            before,
            Input::Frame(
                Message::Connect {
                    connect: Connect::Connect {
                        version: api::api_version(),
                        subscribe_notifications: true,
                    },
                },
            ),
            after,
            output,
        ),
    ensures
        output == Output::Send(
            Message::Connect { connect: Connect::Nack { error: ConnectNack::PermissionDenied } },
        ),
        after.phase == Phase::Closed,
{
}

/// Nothing reaches the event loop before the handshake is done, and nothing
/// reaches it on a closed connection; a closed connection stays closed.
pub proof fn no_work_without_handshake(
    before: Connection,
    input: Input,
    after: Connection,
    output: Output,
)
    requires
        before.phase == Phase::Handshake || before.phase == Phase::Closed,
        follows(before, input, after, output),
    ensures
        !is_work(output),
        before.phase == Phase::Closed ==> after.phase == Phase::Closed && output == Output::Close,
{
}

/// A request reaches the event loop, or starts work, only if the connection
/// holds the permission that the request needs.
pub proof fn work_needs_permission(
    before: Connection,
    request: Request,
    after: Connection,
    output: Output,
)
    requires
        follows(before, Input::Frame(Message::Request { request }), after, output),
        is_work(output),
    ensures
        before.configuration.permissions.has(api::required(request)),
        before.phase is Open,
{
}

/// An install of more than the limit never starts: the connection is closed
/// instead, and the event loop hears nothing of it.
pub proof fn oversized_install_is_refused(
    before: Connection,
    repository: String,
    size: u64,
    after: Connection,
    output: Output,
)
    requires
        size > install_limit(before.configuration),
        follows(
            before,
            Input::Frame(Message::Request { request: Request::Install { repository, size } }),
            after,
            output,
        ),
    ensures
        !is_work(output),
        before.phase is Open && before.configuration.permissions.has(Permission::Install)
            ==> output == Output::Close && after.phase == Phase::Closed,
{
}

/// Whether a connection in this phase has subscribed to notifications.
pub open spec fn is_subscribed(phase: Phase) -> bool {
    match phase {
        Phase::Open { subscribed } => subscribed,
        Phase::Waiting { subscribed } => subscribed,
        _ => false,
    }
}

/// Whether a connection that starts as `states[0]` and meets `inputs` one
/// after another may go through `states` and do `outputs`.
pub open spec fn is_run(states: Seq<Connection>, inputs: Seq<Input>, outputs: Seq<Output>) -> bool {
    &&& states.len() == inputs.len() + 1
    &&& outputs.len() == inputs.len()
    &&& forall|i: int|
        0 <= i < inputs.len() ==> #[trigger] follows(states[i], inputs[i], states[i + 1], outputs[i])
}

/// The notifications among the frames that `outputs` send, in order.
pub open spec fn notifications_sent(outputs: Seq<Output>) -> Seq<Notification>
    decreases outputs.len(),
{
    if outputs.len() == 0 {
        seq![]
    } else {
        let before = notifications_sent(outputs.drop_last());
        match outputs.last() {
            Output::Send(Message::Notification { notification }) => before.push(notification),
            _ => before,
        }
    }
}

/// The notifications for the events among `inputs` that met the connection
/// while it was subscribed, in the order of the events.
pub open spec fn notifications_due(states: Seq<Connection>, inputs: Seq<Input>) -> Seq<Notification>
    decreases inputs.len(),
{
    if inputs.len() == 0 || states.len() != inputs.len() + 1 {
        seq![]
    } else {
        let before = notifications_due(states.drop_last(), inputs.drop_last());
        match inputs.last() {
            Input::Event(container, event) => if is_subscribed(states[inputs.len() - 1].phase) {
                before.push(notification_of(container, event))
            } else {
                before
            },
            _ => before,
        }
    }
}

/// A subscriber is sent exactly the events that reach its connection, one
/// notification for each and in the order in which they came; no
/// notification is sent for anything else. Since a connection that lags is
/// closed and stays closed, nothing follows the first lag.
pub proof fn notifications_keep_their_order(
    states: Seq<Connection>,
    inputs: Seq<Input>,
    outputs: Seq<Output>,
)
    requires
        is_run(states, inputs, outputs),
    ensures
        notifications_sent(outputs) == notifications_due(states, inputs),
    decreases inputs.len(),
{
    if inputs.len() > 0 {
        let n = inputs.len() - 1;
        let front_states = states.drop_last();
        let front_inputs = inputs.drop_last();
        let front_outputs = outputs.drop_last();
        assert(is_run(front_states, front_inputs, front_outputs)) by {
            assert forall|i: int| 0 <= i < front_inputs.len() implies #[trigger] follows(
                front_states[i],
                front_inputs[i],
                front_states[i + 1],
                front_outputs[i],
            ) by {
                assert(follows(states[i], inputs[i], states[i + 1], outputs[i]));
            }
        }
        notifications_keep_their_order(front_states, front_inputs, front_outputs);
        assert(follows(states[n], inputs[n], states[n + 1], outputs[n]));
    }
}

/// After a lag the connection is closed.
pub proof fn lag_closes(before: Connection, after: Connection, output: Output)
    requires
        follows(before, Input::Lagged, after, output),
    ensures
        output == Output::Close,
        after.phase == Phase::Closed,
{
}

/// The limits of a connection, each as configured or at its default.
#[derive(Clone, Copy, Debug, Hash, PartialEq, Eq, Structural)]
pub struct Limits {
    /// Frames accepted per second.
    pub requests_per_sec: usize,
    /// Largest frame that is not package content, in bytes.
    pub request_size: usize,
    /// Largest package that may be installed, in bytes.
    pub install_size: u64,
    /// Seconds a package stream may stay idle between two chunks.
    pub stream_timeout: u64,
    /// Seconds a client has for its first frame.
    pub connect_timeout: u64,
}

/// The limits that `configuration` stands for.
pub open spec fn limits_of(configuration: Configuration) -> Limits {
    Limits {
        requests_per_sec: match configuration.max_requests_per_sec {
            Some(n) => n,
            None => DEFAULT_REQUESTS_PER_SECOND,
        },
        request_size: match configuration.max_request_size {
            Some(n) => n,
            None => DEFAULT_MAX_REQUEST_SIZE,
        },
        install_size: install_limit(configuration),
        stream_timeout: match configuration.npk_stream_timeout {
            Some(n) => n,
            None => DEFAULT_NPK_STREAM_TIMEOUT,
        },
        connect_timeout: DEFAULT_CONNECT_TIMEOUT,
    }
}

/// The limits of a connection with the settings `configuration`.
pub fn limits(configuration: &Configuration) -> (l: Limits)
    ensures
        l == limits_of(*configuration),
{
    Limits {
        requests_per_sec: match configuration.max_requests_per_sec {
            Some(n) => n,
            None => DEFAULT_REQUESTS_PER_SECOND,
        },
        request_size: match configuration.max_request_size {
            Some(n) => n,
            None => DEFAULT_MAX_REQUEST_SIZE,
        },
        install_size: match configuration.max_npk_install_size {
            Some(n) => n,
            None => DEFAULT_MAX_INSTALL_STREAM_SIZE,
        },
        stream_timeout: match configuration.npk_stream_timeout {
            Some(n) => n,
            None => DEFAULT_NPK_STREAM_TIMEOUT,
        },
        connect_timeout: DEFAULT_CONNECT_TIMEOUT,
    }
}

} // verus!
