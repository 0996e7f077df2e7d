//! The messages of the console protocol.

use crate::container::Container;
use crate::version::Version;
use vstd::prelude::*;

verus! {

/// The protocol version that this runtime speaks.
pub open spec fn api_version() -> Version {
    Version { major: 0, minor: 1, patch: 0 }
}

/// The protocol version that this runtime speaks.
#[verifier::when_used_as_spec(api_version)]
pub fn version() -> (v: Version)
    ensures
        v == api_version(),
{
    Version { major: 0, minor: 1, patch: 0 }
}

/// What a console connection may be allowed to do.
#[derive(Clone, Copy, Debug, Hash, PartialEq, Eq, Structural)]
pub enum Permission {
    ContainerStatistics,
    Containers,
    Ident,
    Install,
    Kill,
    Mount,
    Notifications,
    Repositories,
    Shutdown,
    Start,
    Token,
    Umount,
    Uninstall,
}

/// A set of permissions, one flag for each.
#[derive(Clone, Copy, Debug, Hash, PartialEq, Eq, Structural)]
pub struct Permissions {
    pub container_statistics: bool,
    pub containers: bool,
    pub ident: bool,
    pub install: bool,
    pub kill: bool,
    pub mount: bool,
    pub notifications: bool,
    pub repositories: bool,
    pub shutdown: bool,
    pub start: bool,
    pub token: bool,
    pub umount: bool,
    pub uninstall: bool,
}

impl Permissions {
    /// Whether `permission` is in the set.
    pub open spec fn has(self, permission: Permission) -> bool {
        match permission {
            Permission::ContainerStatistics => self.container_statistics,
            Permission::Containers => self.containers,
            Permission::Ident => self.ident,
            Permission::Install => self.install,
            Permission::Kill => self.kill,
            Permission::Mount => self.mount,
            Permission::Notifications => self.notifications,
            Permission::Repositories => self.repositories,
            Permission::Shutdown => self.shutdown,
            Permission::Start => self.start,
            Permission::Token => self.token,
            Permission::Umount => self.umount,
            Permission::Uninstall => self.uninstall,
        }
    }

    /// The set as a mathematical set.
    pub open spec fn to_set(self) -> Set<Permission> {
        Set::new(|p: Permission| self.has(p))
    }

    /// The empty set.
    pub fn none() -> (p: Permissions)
        ensures
            forall|q: Permission| !p.has(q),
    {
        Permissions {
            container_statistics: false,
            containers: false,
            ident: false,
            install: false,
            kill: false,
            mount: false,
            notifications: false,
            repositories: false,
            shutdown: false,
            start: false,
            token: false,
            umount: false,
            uninstall: false,
        }
    }

    /// The set of all permissions.
    pub fn full() -> (p: Permissions)
        ensures
            forall|q: Permission| p.has(q),
    {
        Permissions {
            container_statistics: true,
            containers: true,
            ident: true,
            install: true,
            kill: true,
            mount: true,
            notifications: true,
            repositories: true,
            shutdown: true,
            start: true,
            token: true,
            umount: true,
            uninstall: true,
        }
    }

    /// Whether `permission` is in the set.
    pub fn contains(&self, permission: Permission) -> (r: bool)
        ensures
            r == self.has(permission),
    {
        match permission {
            Permission::ContainerStatistics => self.container_statistics,
            Permission::Containers => self.containers,
            Permission::Ident => self.ident,
            Permission::Install => self.install,
            Permission::Kill => self.kill,
            Permission::Mount => self.mount,
            Permission::Notifications => self.notifications,
            Permission::Repositories => self.repositories,
            Permission::Shutdown => self.shutdown,
            Permission::Start => self.start,
            Permission::Token => self.token,
            Permission::Umount => self.umount,
            Permission::Uninstall => self.uninstall,
        }
    }

    /// The set with `permission` added.
    pub fn with(self, permission: Permission) -> (p: Permissions)
        ensures
            forall|q: Permission| p.has(q) == (q == permission || self.has(q)),
    {
        let mut p = self;
        match permission {
            Permission::ContainerStatistics => p.container_statistics = true,
            Permission::Containers => p.containers = true,
            Permission::Ident => p.ident = true,
            Permission::Install => p.install = true,
            Permission::Kill => p.kill = true,
            Permission::Mount => p.mount = true,
            Permission::Notifications => p.notifications = true,
            Permission::Repositories => p.repositories = true,
            Permission::Shutdown => p.shutdown = true,
            Permission::Start => p.start = true,
            Permission::Token => p.token = true,
            Permission::Umount => p.umount = true,
            Permission::Uninstall => p.uninstall = true,
        }
        p
    }
}

/// The settings of a console: what its clients may do, and its limits.
/// A limit that is `None` takes its default.
#[derive(Clone, Copy, Debug, Hash, PartialEq, Eq, Structural)]
pub struct Configuration {
    pub permissions: Permissions,
    /// Frames accepted per second.
    pub max_requests_per_sec: Option<usize>,
    /// Largest frame that is not package content, in bytes.
    pub max_request_size: Option<usize>,
    /// Largest package that may be installed, in bytes.
    pub max_npk_install_size: Option<u64>,
    /// Seconds a package stream may stay idle between two chunks.
    pub npk_stream_timeout: Option<u64>,
}

/// How a container's process ended, as the wire shows it.
#[derive(Clone, Copy, Debug, Hash, PartialEq, Eq, Structural)]
pub enum ExitStatus {
    Exit { code: i32 },
    Signalled { signal: u32 },
}

/// Memory events of a container's control group.
#[derive(Clone, Copy, Debug, Hash, PartialEq, Eq, Structural)]
pub struct MemoryNotification {
    pub low: Option<u64>,
    pub high: Option<u64>,
    pub max: Option<u64>,
    pub oom: Option<u64>,
    pub oom_kill: Option<u64>,
}

/// An event of a container's control group.
#[derive(Clone, Copy, Debug, Hash, PartialEq, Eq, Structural)]
pub enum CgroupNotification {
    Memory(MemoryNotification),
}

/// An event that the runtime tells its subscribers of.
#[derive(Clone, Debug, PartialEq, Eq)]
pub enum Notification {
    Started(Container),
    Exit(Container, ExitStatus),
    Install(Container),
    Uninstall(Container),
    CGroup(Container, CgroupNotification),
}

/// A token: a keyed tag of forty bytes.
#[derive(Clone, Copy, Debug, PartialEq, Eq)]
pub struct Token {
    pub bytes: [u8; 40],
}

/// What a client asks of the runtime.
#[derive(Clone, Debug, PartialEq, Eq)]
pub enum Request {
    ContainerStats { container: Container },
    Containers,
    Ident,
    Install { repository: String, size: u64 },
    Kill { container: Container, signal: i32 },
    Mount { containers: Vec<Container> },
    Repositories,
    Shutdown,
    Start { container: Container, args: Option<Vec<String>>, env: Option<Vec<(String, String)>> },
    TokenCreate { target: Vec<u8>, shared: Vec<u8> },
    TokenVerify { token: Token, user: Vec<u8>, shared: Vec<u8> },
    Umount { containers: Vec<Container> },
    Uninstall { container: Container },
}

/// Whether a token was accepted.
#[derive(Clone, Copy, Debug, Hash, PartialEq, Eq, Structural)]
pub enum VerificationResult {
    Valid,
    Invalid,
    Expired,
    Future,
}

/// What the runtime tells of one installed container.
#[derive(Clone, Debug, PartialEq, Eq)]
pub struct ContainerData {
    pub container: Container,
    pub repository: String,
    pub mounted: bool,
    /// The process id, while the container runs.
    pub pid: Option<u32>,
}

/// An error as the wire shows it.
#[derive(Clone, Debug, PartialEq, Eq)]
pub enum Error {
    PermissionDenied { permissions: Permissions, required: Permission },
    InvalidContainer { container: Container },
    InstallDuplicate { container: Container },
    StartContainerMissingResource { container: Container, name: String, version: String },
    Io { context: String, kind: String },
    Npk { path: String, reason: String },
    Shutdown,
}

/// The answer to a request.
#[derive(Clone, Debug, PartialEq, Eq)]
pub enum Response {
    Done,
    Containers(Vec<ContainerData>),
    Repositories(Vec<String>),
    Ident(Container),
    Token(Token),
    TokenVerification(VerificationResult),
    ContainerStats(Vec<(String, String)>),
    Error(Error),
}

/// Why a connection attempt is refused.
#[derive(Clone, Copy, Debug, Hash, PartialEq, Eq, Structural)]
pub enum ConnectNack {
    InvalidProtocolVersion { version: Version },
    PermissionDenied,
}

/// The handshake messages.
#[derive(Clone, Copy, Debug, Hash, PartialEq, Eq, Structural)]
pub enum Connect {
    Connect { version: Version, subscribe_notifications: bool },
    Ack { configuration: Configuration },
    Nack { error: ConnectNack },
}

/// A frame of the console protocol.
#[derive(Clone, Debug, PartialEq, Eq)]
pub enum Message {
    Connect { connect: Connect },
    Request { request: Request },
    Response { response: Response },
    Notification { notification: Notification },
}

/// The permission that a request needs; each request needs exactly one.
pub open spec fn required(request: Request) -> Permission {
    match request {
        Request::ContainerStats { .. } => Permission::ContainerStatistics,
        Request::Containers => Permission::Containers,
        Request::Ident => Permission::Ident,
        Request::Install { .. } => Permission::Install,
        Request::Kill { .. } => Permission::Kill,
        Request::Mount { .. } => Permission::Mount,
        Request::Repositories => Permission::Repositories,
        Request::Shutdown => Permission::Shutdown,
        Request::Start { .. } => Permission::Start,
        Request::TokenCreate { .. } => Permission::Token,
        Request::TokenVerify { .. } => Permission::Token,
        Request::Umount { .. } => Permission::Umount,
        Request::Uninstall { .. } => Permission::Uninstall,
    }
}

/// The permission that `request` needs.
pub fn required_permission(request: &Request) -> (p: Permission)
    ensures
        p == required(*request),
{
    match request {
        Request::ContainerStats { .. } => Permission::ContainerStatistics,
        Request::Containers => Permission::Containers,
        Request::Ident => Permission::Ident,
        Request::Install { .. } => Permission::Install,
        Request::Kill { .. } => Permission::Kill,
        Request::Mount { .. } => Permission::Mount,
        Request::Repositories => Permission::Repositories,
        Request::Shutdown => Permission::Shutdown,
        Request::Start { .. } => Permission::Start,
        Request::TokenCreate { .. } => Permission::Token,
        Request::TokenVerify { .. } => Permission::Token,
        Request::Umount { .. } => Permission::Umount,
        Request::Uninstall { .. } => Permission::Uninstall,
    }
}

} // verus!
