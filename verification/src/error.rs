//! The errors of the runtime.

use crate::api;
use crate::container::{Container, ContainerId};
use vstd::prelude::*;
use vstd::string::*;

verus! {

/// The kind of an input or output failure.
#[derive(Clone, Copy, Debug, Hash, PartialEq, Eq, Structural)]
pub enum IoKind {
    NotFound,
    PermissionDenied,
    AlreadyExists,
    InvalidData,
    TimedOut,
    UnexpectedEof,
    Other,
}

/// What can go wrong in the runtime.
#[derive(Clone, Debug, PartialEq, Eq)]
pub enum Error {
    /// The container is not installed.
    InvalidContainer(Container),
    /// The package is in the repository already.
    InstallDuplicate(Container),
    /// The container (first) needs a resource that is not there: the name
    /// and the version of the resource follow.
    StartContainerMissingResource(Container, String, String),
    /// An input or output failure, with what was being done.
    Io(String, IoKind),
    /// The package at the path (first) could not be loaded, for the reason
    /// given (second).
    Npk(String, String),
    /// There is no repository at this position.
    InvalidRepository(usize),
    /// The container's root is mounted, which the request does not allow.
    ContainerMounted(Container),
    /// The container's root is not mounted, which the request needs.
    ContainerNotMounted(Container),
    /// The container has a process, which the request does not allow.
    ContainerStarted(Container),
    /// The container has no process in the status that the request or the
    /// event needs.
    ContainerNotStarted(Container),
    /// The container is said to run as a process that another container
    /// runs as.
    ProcessInUse(Container, u32),
}

/// The mathematical content of an [`Error`].
pub enum ErrorSpec {
    InvalidContainer(ContainerId),
    InstallDuplicate(ContainerId),
    StartContainerMissingResource(ContainerId, Seq<char>, Seq<char>),
    Io(Seq<char>, IoKind),
    Npk(Seq<char>, Seq<char>),
    InvalidRepository(usize),
    ContainerMounted(ContainerId),
    ContainerNotMounted(ContainerId),
    ContainerStarted(ContainerId),
    ContainerNotStarted(ContainerId),
    ProcessInUse(ContainerId, u32),
}

impl View for Error {
    type V = ErrorSpec;

    open spec fn view(&self) -> ErrorSpec {
        match self {
            Error::InvalidContainer(c) => ErrorSpec::InvalidContainer(c@),
            Error::InstallDuplicate(c) => ErrorSpec::InstallDuplicate(c@),
            Error::StartContainerMissingResource(c, name, version) => {
                ErrorSpec::StartContainerMissingResource(c@, name@, version@)
            },
            Error::Io(context, kind) => ErrorSpec::Io(context@, *kind),
            Error::Npk(path, reason) => ErrorSpec::Npk(path@, reason@),
            Error::InvalidRepository(k) => ErrorSpec::InvalidRepository(*k),
            Error::ContainerMounted(c) => ErrorSpec::ContainerMounted(c@),
            Error::ContainerNotMounted(c) => ErrorSpec::ContainerNotMounted(c@),
            Error::ContainerStarted(c) => ErrorSpec::ContainerStarted(c@),
            Error::ContainerNotStarted(c) => ErrorSpec::ContainerNotStarted(c@),
            Error::ProcessInUse(c, pid) => ErrorSpec::ProcessInUse(c@, *pid),
        }
    }
}

impl IoKind {
    /// The name of the kind as the wire shows it.
    pub open spec fn name(self) -> Seq<char> {
        match self {
            IoKind::NotFound => "NotFound"@,
            IoKind::PermissionDenied => "PermissionDenied"@,
            IoKind::AlreadyExists => "AlreadyExists"@,
            IoKind::InvalidData => "InvalidData"@,
            IoKind::TimedOut => "TimedOut"@,
            IoKind::UnexpectedEof => "UnexpectedEof"@,
            IoKind::Other => "Other"@,
        }
    }

    /// The name of the kind as the wire shows it.
    pub fn to_string(&self) -> (s: String)
        ensures
            s@ == self.name(),
    {
        match self {
            IoKind::NotFound => String::from_str("NotFound"),
            IoKind::PermissionDenied => String::from_str("PermissionDenied"),
            IoKind::AlreadyExists => String::from_str("AlreadyExists"),
            IoKind::InvalidData => String::from_str("InvalidData"),
            IoKind::TimedOut => String::from_str("TimedOut"),
            IoKind::UnexpectedEof => String::from_str("UnexpectedEof"),
            IoKind::Other => String::from_str("Other"),
        }
    }
}

/// Whether `wire` is the shape in which the error `e` goes over the wire.
///
/// An error about the status of a container is shown as `InvalidContainer`,
/// and a repository that is not there as an `Io` error of kind `NotFound`;
/// every other error keeps its shape and what it holds.
pub open spec fn is_wire_of(wire: api::Error, e: Error) -> bool {
    match e {
        Error::InvalidContainer(c) | Error::ContainerMounted(c) | Error::ContainerNotMounted(c)
        | Error::ContainerStarted(c) | Error::ContainerNotStarted(c) | Error::ProcessInUse(c, _) => {
            wire == (api::Error::InvalidContainer { container: c })
        },
        Error::InstallDuplicate(c) => wire == (api::Error::InstallDuplicate { container: c }),
        Error::StartContainerMissingResource(c, name, version) => {
            wire == (api::Error::StartContainerMissingResource { container: c, name, version })
        },
        Error::Io(context, kind) => {
            &&& wire matches api::Error::Io { context: x, kind: k }
            &&& x == context
            &&& k@ == kind.name()
        },
        Error::Npk(path, reason) => wire == (api::Error::Npk { path, reason }),
        Error::InvalidRepository(_) => {
            &&& wire matches api::Error::Io { context, kind }
            &&& context@ == "Unknown repository"@
            &&& kind@ == IoKind::NotFound.name()
        },
    }
}

impl Error {
    /// The shape in which the error goes over the wire.
    pub fn to_wire(self) -> (wire: api::Error)
        ensures
            is_wire_of(wire, self),
    {
        match self {
            Error::InvalidContainer(c) => api::Error::InvalidContainer { container: c },
            Error::ContainerMounted(c) => api::Error::InvalidContainer { container: c },
            Error::ContainerNotMounted(c) => api::Error::InvalidContainer { container: c },
            Error::ContainerStarted(c) => api::Error::InvalidContainer { container: c },
            Error::ContainerNotStarted(c) => api::Error::InvalidContainer { container: c },
            Error::ProcessInUse(c, _) => api::Error::InvalidContainer { container: c },
            Error::InstallDuplicate(c) => api::Error::InstallDuplicate { container: c },
            Error::StartContainerMissingResource(c, name, version) => {
                api::Error::StartContainerMissingResource { container: c, name, version }
            },
            Error::Io(context, kind) => api::Error::Io { context, kind: kind.to_string() },
            Error::Npk(path, reason) => api::Error::Npk { path, reason },
            Error::InvalidRepository(_) => api::Error::Io {
                context: String::from_str("Unknown repository"),
                kind: IoKind::NotFound.to_string(),
            },
        }
    }
}

} // verus!
