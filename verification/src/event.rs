//! What happens to containers while the runtime is up.

use vstd::prelude::*;

verus! {

/// How the process of a container ended.
#[derive(Clone, Copy, Debug, Hash, PartialEq, Eq, Structural)]
pub enum ExitStatus {
    /// The process exited with this code.
    Exit(i32),
    /// The process was ended by this signal.
    Signalled(u8),
}

/// What the memory controller of a container's control group reports.
#[derive(Clone, Copy, Debug, Hash, PartialEq, Eq, Structural)]
pub struct MemoryEvent {
    pub low: Option<u64>,
    pub high: Option<u64>,
    pub max: Option<u64>,
    pub oom: Option<u64>,
    pub oom_kill: Option<u64>,
}

/// An event of a container's control group.
#[derive(Clone, Copy, Debug, Hash, PartialEq, Eq, Structural)]
pub enum CGroupEvent {
    Memory(MemoryEvent),
}

/// Something that happened to a container.
#[derive(Clone, Copy, Debug, Hash, PartialEq, Eq, Structural)]
pub enum ContainerEvent {
    /// The container was started.
    Started,
    /// The container's process ended.
    Exit(ExitStatus),
    /// The container was installed.
    Installed,
    /// The container was uninstalled.
    Uninstalled,
    /// The container's control group reported something.
    CGroup(CGroupEvent),
}

} // verus!
