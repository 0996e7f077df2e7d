//! The manifest of a package: what a container is, what it may do and what
//! is mounted into it, together with the rules a manifest has to meet.

use crate::api::Configuration;
use crate::container::{is_valid_name, valid_name, Container, ContainerId};
use crate::text::same_text;
use crate::version::{semver_parse, Version};
use vstd::prelude::*;
use vstd::string::*;

verus! {

/// What happens when the container's process exits.
#[derive(Clone, Copy, Debug, Hash, PartialEq, Eq, Structural)]
pub enum OnExit {
    /// The container is restarted up to this many times, and is left
    /// stopped when it exits once more. The number is at least one.
    Restart(u32),
}

/// Memory limit of the control group.
#[derive(Clone, Copy, Debug, Hash, PartialEq, Eq, Structural)]
pub struct CGroupMem {
    /// Limit in bytes.
    pub limit: u64,
}

/// CPU weight of the control group.
#[derive(Clone, Copy, Debug, Hash, PartialEq, Eq, Structural)]
pub struct CGroupCpu {
    /// CPU shares.
    pub shares: u32,
}

/// Control group settings.
#[derive(Clone, Copy, Debug, Hash, PartialEq, Eq, Structural)]
pub struct CGroups {
    pub mem: Option<CGroupMem>,
    pub cpu: Option<CGroupCpu>,
}

/// The log buffer that the container's output goes to.
#[derive(Clone, Copy, Debug, Hash, PartialEq, Eq, Structural)]
pub enum LogBuffer {
    Main,
    Custom(u8),
}

/// Log settings.
#[derive(Clone, Debug, Hash, PartialEq, Eq)]
pub struct Log {
    pub tag: Option<String>,
    pub buffer: Option<LogBuffer>,
}

/// The system calls that the container may make.
#[derive(Clone, Debug, Hash, PartialEq, Eq)]
pub struct Seccomp {
    /// The name of a predefined profile.
    pub profile: Option<String>,
    /// Names of system calls allowed on top of the profile.
    pub allow: Option<Vec<String>>,
}

/// A resource limit: the soft and the hard value.
#[derive(Clone, Copy, Debug, Hash, PartialEq, Eq, Structural)]
pub struct RLimit {
    pub soft: Option<u64>,
    pub hard: Option<u64>,
}

/// An option of a bind or resource mount.
#[derive(Clone, Copy, Debug, Hash, PartialEq, Eq, Structural)]
pub enum MountOption {
    /// Mount writable.
    Rw,
    /// Do not allow programs to be executed from the mount.
    NoExec,
    /// Ignore set-user-id and set-group-id bits.
    NoSuid,
    /// Do not allow access to device files.
    NoDev,
    /// Bind the whole subtree.
    Rec,
}

/// What is mounted at a target inside the container.
#[derive(Clone, Debug, Hash, PartialEq, Eq)]
pub enum Mount {
    /// A directory of the host.
    Bind { host: String, options: Vec<MountOption> },
    /// The device directory; set up by the init helper itself.
    Dev,
    /// A directory that outlives the container and its upgrades.
    Persist,
    /// The process file system.
    Proc,
    /// A directory of another container: the one named `name` whose version
    /// meets the requirement `version`.
    Resource { name: String, version: String, dir: String, options: Vec<MountOption> },
    /// A memory file system of `size` bytes.
    Tmpfs { size: u64 },
}

/// One entry of a manifest's mounts: a target inside the container and what
/// is mounted there.
#[derive(Clone, Debug, Hash, PartialEq, Eq)]
pub struct MountPoint {
    pub target: String,
    pub mount: Mount,
}

/// The declared attributes of one package.
#[derive(Clone, Debug, PartialEq, Eq)]
pub struct Manifest {
    /// Name of the container.
    pub name: String,
    /// Version of the container.
    pub version: Version,
    /// Target architecture.
    pub arch: String,
    /// Path of the entry point, inside the container.
    pub init: String,
    /// Arguments of the entry point.
    pub args: Option<Vec<String>>,
    /// Environment of the entry point, in order.
    pub env: Option<Vec<(String, String)>>,
    /// User id of the container's process.
    pub uid: u16,
    /// Group id of the container's process.
    pub gid: u16,
    /// Names of supplementary groups.
    pub suppl_groups: Vec<String>,
    /// Whether the container starts with the runtime.
    pub autostart: Option<bool>,
    /// What happens when the process exits.
    pub on_exit: Option<OnExit>,
    /// Control group settings.
    pub cgroups: Option<CGroups>,
    /// System call filter.
    pub seccomp: Option<Seccomp>,
    /// Names of the capabilities that the process keeps.
    pub capabilities: Vec<String>,
    /// Resource limits by the name of the resource.
    pub rlimits: Vec<(String, RLimit)>,
    /// The mounts, in the order in which they are declared.
    pub mounts: Vec<MountPoint>,
    /// Console settings, where the container may use the console.
    pub console: Option<Configuration>,
    /// Log settings.
    pub log: Option<Log>,
    /// Number of instances of this container.
    pub instances: Option<u32>,
}

impl Manifest {
    /// The identity that this manifest declares.
    pub open spec fn identity(&self) -> ContainerId {
        ContainerId { name: self.name@, version: self.version }
    }

    /// The identity that this manifest declares.
    pub fn container(&self) -> (c: Container)
        ensures
            c@ == self.identity(),
    {
        Container::new(self.name.clone(), self.version)
    }
}

/// What is wrong with a declared mount.
#[derive(Clone, Copy, Debug, Hash, PartialEq, Eq, Structural)]
pub enum MountFault {
    /// A memory file system of no size.
    EmptyTmpfs,
    /// The target is declared twice.
    DuplicateTarget,
    /// The target lies in, or holds, the target of a process file system.
    OverlapsProc,
}

/// Why a manifest is refused.
#[derive(Clone, Debug, PartialEq, Eq)]
pub enum ManifestError {
    /// The name is empty or holds a character that names cannot have.
    InvalidName,
    /// The version is not of the form `MAJOR.MINOR.PATCH`.
    InvalidVersion,
    /// The container is to be restarted zero times.
    InvalidOnExit,
    /// The path of the entry point does not start at the root.
    InvalidInit,
    /// The number of instances is zero.
    InvalidInstances,
    /// The mount at the target named is at fault.
    InvalidMount(String, MountFault),
}

/// The mathematical content of a [`ManifestError`].
pub enum ManifestErrorSpec {
    InvalidName,
    InvalidVersion,
    InvalidOnExit,
    InvalidInit,
    InvalidInstances,
    InvalidMount(Seq<char>, MountFault),
}

impl View for ManifestError {
    type V = ManifestErrorSpec;

    open spec fn view(&self) -> ManifestErrorSpec {
        match self {
            ManifestError::InvalidName => ManifestErrorSpec::InvalidName,
            ManifestError::InvalidVersion => ManifestErrorSpec::InvalidVersion,
            ManifestError::InvalidOnExit => ManifestErrorSpec::InvalidOnExit,
            ManifestError::InvalidInit => ManifestErrorSpec::InvalidInit,
            ManifestError::InvalidInstances => ManifestErrorSpec::InvalidInstances,
            ManifestError::InvalidMount(target, fault) => ManifestErrorSpec::InvalidMount(
                target@,
                *fault,
            ),
        }
    }
}

/// Whether the path `inner` is `outer` or lies below it: `outer` is at the
/// front of `inner`, and ends there at a boundary between path components.
pub open spec fn lies_within(outer: Seq<char>, inner: Seq<char>) -> bool {
    &&& outer.len() <= inner.len()
    &&& inner.subrange(0, outer.len() as int) == outer
    &&& (outer.len() == inner.len() || (outer.len() > 0 && outer.last() == '/')
        || inner[outer.len() as int] == '/')
}

/// Whether one of the two paths is the other or lies below it.
pub open spec fn overlap(a: Seq<char>, b: Seq<char>) -> bool {
    lies_within(a, b) || lies_within(b, a)
}

/// Decides [`lies_within`].
pub fn is_within(outer: &str, inner: &str) -> (r: bool)
    ensures
        r == lies_within(outer@, inner@),
{
    let n = outer.unicode_len();
    let m = inner.unicode_len();
    if n > m {
        return false;
    }
    let mut i: usize = 0;
    while i < n
        invariant
            n == outer@.len(),
            m == inner@.len(),
            n <= m,
            i <= n,
            forall|j: int| 0 <= j < i ==> outer@[j] == inner@[j],
        decreases n - i,
    {
        if outer.get_char(i) != inner.get_char(i) {
            proof {
                assert(inner@.subrange(0, n as int)[i as int] == inner@[i as int]);
            }
            return false;
        }
        i += 1;
    }
    proof {
        assert(inner@.subrange(0, n as int) =~= outer@);
    }
    if n == m {
        return true;
    }
    if n > 0 && outer.get_char(n - 1) == '/' {
        return true;
    }
    inner.get_char(n) == '/'
}

/// The fault of the mount at position `i` of `mounts`, judged against the
/// mounts declared before it; `None` where it has none.
pub open spec fn mount_fault(mounts: Seq<MountPoint>, i: int) -> Option<MountFault> {
    if mounts[i].mount matches Mount::Tmpfs { size } && size == 0 {
        Some(MountFault::EmptyTmpfs)
    } else if exists|j: int| 0 <= j < i && (#[trigger] mounts[j]).target@ == mounts[i].target@ {
        Some(MountFault::DuplicateTarget)
    } else if exists|j: int|
        0 <= j < i && ((#[trigger] mounts[j]).mount is Proc || mounts[i].mount is Proc) && overlap(
            mounts[j].target@,
            mounts[i].target@,
        ) {
        Some(MountFault::OverlapsProc)
    } else {
        None
    }
}

/// The first mount at fault among the first `n` of `mounts`, with its fault.
pub open spec fn first_fault(mounts: Seq<MountPoint>, n: int) -> Option<(int, MountFault)>
    decreases n,
{
    if n <= 0 {
        None
    } else {
        match first_fault(mounts, n - 1) {
            Some(found) => Some(found),
            None => match mount_fault(mounts, n - 1) {
                Some(fault) => Some((n - 1, fault)),
                None => None,
            },
        }
    }
}

impl Manifest {
    /// What is wrong with the manifest, or `Ok` where nothing is. The name
    /// is judged first, then the restart count, the entry point, the number
    /// of instances, and the mounts in their order.
    pub open spec fn verdict(&self) -> Result<(), ManifestErrorSpec> {
        if !is_valid_name(self.name@) {
            Err(ManifestErrorSpec::InvalidName)
        } else if self.on_exit == Some(OnExit::Restart(0)) {
            Err(ManifestErrorSpec::InvalidOnExit)
        } else if self.init@.len() == 0 || self.init@[0] != '/' {
            Err(ManifestErrorSpec::InvalidInit)
        } else if self.instances == Some(0u32) {
            Err(ManifestErrorSpec::InvalidInstances)
        } else {
            match first_fault(self.mounts@, self.mounts@.len() as int) {
                Some((i, fault)) => Err(
                    ManifestErrorSpec::InvalidMount(self.mounts@[i].target@, fault),
                ),
                None => Ok(()),
            }
        }
    }

    /// Whether the manifest meets all rules.
    pub open spec fn is_valid(&self) -> bool {
        self.verdict() is Ok
    }

    /// Judges the mount at position `i` against the mounts before it.
    fn check_mount(&self, i: usize) -> (fault: Option<MountFault>)
        requires
            i < self.mounts@.len(),
        ensures
            fault == mount_fault(self.mounts@, i as int),
    {
        let ghost mounts = self.mounts@;
        let point = &self.mounts[i];
        match &point.mount {
            Mount::Tmpfs { size } => {
                if *size == 0 {
                    return Some(MountFault::EmptyTmpfs);
                }
            },
            _ => {},
        }
        let ghost sized = !(mounts[i as int].mount matches Mount::Tmpfs { size } && size == 0);
        let is_proc = match &point.mount {
            Mount::Proc => true,
            _ => false,
        };
        let mut j: usize = 0;
        while j < i
            invariant
                j <= i,
                i < self.mounts@.len(),
                mounts == self.mounts@,
                *point == mounts[i as int],
                sized,
                sized == !(mounts[i as int].mount matches Mount::Tmpfs { size } && size == 0),
                forall|k: int| 0 <= k < j ==> (#[trigger] mounts[k]).target@ != mounts[i as int].target@,
            decreases i - j,
        {
            if same_text(self.mounts[j].target.as_str(), point.target.as_str()) {
                proof {
                    assert(mounts[j as int].target@ == mounts[i as int].target@);
                }
                return Some(MountFault::DuplicateTarget);
            }
            j += 1;
        }
        let mut j: usize = 0;
        while j < i
            invariant
                j <= i,
                i < self.mounts@.len(),
                mounts == self.mounts@,
                *point == mounts[i as int],
                sized,
                sized == !(mounts[i as int].mount matches Mount::Tmpfs { size } && size == 0),
                is_proc == (mounts[i as int].mount is Proc),
                forall|k: int| 0 <= k < i ==> (#[trigger] mounts[k]).target@ != mounts[i as int].target@,
                forall|k: int|
                    0 <= k < j ==> !(((#[trigger] mounts[k]).mount is Proc || is_proc) && overlap(
                        mounts[k].target@,
                        mounts[i as int].target@,
                    )),
            decreases i - j,
        {
            let other = &self.mounts[j];
            let other_is_proc = match &other.mount {
                Mount::Proc => true,
                _ => false,
            };
            if other_is_proc || is_proc {
                if is_within(other.target.as_str(), point.target.as_str()) || is_within(
                    point.target.as_str(),
                    other.target.as_str(),
                ) {
                    proof {
                        assert((mounts[j as int].mount is Proc || mounts[i as int].mount is Proc)
                            && overlap(mounts[j as int].target@, mounts[i as int].target@));
                    }
                    return Some(MountFault::OverlapsProc);
                }
            }
            j += 1;
        }
        None
    }

    /// Checks the rules that every manifest has to meet: a valid name, a
    /// restart count of at least one, an entry point that starts at the
    /// root, at least one instance, and mounts without a memory file system
    /// of no size, without a target declared twice, and without a target
    /// that overlaps the target of a process file system.
    #[verifier::loop_isolation(false)]
    pub fn validate(&self) -> (r: Result<(), ManifestError>)
        ensures
            match self.verdict() {
                Ok(_) => r is Ok,
                Err(e) => r matches Err(x) && x@ == e,
            },
    {
        if !valid_name(self.name.as_str()) {
            return Err(ManifestError::InvalidName);
        }
        match self.on_exit {
            Some(OnExit::Restart(n)) => {
                if n == 0 {
                    return Err(ManifestError::InvalidOnExit);
                }
            },
            None => {},
        }
        if self.init.as_str().unicode_len() == 0 || self.init.as_str().get_char(0) != '/' {
            return Err(ManifestError::InvalidInit);
        }
        match self.instances {
            Some(n) => {
                if n == 0 {
                    return Err(ManifestError::InvalidInstances);
                }
            },
            None => {},
        }
        let mut i: usize = 0;
        while i < self.mounts.len()
            invariant
                i <= self.mounts.len(),
                first_fault(self.mounts@, i as int) is None,
            decreases self.mounts.len() - i,
        {
            match self.check_mount(i) {
                Some(fault) => {
                    proof {
                        assert(first_fault(self.mounts@, i + 1) == Some((i as int, fault)));
                        fault_stays_first(self.mounts@, i + 1, self.mounts@.len() as int);
                    }
                    return Err(ManifestError::InvalidMount(self.mounts[i].target.clone(), fault));
                },
                None => {},
            }
            i += 1;
        }
        Ok(())
    }
}

/// The first fault among the first `n` mounts is the first fault among any
/// more of them.
pub proof fn fault_stays_first(mounts: Seq<MountPoint>, n: int, m: int)
    requires
        n <= m,
        first_fault(mounts, n) is Some,
    ensures
        first_fault(mounts, m) == first_fault(mounts, n),
    decreases m - n,
{
    if n < m {
        fault_stays_first(mounts, n, m - 1);
    }
}

/// A manifest that is valid restarts its container at least once where it
/// restarts it at all, and declares no mount target twice.
pub proof fn valid_manifest_rules(manifest: Manifest)
    requires
        manifest.is_valid(),
    ensures
        is_valid_name(manifest.name@),
        manifest.on_exit matches Some(OnExit::Restart(n)) ==> n >= 1,
        manifest.instances matches Some(n) ==> n >= 1,
        forall|i: int, j: int|
            0 <= j < i < manifest.mounts@.len() ==> (#[trigger] manifest.mounts@[j]).target@ != (
            #[trigger] manifest.mounts@[i]).target@,
        forall|i: int|
            0 <= i < manifest.mounts@.len() ==> (#[trigger] manifest.mounts@[i]).mount != (
            Mount::Tmpfs { size: 0 }),
{
    let mounts = manifest.mounts@;
    assert forall|i: int| 0 <= i < mounts.len() implies mount_fault(mounts, i) is None by {
        if mount_fault(mounts, i) is Some {
            no_fault_before(mounts, mounts.len() as int, i);
        }
    }
    assert forall|i: int, j: int| 0 <= j < i < mounts.len() implies (#[trigger] mounts[j]).target@
        != (#[trigger] mounts[i]).target@ by {
        assert(mount_fault(mounts, i) is None);
    }
    assert forall|i: int| 0 <= i < mounts.len() implies (#[trigger] mounts[i]).mount != (
    Mount::Tmpfs { size: 0 }) by {
        assert(mount_fault(mounts, i) is None);
    }
}

/// Where the first `n` mounts hold no fault, none of them is at fault.
pub proof fn no_fault_before(mounts: Seq<MountPoint>, n: int, i: int)
    requires
        0 <= i < n,
        first_fault(mounts, n) is None,
    ensures
        mount_fault(mounts, i) is None,
    decreases n,
{
    if i < n - 1 {
        no_fault_before(mounts, n - 1, i);
    }
}

/// Reads the version of a manifest from its text `MAJOR.MINOR.PATCH`.
pub fn read_version(text: &str) -> (r: Result<Version, ManifestError>)
    ensures
        match Version::of_fields(semver_parse(text@)) {
            Ok(v) => r matches Ok(x) && x == v,
            Err(_) => r matches Err(e) && e@ == ManifestErrorSpec::InvalidVersion,
        },
{
    match Version::parse(text) {
        Ok(v) => Ok(v),
        Err(_) => Err(ManifestError::InvalidVersion),
    }
}

} // verus!
