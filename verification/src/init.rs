//! What the init helper of a container is handed: identity, credentials and
//! the ordered list of mounts, planned from the manifest.

use crate::container::{identities, match_container, resolve, Container, ContainerId};
use crate::error::{Error, ErrorSpec};
use crate::manifest;
use crate::manifest::{Manifest, MountOption, MountPoint, RLimit, Seccomp};
use crate::path::{below_root, join, join_strip, joined_below, path_below_root, path_join};
use crate::text::{decimal, push_decimal, same_text};
use vstd::prelude::*;
use vstd::string::*;

verus! {

/// Mount read-only.
pub const MS_RDONLY: u64 = 0x01;

/// Ignore set-user-id and set-group-id bits.
pub const MS_NOSUID: u64 = 0x02;

/// Disallow access to device files.
pub const MS_NODEV: u64 = 0x04;

/// Disallow program execution.
pub const MS_NOEXEC: u64 = 0x08;

/// Alter the flags of an existing mount.
pub const MS_REMOUNT: u64 = 0x20;

/// Bind a directory at another place.
pub const MS_BIND: u64 = 0x1000;

/// Bind recursively.
pub const MS_REC: u64 = 0x4000;

/// The bits of `nix::mount::MsFlags::MS_RDONLY`. Trusted: libc defines the
/// flag as `0x01` on Linux.
#[verifier::external_body]
fn ms_rdonly() -> (bits: u64)
    ensures
        bits == MS_RDONLY,
{
    nix::mount::MsFlags::MS_RDONLY.bits() as u64
}

/// The bits of `nix::mount::MsFlags::MS_NOSUID`. Trusted: libc defines the
/// flag as `0x02` on Linux.
#[verifier::external_body]
fn ms_nosuid() -> (bits: u64)
    ensures
        bits == MS_NOSUID,
{
    nix::mount::MsFlags::MS_NOSUID.bits() as u64
}

/// The bits of `nix::mount::MsFlags::MS_NODEV`. Trusted: libc defines the
/// flag as `0x04` on Linux.
#[verifier::external_body]
fn ms_nodev() -> (bits: u64)
    ensures
        bits == MS_NODEV,
{
    nix::mount::MsFlags::MS_NODEV.bits() as u64
}

/// The bits of `nix::mount::MsFlags::MS_NOEXEC`. Trusted: libc defines the
/// flag as `0x08` on Linux.
#[verifier::external_body]
fn ms_noexec() -> (bits: u64)
    ensures
        bits == MS_NOEXEC,
{
    nix::mount::MsFlags::MS_NOEXEC.bits() as u64
}

/// The bits of `nix::mount::MsFlags::MS_REMOUNT`. Trusted: libc defines the
/// flag as `0x20` on Linux.
#[verifier::external_body]
fn ms_remount() -> (bits: u64)
    ensures
        bits == MS_REMOUNT,
{
    nix::mount::MsFlags::MS_REMOUNT.bits() as u64
}

/// The bits of `nix::mount::MsFlags::MS_BIND`. Trusted: libc defines the
/// flag as `0x1000` on Linux.
#[verifier::external_body]
fn ms_bind() -> (bits: u64)
    ensures
        bits == MS_BIND,
{
    nix::mount::MsFlags::MS_BIND.bits() as u64
}

/// The bits of `nix::mount::MsFlags::MS_REC`. Trusted: libc defines the
/// flag as `0x4000` on Linux.
#[verifier::external_body]
fn ms_rec() -> (bits: u64)
    ensures
        bits == MS_REC,
{
    nix::mount::MsFlags::MS_REC.bits() as u64
}

/// One `mount` call for the init helper to make.
#[derive(Clone, Debug, Hash, PartialEq, Eq)]
pub struct Mount {
    pub source: Option<String>,
    pub target: String,
    pub fstype: Option<String>,
    pub flags: u64,
    pub data: Option<String>,
}

/// The mathematical content of a [`Mount`].
pub struct MountSpec {
    pub source: Option<Seq<char>>,
    pub target: Seq<char>,
    pub fstype: Option<Seq<char>>,
    pub flags: u64,
    pub data: Option<Seq<char>>,
}

impl View for Mount {
    type V = MountSpec;

    open spec fn view(&self) -> MountSpec {
        MountSpec {
            source: match self.source {
                Some(s) => Some(s@),
                None => None,
            },
            target: self.target@,
            fstype: match self.fstype {
                Some(s) => Some(s@),
                None => None,
            },
            flags: self.flags,
            data: match self.data {
                Some(s) => Some(s@),
                None => None,
            },
        }
    }
}

/// The contents of a list of mounts, in order.
pub open spec fn mount_specs(mounts: Seq<Mount>) -> Seq<MountSpec> {
    mounts.map_values(|m: Mount| m@)
}

impl Mount {
    /// The mount made of these parts.
    pub fn new(
        source: Option<String>,
        target: String,
        fstype: Option<String>,
        flags: u64,
        data: Option<String>,
    ) -> (m: Mount)
        ensures
            m == (Mount { source, target, fstype, flags, data }),
    {
        Mount { source, target, fstype, flags, data }
    }
}

/// The flag that a mount option turns on; `Rw` turns on none.
pub open spec fn option_flag(option: MountOption) -> u64 {
    match option {
        MountOption::Rw => 0,
        MountOption::NoExec => MS_NOEXEC,
        MountOption::NoSuid => MS_NOSUID,
        MountOption::NoDev => MS_NODEV,
        MountOption::Rec => MS_REC,
    }
}

/// The flags that a list of mount options turns on, taken together.
pub open spec fn option_flags(options: Seq<MountOption>) -> u64
    decreases options.len(),
{
    if options.len() == 0 {
        0
    } else {
        option_flags(options.drop_last()) | option_flag(options.last())
    }
}

/// Whether the options ask for a writable mount.
pub open spec fn is_writable(options: Seq<MountOption>) -> bool {
    options.contains(MountOption::Rw)
}

/// Turns mount options into mount flags.
pub fn options_to_flags(options: &Vec<MountOption>) -> (flags: u64)
    ensures
        flags == option_flags(options@),
{
    let mut flags: u64 = 0;
    let mut i: usize = 0;
    while i < options.len()
        invariant
            i <= options.len(),
            flags == option_flags(options@.take(i as int)),
        decreases options.len() - i,
    {
        let bit: u64 = match options[i] {
            MountOption::Rw => 0,
            MountOption::NoExec => ms_noexec(),
            MountOption::NoSuid => ms_nosuid(),
            MountOption::NoDev => ms_nodev(),
            MountOption::Rec => ms_rec(),
        };
        proof {
            assert(options@.take(i + 1).drop_last() =~= options@.take(i as int));
        }
        flags = flags | bit;
        i += 1;
    }
    assert(options@.take(i as int) =~= options@);
    flags
}

/// Whether `options` holds `Rw`.
pub fn writable(options: &Vec<MountOption>) -> (r: bool)
    ensures
        r == is_writable(options@),
{
    let mut i: usize = 0;
    while i < options.len()
        invariant
            i <= options.len(),
            forall|j: int| 0 <= j < i ==> options@[j] != MountOption::Rw,
        decreases options.len() - i,
    {
        if options[i] == MountOption::Rw {
            return true;
        }
        i += 1;
    }
    false
}

/// The mount of the process file system at `target` below `root`.
pub open spec fn proc_mount(root: Seq<char>, target: Seq<char>) -> MountSpec {
    MountSpec {
        source: Some("proc"@),
        target: joined_below(root, target),
        fstype: Some("proc"@),
        flags: MS_RDONLY | MS_NOSUID | MS_NOEXEC | MS_NODEV,
        data: None,
    }
}

/// Plans the mount of the process file system: read-only, without
/// set-user-id, program execution and devices.
pub fn proc(root: &str, target: &str) -> (m: Mount)
    ensures
        m@ == proc_mount(root@, target@),
{
    let source = String::from_str("proc");
    let target = join_strip(root, target);
    let fstype = String::from_str("proc");
    let flags = ms_rdonly() | ms_nosuid() | ms_noexec() | ms_nodev();
    Mount::new(Some(source), target, Some(fstype), flags, None)
}

/// The data of a memory file system of `size` bytes: `size=<bytes>,mode=1777`.
pub open spec fn tmpfs_data(size: u64) -> Seq<char> {
    "size="@ + decimal(size as nat) + ",mode=1777"@
}

/// The mount of a memory file system of `size` bytes at `target` below
/// `root`.
pub open spec fn tmpfs_mount(root: Seq<char>, target: Seq<char>, size: u64) -> MountSpec {
    MountSpec {
        source: None,
        target: joined_below(root, target),
        fstype: Some("tmpfs"@),
        flags: MS_NODEV | MS_NOSUID | MS_NOEXEC,
        data: Some(tmpfs_data(size)),
    }
}

/// Plans the mount of a memory file system.
pub fn tmpfs(root: &str, target: &str, size: u64) -> (m: Mount)
    ensures
        m@ == tmpfs_mount(root@, target@, size),
{
    let target = join_strip(root, target);
    let fstype = String::from_str("tmpfs");
    let flags = ms_nodev() | ms_nosuid() | ms_noexec();
    let mut data = String::from_str("size=");
    push_decimal(&mut data, size);
    data.append(",mode=1777");
    assert(data@ =~= tmpfs_data(size));
    Mount::new(None, target, Some(fstype), flags, Some(data))
}

/// The mounts that bind the host directory `host` at `target` below `root`:
/// none where the host directory does not exist; else the bind mount, and,
/// unless the options ask for a writable mount, a read-only remount of it.
pub open spec fn bind_mounts(
    root: Seq<char>,
    target: Seq<char>,
    host: Seq<char>,
    options: Seq<MountOption>,
    host_exists: bool,
) -> Seq<MountSpec> {
    let flags = option_flags(options) | MS_BIND;
    let mount = MountSpec {
        source: Some(host),
        target: joined_below(root, target),
        fstype: None,
        flags,
        data: None,
    };
    let remount = MountSpec {
        source: Some(host),
        target: joined_below(root, target),
        fstype: None,
        flags: flags | MS_REMOUNT | MS_RDONLY,
        data: None,
    };
    if !host_exists {
        seq![]
    } else if is_writable(options) {
        seq![mount]
    } else {
        seq![mount, remount]
    }
}

/// Plans a bind mount of a host directory. `host_exists` says whether the
/// host directory is there.
pub fn bind(
    root: &str,
    target: &str,
    host: &str,
    options: &Vec<MountOption>,
    host_exists: bool,
) -> (mounts: Vec<Mount>)
    ensures
        mount_specs(mounts@) == bind_mounts(root@, target@, host@, options@, host_exists),
{
    let mut mounts: Vec<Mount> = Vec::new();
    if host_exists {
        let rw = writable(options);
        let target = join_strip(root, target);
        let flags = options_to_flags(options) | ms_bind();
        if rw {
            mounts.push(Mount::new(Some(String::from_str(host)), target, None, flags, None));
        } else {
            let again = target.clone();
            mounts.push(Mount::new(Some(String::from_str(host)), target, None, flags, None));
            let flags = flags | ms_remount() | ms_rdonly();
            mounts.push(Mount::new(Some(String::from_str(host)), again, None, flags, None));
        }
    }
    assert(mount_specs(mounts@) =~= bind_mounts(root@, target@, host@, options@, host_exists));
    mounts
}

/// Where the runtime keeps its directories.
#[derive(Clone, Debug, Hash, PartialEq, Eq)]
pub struct Config {
    /// The directory under which container roots are assembled.
    pub run_dir: String,
    /// The directory under which persistent data is kept.
    pub data_dir: String,
}

/// The paths of the host that are known to exist.
#[derive(Clone, Debug, PartialEq, Eq)]
pub struct HostPaths {
    existing: Vec<String>,
}

impl View for HostPaths {
    type V = Set<Seq<char>>;

    closed spec fn view(&self) -> Set<Seq<char>> {
        Set::new(|p: Seq<char>| exists|i: int| 0 <= i < self.existing@.len() && self.existing@[i]@ == p)
    }
}

impl HostPaths {
    /// The knowledge that exactly the paths in `existing` exist.
    pub fn new(existing: Vec<String>) -> (host: HostPaths)
        ensures
            forall|p: Seq<char>|
                host@.contains(p) <==> exists|i: int|
                    0 <= i < existing@.len() && #[trigger] existing@[i]@ == p,
    {
        HostPaths { existing }
    }

    /// Whether `path` is known to exist.
    pub fn has(&self, path: &str) -> (r: bool)
        ensures
            r == self@.contains(path@),
    {
        let mut i: usize = 0;
        while i < self.existing.len()
            invariant
                i <= self.existing.len(),
                forall|j: int| 0 <= j < i ==> self.existing@[j]@ != path@,
            decreases self.existing.len() - i,
        {
            if same_text(self.existing[i].as_str(), path) {
                return true;
            }
            i += 1;
        }
        false
    }
}

/// Something to be done on the host before the container starts.
#[derive(Clone, Debug, Hash, PartialEq, Eq)]
pub enum Preparation {
    /// Create the directory `path` with its parents.
    CreateDir { path: String },
    /// Hand the directory `path` to the user `uid` and the group `gid`.
    Chown { path: String, uid: u16, gid: u16 },
}

/// The mathematical content of a [`Preparation`].
pub enum PreparationSpec {
    CreateDir { path: Seq<char> },
    Chown { path: Seq<char>, uid: u16, gid: u16 },
}

impl View for Preparation {
    type V = PreparationSpec;

    open spec fn view(&self) -> PreparationSpec {
        match self {
            Preparation::CreateDir { path } => PreparationSpec::CreateDir { path: path@ },
            Preparation::Chown { path, uid, gid } => PreparationSpec::Chown {
                path: path@,
                uid: *uid,
                gid: *gid,
            },
        }
    }
}

/// The contents of a list of preparations, in order.
pub open spec fn preparation_specs(steps: Seq<Preparation>) -> Seq<PreparationSpec> {
    steps.map_values(|p: Preparation| p@)
}

/// What has to be done before the persistent directory `source` can be
/// mounted: it is created where it is missing, and handed to the container's
/// user and group in any case.
pub open spec fn persist_preparations(
    source: Seq<char>,
    uid: u16,
    gid: u16,
    source_exists: bool,
) -> Seq<PreparationSpec> {
    let chown = PreparationSpec::Chown { path: source, uid, gid };
    if source_exists {
        seq![chown]
    } else {
        seq![PreparationSpec::CreateDir { path: source }, chown]
    }
}

/// The mount of the persistent directory `source` at `target` below `root`.
pub open spec fn persist_mount(root: Seq<char>, source: Seq<char>, target: Seq<char>) -> MountSpec {
    MountSpec {
        source: Some(source),
        target: joined_below(root, target),
        fstype: None,
        flags: MS_BIND | MS_NODEV | MS_NOSUID | MS_NOEXEC,
        data: None,
    }
}

/// Plans the mount of a persistent directory, and what has to be done on
/// the host before it. `source_exists` says whether the directory is there.
pub fn persist(
    root: &str,
    source: &str,
    target: &str,
    uid: u16,
    gid: u16,
    source_exists: bool,
) -> (planned: (Vec<Preparation>, Mount))
    ensures
        preparation_specs(planned.0@) == persist_preparations(source@, uid, gid, source_exists),
        planned.1@ == persist_mount(root@, source@, target@),
{
    let mut steps: Vec<Preparation> = Vec::new();
    if !source_exists {
        steps.push(Preparation::CreateDir { path: String::from_str(source) });
    }
    steps.push(Preparation::Chown { path: String::from_str(source), uid, gid });
    let target = join_strip(root, target);
    let flags = ms_bind() | ms_nodev() | ms_nosuid() | ms_noexec();
    let mount = Mount::new(Some(String::from_str(source)), target, None, flags, None);
    assert(preparation_specs(steps@) =~= persist_preparations(source@, uid, gid, source_exists));
    (steps, mount)
}

/// The directory `dir` of the container `dependency`, as the host sees it:
/// below the container's root under `run_dir`. A `dir` that does not start at
/// the root stands for the container's root itself.
pub open spec fn resource_source(run_dir: Seq<char>, dependency: ContainerId, dir: Seq<char>) -> Seq<
    char,
> {
    let resource_root = path_join(run_dir, dependency.text());
    match path_below_root(dir) {
        Some(rest) => path_join(resource_root, rest),
        None => resource_root,
    }
}

/// The two mounts of a resource: the read-only bind mount of `source` at
/// `target` below `root`, and its remount.
pub open spec fn resource_mounts(
    root: Seq<char>,
    target: Seq<char>,
    source: Seq<char>,
    options: Seq<MountOption>,
) -> (MountSpec, MountSpec) {
    let flags = option_flags(options) | (MS_RDONLY | MS_BIND);
    (
        MountSpec {
            source: Some(source),
            target: joined_below(root, target),
            fstype: None,
            flags,
            data: None,
        },
        MountSpec {
            source: Some(source),
            target: joined_below(root, target),
            fstype: None,
            flags: flags | MS_REMOUNT,
            data: None,
        },
    )
}

/// The host path of the directory `dir` of the container `dependency`.
pub fn resource_path(config: &Config, dependency: &Container, dir: &str) -> (source: String)
    ensures
        source@ == resource_source(config.run_dir@, dependency@, dir@),
{
    let name = dependency.to_string();
    let resource_root = join(config.run_dir.as_str(), name.as_str());
    match below_root(dir) {
        Some(rest) => join(resource_root.as_str(), rest.as_str()),
        None => resource_root,
    }
}

/// Plans the mounts of a directory of another container. `source_exists`
/// says whether that directory is there; where it is not, the container
/// misses its resource.
pub fn resource(
    root: &str,
    target: &str,
    config: &Config,
    container: &Container,
    dependency: &Container,
    dir: &str,
    options: &Vec<MountOption>,
    source_exists: bool,
) -> (r: Result<(Mount, Mount), Error>)
    ensures
        match r {
            Ok((mount, remount)) => {
                &&& source_exists
                &&& (mount@, remount@) == resource_mounts(
                    root@,
                    target@,
                    resource_source(config.run_dir@, dependency@, dir@),
                    options@,
                )
            },
            Err(e) => {
                &&& !source_exists
                &&& e@ == ErrorSpec::StartContainerMissingResource(
                    container@,
                    dependency@.name,
                    dependency@.version.text(),
                )
            },
        },
{
    if !source_exists {
        return Err(
            Error::StartContainerMissingResource(
                container.clone(),
                dependency.name().clone(),
                dependency.version().to_string(),
            ),
        );
    }
    let source = resource_path(config, dependency, dir);
    let target = join_strip(root, target);
    let again = target.clone();
    let flags = options_to_flags(options) | (ms_rdonly() | ms_bind());
    let mount = Mount::new(Some(source.clone()), target, None, flags, None);
    let remount = Mount::new(Some(source), again, None, flags | ms_remount(), None);
    Ok((mount, remount))
}

/// What planning the mounts of a container starts from, besides the mounts
/// that its manifest declares.
pub struct PlanInput {
    /// The directory under which container roots are assembled.
    pub run_dir: Seq<char>,
    /// The directory under which persistent data is kept.
    pub data_dir: Seq<char>,
    /// The root of the container that is planned.
    pub root: Seq<char>,
    /// The container that is planned.
    pub container: ContainerId,
    /// The user of the container's process.
    pub uid: u16,
    /// The group of the container's process.
    pub gid: u16,
    /// All installed containers.
    pub installed: Seq<ContainerId>,
    /// The host paths that exist.
    pub existing: Set<Seq<char>>,
}

/// A plan: what to do on the host first, and the mounts for the init helper,
/// both in order.
pub struct Plan {
    pub preparations: Seq<PreparationSpec>,
    pub mounts: Seq<MountSpec>,
}

impl Plan {
    /// The plan that holds nothing.
    pub open spec fn empty() -> Plan {
        Plan { preparations: seq![], mounts: seq![] }
    }

    /// The plan that holds only mounts.
    pub open spec fn of_mounts(mounts: Seq<MountSpec>) -> Plan {
        Plan { preparations: seq![], mounts }
    }

    /// This plan followed by `next`.
    pub open spec fn then_plan(self, next: Plan) -> Plan {
        Plan {
            preparations: self.preparations + next.preparations,
            mounts: self.mounts + next.mounts,
        }
    }
}

/// The host directory that holds the persistent data of the container named
/// `name`. The version is no part of it, so that data outlives an upgrade.
pub open spec fn persist_source(data_dir: Seq<char>, name: Seq<char>) -> Seq<char> {
    path_join(data_dir, name)
}

/// What one declared mount expands to, or the error that ends the planning.
pub open spec fn expand(input: PlanInput, point: MountPoint) -> Result<Plan, ErrorSpec> {
    let target = point.target@;
    match point.mount {
        manifest::Mount::Bind { host, options } => Ok(
            Plan::of_mounts(
                bind_mounts(input.root, target, host@, options@, input.existing.contains(host@)),
            ),
        ),
        manifest::Mount::Dev => Ok(Plan::empty()),
        manifest::Mount::Persist => {
            let source = persist_source(input.data_dir, input.container.name);
            Ok(
                Plan {
                    preparations: persist_preparations(
                        source,
                        input.uid,
                        input.gid,
                        input.existing.contains(source),
                    ),
                    mounts: seq![persist_mount(input.root, source, target)],
                },
            )
        },
        manifest::Mount::Proc => Ok(Plan::of_mounts(seq![proc_mount(input.root, target)])),
        manifest::Mount::Resource { name, version, dir, options } => {
            match resolve(input.installed, name@, version@) {
                None => Err(
                    ErrorSpec::StartContainerMissingResource(input.container, name@, version@),
                ),
                Some(i) => {
                    let dependency = input.installed[i];
                    let source = resource_source(input.run_dir, dependency, dir@);
                    let (mount, remount) = resource_mounts(input.root, target, source, options@);
                    if input.existing.contains(source) {
                        Ok(Plan::of_mounts(seq![mount, remount]))
                    } else {
                        Err(
                            ErrorSpec::StartContainerMissingResource(
                                input.container,
                                dependency.name,
                                dependency.version.text(),
                            ),
                        )
                    }
                },
            }
        },
        manifest::Mount::Tmpfs { size } => Ok(
            Plan::of_mounts(seq![tmpfs_mount(input.root, target, size)]),
        ),
    }
}

/// The plan for the declared mounts `points`, taken in their order, or the
/// first error that expanding one of them gives.
pub open spec fn plan(input: PlanInput, points: Seq<MountPoint>) -> Result<Plan, ErrorSpec>
    decreases points.len(),
{
    if points.len() == 0 {
        Ok(Plan::empty())
    } else {
        match plan(input, points.drop_last()) {
            Err(e) => Err(e),
            Ok(before) => match expand(input, points.last()) {
                Err(e) => Err(e),
                Ok(last) => Ok(before.then_plan(last)),
            },
        }
    }
}

/// Planning stops at the first error: where the plan for the first `k`
/// declared mounts fails, the plan for all of them fails in the same way.
pub proof fn plan_fails_where_a_part_fails(input: PlanInput, points: Seq<MountPoint>, k: int)
    requires
        0 <= k <= points.len(),
        plan(input, points.take(k)) is Err,
    ensures
        plan(input, points) == plan(input, points.take(k)),
    decreases points.len() - k,
{
    if k == points.len() {
        assert(points.take(k) =~= points);
    } else {
        assert(points.take(k + 1).drop_last() =~= points.take(k));
        plan_fails_where_a_part_fails(input, points, k + 1);
    }
}

/// The input of planning that the arguments of [`prepare_mounts`] stand for.
pub open spec fn plan_input(
    config: Config,
    root: Seq<char>,
    manifest: Manifest,
    containers: Seq<Container>,
    host: HostPaths,
) -> PlanInput {
    PlanInput {
        run_dir: config.run_dir@,
        data_dir: config.data_dir@,
        root,
        container: manifest.identity(),
        uid: manifest.uid,
        gid: manifest.gid,
        installed: identities(containers),
        existing: host@,
    }
}

/// Whether `planned` holds exactly what `expected` says: the same plan, or
/// the same error.
pub open spec fn is_planned(
    planned: Result<(Vec<Preparation>, Vec<Mount>), Error>,
    expected: Result<Plan, ErrorSpec>,
) -> bool {
    match expected {
        Ok(p) => {
            &&& planned matches Ok((steps, mounts))
            &&& preparation_specs(steps@) == p.preparations
            &&& mount_specs(mounts@) == p.mounts
        },
        Err(e) => planned matches Err(x) && x@ == e,
    }
}

/// The plan is a function of what it starts from: whatever is planned twice
/// for the same manifest, the same installed containers and the same host
/// holds the same preparations and the same mounts in the same order, or
/// the same error.
pub proof fn plans_agree(
    one: Result<(Vec<Preparation>, Vec<Mount>), Error>,
    other: Result<(Vec<Preparation>, Vec<Mount>), Error>,
    input: PlanInput,
    points: Seq<MountPoint>,
)
    requires
        is_planned(one, plan(input, points)),
        is_planned(other, plan(input, points)),
    ensures
        match (one, other) {
            (Ok((steps, mounts)), Ok((more_steps, more_mounts))) => {
                &&& preparation_specs(steps@) == preparation_specs(more_steps@)
                &&& mount_specs(mounts@) == mount_specs(more_mounts@)
            },
            (Err(e), Err(f)) => e@ == f@,
            _ => false,
        },
{
}

/// Expands one declared mount of `manifest`.
fn expand_point(
    config: &Config,
    root: &str,
    manifest: &Manifest,
    containers: &Vec<Container>,
    host: &HostPaths,
    point: &MountPoint,
) -> (planned: Result<(Vec<Preparation>, Vec<Mount>), Error>)
    ensures
        is_planned(planned, expand(plan_input(*config, root@, *manifest, containers@, *host), *point)),
{
    let ghost input = plan_input(*config, root@, *manifest, containers@, *host);
    let ghost expected = expand(input, *point);
    let target = point.target.as_str();
    let mut steps: Vec<Preparation> = Vec::new();
    let mut mounts: Vec<Mount> = Vec::new();
    assert(preparation_specs(steps@) =~= seq![]);
    assert(mount_specs(mounts@) =~= seq![]);
    match &point.mount {
        manifest::Mount::Bind { host: from, options } => {
            let exists = host.has(from.as_str());
            mounts = bind(root, target, from.as_str(), options, exists);
        },
        manifest::Mount::Dev => {},
        manifest::Mount::Persist => {
            let source = join(config.data_dir.as_str(), manifest.name.as_str());
            let exists = host.has(source.as_str());
            let (s, m) = persist(root, source.as_str(), target, manifest.uid, manifest.gid, exists);
            steps = s;
            mounts.push(m);
            assert(mount_specs(mounts@) =~= expected->Ok_0.mounts);
        },
        manifest::Mount::Proc => {
            mounts.push(proc(root, target));
            assert(mount_specs(mounts@) =~= expected->Ok_0.mounts);
        },
        manifest::Mount::Resource { name, version, dir, options } => {
            let container = manifest.container();
            match match_container(name.as_str(), version.as_str(), containers) {
                None => {
                    return Err(
                        Error::StartContainerMissingResource(
                            container,
                            name.clone(),
                            version.clone(),
                        ),
                    );
                },
                Some(dependency) => {
                    proof {
                        let i = resolve(input.installed, name@, version@)->Some_0;
                        crate::container::resolve_picks_the_highest(
                            input.installed,
                            name@,
                            version@,
                        );
                        assert(input.installed[i] == containers@[i]@);
                    }
                    let source = resource_path(config, dependency, dir.as_str());
                    let exists = host.has(source.as_str());
                    match resource(
                        root,
                        target,
                        config,
                        &container,
                        dependency,
                        dir.as_str(),
                        options,
                        exists,
                    ) {
                        Ok((mount, remount)) => {
                            mounts.push(mount);
                            mounts.push(remount);
                            assert(mount_specs(mounts@) =~= expected->Ok_0.mounts);
                        },
                        Err(e) => {
                            return Err(e);
                        },
                    }
                },
            }
        },
        manifest::Mount::Tmpfs { size } => {
            mounts.push(tmpfs(root, target, *size));
            assert(mount_specs(mounts@) =~= expected->Ok_0.mounts);
        },
    }
    Ok((steps, mounts))
}

/// Plans the mounts of a container: goes through the mounts that the
/// manifest declares, in their order, and expands each into the `mount`
/// calls that the init helper makes, together with what has to be done on
/// the host before. Fails where a resource is declared that is not there.
pub fn prepare_mounts(
    config: &Config,
    root: &str,
    manifest: &Manifest,
    containers: &Vec<Container>,
    host: &HostPaths,
) -> (planned: Result<(Vec<Preparation>, Vec<Mount>), Error>)
    ensures
        is_planned(
            planned,
            plan(plan_input(*config, root@, *manifest, containers@, *host), manifest.mounts@),
        ),
{
    let ghost input = plan_input(*config, root@, *manifest, containers@, *host);
    let ghost points = manifest.mounts@;
    let mut steps: Vec<Preparation> = Vec::new();
    let mut mounts: Vec<Mount> = Vec::new();
    let mut i: usize = 0;
    proof {
        assert(points.take(0) =~= seq![]);
        assert(preparation_specs(steps@) =~= seq![]);
        assert(mount_specs(mounts@) =~= seq![]);
    }
    while i < manifest.mounts.len()
        invariant
            i <= manifest.mounts.len(),
            points == manifest.mounts@,
            input == plan_input(*config, root@, *manifest, containers@, *host),
            is_planned(Ok((steps, mounts)), plan(input, points.take(i as int))),
        decreases manifest.mounts.len() - i,
    {
        proof {
            assert(points.take(i + 1).drop_last() =~= points.take(i as int));
            assert(points.take(i + 1).last() == points[i as int]);
        }
        match expand_point(config, root, manifest, containers, host, &manifest.mounts[i]) {
            Err(e) => {
                proof {
                    plan_fails_where_a_part_fails(input, points, i + 1);
                }
                return Err(e);
            },
            Ok((mut more_steps, mut more_mounts)) => {
                let ghost before = plan(input, points.take(i as int))->Ok_0;
                let ghost last = expand(input, points[i as int])->Ok_0;
                let ghost old_steps = steps@;
                let ghost old_mounts = mounts@;
                let ghost new_steps = more_steps@;
                let ghost new_mounts = more_mounts@;
                steps.append(&mut more_steps);
                mounts.append(&mut more_mounts);
                proof {
                    assert(preparation_specs(old_steps + new_steps) =~= preparation_specs(old_steps)
                        + preparation_specs(new_steps));
                    assert(mount_specs(old_mounts + new_mounts) =~= mount_specs(old_mounts)
                        + mount_specs(new_mounts));
                }
            },
        }
        i += 1;
    }
    proof {
        assert(points.take(i as int) =~= points);
    }
    Ok((steps, mounts))
}

/// A group of the host: its name and its id.
#[derive(Clone, Debug, Hash, PartialEq, Eq)]
pub struct Group {
    pub name: String,
    pub gid: u32,
}

/// The id that the groups `known` give the group named `name`, if any;
/// where several entries have the name, the last one counts.
pub open spec fn group_id(known: Seq<Group>, name: Seq<char>) -> Option<u32>
    decreases known.len(),
{
    if known.len() == 0 {
        None
    } else if known.last().name@ == name {
        Some(known.last().gid)
    } else {
        group_id(known.drop_last(), name)
    }
}

/// The ids of the groups named in `names`, in the order of the names;
/// names that `known` does not hold are left out.
pub open spec fn group_ids(known: Seq<Group>, names: Seq<Seq<char>>) -> Seq<u32>
    decreases names.len(),
{
    if names.len() == 0 {
        seq![]
    } else {
        let before = group_ids(known, names.drop_last());
        match group_id(known, names.last()) {
            Some(gid) => before.push(gid),
            None => before,
        }
    }
}

/// Looks up the id of the group named `name`.
pub fn find_group(known: &Vec<Group>, name: &str) -> (gid: Option<u32>)
    ensures
        gid == group_id(known@, name@),
{
    let mut i: usize = known.len();
    proof {
        assert(known@.take(i as int) =~= known@);
    }
    while i > 0
        invariant
            i <= known.len(),
            group_id(known@, name@) == group_id(known@.take(i as int), name@),
        decreases i,
    {
        proof {
            assert(known@.take(i as int).drop_last() =~= known@.take(i - 1));
        }
        if same_text(known[i - 1].name.as_str(), name) {
            return Some(known[i - 1].gid);
        }
        i -= 1;
    }
    None
}

/// The supplementary group ids of a container: the ids of the groups that
/// its manifest names, as far as the host knows them. Unknown groups are
/// skipped.
pub fn groups(manifest: &Manifest, known: &Vec<Group>) -> (gids: Vec<u32>)
    ensures
        gids@ == group_ids(known@, manifest.suppl_groups.deep_view()),
{
    let ghost names = manifest.suppl_groups.deep_view();
    let mut gids: Vec<u32> = Vec::new();
    let mut i: usize = 0;
    while i < manifest.suppl_groups.len()
        invariant
            i <= manifest.suppl_groups.len(),
            names == manifest.suppl_groups.deep_view(),
            gids@ == group_ids(known@, names.take(i as int)),
        decreases manifest.suppl_groups.len() - i,
    {
        proof {
            assert(names.take(i + 1).drop_last() =~= names.take(i as int));
            assert(names.take(i + 1).last() == manifest.suppl_groups@[i as int]@);
        }
        match find_group(known, manifest.suppl_groups[i].as_str()) {
            Some(gid) => gids.push(gid),
            None => {},
        }
        i += 1;
    }
    proof {
        assert(names.take(i as int) =~= names);
    }
    gids
}

/// The contents of a list of resource limits, in order.
pub open spec fn rlimit_specs(limits: Seq<(String, RLimit)>) -> Seq<(Seq<char>, RLimit)> {
    limits.map_values(|l: (String, RLimit)| (l.0@, l.1))
}

/// Copies a list of resource limits.
fn copy_rlimits(limits: &Vec<(String, RLimit)>) -> (copy: Vec<(String, RLimit)>)
    ensures
        rlimit_specs(copy@) == rlimit_specs(limits@),
{
    let mut copy: Vec<(String, RLimit)> = Vec::new();
    let mut i: usize = 0;
    while i < limits.len()
        invariant
            i <= limits.len(),
            rlimit_specs(copy@) =~= rlimit_specs(limits@.take(i as int)),
        decreases limits.len() - i,
    {
        let ghost before = copy@;
        copy.push((limits[i].0.clone(), limits[i].1));
        proof {
            assert(limits@.take(i + 1) =~= limits@.take(i as int).push(limits@[i as int]));
            assert(rlimit_specs(copy@) =~= rlimit_specs(before).push(
                (limits@[i as int].0@, limits@[i as int].1),
            ));
            assert(rlimit_specs(limits@.take(i + 1)) =~= rlimit_specs(limits@.take(i as int)).push(
                (limits@[i as int].0@, limits@[i as int].1),
            ));
        }
        i += 1;
    }
    proof {
        assert(limits@.take(i as int) =~= limits@);
    }
    copy
}

/// The contents of system call settings.
pub open spec fn seccomp_spec(seccomp: Option<Seccomp>) -> Option<
    (Option<Seq<char>>, Option<Seq<Seq<char>>>),
> {
    match seccomp {
        Some(s) => Some((s.profile.deep_view(), s.allow.deep_view())),
        None => None,
    }
}

/// Copies system call settings.
fn copy_seccomp(seccomp: &Option<Seccomp>) -> (copy: Option<Seccomp>)
    ensures
        seccomp_spec(copy) == seccomp_spec(*seccomp),
{
    match seccomp {
        Some(s) => {
            let allow = match &s.allow {
                Some(names) => Some(names.clone()),
                None => None,
            };
            Some(Seccomp { profile: s.profile.clone(), allow })
        },
        None => None,
    }
}

/// What the init helper of a container is handed.
#[derive(Clone, Debug, PartialEq, Eq)]
pub struct Init {
    /// The container.
    pub container: Container,
    /// The container's root on the host.
    pub root: String,
    /// The user of the container's process.
    pub uid: u16,
    /// The group of the container's process.
    pub gid: u16,
    /// What the runtime does on the host before it starts the helper.
    pub preparations: Vec<Preparation>,
    /// The mounts that the helper makes, in this order.
    pub mounts: Vec<Mount>,
    /// The supplementary group ids.
    pub groups: Vec<u32>,
    /// The names of the capabilities that the process keeps.
    pub capabilities: Vec<String>,
    /// The resource limits.
    pub rlimits: Vec<(String, RLimit)>,
    /// The system call settings from which the filter is made.
    pub seccomp: Option<Seccomp>,
    /// Whether the container gets a console connection.
    pub console: bool,
}

/// The root of a container on the host: `run_dir/name:version`.
pub open spec fn container_root(run_dir: Seq<char>, container: ContainerId) -> Seq<char> {
    path_join(run_dir, container.text())
}

/// Whether `init` is what the init helper is handed for `manifest` when the
/// plan of its mounts is `planned`.
pub open spec fn is_init_of(
    init: Init,
    config: Config,
    manifest: Manifest,
    known: Seq<Group>,
    planned: Plan,
) -> bool {
    &&& init.container@ == manifest.identity()
    &&& init.root@ == container_root(config.run_dir@, manifest.identity())
    &&& init.uid == manifest.uid
    &&& init.gid == manifest.gid
    &&& preparation_specs(init.preparations@) == planned.preparations
    &&& mount_specs(init.mounts@) == planned.mounts
    &&& init.groups@ == group_ids(known, manifest.suppl_groups.deep_view())
    &&& init.capabilities.deep_view() == manifest.capabilities.deep_view()
    &&& rlimit_specs(init.rlimits@) == rlimit_specs(manifest.rlimits@)
    &&& seccomp_spec(init.seccomp) == seccomp_spec(manifest.seccomp)
    &&& init.console == manifest.console.is_some()
}

/// Assembles what the init helper of a container is handed: the container's
/// root `run_dir/name:version`, its credentials and the plan of its mounts.
/// `containers` are all installed containers, `host` says which host paths
/// exist, and `known` holds the groups of the host. Fails where the
/// manifest declares a resource that is not there.
pub fn build(
    config: &Config,
    manifest: &Manifest,
    containers: &Vec<Container>,
    host: &HostPaths,
    known: &Vec<Group>,
) -> (r: Result<Init, Error>)
    ensures
        match plan(
            plan_input(
                *config,
                container_root(config.run_dir@, manifest.identity()),
                *manifest,
                containers@,
                *host,
            ),
            manifest.mounts@,
        ) {
            Ok(planned) => r matches Ok(init) && is_init_of(init, *config, *manifest, known@, planned),
            Err(e) => r matches Err(x) && x@ == e,
        },
{
    let container = manifest.container();
    let name = container.to_string();
    let root = join(config.run_dir.as_str(), name.as_str());
    let capabilities = manifest.capabilities.clone();
    let console = manifest.console.is_some();
    let gid = manifest.gid;
    let groups = groups(manifest, known);
    let (preparations, mounts) = match prepare_mounts(
        config,
        root.as_str(),
        manifest,
        containers,
        host,
    ) {
        Ok(planned) => planned,
        Err(e) => {
            return Err(e);
        },
    };
    let rlimits = copy_rlimits(&manifest.rlimits);
    let seccomp = copy_seccomp(&manifest.seccomp);
    let uid = manifest.uid;
    assert(capabilities.deep_view() =~= manifest.capabilities.deep_view());
    Ok(
        Init {
            container,
            root,
            uid,
            gid,
            preparations,
            mounts,
            groups,
            capabilities,
            rlimits,
            seccomp,
            console,
        },
    )
}

/// The host path whose existence decides how the declared mount `point`
/// expands, if there is one: the host directory of a bind mount, the
/// persistent directory, or the directory of the resource.
pub open spec fn probe_of(input: PlanInput, point: MountPoint) -> Option<Seq<char>> {
    match point.mount {
        manifest::Mount::Bind { host, .. } => Some(host@),
        manifest::Mount::Persist => Some(persist_source(input.data_dir, input.container.name)),
        manifest::Mount::Resource { name, version, dir, .. } => match resolve(
            input.installed,
            name@,
            version@,
        ) {
            Some(i) => Some(resource_source(input.run_dir, input.installed[i], dir@)),
            None => None,
        },
        _ => None,
    }
}

/// The host paths whose existence the plan for `points` depends on, in the
/// order of the declared mounts.
pub open spec fn probes_of(input: PlanInput, points: Seq<MountPoint>) -> Seq<Seq<char>>
    decreases points.len(),
{
    if points.len() == 0 {
        seq![]
    } else {
        let before = probes_of(input, points.drop_last());
        match probe_of(input, points.last()) {
            Some(p) => before.push(p),
            None => before,
        }
    }
}

/// The plan depends on the host only through the paths that [`probes_of`]
/// names: two hosts that agree on which of these paths exist give the same
/// plan.
pub proof fn plan_reads_only_probes(a: PlanInput, b: PlanInput, points: Seq<MountPoint>)
    requires
        a.run_dir == b.run_dir,
        a.data_dir == b.data_dir,
        a.root == b.root,
        a.container == b.container,
        a.uid == b.uid,
        a.gid == b.gid,
        a.installed == b.installed,
        forall|p: Seq<char>| #[trigger]
            probes_of(a, points).contains(p) ==> a.existing.contains(p) == b.existing.contains(p),
    ensures
        probes_of(a, points) == probes_of(b, points),
        plan(a, points) == plan(b, points),
    decreases points.len(),
{
    if points.len() > 0 {
        let front = points.drop_last();
        let last = points.last();
        assert forall|p: Seq<char>| #[trigger]
            probes_of(a, front).contains(p) implies a.existing.contains(p) == b.existing.contains(
            p,
        ) by {
            let i = choose|i: int| 0 <= i < probes_of(a, front).len() && probes_of(a, front)[i] == p;
            if probe_of(a, last) is Some {
                assert(probes_of(a, points)[i] == p);
            }
            assert(probes_of(a, points).contains(p));
        }
        plan_reads_only_probes(a, b, front);
        if probe_of(a, last) is Some {
            let p = probe_of(a, last)->Some_0;
            assert(probes_of(a, points).last() == p);
            assert(probes_of(a, points).contains(p));
        }
        assert(expand(a, last) == expand(b, last));
    }
}

/// Names the host paths whose existence has to be known before the mounts
/// of `manifest` can be planned.
pub fn probes(config: &Config, manifest: &Manifest, containers: &Vec<Container>) -> (paths: Vec<
    String,
>)
    ensures
        forall|root: Seq<char>, host: HostPaths|
            paths.deep_view() == #[trigger] probes_of(
                plan_input(*config, root, *manifest, containers@, host),
                manifest.mounts@,
            ),
{
    let ghost points = manifest.mounts@;
    let ghost base = PlanInput {
        run_dir: config.run_dir@,
        data_dir: config.data_dir@,
        root: seq![],
        container: manifest.identity(),
        uid: manifest.uid,
        gid: manifest.gid,
        installed: identities(containers@),
        existing: Set::empty(),
    };
    let mut paths: Vec<String> = Vec::new();
    let mut i: usize = 0;
    proof {
        assert(paths.deep_view() =~= probes_of(base, points.take(0)));
    }
    while i < manifest.mounts.len()
        invariant
            i <= manifest.mounts.len(),
            points == manifest.mounts@,
            base.run_dir == config.run_dir@,
            base.data_dir == config.data_dir@,
            base.container == manifest.identity(),
            base.installed == identities(containers@),
            paths.deep_view() == probes_of(base, points.take(i as int)),
        decreases manifest.mounts.len() - i,
    {
        proof {
            assert(points.take(i + 1).drop_last() =~= points.take(i as int));
            assert(points.take(i + 1).last() == points[i as int]);
        }
        let ghost before = paths.deep_view();
        match &manifest.mounts[i].mount {
            manifest::Mount::Bind { host, .. } => {
                paths.push(host.clone());
                proof {
                    assert(paths.deep_view() =~= before.push(host@));
                }
            },
            manifest::Mount::Persist => {
                let source = join(config.data_dir.as_str(), manifest.name.as_str());
                proof {
                    assert(source@ == persist_source(base.data_dir, base.container.name));
                }
                let ghost text = source@;
                paths.push(source);
                proof {
                    assert(paths.deep_view() =~= before.push(text));
                }
            },
            manifest::Mount::Resource { name, version, dir, .. } => {
                match match_container(name.as_str(), version.as_str(), containers) {
                    Some(dependency) => {
                        proof {
                            let k = resolve(base.installed, name@, version@)->Some_0;
                            crate::container::resolve_picks_the_highest(
                                base.installed,
                                name@,
                                version@,
                            );
                            assert(base.installed[k] == containers@[k]@);
                        }
                        let source = resource_path(config, dependency, dir.as_str());
                        let ghost text = source@;
                        paths.push(source);
                        proof {
                            assert(paths.deep_view() =~= before.push(text));
                        }
                    },
                    None => {},
                }
            },
            _ => {},
        }
        i += 1;
    }
    proof {
        assert(points.take(i as int) =~= points);
        assert forall|root: Seq<char>, host: HostPaths|
            paths.deep_view() == #[trigger] probes_of(
                plan_input(*config, root, *manifest, containers@, host),
                manifest.mounts@,
            ) by {
            probes_ignore_root_and_host(
                base,
                plan_input(*config, root, *manifest, containers@, host),
                points,
            );
        }
    }
    paths
}

/// The probes depend neither on the container's root nor on the host.
pub proof fn probes_ignore_root_and_host(a: PlanInput, b: PlanInput, points: Seq<MountPoint>)
    requires
        a.run_dir == b.run_dir,
        a.data_dir == b.data_dir,
        a.container == b.container,
        a.installed == b.installed,
    ensures
        probes_of(a, points) == probes_of(b, points),
    decreases points.len(),
{
    if points.len() > 0 {
        probes_ignore_root_and_host(a, b, points.drop_last());
    }
}

} // verus!
