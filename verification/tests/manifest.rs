use northstar::container::Container;
use northstar::manifest::{
    is_within, CGroupCpu, CGroupMem, CGroups, Log, LogBuffer, Manifest, ManifestError, Mount,
    MountFault, MountPoint, OnExit,
};
use northstar::version::Version;

fn manifest() -> Manifest {
    Manifest {
        name: "hello".to_string(),
        version: Version::new(0, 0, 0),
        arch: "aarch64-linux-android".to_string(),
        init: "/binary".to_string(),
        args: Some(vec!["one".to_string(), "two".to_string()]),
        env: Some(vec![("LD_LIBRARY_PATH".to_string(), "/lib".to_string())]),
        uid: 1000,
        gid: 1000,
        suppl_groups: vec![],
        autostart: Some(true),
        on_exit: Some(OnExit::Restart(3)),
        cgroups: Some(CGroups {
            mem: Some(CGroupMem { limit: 30 }),
            cpu: Some(CGroupCpu { shares: 100 }),
        }),
        seccomp: None,
        capabilities: vec![],
        rlimits: vec![],
        mounts: vec![],
        console: None,
        log: Some(Log { tag: Some("test".to_string()), buffer: Some(LogBuffer::Custom(8)) }),
        instances: None,
    }
}

fn point(target: &str, mount: Mount) -> MountPoint {
    MountPoint { target: target.to_string(), mount }
}

#[test]
fn a_plain_manifest_is_valid() {
    let m = manifest();
    assert_eq!(m.validate(), Ok(()));
    assert_eq!(m.container(), Container::new("hello".to_string(), Version::new(0, 0, 0)));
}

#[test]
fn parse_invalid_on_exit() {
    let mut m = manifest();
    m.on_exit = Some(OnExit::Restart(0));
    assert!(m.validate().is_err());
    assert_eq!(m.validate(), Err(ManifestError::InvalidOnExit));
    m.on_exit = Some(OnExit::Restart(1));
    assert_eq!(m.validate(), Ok(()));
    m.on_exit = None;
    assert_eq!(m.validate(), Ok(()));
}

#[test]
fn init_starts_at_the_root() {
    let mut m = manifest();
    m.init = "binary".to_string();
    assert_eq!(m.validate(), Err(ManifestError::InvalidInit));
    m.init = String::new();
    assert_eq!(m.validate(), Err(ManifestError::InvalidInit));
    m.init = "/".to_string();
    assert_eq!(m.validate(), Ok(()));
}

#[test]
fn instances_are_at_least_one() {
    let mut m = manifest();
    m.instances = Some(0);
    assert_eq!(m.validate(), Err(ManifestError::InvalidInstances));
    m.instances = Some(1);
    assert_eq!(m.validate(), Ok(()));
}

#[test]
fn a_tmpfs_has_a_size() {
    let mut m = manifest();
    m.mounts = vec![point("/a", Mount::Proc), point("/tmp", Mount::Tmpfs { size: 0 })];
    assert_eq!(
        m.validate(),
        Err(ManifestError::InvalidMount("/tmp".to_string(), MountFault::EmptyTmpfs))
    );
    m.mounts = vec![point("/tmp", Mount::Tmpfs { size: 1 })];
    assert_eq!(m.validate(), Ok(()));
}

#[test]
fn a_target_is_declared_once() {
    let mut m = manifest();
    m.mounts = vec![
        point("/data", Mount::Persist),
        point("/tmp", Mount::Tmpfs { size: 1 }),
        point("/data", Mount::Dev),
    ];
    assert_eq!(
        m.validate(),
        Err(ManifestError::InvalidMount("/data".to_string(), MountFault::DuplicateTarget))
    );
}

#[test]
fn nothing_overlaps_proc() {
    let mut m = manifest();
    m.mounts = vec![point("/proc", Mount::Proc), point("/proc/sys", Mount::Tmpfs { size: 1 })];
    assert_eq!(
        m.validate(),
        Err(ManifestError::InvalidMount("/proc/sys".to_string(), MountFault::OverlapsProc))
    );
    m.mounts = vec![point("/a/b", Mount::Persist), point("/a", Mount::Proc)];
    assert_eq!(
        m.validate(),
        Err(ManifestError::InvalidMount("/a".to_string(), MountFault::OverlapsProc))
    );
    m.mounts = vec![point("/proc", Mount::Proc), point("/procfs", Mount::Persist)];
    assert_eq!(m.validate(), Ok(()));
    m.mounts = vec![point("/a", Mount::Persist), point("/a/b", Mount::Dev)];
    assert_eq!(m.validate(), Ok(()));
}

#[test]
fn the_first_fault_is_reported() {
    let mut m = manifest();
    m.name = "BAD".to_string();
    m.on_exit = Some(OnExit::Restart(0));
    m.init = "x".to_string();
    assert_eq!(m.validate(), Err(ManifestError::InvalidName));
    m.name = "good".to_string();
    assert_eq!(m.validate(), Err(ManifestError::InvalidOnExit));
    m.on_exit = None;
    m.instances = Some(0);
    assert_eq!(m.validate(), Err(ManifestError::InvalidInit));
    m.init = "/x".to_string();
    m.mounts = vec![point("/t", Mount::Tmpfs { size: 0 })];
    assert_eq!(m.validate(), Err(ManifestError::InvalidInstances));
    m.instances = None;
    m.mounts = vec![
        point("/a", Mount::Dev),
        point("/a", Mount::Dev),
        point("/t", Mount::Tmpfs { size: 0 }),
    ];
    assert_eq!(
        m.validate(),
        Err(ManifestError::InvalidMount("/a".to_string(), MountFault::DuplicateTarget))
    );
}

#[test]
fn paths_lie_within_paths() {
    assert!(is_within("/proc", "/proc"));
    assert!(is_within("/proc", "/proc/sys"));
    assert!(is_within("/proc/", "/proc/sys"));
    assert!(is_within("/", "/proc"));
    assert!(is_within("", "/proc"));
    assert!(!is_within("/proc", "/procfs"));
    assert!(!is_within("/proc/sys", "/proc"));
    assert!(!is_within("/a", "/b"));
    assert!(!is_within("", "proc"));
}

#[test]
fn manifest_versions_have_three_parts() {
    assert_eq!(northstar::manifest::read_version("0.0.0"), Ok(Version::new(0, 0, 0)));
    assert_eq!(northstar::manifest::read_version("1.2.3"), Ok(Version::new(1, 2, 3)));
    assert_eq!(northstar::manifest::read_version("1.2"), Err(ManifestError::InvalidVersion));
    assert_eq!(northstar::manifest::read_version("1.2.3-rc"), Err(ManifestError::InvalidVersion));
    assert_eq!(northstar::manifest::read_version("v1"), Err(ManifestError::InvalidVersion));
}

#[test]
fn a_manifest_needs_a_valid_name() {
    let mut m = manifest();
    m.name = "Hello".to_string();
    assert_eq!(m.validate(), Err(ManifestError::InvalidName));
    m.name = String::new();
    assert_eq!(m.validate(), Err(ManifestError::InvalidName));
}
