use nix::mount::MsFlags;
use northstar::container::Container;
use northstar::error::Error;
use northstar::init::{
    bind, build, groups, options_to_flags, persist, prepare_mounts, probes, proc, resource, tmpfs,
    Config,
    Group, HostPaths, Mount, Preparation, MS_BIND, MS_NODEV, MS_NOEXEC, MS_NOSUID, MS_RDONLY,
    MS_REC, MS_REMOUNT,
};
use northstar::manifest;
use northstar::manifest::{Manifest, MountOption, MountPoint};
use northstar::path::join_strip;
use northstar::version::Version;

fn manifest_of(name: &str, version: Version, mounts: Vec<MountPoint>) -> Manifest {
    Manifest {
        name: name.to_string(),
        version,
        arch: "x86_64-unknown-linux-gnu".to_string(),
        init: "/bin/app".to_string(),
        args: None,
        env: None,
        uid: 1000,
        gid: 1001,
        suppl_groups: vec![],
        autostart: None,
        on_exit: None,
        cgroups: None,
        seccomp: None,
        capabilities: vec![],
        rlimits: vec![],
        mounts,
        console: None,
        log: None,
        instances: None,
    }
}

fn config() -> Config {
    Config { run_dir: "/run/ns".to_string(), data_dir: "/data".to_string() }
}

fn point(target: &str, mount: manifest::Mount) -> MountPoint {
    MountPoint { target: target.to_string(), mount }
}

fn bits(flags: MsFlags) -> u64 {
    flags.bits() as u64
}

#[test]
fn flag_constants_are_those_of_the_system() {
    assert_eq!(MS_RDONLY, bits(MsFlags::MS_RDONLY));
    assert_eq!(MS_NOSUID, bits(MsFlags::MS_NOSUID));
    assert_eq!(MS_NODEV, bits(MsFlags::MS_NODEV));
    assert_eq!(MS_NOEXEC, bits(MsFlags::MS_NOEXEC));
    assert_eq!(MS_REMOUNT, bits(MsFlags::MS_REMOUNT));
    assert_eq!(MS_BIND, bits(MsFlags::MS_BIND));
    assert_eq!(MS_REC, bits(MsFlags::MS_REC));
}

#[test]
fn options_turn_into_flags() {
    assert_eq!(options_to_flags(&vec![]), 0);
    assert_eq!(options_to_flags(&vec![MountOption::Rw]), 0);
    assert_eq!(options_to_flags(&vec![MountOption::NoExec]), 0x08);
    assert_eq!(options_to_flags(&vec![MountOption::NoSuid]), 0x02);
    assert_eq!(options_to_flags(&vec![MountOption::NoDev]), 0x04);
    assert_eq!(options_to_flags(&vec![MountOption::Rec]), 0x4000);
    assert_eq!(
        options_to_flags(&vec![
            MountOption::Rec,
            MountOption::Rw,
            MountOption::NoDev,
            MountOption::NoExec,
            MountOption::NoSuid,
            MountOption::NoDev,
        ]),
        0x400e
    );
}

#[test]
fn targets_are_placed_below_the_root() {
    assert_eq!(join_strip("/run/ns/app:0.1.0", "/tmp"), "/run/ns/app:0.1.0/tmp");
    assert_eq!(join_strip("/run/ns/app:0.1.0", "tmp"), "/run/ns/app:0.1.0/tmp");
    assert_eq!(join_strip("/run/ns/app:0.1.0/", "/a/b"), "/run/ns/app:0.1.0/a/b");
    assert_eq!(join_strip("/root", "/"), "/root/");
}

#[test]
fn proc_is_mounted_read_only() {
    let m = proc("/run/ns/app:0.1.0", "/proc");
    assert_eq!(
        m,
        Mount {
            source: Some("proc".to_string()),
            target: "/run/ns/app:0.1.0/proc".to_string(),
            fstype: Some("proc".to_string()),
            flags: bits(
                MsFlags::MS_RDONLY | MsFlags::MS_NOSUID | MsFlags::MS_NOEXEC | MsFlags::MS_NODEV
            ),
            data: None,
        }
    );
    assert_eq!(m.flags, 0x0f);
}

#[test]
fn tmpfs_mount_of_one_mebibyte() {
    let m = manifest_of(
        "app",
        Version::new(0, 1, 0),
        vec![point("/tmp", manifest::Mount::Tmpfs { size: 1048576 })],
    );
    let init = build(&config(), &m, &vec![], &HostPaths::new(vec![]), &vec![]).unwrap();
    assert_eq!(init.root, "/run/ns/app:0.1.0");
    assert_eq!(
        init.mounts,
        vec![Mount {
            source: None,
            target: "/run/ns/app:0.1.0/tmp".to_string(),
            fstype: Some("tmpfs".to_string()),
            flags: bits(MsFlags::MS_NODEV | MsFlags::MS_NOSUID | MsFlags::MS_NOEXEC),
            data: Some("size=1048576,mode=1777".to_string()),
        }]
    );
    assert!(init.preparations.is_empty());
    assert_eq!(tmpfs("/r", "/t", 0).data, Some("size=0,mode=1777".to_string()));
    assert_eq!(
        tmpfs("/r", "/t", u64::MAX).data,
        Some("size=18446744073709551615,mode=1777".to_string())
    );
}

#[test]
fn bind_read_only_is_mounted_and_remounted() {
    let mounts = bind("/run/ns/app:0.1.0", "/etc", "/host/etc", &vec![], true);
    assert_eq!(mounts.len(), 2);
    assert_eq!(
        mounts[0],
        Mount {
            source: Some("/host/etc".to_string()),
            target: "/run/ns/app:0.1.0/etc".to_string(),
            fstype: None,
            flags: bits(MsFlags::MS_BIND),
            data: None,
        }
    );
    assert_eq!(
        mounts[1],
        Mount {
            source: Some("/host/etc".to_string()),
            target: "/run/ns/app:0.1.0/etc".to_string(),
            fstype: None,
            flags: bits(MsFlags::MS_BIND | MsFlags::MS_REMOUNT | MsFlags::MS_RDONLY),
            data: None,
        }
    );
}

#[test]
fn bind_writable_is_mounted_once() {
    let mounts = bind("/root", "/lib", "/host/lib", &vec![MountOption::Rw, MountOption::NoDev], true);
    assert_eq!(mounts.len(), 1);
    assert_eq!(mounts[0].flags, bits(MsFlags::MS_BIND | MsFlags::MS_NODEV));
    assert_eq!(mounts[0].source, Some("/host/lib".to_string()));
}

#[test]
fn bind_of_a_missing_host_path_gives_no_mount() {
    assert!(bind("/root", "/etc", "/host/etc", &vec![], false).is_empty());
    assert!(bind("/root", "/etc", "/host/etc", &vec![MountOption::Rw], false).is_empty());
    let m = manifest_of(
        "app",
        Version::new(0, 1, 0),
        vec![point(
            "/etc",
            manifest::Mount::Bind { host: "/host/etc".to_string(), options: vec![] },
        )],
    );
    let host = HostPaths::new(vec!["/host".to_string()]);
    let planned = prepare_mounts(&config(), "/run/ns/app:0.1.0", &m, &vec![], &host).unwrap();
    assert!(planned.0.is_empty());
    assert!(planned.1.is_empty());
    let host = HostPaths::new(vec!["/host/etc".to_string()]);
    let planned = prepare_mounts(&config(), "/run/ns/app:0.1.0", &m, &vec![], &host).unwrap();
    assert_eq!(planned.1.len(), 2);
}

#[test]
fn persist_creates_the_directory_where_it_is_missing() {
    let (steps, mount) = persist("/run/ns/app:0.1.0", "/data/app", "/var", 7, 8, false);
    assert_eq!(
        steps,
        vec![
            Preparation::CreateDir { path: "/data/app".to_string() },
            Preparation::Chown { path: "/data/app".to_string(), uid: 7, gid: 8 },
        ]
    );
    assert_eq!(
        mount,
        Mount {
            source: Some("/data/app".to_string()),
            target: "/run/ns/app:0.1.0/var".to_string(),
            fstype: None,
            flags: bits(
                MsFlags::MS_BIND | MsFlags::MS_NODEV | MsFlags::MS_NOSUID | MsFlags::MS_NOEXEC
            ),
            data: None,
        }
    );
    let (steps, _) = persist("/run/ns/app:0.1.0", "/data/app", "/var", 7, 8, true);
    assert_eq!(steps, vec![Preparation::Chown { path: "/data/app".to_string(), uid: 7, gid: 8 }]);
}

#[test]
fn persist_source_has_no_version() {
    let m = manifest_of("app", Version::new(3, 2, 1), vec![point("/var", manifest::Mount::Persist)]);
    let init = build(&config(), &m, &vec![], &HostPaths::new(vec![]), &vec![]).unwrap();
    assert_eq!(init.mounts[0].source, Some("/data/app".to_string()));
    assert_eq!(init.mounts[0].target, "/run/ns/app:3.2.1/var");
    assert_eq!(
        init.preparations,
        vec![
            Preparation::CreateDir { path: "/data/app".to_string() },
            Preparation::Chown { path: "/data/app".to_string(), uid: 1000, gid: 1001 },
        ]
    );
}

#[test]
fn resource_is_bound_read_only_and_remounted() {
    let me = Container::new("app".to_string(), Version::new(0, 1, 0));
    let dep = Container::new("data".to_string(), Version::new(1, 2, 0));
    let (mount, remount) = resource(
        "/run/ns/app:0.1.0",
        "/d",
        &config(),
        &me,
        &dep,
        "/files",
        &vec![MountOption::NoExec],
        true,
    )
    .unwrap();
    assert_eq!(mount.source, Some("/run/ns/data:1.2.0/files".to_string()));
    assert_eq!(mount.target, "/run/ns/app:0.1.0/d");
    assert_eq!(mount.flags, bits(MsFlags::MS_NOEXEC | MsFlags::MS_RDONLY | MsFlags::MS_BIND));
    assert_eq!(remount.source, mount.source);
    assert_eq!(remount.target, mount.target);
    assert_eq!(
        remount.flags,
        bits(MsFlags::MS_NOEXEC | MsFlags::MS_RDONLY | MsFlags::MS_BIND | MsFlags::MS_REMOUNT)
    );
    assert_eq!(mount.fstype, None);
    assert_eq!(mount.data, None);
}

#[test]
fn resource_whose_directory_is_missing_fails() {
    let me = Container::new("app".to_string(), Version::new(0, 1, 0));
    let dep = Container::new("data".to_string(), Version::new(1, 2, 0));
    let r = resource("/run/ns/app:0.1.0", "/d", &config(), &me, &dep, "/files", &vec![], false);
    assert_eq!(
        r,
        Err(Error::StartContainerMissingResource(me, "data".to_string(), "1.2.0".to_string()))
    );
}

#[test]
fn resource_without_a_matching_container_fails() {
    let m = manifest_of(
        "app",
        Version::new(0, 1, 0),
        vec![
            point("/tmp", manifest::Mount::Tmpfs { size: 1 }),
            point(
                "/d",
                manifest::Mount::Resource {
                    name: "data".to_string(),
                    version: "^1.0".to_string(),
                    dir: "/d".to_string(),
                    options: vec![],
                },
            ),
        ],
    );
    let installed = vec![
        Container::new("data".to_string(), Version::new(2, 0, 0)),
        Container::new("other".to_string(), Version::new(1, 0, 0)),
    ];
    let r = build(&config(), &m, &installed, &HostPaths::new(vec![]), &vec![]);
    assert_eq!(
        r,
        Err(Error::StartContainerMissingResource(
            Container::new("app".to_string(), Version::new(0, 1, 0)),
            "data".to_string(),
            "^1.0".to_string()
        ))
    );
}

#[test]
fn resource_resolves_to_the_highest_matching_version() {
    let m = manifest_of(
        "app",
        Version::new(0, 1, 0),
        vec![point(
            "/d",
            manifest::Mount::Resource {
                name: "data".to_string(),
                version: "^1.0".to_string(),
                dir: "/d".to_string(),
                options: vec![],
            },
        )],
    );
    let installed = vec![
        Container::new("data".to_string(), Version::new(1, 0, 0)),
        Container::new("data".to_string(), Version::new(1, 4, 0)),
        Container::new("data".to_string(), Version::new(2, 0, 0)),
        Container::new("data".to_string(), Version::new(1, 3, 9)),
    ];
    let host = HostPaths::new(vec!["/run/ns/data:1.4.0/d".to_string()]);
    let init = build(&config(), &m, &installed, &host, &vec![]).unwrap();
    assert_eq!(init.mounts.len(), 2);
    assert_eq!(init.mounts[0].source, Some("/run/ns/data:1.4.0/d".to_string()));
    let host = HostPaths::new(vec!["/run/ns/data:1.3.9/d".to_string()]);
    let r = build(&config(), &m, &installed, &host, &vec![]);
    assert_eq!(
        r,
        Err(Error::StartContainerMissingResource(
            Container::new("app".to_string(), Version::new(0, 1, 0)),
            "data".to_string(),
            "1.4.0".to_string()
        ))
    );
}

#[test]
fn mounts_come_in_the_declared_order() {
    let m = manifest_of(
        "app",
        Version::new(0, 1, 0),
        vec![
            point("/proc", manifest::Mount::Proc),
            point("/dev", manifest::Mount::Dev),
            point("/etc", manifest::Mount::Bind { host: "/etc".to_string(), options: vec![] }),
            point("/tmp", manifest::Mount::Tmpfs { size: 42 }),
            point("/var", manifest::Mount::Persist),
        ],
    );
    let host = HostPaths::new(vec!["/etc".to_string(), "/data/app".to_string()]);
    let (steps, mounts) = prepare_mounts(&config(), "/r", &m, &vec![], &host).unwrap();
    let targets: Vec<&str> = mounts.iter().map(|m| m.target.as_str()).collect();
    assert_eq!(targets, vec!["/r/proc", "/r/etc", "/r/etc", "/r/tmp", "/r/var"]);
    assert_eq!(steps, vec![Preparation::Chown { path: "/data/app".to_string(), uid: 1000, gid: 1001 }]);
    let again = prepare_mounts(&config(), "/r", &m, &vec![], &host).unwrap();
    assert_eq!(again, (steps, mounts));
}

#[test]
fn supplementary_groups_are_looked_up_by_name() {
    let mut m = manifest_of("app", Version::new(0, 1, 0), vec![]);
    m.suppl_groups = vec!["audio".to_string(), "nobody-knows".to_string(), "video".to_string()];
    let known = vec![
        Group { name: "video".to_string(), gid: 44 },
        Group { name: "audio".to_string(), gid: 1 },
        Group { name: "audio".to_string(), gid: 29 },
    ];
    assert_eq!(groups(&m, &known), vec![29, 44]);
    assert_eq!(groups(&m, &vec![]), Vec::<u32>::new());
}

#[test]
fn init_carries_the_manifest_settings() {
    let mut m = manifest_of("app", Version::new(0, 1, 0), vec![]);
    m.capabilities = vec!["CAP_KILL".to_string()];
    m.rlimits = vec![("nofile".to_string(), manifest::RLimit { soft: Some(10), hard: None })];
    m.seccomp = Some(manifest::Seccomp {
        profile: Some("default".to_string()),
        allow: Some(vec!["fork".to_string()]),
    });
    let init = build(&config(), &m, &vec![], &HostPaths::new(vec![]), &vec![]).unwrap();
    assert_eq!(init.container, Container::new("app".to_string(), Version::new(0, 1, 0)));
    assert_eq!(init.uid, 1000);
    assert_eq!(init.gid, 1001);
    assert_eq!(init.capabilities, m.capabilities);
    assert_eq!(init.rlimits, m.rlimits);
    assert_eq!(init.seccomp, m.seccomp);
    assert!(!init.console);
}

#[test]
fn the_planner_names_the_paths_it_asks_about() {
    let m = manifest_of(
        "app",
        Version::new(0, 1, 0),
        vec![
            point("/proc", manifest::Mount::Proc),
            point("/etc", manifest::Mount::Bind { host: "/host/etc".to_string(), options: vec![] }),
            point("/var", manifest::Mount::Persist),
            point(
                "/d",
                manifest::Mount::Resource {
                    name: "data".to_string(),
                    version: "^1.0".to_string(),
                    dir: "/files".to_string(),
                    options: vec![],
                },
            ),
            point(
                "/e",
                manifest::Mount::Resource {
                    name: "none".to_string(),
                    version: "*".to_string(),
                    dir: "/files".to_string(),
                    options: vec![],
                },
            ),
            point("/tmp", manifest::Mount::Tmpfs { size: 1 }),
        ],
    );
    let installed = vec![Container::new("data".to_string(), Version::new(1, 2, 3))];
    assert_eq!(
        probes(&config(), &m, &installed),
        vec![
            "/host/etc".to_string(),
            "/data/app".to_string(),
            "/run/ns/data:1.2.3/files".to_string(),
        ]
    );
    assert!(probes(&config(), &manifest_of("a", Version::new(1, 0, 0), vec![]), &vec![]).is_empty());
}

#[test]
fn a_resource_directory_that_does_not_start_at_the_root_is_the_container_root() {
    let me = Container::new("app".to_string(), Version::new(0, 1, 0));
    let dep = Container::new("data".to_string(), Version::new(1, 2, 0));
    let (mount, _) =
        resource("/r", "/d", &config(), &me, &dep, "files", &vec![], true).unwrap();
    assert_eq!(mount.source, Some("/run/ns/data:1.2.0".to_string()));
    let host = HostPaths::new(vec!["/a".to_string(), "/b".to_string()]);
    assert!(host.has("/a"));
    assert!(host.has("/b"));
    assert!(!host.has("/c"));
    assert!(!host.has(""));
}
