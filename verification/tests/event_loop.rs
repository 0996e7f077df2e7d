use northstar::api;
use northstar::api::{
    Configuration, Connect, ContainerData, Message, Permission, Permissions, Request, Response,
    Token,
};
use northstar::console::{Connection, Input, Output, Peer, Phase};
use northstar::container::Container;
use northstar::error::Error;
use northstar::event_loop::{handle, Served, SHUTDOWN_SIGNAL};
use northstar::manifest::Manifest;
use northstar::repository::Repository;
use northstar::state::{Action, Arrival, State, Status};
use northstar::stream::InstallStream;
use northstar::version::Version;

fn manifest(name: &str) -> Manifest {
    Manifest {
        name: name.to_string(),
        version: Version::new(1, 0, 0),
        arch: "x86_64".to_string(),
        init: "/bin/app".to_string(),
        args: None,
        env: None,
        uid: 1,
        gid: 1,
        suppl_groups: vec![],
        autostart: None,
        on_exit: None,
        cgroups: None,
        seccomp: None,
        capabilities: vec![],
        rlimits: vec![],
        mounts: vec![],
        console: None,
        log: None,
        instances: None,
    }
}

fn container(name: &str) -> Container {
    Container::new(name.to_string(), Version::new(1, 0, 0))
}

fn state(names: &[&str]) -> State {
    let mut s = State::new();
    s.add_repository(Repository::new("r".to_string(), "/repo".to_string(), None, vec![]));
    s.add_repository(Repository::new("q".to_string(), "/more".to_string(), None, vec![]));
    for (i, name) in names.iter().enumerate() {
        let c = container(name);
        assert_eq!(s.install(i % 2, &c, Arrival::Loaded(manifest(name))).0, Ok(()));
    }
    s
}

fn invalid(name: &str) -> Option<Response> {
    Some(Response::Error(api::Error::InvalidContainer { container: container(name) }))
}

#[test]
fn the_state_answers_for_containers_and_repositories() {
    let mut s = state(&["a", "b"]);
    s.mount(&container("b")).unwrap();
    s.start(&container("b")).unwrap();
    s.started(&container("b"), 9, 0).unwrap();
    assert_eq!(
        handle(&mut s, &Request::Containers),
        Served {
            response: Some(Response::Containers(vec![
                ContainerData {
                    container: container("a"),
                    repository: "r".to_string(),
                    mounted: false,
                    pid: None,
                },
                ContainerData {
                    container: container("b"),
                    repository: "q".to_string(),
                    mounted: true,
                    pid: Some(9),
                },
            ])),
            actions: vec![],
        }
    );
    assert_eq!(
        handle(&mut s, &Request::Repositories),
        Served {
            response: Some(Response::Repositories(vec!["r".to_string(), "q".to_string()])),
            actions: vec![],
        }
    );
    assert_eq!(s.list().len(), 2);
    assert_eq!(s.repository_names(), vec!["r".to_string(), "q".to_string()]);
}

#[test]
fn mount_requests_are_all_or_nothing() {
    let mut s = state(&["a", "b"]);
    let all = Request::Mount { containers: vec![container("a"), container("x"), container("b")] };
    assert_eq!(handle(&mut s, &all), Served { response: invalid("x"), actions: vec![] });
    assert_eq!(s.status(&container("a")), Some(Status::Installed));
    assert_eq!(s.status(&container("b")), Some(Status::Installed));
    let both = Request::Mount { containers: vec![container("b"), container("a"), container("b")] };
    assert_eq!(
        handle(&mut s, &both),
        Served {
            response: Some(Response::Done),
            actions: vec![Action::Mount(container("b")), Action::Mount(container("a"))],
        }
    );
    assert_eq!(s.status(&container("a")), Some(Status::Mounted));
    assert_eq!(s.status(&container("b")), Some(Status::Mounted));
    assert_eq!(
        handle(&mut s, &both),
        Served { response: Some(Response::Done), actions: vec![] }
    );
    assert_eq!(
        handle(&mut s, &Request::Mount { containers: vec![] }),
        Served { response: Some(Response::Done), actions: vec![] }
    );
}

#[test]
fn umount_requests_are_all_or_nothing() {
    let mut s = state(&["a", "b", "c"]);
    for name in ["a", "b"] {
        s.mount(&container(name)).unwrap();
    }
    s.start(&container("b")).unwrap();
    let all = Request::Umount { containers: vec![container("a"), container("b")] };
    assert_eq!(handle(&mut s, &all), Served { response: invalid("b"), actions: vec![] });
    assert_eq!(s.status(&container("a")), Some(Status::Mounted));
    assert_eq!(
        s.umount_all(&vec![container("a"), container("b")]),
        Err(Error::ContainerStarted(container("b")))
    );
    let some = Request::Umount { containers: vec![container("c"), container("a"), container("a")] };
    assert_eq!(
        handle(&mut s, &some),
        Served { response: Some(Response::Done), actions: vec![Action::Umount(container("a"))] }
    );
    assert_eq!(s.status(&container("a")), Some(Status::Installed));
    assert_eq!(
        s.mount_all(&vec![container("a"), container("c")]),
        Ok(vec![Action::Mount(container("a")), Action::Mount(container("c"))])
    );
}

#[test]
fn start_kill_and_uninstall_go_through_the_life_cycle() {
    let mut s = state(&["a"]);
    let a = container("a");
    let start = Request::Start { container: a.clone(), args: None, env: None };
    assert_eq!(handle(&mut s, &start), Served { response: invalid("a"), actions: vec![] });
    s.mount(&a).unwrap();
    assert_eq!(
        handle(&mut s, &start),
        Served { response: Some(Response::Done), actions: vec![Action::Start(a.clone())] }
    );
    s.started(&a, 5, 0).unwrap();
    let uninstall = Request::Uninstall { container: a.clone() };
    assert_eq!(handle(&mut s, &uninstall), Served { response: invalid("a"), actions: vec![] });
    assert_eq!(
        handle(&mut s, &Request::Kill { container: a.clone(), signal: 9 }),
        Served {
            response: Some(Response::Done),
            actions: vec![Action::Signal { pid: 5, signal: 9 }],
        }
    );
    assert_eq!(s.status(&a), Some(Status::Stopping { pid: 5 }));
    s.exited(&a, northstar::event::ExitStatus::Signalled(9)).unwrap();
    s.umount(&a).unwrap();
    let served = handle(&mut s, &uninstall);
    assert_eq!(served.response, Some(Response::Done));
    assert_eq!(served.actions[0], Action::Delete("/repo/a-1.0.0.npk".to_string()));
    assert_eq!(s.status(&a), None);
    assert_eq!(handle(&mut s, &uninstall), Served { response: invalid("a"), actions: vec![] });
}

#[test]
fn shutdown_sends_the_termination_signal() {
    assert_eq!(SHUTDOWN_SIGNAL, 15);
    let mut s = state(&["a", "b"]);
    s.mount(&container("a")).unwrap();
    s.start(&container("a")).unwrap();
    s.started(&container("a"), 31, 0).unwrap();
    assert_eq!(
        handle(&mut s, &Request::Shutdown),
        Served {
            response: Some(Response::Done),
            actions: vec![Action::Signal { pid: 31, signal: 15 }],
        }
    );
    assert_eq!(s.status(&container("a")), Some(Status::Stopping { pid: 31 }));
    assert_eq!(s.status(&container("b")), Some(Status::Installed));
}

#[test]
fn statistics_are_read_for_containers_with_a_process() {
    let mut s = state(&["a"]);
    let a = container("a");
    let stats = Request::ContainerStats { container: a.clone() };
    assert_eq!(handle(&mut s, &stats), Served { response: invalid("a"), actions: vec![] });
    s.mount(&a).unwrap();
    s.start(&a).unwrap();
    assert_eq!(handle(&mut s, &stats), Served { response: invalid("a"), actions: vec![] });
    s.started(&a, 5, 0).unwrap();
    assert_eq!(
        handle(&mut s, &stats),
        Served { response: None, actions: vec![Action::Stats(a.clone())] }
    );
    let other = Request::ContainerStats { container: container("x") };
    assert_eq!(handle(&mut s, &other), Served { response: invalid("x"), actions: vec![] });
}

#[test]
fn requests_of_the_connection_are_refused() {
    let mut s = state(&["a"]);
    let unexpected = Some(Response::Error(api::Error::Io {
        context: "Unexpected request".to_string(),
        kind: "InvalidData".to_string(),
    }));
    let requests = vec![
        Request::Ident,
        Request::Install { repository: "r".to_string(), size: 1 },
        Request::TokenCreate { target: vec![], shared: vec![] },
        Request::TokenVerify { token: Token { bytes: [0; 40] }, user: vec![], shared: vec![] },
    ];
    for request in requests {
        assert_eq!(
            handle(&mut s, &request),
            Served { response: unexpected.clone(), actions: vec![] }
        );
    }
    assert_eq!(s.containers(), vec![container("a")]);
}

#[test]
fn install_then_uninstall_through_the_console() {
    let mut state = State::new();
    state.add_repository(Repository::new("r".to_string(), "/repo".to_string(), None, vec![]));
    let permissions = Permissions::none().with(Permission::Install).with(Permission::Uninstall);
    let configuration = Configuration {
        permissions,
        max_requests_per_sec: None,
        max_request_size: None,
        max_npk_install_size: None,
        npk_stream_timeout: None,
    };
    let peer = Peer::Extern("tcp://127.0.0.1:9".to_string());
    let mut connection = Connection::new(peer, configuration);
    let hello = Message::Connect {
        connect: Connect::Connect { version: api::version(), subscribe_notifications: false },
    };
    assert!(matches!(connection.handle(Input::Frame(hello)), Output::Send(_)));

    let size = 3_000_000u64;
    let install = Request::Install { repository: "r".to_string(), size };
    let output = connection.handle(Input::Frame(Message::Request { request: install }));
    assert_eq!(output, Output::Install { repository: "r".to_string(), size });
    assert_eq!(connection.phase, Phase::Waiting { subscribed: false });

    let mut stream = InstallStream::new(size);
    let mut taken = stream.take_buffered(4096) as u64;
    while !stream.is_complete() {
        let n = stream.next_read();
        assert!(stream.take_read(n));
        taken += n as u64;
    }
    assert_eq!(taken, size);

    let position = state.find_repository("r").unwrap();
    let package = manifest("hello");
    let hello = package.container();
    assert_eq!(state.check_install(position, &hello), Ok("/repo/hello-1.0.0.npk".to_string()));
    let (result, _) = state.install(position, &hello, Arrival::Loaded(package));
    assert_eq!(result, Ok(()));
    assert_eq!(
        state.repository(position).unwrap().get(&hello),
        Some(&"/repo/hello-1.0.0.npk".to_string())
    );
    let output = connection.handle(Input::Reply(Response::Done));
    assert_eq!(output, Output::Send(Message::Response { response: Response::Done }));

    let uninstall = Request::Uninstall { container: hello.clone() };
    let output = connection.handle(Input::Frame(Message::Request { request: uninstall.clone() }));
    assert_eq!(output, Output::Forward(uninstall.clone()));
    let served = handle(&mut state, &uninstall);
    assert_eq!(served.response, Some(Response::Done));
    assert_eq!(served.actions[0], Action::Delete("/repo/hello-1.0.0.npk".to_string()));
    assert_eq!(state.repository(position).unwrap().get(&hello), None);
    assert!(state.manifest(&hello).is_none());
    let output = connection.handle(Input::Reply(served.response.unwrap()));
    assert_eq!(output, Output::Send(Message::Response { response: Response::Done }));
    assert_eq!(connection.phase, Phase::Open { subscribed: false });
}
