use northstar::api;
use northstar::api::{
    Configuration, Connect, ConnectNack, Message, Notification, Permission, Permissions, Request,
    Response, Token,
};
use northstar::console::{
    limits, process_request, Connection, Error, Input, Limits, Output, Peer, Phase,
    DEFAULT_MAX_INSTALL_STREAM_SIZE,
};
use northstar::container::Container;
use northstar::error::IoKind;
use northstar::event::{CGroupEvent, ContainerEvent, ExitStatus, MemoryEvent};
use northstar::version::Version;

fn configuration(permissions: Permissions) -> Configuration {
    Configuration {
        permissions,
        max_requests_per_sec: None,
        max_request_size: None,
        max_npk_install_size: None,
        npk_stream_timeout: None,
    }
}

fn hello() -> Container {
    Container::new("hello".to_string(), Version::new(1, 0, 0))
}

fn remote() -> Peer {
    Peer::Extern("tcp://127.0.0.1:5000".to_string())
}

fn connect(version: Version, subscribe: bool) -> Input {
    Input::Frame(Message::Connect {
        connect: Connect::Connect { version, subscribe_notifications: subscribe },
    })
}

fn request(request: Request) -> Input {
    Input::Frame(Message::Request { request })
}

fn open(permissions: Permissions, subscribe: bool) -> Connection {
    let mut c = Connection::new(remote(), configuration(permissions));
    let out = c.handle(connect(api::version(), subscribe));
    assert!(matches!(out, Output::Send(Message::Connect { connect: Connect::Ack { .. } })));
    c
}

#[test]
fn every_request_needs_its_permission() {
    let c = hello();
    let cases = vec![
        (Request::ContainerStats { container: c.clone() }, Permission::ContainerStatistics),
        (Request::Containers, Permission::Containers),
        (Request::Ident, Permission::Ident),
        (Request::Install { repository: "r".to_string(), size: 1 }, Permission::Install),
        (Request::Kill { container: c.clone(), signal: 15 }, Permission::Kill),
        (Request::Mount { containers: vec![c.clone()] }, Permission::Mount),
        (Request::Repositories, Permission::Repositories),
        (Request::Shutdown, Permission::Shutdown),
        (Request::Start { container: c.clone(), args: None, env: None }, Permission::Start),
        (Request::TokenCreate { target: vec![1], shared: vec![2] }, Permission::Token),
        (
            Request::TokenVerify { token: Token { bytes: [0; 40] }, user: vec![1], shared: vec![2] },
            Permission::Token,
        ),
        (Request::Umount { containers: vec![c.clone()] }, Permission::Umount),
        (Request::Uninstall { container: c.clone() }, Permission::Uninstall),
    ];
    for (request, permission) in cases {
        assert_eq!(api::required_permission(&request), permission);
        let none = configuration(Permissions::none());
        assert_eq!(
            process_request(&remote(), &none, request.clone()),
            Ok(Output::Send(Message::Response {
                response: Response::Error(api::Error::PermissionDenied {
                    permissions: Permissions::none(),
                    required: permission,
                }),
            }))
        );
        let only = configuration(Permissions::none().with(permission));
        let out = process_request(&remote(), &only, request.clone()).unwrap();
        assert!(!matches!(out, Output::Send(Message::Response { response: Response::Error(_) })));
    }
}

#[test]
fn permissions_are_a_set() {
    let p = Permissions::none().with(Permission::Kill).with(Permission::Ident);
    assert!(p.contains(Permission::Kill));
    assert!(p.contains(Permission::Ident));
    assert!(!p.contains(Permission::Start));
    assert_eq!(p.with(Permission::Kill), p);
    assert!(Permissions::full().contains(Permission::Notifications));
    assert!(!Permissions::none().contains(Permission::Notifications));
}

#[test]
fn wrong_protocol_version_is_refused() {
    let mut c = Connection::new(remote(), configuration(Permissions::full()));
    let out = c.handle(connect(Version::new(9, 9, 9), false));
    assert_eq!(
        out,
        Output::Send(Message::Connect {
            connect: Connect::Nack {
                error: ConnectNack::InvalidProtocolVersion { version: api::version() },
            },
        })
    );
    assert_eq!(c.phase, Phase::Closed);
    assert!(c.is_closed());
    assert_eq!(c.handle(request(Request::Containers)), Output::Close);
    assert_eq!(c.phase, Phase::Closed);
}

#[test]
fn notification_permission_denied() {
    let permissions = Permissions::none().with(Permission::Containers);
    let mut c = Connection::new(remote(), configuration(permissions));
    let out = c.handle(connect(api::version(), true));
    assert_eq!(
        out,
        Output::Send(Message::Connect {
            connect: Connect::Nack { error: ConnectNack::PermissionDenied },
        })
    );
    assert!(c.is_closed());
    assert_eq!(c.handle(request(Request::Containers)), Output::Close);
}

#[test]
fn handshake_acknowledges_with_the_configuration() {
    let permissions = Permissions::none().with(Permission::Notifications);
    let mut settings = configuration(permissions);
    settings.max_request_size = Some(77);
    let mut c = Connection::new(remote(), settings);
    assert_eq!(c.phase, Phase::Handshake);
    let out = c.handle(connect(api::version(), true));
    assert_eq!(
        out,
        Output::Send(Message::Connect { connect: Connect::Ack { configuration: settings } })
    );
    assert_eq!(c.phase, Phase::Open { subscribed: true });
    let mut d = Connection::new(remote(), configuration(Permissions::none()));
    d.handle(connect(api::version(), false));
    assert_eq!(d.phase, Phase::Open { subscribed: false });
}

#[test]
fn handshake_takes_nothing_but_connect() {
    let inputs = vec![
        request(Request::Containers),
        Input::Broken,
        Input::End,
        Input::Timeout,
        Input::Stop,
        Input::Event(hello(), ContainerEvent::Started),
        Input::Lagged,
        Input::EventsClosed,
        Input::Reply(Response::Done),
        Input::Failed,
        Input::SendFailed,
        Input::Frame(Message::Connect {
            connect: Connect::Nack { error: ConnectNack::PermissionDenied },
        }),
    ];
    for input in inputs {
        let mut c = Connection::new(remote(), configuration(Permissions::full()));
        assert_eq!(c.handle(input), Output::Close);
        assert!(c.is_closed());
    }
}

#[test]
fn requests_go_to_the_event_loop_and_replies_come_back() {
    let mut c = open(Permissions::full(), false);
    let out = c.handle(request(Request::Containers));
    assert_eq!(out, Output::Forward(Request::Containers));
    assert_eq!(c.phase, Phase::Waiting { subscribed: false });
    let out = c.handle(Input::Reply(Response::Containers(vec![])));
    assert_eq!(out, Output::Send(Message::Response { response: Response::Containers(vec![]) }));
    assert_eq!(c.phase, Phase::Open { subscribed: false });
    let kill = Request::Kill { container: hello(), signal: 9 };
    assert_eq!(c.handle(request(kill.clone())), Output::Forward(kill));
    assert_eq!(c.handle(Input::Failed), Output::Close);
    assert!(c.is_closed());
}

#[test]
fn a_request_without_permission_is_answered_at_once() {
    let permissions = Permissions::none().with(Permission::Containers);
    let mut c = open(permissions, false);
    let out = c.handle(request(Request::Shutdown));
    assert_eq!(
        out,
        Output::Send(Message::Response {
            response: Response::Error(api::Error::PermissionDenied {
                permissions,
                required: Permission::Shutdown,
            }),
        })
    );
    assert_eq!(c.phase, Phase::Open { subscribed: false });
    assert_eq!(c.handle(request(Request::Containers)), Output::Forward(Request::Containers));
}

#[test]
fn ident_is_answered_by_the_connection() {
    let settings = configuration(Permissions::full());
    assert_eq!(
        process_request(&remote(), &settings, Request::Ident),
        Ok(Output::Send(Message::Response {
            response: Response::Ident(Container::new("remote".to_string(), Version::new(0, 0, 0))),
        }))
    );
    assert_eq!(
        process_request(&Peer::Container(hello()), &settings, Request::Ident),
        Ok(Output::Send(Message::Response { response: Response::Ident(hello()) }))
    );
    let mut c = open(Permissions::full(), false);
    c.handle(request(Request::Ident));
    assert_eq!(c.phase, Phase::Open { subscribed: false });
}

#[test]
fn install_is_bounded_by_the_limit() {
    let settings = configuration(Permissions::full());
    let at_limit =
        Request::Install { repository: "r".to_string(), size: DEFAULT_MAX_INSTALL_STREAM_SIZE };
    assert_eq!(
        process_request(&remote(), &settings, at_limit),
        Ok(Output::Install { repository: "r".to_string(), size: 256_000_000 })
    );
    let over =
        Request::Install { repository: "r".to_string(), size: DEFAULT_MAX_INSTALL_STREAM_SIZE + 1 };
    assert_eq!(
        process_request(&remote(), &settings, over.clone()),
        Err(Error::Io("npk size too large".to_string(), IoKind::InvalidData))
    );
    let mut c = open(Permissions::full(), false);
    assert_eq!(c.handle(request(over)), Output::Close);
    assert!(c.is_closed());
    let mut small = settings;
    small.max_npk_install_size = Some(10);
    assert!(process_request(
        &remote(),
        &small,
        Request::Install { repository: "r".to_string(), size: 11 }
    )
    .is_err());
    assert!(process_request(
        &remote(),
        &small,
        Request::Install { repository: "r".to_string(), size: 10 }
    )
    .is_ok());
}

#[test]
fn tokens_are_made_for_the_peer() {
    let settings = configuration(Permissions::full());
    assert_eq!(
        process_request(
            &remote(),
            &settings,
            Request::TokenCreate { target: vec![1, 2], shared: vec![3] }
        ),
        Ok(Output::CreateToken { user: "extern".to_string(), target: vec![1, 2], shared: vec![3] })
    );
    let token = Token { bytes: [7; 40] };
    assert_eq!(
        process_request(
            &Peer::Container(hello()),
            &settings,
            Request::TokenVerify { token, user: vec![9], shared: vec![3] }
        ),
        Ok(Output::VerifyToken {
            token,
            user: vec![9],
            target: "hello".to_string(),
            shared: vec![3]
        })
    );
}

#[test]
fn notifications_reach_subscribers_in_order() {
    let mut c = open(Permissions::full(), true);
    let events = vec![
        ContainerEvent::Installed,
        ContainerEvent::Started,
        ContainerEvent::Exit(ExitStatus::Exit(1)),
        ContainerEvent::Uninstalled,
    ];
    let mut sent = vec![];
    for e in events {
        if let Output::Send(Message::Notification { notification }) =
            c.handle(Input::Event(hello(), e))
        {
            sent.push(notification);
        }
    }
    assert_eq!(
        sent,
        vec![
            Notification::Install(hello()),
            Notification::Started(hello()),
            Notification::Exit(hello(), api::ExitStatus::Exit { code: 1 }),
            Notification::Uninstall(hello()),
        ]
    );
    assert_eq!(c.handle(Input::Lagged), Output::Close);
    assert_eq!(c.handle(Input::Event(hello(), ContainerEvent::Started)), Output::Close);
}

#[test]
fn notifications_pass_while_a_request_is_under_way() {
    let mut c = open(Permissions::full(), true);
    c.handle(request(Request::Repositories));
    let out = c.handle(Input::Event(hello(), ContainerEvent::Started));
    assert_eq!(
        out,
        Output::Send(Message::Notification { notification: Notification::Started(hello()) })
    );
    assert_eq!(c.phase, Phase::Waiting { subscribed: true });
}

#[test]
fn events_are_not_sent_without_subscription() {
    let mut c = open(Permissions::full(), false);
    assert_eq!(c.handle(Input::Event(hello(), ContainerEvent::Started)), Output::Nothing);
    assert_eq!(c.phase, Phase::Open { subscribed: false });
}

#[test]
fn an_open_connection_closes_on_everything_else() {
    let inputs = vec![
        Input::Broken,
        Input::End,
        Input::Timeout,
        Input::Stop,
        Input::Lagged,
        Input::EventsClosed,
        Input::Reply(Response::Done),
        Input::Failed,
        Input::SendFailed,
        connect(api::version(), false),
        Input::Frame(Message::Response { response: Response::Done }),
    ];
    for input in inputs {
        let mut c = open(Permissions::full(), true);
        assert_eq!(c.handle(input), Output::Close);
        assert!(c.is_closed());
    }
}

#[test]
fn exit_status_goes_over_the_wire_unchanged() {
    assert_eq!(api::ExitStatus::from(ExitStatus::Exit(-3)), api::ExitStatus::Exit { code: -3 });
    assert_eq!(
        api::ExitStatus::from(ExitStatus::Signalled(9)),
        api::ExitStatus::Signalled { signal: 9 }
    );
    assert_eq!(
        api::ExitStatus::from(ExitStatus::Signalled(255)),
        api::ExitStatus::Signalled { signal: 255 }
    );
}

#[test]
fn events_become_notifications() {
    let memory =
        MemoryEvent { low: Some(1), high: None, max: Some(3), oom: Some(4), oom_kill: None };
    assert_eq!(
        Notification::from((hello(), ContainerEvent::CGroup(CGroupEvent::Memory(memory)))),
        Notification::CGroup(
            hello(),
            api::CgroupNotification::Memory(api::MemoryNotification {
                low: Some(1),
                high: None,
                max: Some(3),
                oom: Some(4),
                oom_kill: None,
            })
        )
    );
    assert_eq!(
        Notification::from((hello(), ContainerEvent::Exit(ExitStatus::Signalled(15)))),
        Notification::Exit(hello(), api::ExitStatus::Signalled { signal: 15 })
    );
}

#[test]
fn peers_print_with_their_kind() {
    assert_eq!(remote().to_string(), "Remote(tcp://127.0.0.1:5000)");
    assert_eq!(Peer::Container(hello()).to_string(), "Container(hello:1.0.0)");
    assert_eq!(remote().user(), "extern");
    assert_eq!(Peer::Container(hello()).user(), "hello");
}

#[test]
fn limits_take_their_defaults() {
    let mut c = Configuration {
        permissions: Permissions::none(),
        max_requests_per_sec: None,
        max_request_size: None,
        max_npk_install_size: None,
        npk_stream_timeout: None,
    };
    assert_eq!(
        limits(&c),
        Limits {
            requests_per_sec: 1024,
            request_size: 1048576,
            install_size: 256000000,
            stream_timeout: 5,
            connect_timeout: 5,
        }
    );
    c.max_requests_per_sec = Some(1);
    c.max_request_size = Some(2);
    c.max_npk_install_size = Some(3);
    c.npk_stream_timeout = Some(4);
    assert_eq!(
        limits(&c),
        Limits {
            requests_per_sec: 1,
            request_size: 2,
            install_size: 3,
            stream_timeout: 4,
            connect_timeout: 5,
        }
    );
}
