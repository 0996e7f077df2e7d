//! The decisions of the event loop: what a request that a console
//! connection passed on does to the state, what is answered, and what the
//! runtime has to do.

use crate::api::{Request, Response};
use crate::container::identities;
use crate::error::{is_wire_of, Error, ErrorSpec, IoKind};
use crate::state::{action_specs, Action, ActionSpec, Op, State};
use vstd::prelude::*;
use vstd::string::*;

verus! {

/// The signal that stops the containers when the runtime shuts down.
pub const SHUTDOWN_SIGNAL: i32 = 15;

/// The number of `nix::libc::SIGTERM`. Trusted: libc defines the signal as
/// 15 on Linux.
#[verifier::external_body]
fn sigterm() -> (signal: i32)
    ensures
        signal == SHUTDOWN_SIGNAL,
{
    nix::libc::SIGTERM
}

/// What the event loop makes of a request.
#[derive(Debug, PartialEq, Eq)]
pub struct Served {
    /// The response, or `None` where the runtime answers once it has done
    /// what `actions` ask for.
    pub response: Option<Response>,
    /// What the runtime has to do, in order.
    pub actions: Vec<Action>,
}

/// Whether `response` and `actions` tell the outcome `r` of a request: `Ok`
/// with the actions to carry out, or the error in its wire shape and
/// nothing to do.
pub open spec fn is_reply(
    r: Result<Vec<Action>, Error>,
    response: Option<Response>,
    actions: Seq<ActionSpec>,
) -> bool {
    match r {
        Ok(list) => response == Some(Response::Done) && actions == action_specs(list@),
        Err(e) => {
            &&& response matches Some(Response::Error(w))
            &&& is_wire_of(w, e)
            &&& actions == Seq::<ActionSpec>::empty()
        },
    }
}

/// Whether the state `after` and the outcome `r` are what `request` makes
/// of the state `before`, for the requests that change the state.
pub open spec fn changes(before: &State, after: &State, request: Request, r: Result<
    Vec<Action>,
    Error,
>) -> bool {
    match request {
        Request::Mount { containers } => after.all_follow(
            before,
            identities(containers@),
            Op::Mount,
            r,
        ),
        Request::Umount { containers } => after.all_follow(
            before,
            identities(containers@),
            Op::Umount,
            r,
        ),
        Request::Start { container, .. } => after.follows(before, container@, Op::Start, r),
        Request::Kill { container, signal } => after.follows(
            before,
            container@,
            Op::Kill { signal },
            r,
        ),
        Request::Uninstall { container } => after.uninstalls(before, container@, r),
        Request::Shutdown => r matches Ok(list) && after.all_stopped(
            before,
            SHUTDOWN_SIGNAL,
            action_specs(list@),
        ),
        _ => false,
    }
}

/// Whether the state `after`, the response and the actions are what the
/// event loop makes of `request` in the state `before`.
///
/// The requests for the containers and the repositories are answered from
/// the state. Mounting, unmounting, starting, killing, uninstalling and
/// shutting down change the state as the life cycle says, and are answered
/// with `Ok` or with the error. The statistics of a container are read by
/// the runtime where the container has a process. A request that a
/// connection answers itself is an error here.
pub open spec fn handles(
    before: &State,
    after: &State,
    request: Request,
    response: Option<Response>,
    actions: Seq<ActionSpec>,
) -> bool {
    let unchanged = after.slots() == before.slots() && after.repositories()
        == before.repositories();
    match request {
        Request::Containers => {
            &&& unchanged
            &&& actions == Seq::<ActionSpec>::empty()
            &&& response matches Some(Response::Containers(list))
            &&& before.is_listed(list@)
        },
        Request::Repositories => {
            &&& unchanged
            &&& actions == Seq::<ActionSpec>::empty()
            &&& response matches Some(Response::Repositories(names))
            &&& names@.len() == before.repositories().len()
            &&& forall|k: int|
                0 <= k < names@.len() ==> (#[trigger] names@[k])@ == before.repositories()[k].name()
        },
        Request::ContainerStats { container } => {
            &&& unchanged
            &&& match before.status_of(container@) {
                None => {
                    &&& actions == Seq::<ActionSpec>::empty()
                    &&& response matches Some(Response::Error(w))
                    &&& exists|e: Error| #[trigger]
                        is_wire_of(w, e) && e@ == ErrorSpec::InvalidContainer(container@)
                },
                Some(status) => if status.process() is Some {
                    response is None && actions == seq![ActionSpec::Stats(container@)]
                } else {
                    &&& actions == Seq::<ActionSpec>::empty()
                    &&& response matches Some(Response::Error(w))
                    &&& exists|e: Error| #[trigger]
                        is_wire_of(w, e) && e@ == ErrorSpec::ContainerNotStarted(container@)
                },
            }
        },
        Request::Ident | Request::Install { .. } | Request::TokenCreate { .. }
        | Request::TokenVerify { .. } => {
            &&& unchanged
            &&& actions == Seq::<ActionSpec>::empty()
            &&& response matches Some(Response::Error(w))
            &&& exists|e: Error| #[trigger]
                is_wire_of(w, e) && e@ == ErrorSpec::Io("Unexpected request"@, IoKind::InvalidData)
        },
        _ => exists|r: Result<Vec<Action>, Error>| #[trigger]
            changes(before, after, request, r) && is_reply(r, response, actions),
    }
}

/// Answers the outcome of a request.
fn reply(r: Result<Vec<Action>, Error>) -> (served: Served)
    ensures
        is_reply(r, served.response, action_specs(served.actions@)),
{
    match r {
        Ok(actions) => Served { response: Some(Response::Done), actions },
        Err(e) => {
            let actions: Vec<Action> = Vec::new();
            proof {
                assert(action_specs(actions@) =~= Seq::<ActionSpec>::empty());
            }
            Served { response: Some(Response::Error(e.to_wire())), actions }
        },
    }
}

/// Answers with an error and nothing to do.
fn refuse(e: Error) -> (served: Served)
    ensures
        served.response matches Some(Response::Error(w)) && is_wire_of(w, e),
        action_specs(served.actions@) == Seq::<ActionSpec>::empty(),
{
    let actions: Vec<Action> = Vec::new();
    proof {
        assert(action_specs(actions@) =~= Seq::<ActionSpec>::empty());
    }
    Served { response: Some(Response::Error(e.to_wire())), actions }
}

/// Takes a request that a console connection passed on, changes the state
/// as the request asks, and says what is answered and what the runtime has
/// to do.
pub fn handle(state: &mut State, request: &Request) -> (served: Served)
    ensures
        handles(
            old(state),
            final(state),
            *request,
            served.response,
            action_specs(served.actions@),
        ),
{
    let ghost before = *state;
    match request {
        Request::Containers => {
            let actions: Vec<Action> = Vec::new();
            proof {
                assert(action_specs(actions@) =~= Seq::<ActionSpec>::empty());
            }
            Served { response: Some(Response::Containers(state.list())), actions }
        },
        Request::Repositories => {
            let actions: Vec<Action> = Vec::new();
            proof {
                assert(action_specs(actions@) =~= Seq::<ActionSpec>::empty());
            }
            Served { response: Some(Response::Repositories(state.repository_names())), actions }
        },
        Request::ContainerStats { container } => match state.status(container) {
            None => refuse(Error::InvalidContainer(container.clone())),
            Some(status) => {
                if status.pid().is_some() {
                    let mut actions: Vec<Action> = Vec::new();
                    actions.push(Action::Stats(container.clone()));
                    proof {
                        assert(action_specs(actions@) =~= seq![ActionSpec::Stats(container@)]);
                    }
                    Served { response: None, actions }
                } else {
                    refuse(Error::ContainerNotStarted(container.clone()))
                }
            },
        },
        Request::Mount { containers } => {
            let r = state.mount_all(containers);
            proof {
                assert(changes(&before, state, *request, r));
            }
            reply(r)
        },
        Request::Umount { containers } => {
            let r = state.umount_all(containers);
            proof {
                assert(changes(&before, state, *request, r));
            }
            reply(r)
        },
        Request::Start { container, .. } => {
            let r = state.start(container);
            proof {
                assert(changes(&before, state, *request, r));
            }
            reply(r)
        },
        Request::Kill { container, signal } => {
            let r = state.kill(container, *signal);
            proof {
                assert(changes(&before, state, *request, r));
            }
            reply(r)
        },
        Request::Uninstall { container } => {
            let r = state.uninstall(container);
            proof {
                assert(changes(&before, state, *request, r));
            }
            reply(r)
        },
        Request::Shutdown => {
            let r: Result<Vec<Action>, Error> = Ok(state.stop_all(sigterm()));
            proof {
                assert(changes(&before, state, *request, r));
            }
            reply(r)
        },
        _ => refuse(Error::Io(String::from_str("Unexpected request"), IoKind::InvalidData)),
    }
}

} // verus!
