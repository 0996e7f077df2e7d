//! The state of the runtime: its repositories, the containers installed in
//! them, and where each container stands in its life cycle.

use crate::api::ContainerData;
use crate::container::{identities, match_container, resolve, Container, ContainerId};
use crate::error::{Error, ErrorSpec, IoKind};
use crate::event::{ContainerEvent, ExitStatus};
use crate::manifest;
use crate::manifest::{Manifest, OnExit};
use crate::repository::{Attempt, Repository};
use vstd::prelude::*;
use vstd::string::*;

verus! {

/// Where a container stands in its life cycle.
#[derive(Clone, Copy, Debug, Hash, PartialEq, Eq, Structural)]
pub enum Status {
    /// The package is in a repository; nothing is mounted.
    Installed,
    /// The container's root is mounted.
    Mounted,
    /// The init helper is being started.
    Starting,
    /// The container runs as the process `pid` since `started_at`.
    Running { pid: u32, started_at: u64 },
    /// The process `pid` was sent a signal and is waited for.
    Stopping { pid: u32 },
    /// The process ended.
    Exited { status: ExitStatus },
}

impl Status {
    /// Whether the container's root is mounted in this status: in every
    /// status but `Installed`.
    pub open spec fn is_mounted(self) -> bool {
        self != Status::Installed
    }

    /// Whether the container has a process in this status.
    pub open spec fn is_started(self) -> bool {
        self is Starting || self is Running || self is Stopping
    }

    /// Whether the container's root is mounted in this status.
    pub fn mounted(&self) -> (r: bool)
        ensures
            r == self.is_mounted(),
    {
        match self {
            Status::Installed => false,
            _ => true,
        }
    }
}

/// What the runtime has to do after a transition.
#[derive(Clone, Debug, PartialEq, Eq)]
pub enum Action {
    /// Tell the subscribers of the event on the container.
    Notify(Container, ContainerEvent),
    /// Create the container's root and mount what belongs there.
    Mount(Container),
    /// Take the container's mounts down again.
    Umount(Container),
    /// Start the init helper of the container.
    Start(Container),
    /// Send the signal to the process.
    Signal { pid: u32, signal: i32 },
    /// Delete the file.
    Delete(String),
    /// Read the statistics of the container's control group and hand them
    /// back as the reply.
    Stats(Container),
}

/// One installed container.
#[derive(Debug, PartialEq, Eq)]
pub struct Slot {
    pub container: Container,
    /// The position of the container's repository.
    pub repository: usize,
    pub manifest: Manifest,
    pub status: Status,
    /// How often the process ended since the container was last started on
    /// request.
    pub exits: u32,
}

/// The position of the container `id` among `slots`, if it is there.
pub open spec fn slot_of(slots: Seq<Slot>, id: ContainerId) -> Option<int>
    decreases slots.len(),
{
    if slots.len() == 0 {
        None
    } else {
        match slot_of(slots.drop_last(), id) {
            Some(i) => Some(i),
            None => if slots.last().container@ == id {
                Some(slots.len() - 1)
            } else {
                None
            },
        }
    }
}

/// Whether no two of `slots` hold the same container.
pub open spec fn unique(slots: Seq<Slot>) -> bool {
    forall|i: int, j: int|
        0 <= i < j < slots.len() ==> (#[trigger] slots[i]).container@ != (
        #[trigger] slots[j]).container@
}

/// What [`slot_of`] finds is the first slot of the container, and where it
/// finds none there is none.
pub proof fn slot_of_is_first(slots: Seq<Slot>, id: ContainerId)
    ensures
        match slot_of(slots, id) {
            Some(i) => {
                &&& 0 <= i < slots.len()
                &&& slots[i].container@ == id
                &&& forall|j: int| 0 <= j < i ==> (#[trigger] slots[j]).container@ != id
            },
            None => forall|j: int| 0 <= j < slots.len() ==> (#[trigger] slots[j]).container@ != id,
        },
    decreases slots.len(),
{
    if slots.len() > 0 {
        slot_of_is_first(slots.drop_last(), id);
        assert(forall|j: int| 0 <= j < slots.len() - 1 ==> slots.drop_last()[j] == slots[j]);
    }
}

/// The mathematical content of an [`Action`].
pub enum ActionSpec {
    Notify(ContainerId, ContainerEvent),
    Mount(ContainerId),
    Umount(ContainerId),
    Start(ContainerId),
    Signal { pid: u32, signal: i32 },
    Delete(Seq<char>),
    Stats(ContainerId),
}

impl View for Action {
    type V = ActionSpec;

    open spec fn view(&self) -> ActionSpec {
        match self {
            Action::Notify(c, e) => ActionSpec::Notify(c@, *e),
            Action::Mount(c) => ActionSpec::Mount(c@),
            Action::Umount(c) => ActionSpec::Umount(c@),
            Action::Start(c) => ActionSpec::Start(c@),
            Action::Signal { pid, signal } => ActionSpec::Signal { pid: *pid, signal: *signal },
            Action::Delete(path) => ActionSpec::Delete(path@),
            Action::Stats(c) => ActionSpec::Stats(c@),
        }
    }
}

/// The contents of a list of actions, in order.
pub open spec fn action_specs(actions: Seq<Action>) -> Seq<ActionSpec> {
    actions.map_values(|a: Action| a@)
}

/// The identities of the containers in `slots`, in order.
pub open spec fn slot_identities(slots: Seq<Slot>) -> Seq<ContainerId> {
    Seq::new(slots.len(), |i: int| slots[i].container@)
}

/// The state of the runtime.
#[derive(Debug, PartialEq, Eq)]
pub struct State {
    repositories: Vec<Repository>,
    slots: Vec<Slot>,
}

/// The slots `slots` with the status and the exit count of the slot at
/// position `i` replaced.
pub open spec fn with_status(slots: Seq<Slot>, i: int, status: Status, exits: u32) -> Seq<Slot> {
    slots.update(
        i,
        Slot {
            container: slots[i].container,
            repository: slots[i].repository,
            manifest: slots[i].manifest,
            status,
            exits,
        },
    )
}

/// Whether every one of `slots` lies in the repository it names, and holds
/// the container that its manifest declares.
pub open spec fn housed(slots: Seq<Slot>, repositories: Seq<Repository>) -> bool {
    forall|i: int|
        0 <= i < slots.len() ==> {
            &&& (#[trigger] slots[i]).repository < repositories.len()
            &&& repositories[slots[i].repository as int]@.contains_key(slots[i].container@)
            &&& slots[i].manifest.identity() == slots[i].container@
        }
}

/// Whether one of `slots` holds a container that runs as the process `pid`.
pub open spec fn process_in_use(slots: Seq<Slot>, pid: u32) -> bool {
    exists|j: int| 0 <= j < slots.len() && (#[trigger] slots[j]).status.process() == Some(pid)
}

/// Whether no two of `slots` hold containers that run as the same process.
pub open spec fn single_process(slots: Seq<Slot>) -> bool {
    forall|i: int, j: int|
        0 <= i < j < slots.len() && (#[trigger] slots[i]).status.process() is Some
            ==> slots[i].status.process() != (#[trigger] slots[j]).status.process()
}

impl State {
    /// The rule that every state keeps: no container is installed twice,
    /// every installed container has its package in the repository that it
    /// was installed to, and no two containers run as the same process.
    #[verifier::type_invariant]
    pub closed spec fn wf(&self) -> bool {
        &&& unique(self.slots@)
        &&& housed(self.slots@, self.repositories@)
        &&& single_process(self.slots@)
    }

    /// The installed containers, in the order in which they were installed.
    pub closed spec fn slots(&self) -> Seq<Slot> {
        self.slots@
    }

    /// The repositories, in the order in which they were added.
    pub closed spec fn repositories(&self) -> Seq<Repository> {
        self.repositories@
    }

    /// The status of the container `id`, or `None` where it is not
    /// installed.
    pub open spec fn status_of(&self, id: ContainerId) -> Option<Status> {
        match slot_of(self.slots(), id) {
            Some(i) => Some(self.slots()[i].status),
            None => None,
        }
    }

    /// The identities of the installed containers, in order.
    pub open spec fn installed(&self) -> Seq<ContainerId> {
        slot_identities(self.slots())
    }

    /// The state without repositories and containers.
    pub fn new() -> (state: State)
        ensures
            state.slots().len() == 0,
            state.repositories().len() == 0,
    {
        State { repositories: Vec::new(), slots: Vec::new() }
    }

    /// Adds a repository, after those that are there, and says at which
    /// position it stands.
    pub fn add_repository(&mut self, repository: Repository) -> (position: usize)
        ensures
            position == old(self).repositories().len(),
            final(self).repositories() == old(self).repositories().push(repository),
            final(self).slots() == old(self).slots(),
    {
        proof {
            use_type_invariant(&*self);
        }
        let position = self.repositories.len();
        let mut repositories: Vec<Repository> = Vec::new();
        let mut slots: Vec<Slot> = Vec::new();
        core::mem::swap(&mut slots, &mut self.slots);
        core::mem::swap(&mut repositories, &mut self.repositories);
        repositories.push(repository);
        self.repositories = repositories;
        self.slots = slots;
        position
    }

    /// The position of the first repository named `id`, if there is one.
    pub fn find_repository(&self, id: &str) -> (found: Option<usize>)
        ensures
            match found {
                Some(k) => {
                    &&& k < self.repositories().len()
                    &&& self.repositories()[k as int].name() == id@
                    &&& forall|j: int| 0 <= j < k ==> (#[trigger] self.repositories()[j]).name() != id@
                },
                None => forall|j: int|
                    0 <= j < self.repositories().len() ==> (#[trigger] self.repositories()[j]).name()
                        != id@,
            },
    {
        let mut k: usize = 0;
        while k < self.repositories.len()
            invariant
                k <= self.repositories.len(),
                forall|j: int| 0 <= j < k ==> (#[trigger] self.repositories@[j]).name() != id@,
            decreases self.repositories.len() - k,
        {
            if crate::text::same_text(self.repositories[k].id().as_str(), id) {
                return Some(k);
            }
            k += 1;
        }
        None
    }

    /// The position of the slot of `container`, if it is installed.
    fn find(&self, container: &Container) -> (found: Option<usize>)
        ensures
            match found {
                Some(i) => slot_of(self.slots@, container@) == Some(i as int) && i
                    < self.slots@.len(),
                None => slot_of(self.slots@, container@) is None,
            },
    {
        let mut i: usize = 0;
        while i < self.slots.len()
            invariant
                i <= self.slots.len(),
                slot_of(self.slots@.take(i as int), container@) is None,
            decreases self.slots.len() - i,
        {
            proof {
                assert(self.slots@.take(i + 1).drop_last() =~= self.slots@.take(i as int));
                slot_of_is_first(self.slots@, container@);
                slot_of_is_first(self.slots@.take(i as int), container@);
            }
            if self.slots[i].container.same(container) {
                proof {
                    assert forall|j: int| 0 <= j < i implies (#[trigger] self.slots@[j]).container@
                        != container@ by {
                        assert(self.slots@.take(i as int)[j] == self.slots@[j]);
                    }
                }
                return Some(i);
            }
            i += 1;
        }
        proof {
            assert(self.slots@.take(i as int) =~= self.slots@);
        }
        None
    }

    /// Whether a container runs as the process `pid`.
    pub fn runs(&self, pid: u32) -> (r: bool)
        ensures
            r == process_in_use(self.slots(), pid),
    {
        let mut j: usize = 0;
        while j < self.slots.len()
            invariant
                j <= self.slots.len(),
                forall|k: int| 0 <= k < j ==> (#[trigger] self.slots@[k]).status.process() != Some(pid),
            decreases self.slots.len() - j,
        {
            if self.slots[j].status.pid() == Some(pid) {
                return true;
            }
            j += 1;
        }
        false
    }

    /// The status of `container`, or `None` where it is not installed.
    pub fn status(&self, container: &Container) -> (status: Option<Status>)
        ensures
            status == self.status_of(container@),
    {
        match self.find(container) {
            Some(i) => Some(self.slots[i].status),
            None => None,
        }
    }

    /// The installed containers, in the order in which they were installed.
    pub fn containers(&self) -> (list: Vec<Container>)
        ensures
            identities(list@) == self.installed(),
    {
        let mut list: Vec<Container> = Vec::new();
        let mut i: usize = 0;
        while i < self.slots.len()
            invariant
                i <= self.slots.len(),
                list@.len() == i,
                forall|j: int| 0 <= j < i ==> (#[trigger] list@[j])@ == self.slots@[j].container@,
            decreases self.slots.len() - i,
        {
            list.push(self.slots[i].container.clone());
            i += 1;
        }
        proof {
            assert(identities(list@) =~= slot_identities(self.slots@));
        }
        list
    }

    /// Replaces the status and the exit count of the slot at position `i`.
    fn set_status(&mut self, i: usize, status: Status, exits: u32)
        requires
            i < old(self).slots().len(),
            status.process() is None || status.process() == old(self).slots()[i as int].status.process()
                || !process_in_use(old(self).slots(), status.process()->Some_0),
        ensures
            final(self).slots() == with_status(old(self).slots(), i as int, status, exits),
            final(self).repositories() == old(self).repositories(),
    {
        proof {
            use_type_invariant(&*self);
        }
        let mut slots: Vec<Slot> = Vec::new();
        core::mem::swap(&mut slots, &mut self.slots);
        let ghost before = slots@;
        let slot = slots.remove(i);
        let changed = Slot {
            container: slot.container,
            repository: slot.repository,
            manifest: slot.manifest,
            status,
            exits,
        };
        slots.insert(i, changed);
        proof {
            let after = with_status(before, i as int, status, exits);
            assert(slots@ =~= after);
            assert forall|a: int, b: int| 0 <= a < b < after.len() implies (
            #[trigger] after[a]).container@ != (#[trigger] after[b]).container@ by {
                assert(before[a].container@ != before[b].container@);
            }
            assert forall|k: int| 0 <= k < after.len() implies {
                &&& (#[trigger] after[k]).repository < self.repositories@.len()
                &&& self.repositories@[after[k].repository as int]@.contains_key(after[k].container@)
                &&& after[k].manifest.identity() == after[k].container@
            } by {
                assert(before[k].repository < self.repositories@.len());
            }
            assert forall|a: int, b: int|
                0 <= a < b < after.len() && (#[trigger] after[a]).status.process()
                    is Some implies after[a].status.process() != (
            #[trigger] after[b]).status.process() by {
                if a != i && b != i {
                    assert(before[a].status.process() != before[b].status.process());
                } else if a == i {
                    if status.process() == before[i as int].status.process() {
                        assert(before[a].status.process() != before[b].status.process());
                    } else {
                        assert(before[b].status.process() != status.process());
                    }
                } else {
                    if status.process() is Some {
                        if status.process() == before[i as int].status.process() {
                            assert(before[a].status.process() != before[b].status.process());
                        } else {
                            assert(before[a].status.process() != status.process());
                        }
                    }
                }
            }
        }
        self.slots = slots;
    }
}

/// A request or an event that moves one container through its life cycle.
#[derive(Clone, Copy, Debug, Hash, PartialEq, Eq, Structural)]
pub enum Op {
    /// Mount the container's root.
    Mount,
    /// Take the container's mounts down.
    Umount,
    /// Start the container.
    Start,
    /// The init helper runs, as the process `pid` since `at`.
    Started { pid: u32, at: u64 },
    /// The init helper could not be started.
    StartFailed,
    /// The container's process ended.
    Exited { status: ExitStatus },
    /// Send the container's process a signal.
    Kill { signal: i32 },
}

/// What a transition leads to: the new status and exit count, and what the
/// runtime has to do.
pub struct Next {
    pub status: Status,
    pub exits: u32,
    pub actions: Seq<ActionSpec>,
}

/// Whether a container that has ended `exits` times is started again under
/// the policy `on_exit`: only while it has ended fewer times than the policy
/// allows.
pub open spec fn restarts(on_exit: Option<OnExit>, exits: u32) -> bool {
    on_exit matches Some(OnExit::Restart(n)) && exits < n
}

/// The exit count after one more exit; it stops at the largest number.
pub open spec fn one_more(exits: u32) -> u32 {
    if exits < u32::MAX {
        (exits + 1) as u32
    } else {
        exits
    }
}

/// What `op` leads to for the container `id` that is in `status`, has ended
/// `exits` times and has the restart policy `on_exit`. `missing` names the
/// first resource that the container declares and that no installed
/// container provides, if there is one.
pub open spec fn transition(
    id: ContainerId,
    status: Status,
    exits: u32,
    on_exit: Option<OnExit>,
    missing: Option<(Seq<char>, Seq<char>)>,
    op: Op,
) -> Result<Next, ErrorSpec> {
    match op {
        Op::Mount => match status {
            Status::Installed => Ok(
                Next { status: Status::Mounted, exits, actions: seq![ActionSpec::Mount(id)] },
            ),
            _ => Ok(Next { status, exits, actions: seq![] }),
        },
        Op::Umount => match status {
            Status::Installed => Ok(Next { status, exits, actions: seq![] }),
            Status::Mounted | Status::Exited { .. } => Ok(
                Next { status: Status::Installed, exits: 0, actions: seq![ActionSpec::Umount(id)] },
            ),
            _ => Err(ErrorSpec::ContainerStarted(id)),
        },
        Op::Start => match status {
            Status::Installed => Err(ErrorSpec::ContainerNotMounted(id)),
            Status::Mounted | Status::Exited { .. } => match missing {
                Some((name, version)) => Err(
                    ErrorSpec::StartContainerMissingResource(id, name, version),
                ),
                None => Ok(
                    Next { status: Status::Starting, exits: 0, actions: seq![ActionSpec::Start(id)] },
                ),
            },
            _ => Err(ErrorSpec::ContainerStarted(id)),
        },
        Op::Started { pid, at } => match status {
            Status::Starting => Ok(
                Next {
                    status: Status::Running { pid, started_at: at },
                    exits,
                    actions: seq![ActionSpec::Notify(id, ContainerEvent::Started)],
                },
            ),
            _ => Err(ErrorSpec::ContainerNotStarted(id)),
        },
        Op::StartFailed => match status {
            Status::Starting => Ok(Next { status: Status::Mounted, exits, actions: seq![] }),
            _ => Err(ErrorSpec::ContainerNotStarted(id)),
        },
        Op::Exited { status: exit } => match status {
            Status::Running { .. } => if restarts(on_exit, one_more(exits)) {
                Ok(
                    Next {
                        status: Status::Starting,
                        exits: one_more(exits),
                        actions: seq![
                            ActionSpec::Notify(id, ContainerEvent::Exit(exit)),
                            ActionSpec::Start(id),
                        ],
                    },
                )
            } else {
                Ok(
                    Next {
                        status: Status::Exited { status: exit },
                        exits: one_more(exits),
                        actions: seq![ActionSpec::Notify(id, ContainerEvent::Exit(exit))],
                    },
                )
            },
            Status::Stopping { .. } => Ok(
                Next {
                    status: Status::Exited { status: exit },
                    exits,
                    actions: seq![ActionSpec::Notify(id, ContainerEvent::Exit(exit))],
                },
            ),
            _ => Err(ErrorSpec::ContainerNotStarted(id)),
        },
        Op::Kill { signal } => match status {
            Status::Running { pid, .. } => Ok(
                Next {
                    status: Status::Stopping { pid },
                    exits,
                    actions: seq![ActionSpec::Signal { pid, signal }],
                },
            ),
            _ => Err(ErrorSpec::ContainerNotStarted(id)),
        },
    }
}

/// The first resource among the declared mounts `points` that none of the
/// containers `installed` provides: its name and the requirement on its
/// version. `None` where every declared resource is provided.
pub open spec fn missing_resource(
    points: Seq<manifest::MountPoint>,
    installed: Seq<ContainerId>,
) -> Option<(Seq<char>, Seq<char>)>
    decreases points.len(),
{
    if points.len() == 0 {
        None
    } else {
        match missing_resource(points.drop_last(), installed) {
            Some(found) => Some(found),
            None => match points.last().mount {
                manifest::Mount::Resource { name, version, .. } => if resolve(
                    installed,
                    name@,
                    version@,
                ) is None {
                    Some((name@, version@))
                } else {
                    None
                },
                _ => None,
            },
        }
    }
}

/// Looks for the first declared resource that no installed container
/// provides.
pub fn find_missing_resource(manifest: &Manifest, containers: &Vec<Container>) -> (missing: Option<
    (String, String),
>)
    ensures
        match missing_resource(manifest.mounts@, identities(containers@)) {
            Some((name, version)) => missing matches Some((n, v)) && n@ == name && v@ == version,
            None => missing is None,
        },
{
    let mut i: usize = 0;
    while i < manifest.mounts.len()
        invariant
            i <= manifest.mounts.len(),
            missing_resource(manifest.mounts@.take(i as int), identities(containers@)) is None,
        decreases manifest.mounts.len() - i,
    {
        proof {
            assert(manifest.mounts@.take(i + 1).drop_last() =~= manifest.mounts@.take(i as int));
        }
        match &manifest.mounts[i].mount {
            manifest::Mount::Resource { name, version, .. } => {
                if match_container(name.as_str(), version.as_str(), containers).is_none() {
                    proof {
                        missing_stays_first(
                            manifest.mounts@,
                            identities(containers@),
                            i + 1,
                        );
                    }
                    return Some((name.clone(), version.clone()));
                }
            },
            _ => {},
        }
        i += 1;
    }
    proof {
        assert(manifest.mounts@.take(i as int) =~= manifest.mounts@);
    }
    None
}

/// The first missing resource among the first `k` declared mounts is the
/// first missing resource among all of them.
pub proof fn missing_stays_first(
    points: Seq<manifest::MountPoint>,
    installed: Seq<ContainerId>,
    k: int,
)
    requires
        0 <= k <= points.len(),
        missing_resource(points.take(k), installed) is Some,
    ensures
        missing_resource(points, installed) == missing_resource(points.take(k), installed),
    decreases points.len() - k,
{
    if k == points.len() {
        assert(points.take(k) =~= points);
    } else {
        assert(points.take(k + 1).drop_last() =~= points.take(k));
        missing_stays_first(points, installed, k + 1);
    }
}

/// Whether `r` holds what `expected` says: the same actions, or the same
/// error.
pub open spec fn is_outcome(r: Result<Vec<Action>, Error>, expected: Result<Next, ErrorSpec>) -> bool {
    match expected {
        Ok(next) => r matches Ok(actions) && action_specs(actions@) == next.actions,
        Err(e) => r matches Err(x) && x@ == e,
    }
}

impl State {
    /// What `op` leads to for the container `id` in this state, or `None`
    /// where the container is not installed. A container is not taken to
    /// run as a process that a container runs as already; otherwise the life
    /// cycle decides.
    pub open spec fn next(&self, id: ContainerId, op: Op) -> Option<Result<Next, ErrorSpec>> {
        match slot_of(self.slots(), id) {
            Some(i) => {
                let slot = self.slots()[i];
                match op {
                    Op::Started { pid, .. } if process_in_use(self.slots(), pid) => Some(
                        Err(ErrorSpec::ProcessInUse(id, pid)),
                    ),
                    _ => Some(
                        transition(
                            id,
                            slot.status,
                            slot.exits,
                            slot.manifest.on_exit,
                            missing_resource(slot.manifest.mounts@, self.installed()),
                            op,
                        ),
                    ),
                }
            },
            None => None,
        }
    }

    /// Whether this state and the result `r` are what `op` on the container
    /// `id` makes of the state `before`.
    ///
    /// A container that is not installed is an error. A transition that the
    /// life cycle does not allow is an error. Every error leaves the state as
    /// it was; a transition changes the status and the exit count of the one
    /// container and nothing else.
    pub open spec fn follows(&self, before: &State, id: ContainerId, op: Op, r: Result<
        Vec<Action>,
        Error,
    >) -> bool {
        &&& self.repositories() == before.repositories()
        &&& match before.next(id, op) {
            None => {
                &&& r matches Err(x)
                &&& x@ == ErrorSpec::InvalidContainer(id)
                &&& self.slots() == before.slots()
            },
            Some(expected) => {
                &&& is_outcome(r, expected)
                &&& match expected {
                    Ok(next) => self.slots() == with_status(
                        before.slots(),
                        slot_of(before.slots(), id)->Some_0,
                        next.status,
                        next.exits,
                    ),
                    Err(_) => self.slots() == before.slots(),
                }
            },
        }
    }

    /// Moves `container` through its life cycle as `op` asks, and says what
    /// the runtime has to do.
    pub fn apply(&mut self, container: &Container, op: Op) -> (r: Result<Vec<Action>, Error>)
        ensures
            final(self).follows(old(self), container@, op, r),
    {
        let i = match self.find(container) {
            Some(i) => i,
            None => {
                return Err(Error::InvalidContainer(container.clone()));
            },
        };
        let status = self.slots[i].status;
        let exits = self.slots[i].exits;
        let on_exit = self.slots[i].manifest.on_exit;
        let mut actions: Vec<Action> = Vec::new();
        proof {
            assert(action_specs(actions@) =~= seq![]);
        }
        match op {
            Op::Mount => match status {
                Status::Installed => {
                    actions.push(Action::Mount(container.clone()));
                    proof {
                        assert(action_specs(actions@) =~= seq![ActionSpec::Mount(container@)]);
                    }
                    self.set_status(i, Status::Mounted, exits);
                },
                _ => {
                    proof {
                        assert(self.slots@ =~= with_status(self.slots@, i as int, status, exits));
                    }
                },
            },
            Op::Umount => match status {
                Status::Installed => {
                    proof {
                        assert(self.slots@ =~= with_status(self.slots@, i as int, status, exits));
                    }
                },
                Status::Mounted | Status::Exited { .. } => {
                    actions.push(Action::Umount(container.clone()));
                    proof {
                        assert(action_specs(actions@) =~= seq![ActionSpec::Umount(container@)]);
                    }
                    self.set_status(i, Status::Installed, 0);
                },
                _ => {
                    return Err(Error::ContainerStarted(container.clone()));
                },
            },
            Op::Start => match status {
                Status::Installed => {
                    return Err(Error::ContainerNotMounted(container.clone()));
                },
                Status::Mounted | Status::Exited { .. } => {
                    let installed = self.containers();
                    match find_missing_resource(&self.slots[i].manifest, &installed) {
                        Some((name, version)) => {
                            return Err(
                                Error::StartContainerMissingResource(
                                    container.clone(),
                                    name,
                                    version,
                                ),
                            );
                        },
                        None => {},
                    }
                    actions.push(Action::Start(container.clone()));
                    proof {
                        assert(action_specs(actions@) =~= seq![ActionSpec::Start(container@)]);
                    }
                    self.set_status(i, Status::Starting, 0);
                },
                _ => {
                    return Err(Error::ContainerStarted(container.clone()));
                },
            },
            Op::Started { pid, at } => match status {
                _ if self.runs(pid) => {
                    return Err(Error::ProcessInUse(container.clone(), pid));
                },
                Status::Starting => {
                    actions.push(Action::Notify(container.clone(), ContainerEvent::Started));
                    proof {
                        assert(action_specs(actions@) =~= seq![
                            ActionSpec::Notify(container@, ContainerEvent::Started),
                        ]);
                    }
                    self.set_status(i, Status::Running { pid, started_at: at }, exits);
                },
                _ => {
                    return Err(Error::ContainerNotStarted(container.clone()));
                },
            },
            Op::StartFailed => match status {
                Status::Starting => {
                    self.set_status(i, Status::Mounted, exits);
                },
                _ => {
                    return Err(Error::ContainerNotStarted(container.clone()));
                },
            },
            Op::Exited { status: exit } => match status {
                Status::Running { .. } => {
                    let count = if exits < u32::MAX {
                        exits + 1
                    } else {
                        exits
                    };
                    let again = match on_exit {
                        Some(OnExit::Restart(n)) => count < n,
                        None => false,
                    };
                    actions.push(Action::Notify(container.clone(), ContainerEvent::Exit(exit)));
                    if again {
                        actions.push(Action::Start(container.clone()));
                        proof {
                            assert(action_specs(actions@) =~= seq![
                                ActionSpec::Notify(container@, ContainerEvent::Exit(exit)),
                                ActionSpec::Start(container@),
                            ]);
                        }
                        self.set_status(i, Status::Starting, count);
                    } else {
                        proof {
                            assert(action_specs(actions@) =~= seq![
                                ActionSpec::Notify(container@, ContainerEvent::Exit(exit)),
                            ]);
                        }
                        self.set_status(i, Status::Exited { status: exit }, count);
                    }
                },
                Status::Stopping { .. } => {
                    actions.push(Action::Notify(container.clone(), ContainerEvent::Exit(exit)));
                    proof {
                        assert(action_specs(actions@) =~= seq![
                            ActionSpec::Notify(container@, ContainerEvent::Exit(exit)),
                        ]);
                    }
                    self.set_status(i, Status::Exited { status: exit }, exits);
                },
                _ => {
                    return Err(Error::ContainerNotStarted(container.clone()));
                },
            },
            Op::Kill { signal } => match status {
                Status::Running { pid, .. } => {
                    actions.push(Action::Signal { pid, signal });
                    proof {
                        assert(action_specs(actions@) =~= seq![ActionSpec::Signal { pid, signal }]);
                    }
                    self.set_status(i, Status::Stopping { pid }, exits);
                },
                _ => {
                    return Err(Error::ContainerNotStarted(container.clone()));
                },
            },
        }
        Ok(actions)
    }
}

impl State {
    /// Mounts the root of `container`. Where it is mounted already, nothing
    /// is done and the request succeeds.
    pub fn mount(&mut self, container: &Container) -> (r: Result<Vec<Action>, Error>)
        ensures
            final(self).follows(old(self), container@, Op::Mount, r),
    {
        self.apply(container, Op::Mount)
    }

    /// Takes the mounts of `container` down.
    pub fn umount(&mut self, container: &Container) -> (r: Result<Vec<Action>, Error>)
        ensures
            final(self).follows(old(self), container@, Op::Umount, r),
    {
        self.apply(container, Op::Umount)
    }

    /// Starts `container`. Fails, and leaves the container as it was, where
    /// it declares a resource that no installed container provides.
    pub fn start(&mut self, container: &Container) -> (r: Result<Vec<Action>, Error>)
        ensures
            final(self).follows(old(self), container@, Op::Start, r),
    {
        self.apply(container, Op::Start)
    }

    /// Sends the process of `container` a signal.
    pub fn kill(&mut self, container: &Container, signal: i32) -> (r: Result<Vec<Action>, Error>)
        ensures
            final(self).follows(old(self), container@, Op::Kill { signal }, r),
    {
        self.apply(container, Op::Kill { signal })
    }

    /// Takes note that the init helper of `container` runs.
    pub fn started(&mut self, container: &Container, pid: u32, at: u64) -> (r: Result<
        Vec<Action>,
        Error,
    >)
        ensures
            final(self).follows(old(self), container@, Op::Started { pid, at }, r),
    {
        self.apply(container, Op::Started { pid, at })
    }

    /// Takes note that the process of `container` ended, and starts the
    /// container again where its restart policy says so.
    pub fn exited(&mut self, container: &Container, status: ExitStatus) -> (r: Result<
        Vec<Action>,
        Error,
    >)
        ensures
            final(self).follows(old(self), container@, Op::Exited { status }, r),
    {
        self.apply(container, Op::Exited { status })
    }
}

/// Mounting a container that is mounted already changes nothing and
/// succeeds without anything to do.
pub proof fn mount_is_idempotent(
    id: ContainerId,
    status: Status,
    exits: u32,
    on_exit: Option<OnExit>,
    missing: Option<(Seq<char>, Seq<char>)>,
)
    requires
        status.is_mounted(),
    ensures
        transition(id, status, exits, on_exit, missing, Op::Mount) == Ok::<Next, ErrorSpec>(
            Next { status, exits, actions: seq![] },
        ),
{
}

/// Whatever a transition leads to, a container that has a process is
/// mounted, and was mounted before. A container begins to start only where
/// none of its resources is missing, or where it is started again after its
/// process ended.
pub proof fn started_is_mounted(
    id: ContainerId,
    status: Status,
    exits: u32,
    on_exit: Option<OnExit>,
    missing: Option<(Seq<char>, Seq<char>)>,
    op: Op,
)
    requires
        transition(id, status, exits, on_exit, missing, op) is Ok,
    ensures
        ({
            let next = transition(id, status, exits, on_exit, missing, op)->Ok_0;
            &&& next.status.is_started() ==> next.status.is_mounted() && status.is_mounted()
            &&& next.status is Starting && !(status is Starting) ==> missing is None || status is Running
        }),
{
}

/// Under the policy `Restart(n)` a container whose process has ended `n`
/// times is not started again: it stays exited. Before that, every exit
/// starts it again.
pub proof fn restart_stops_after_n_exits(
    id: ContainerId,
    pid: u32,
    started_at: u64,
    exits: u32,
    n: u32,
    missing: Option<(Seq<char>, Seq<char>)>,
    exit: ExitStatus,
)
    requires
        exits < u32::MAX,
    ensures
        ({
            let next = transition(
                id,
                Status::Running { pid, started_at },
                exits,
                Some(OnExit::Restart(n)),
                missing,
                Op::Exited { status: exit },
            )->Ok_0;
            &&& next.exits == exits + 1
            &&& exits + 1 >= n ==> next.status == (Status::Exited { status: exit })
                && next.actions == seq![ActionSpec::Notify(id, ContainerEvent::Exit(exit))]
            &&& exits + 1 < n ==> next.status == Status::Starting && next.actions == seq![
                ActionSpec::Notify(id, ContainerEvent::Exit(exit)),
                ActionSpec::Start(id),
            ]
        }),
{
}

/// Where a container declares a resource that no installed container
/// provides, starting it fails with the name and the version of that
/// resource, and the container stays as it was.
pub proof fn missing_resource_fails_start(
    id: ContainerId,
    exits: u32,
    on_exit: Option<OnExit>,
    name: Seq<char>,
    version: Seq<char>,
)
    ensures
        transition(id, Status::Mounted, exits, on_exit, Some((name, version)), Op::Start) == Err::<
            Next,
            ErrorSpec,
        >(ErrorSpec::StartContainerMissingResource(id, name, version)),
{
}

impl State {
    /// No process is the process of two containers: containers that run as
    /// the same process are the same container.
    pub proof fn one_container_per_process(&self, a: ContainerId, b: ContainerId)
        requires
            self.wf(),
            self.status_of(a) is Some,
            self.status_of(b) is Some,
            self.status_of(a)->Some_0.process() is Some,
            self.status_of(a)->Some_0.process() == self.status_of(b)->Some_0.process(),
        ensures
            a == b,
    {
        slot_of_is_first(self.slots@, a);
        slot_of_is_first(self.slots@, b);
        let i = slot_of(self.slots@, a)->Some_0;
        let j = slot_of(self.slots@, b)->Some_0;
        if i < j {
            assert(self.slots@[i].status.process() != self.slots@[j].status.process());
        } else if j < i {
            assert(self.slots@[j].status.process() != self.slots@[i].status.process());
        }
    }

    /// Every installed container, whatever its status, has its package in
    /// one of the repositories.
    pub proof fn installed_has_package(&self, id: ContainerId)
        requires
            self.wf(),
            self.status_of(id) is Some,
        ensures
            exists|k: int|
                0 <= k < self.repositories().len() && (#[trigger] self.repositories()[k])@.contains_key(
                    id,
                ),
    {
        slot_of_is_first(self.slots@, id);
        let i = slot_of(self.slots@, id)->Some_0;
        let k = self.slots@[i].repository as int;
        assert(self.repositories()[k]@.contains_key(id));
    }
}

/// How the attempt went to bring a package file into a repository, with the
/// manifest of the package where it could be loaded.
#[derive(Debug, PartialEq, Eq)]
pub enum Arrival {
    /// A file lies at the destination already; nothing was copied.
    Exists,
    /// The file could not be copied to the destination.
    CopyFailed(IoKind),
    /// The file was copied, but it is no package that can be loaded, for the
    /// reason given.
    Unreadable(String),
    /// The file was copied and loaded; this is its manifest.
    Loaded(Manifest),
}

/// The indexes of `repositories`, in order.
pub open spec fn indexes_of(repositories: Seq<Repository>) -> Seq<Map<ContainerId, Seq<char>>> {
    Seq::new(repositories.len(), |k: int| repositories[k]@)
}

/// The slot of a container that was just installed to the repository at
/// position `repository`.
pub open spec fn is_fresh_slot(slot: Slot, repository: usize, manifest: Manifest) -> bool {
    &&& slot.container@ == manifest.identity()
    &&& slot.repository == repository
    &&& slot.manifest == manifest
    &&& slot.status == Status::Installed
    &&& slot.exits == 0
}

impl State {
    /// The indexes of the repositories, in the order of the repositories.
    pub open spec fn indexes(&self) -> Seq<Map<ContainerId, Seq<char>>> {
        indexes_of(self.repositories())
    }

    /// Whether this state, the result `r` and the actions `actions` are what
    /// installing a package makes of the state `before`. The package was
    /// asked to be installed as `id` to the repository at position
    /// `repository`, and `arrival` says how bringing it there went.
    ///
    /// Only a package that was copied and loaded, and whose container is not
    /// installed yet, is installed: its container enters the repository's
    /// index and the state, in status `Installed`, and the subscribers are
    /// told. Everything else is an error that leaves the indexes and the
    /// containers as they were; a file that was copied in vain is deleted.
    pub open spec fn installs(
        &self,
        before: &State,
        repository: usize,
        id: ContainerId,
        arrival: Arrival,
        r: Result<(), Error>,
        actions: Seq<ActionSpec>,
    ) -> bool {
        if repository >= before.repositories().len() {
            &&& r matches Err(x) && x@ == ErrorSpec::InvalidRepository(repository)
            &&& actions == Seq::<ActionSpec>::empty()
            &&& self.slots() == before.slots()
            &&& self.indexes() == before.indexes()
        } else {
            let destination = before.repositories()[repository as int].package_path(id);
            match arrival {
                Arrival::Exists => {
                    &&& r matches Err(x) && x@ == ErrorSpec::InstallDuplicate(id)
                    &&& actions == Seq::<ActionSpec>::empty()
                    &&& self.slots() == before.slots()
                    &&& self.indexes() == before.indexes()
                },
                Arrival::CopyFailed(kind) => {
                    &&& r matches Err(x) && x@ == ErrorSpec::Io(
                        "Failed to copy npk to repository"@,
                        kind,
                    )
                    &&& actions == Seq::<ActionSpec>::empty()
                    &&& self.slots() == before.slots()
                    &&& self.indexes() == before.indexes()
                },
                Arrival::Unreadable(reason) => {
                    &&& r matches Err(x) && x@ == ErrorSpec::Npk(destination, reason@)
                    &&& actions == seq![ActionSpec::Delete(destination)]
                    &&& self.slots() == before.slots()
                    &&& self.indexes() == before.indexes()
                },
                Arrival::Loaded(manifest) => if before.status_of(manifest.identity()) is Some {
                    &&& r matches Err(x) && x@ == ErrorSpec::InstallDuplicate(manifest.identity())
                    &&& actions == seq![ActionSpec::Delete(destination)]
                    &&& self.slots() == before.slots()
                    &&& self.indexes() == before.indexes()
                } else {
                    &&& r is Ok
                    &&& actions == seq![
                        ActionSpec::Notify(manifest.identity(), ContainerEvent::Installed),
                    ]
                    &&& self.slots().len() == before.slots().len() + 1
                    &&& self.slots().drop_last() == before.slots()
                    &&& is_fresh_slot(self.slots().last(), repository, manifest)
                    &&& self.indexes() == before.indexes().update(
                        repository as int,
                        before.indexes()[repository as int].insert(
                            manifest.identity(),
                            destination,
                        ),
                    )
                },
            }
        }
    }

    /// Says where the package of `container` goes in the repository at
    /// position `repository`, or why it cannot be installed: there is no
    /// such repository, or the container is installed already.
    pub fn check_install(&self, repository: usize, container: &Container) -> (r: Result<
        String,
        Error,
    >)
        ensures
            match r {
                Ok(path) => {
                    &&& repository < self.repositories().len()
                    &&& self.status_of(container@) is None
                    &&& path@ == self.repositories()[repository as int].package_path(container@)
                },
                Err(e) => if repository >= self.repositories().len() {
                    e@ == ErrorSpec::InvalidRepository(repository)
                } else {
                    self.status_of(container@) is Some && e@ == ErrorSpec::InstallDuplicate(
                        container@,
                    )
                },
            },
    {
        if repository >= self.repositories.len() {
            return Err(Error::InvalidRepository(repository));
        }
        if self.find(container).is_some() {
            return Err(Error::InstallDuplicate(container.clone()));
        }
        Ok(self.repositories[repository].destination(container))
    }

    /// Takes a package into the repository at position `repository` and the
    /// container it holds into the state. The package was asked to be
    /// installed as `container`, which says where its file goes; `arrival`
    /// says how bringing it there went.
    pub fn install(&mut self, repository: usize, container: &Container, arrival: Arrival) -> (r: (
        Result<(), Error>,
        Vec<Action>,
    ))
        ensures
            final(self).installs(
                old(self),
                repository,
                container@,
                arrival,
                r.0,
                action_specs(r.1@),
            ),
    {
        proof {
            use_type_invariant(&*self);
        }
        let mut actions: Vec<Action> = Vec::new();
        proof {
            assert(action_specs(actions@) =~= Seq::<ActionSpec>::empty());
        }
        if repository >= self.repositories.len() {
            return (Err(Error::InvalidRepository(repository)), actions);
        }
        let destination = self.repositories[repository].destination(container);
        match arrival {
            Arrival::Exists => (Err(Error::InstallDuplicate(container.clone())), actions),
            Arrival::CopyFailed(kind) => (
                Err(Error::Io(String::from_str("Failed to copy npk to repository"), kind)),
                actions,
            ),
            Arrival::Unreadable(reason) => {
                actions.push(Action::Delete(destination.clone()));
                proof {
                    assert(action_specs(actions@) =~= seq![ActionSpec::Delete(destination@)]);
                }
                (Err(Error::Npk(destination, reason)), actions)
            },
            Arrival::Loaded(manifest) => {
                let actual = manifest.container();
                if self.find(&actual).is_some() {
                    actions.push(Action::Delete(destination));
                    proof {
                        assert(action_specs(actions@) =~= seq![ActionSpec::Delete(destination@)]);
                    }
                    return (Err(Error::InstallDuplicate(actual)), actions);
                }
                let mut repositories: Vec<Repository> = Vec::new();
                let mut slots: Vec<Slot> = Vec::new();
                core::mem::swap(&mut slots, &mut self.slots);
                core::mem::swap(&mut repositories, &mut self.repositories);
                let ghost old_repositories = repositories@;
                let ghost old_slots = slots@;
                let mut target = repositories.remove(repository);
                let ghost old_target = target;
                let _ = target.add(container, Attempt::Loaded(actual.clone()));
                repositories.insert(repository, target);
                actions.push(Action::Notify(actual.clone(), ContainerEvent::Installed));
                slots.push(
                    Slot {
                        container: actual,
                        repository,
                        manifest,
                        status: Status::Installed,
                        exits: 0,
                    },
                );
                proof {
                    let id = manifest.identity();
                    assert(repositories@ =~= old_repositories.update(repository as int, target));
                    assert(action_specs(actions@) =~= seq![
                        ActionSpec::Notify(id, ContainerEvent::Installed),
                    ]);
                    assert(slots@.drop_last() =~= old_slots);
                    slot_of_is_first(old_slots, id);
                    assert(unique(slots@)) by {
                        assert forall|a: int, b: int| 0 <= a < b < slots@.len() implies (
                        #[trigger] slots@[a]).container@ != (#[trigger] slots@[b]).container@ by {
                            if b < old_slots.len() {
                                assert(old_slots[a].container@ != old_slots[b].container@);
                            } else {
                                assert(old_slots[a].container@ != id);
                            }
                        }
                    }
                    assert(housed(slots@, repositories@)) by {
                        assert forall|j: int| 0 <= j < slots@.len() implies {
                            &&& (#[trigger] slots@[j]).repository < repositories@.len()
                            &&& repositories@[slots@[j].repository as int]@.contains_key(
                                slots@[j].container@,
                            )
                            &&& slots@[j].manifest.identity() == slots@[j].container@
                        } by {
                            if j < old_slots.len() {
                                assert(old_slots[j].repository < old_repositories.len());
                            }
                        }
                    }
                    assert(indexes_of(repositories@) =~= indexes_of(old_repositories).update(
                        repository as int,
                        indexes_of(old_repositories)[repository as int].insert(id, destination@),
                    ));
                }
                self.repositories = repositories;
                self.slots = slots;
                (Ok(()), actions)
            },
        }
    }
}

impl State {
    /// Whether this state and the result `r` are what uninstalling the
    /// container `id` makes of the state `before`.
    ///
    /// Only a container that is installed and not mounted is uninstalled: it
    /// leaves the state and the index of its repository, its package file is
    /// deleted, and the subscribers are told. Everything else is an error
    /// that changes nothing.
    pub open spec fn uninstalls(&self, before: &State, id: ContainerId, r: Result<
        Vec<Action>,
        Error,
    >) -> bool {
        match slot_of(before.slots(), id) {
            None => {
                &&& r matches Err(x) && x@ == ErrorSpec::InvalidContainer(id)
                &&& self.slots() == before.slots()
                &&& self.indexes() == before.indexes()
            },
            Some(i) => {
                let slot = before.slots()[i];
                let k = slot.repository as int;
                if slot.status.is_started() {
                    &&& r matches Err(x) && x@ == ErrorSpec::ContainerStarted(id)
                    &&& self.slots() == before.slots()
                    &&& self.indexes() == before.indexes()
                } else if slot.status.is_mounted() {
                    &&& r matches Err(x) && x@ == ErrorSpec::ContainerMounted(id)
                    &&& self.slots() == before.slots()
                    &&& self.indexes() == before.indexes()
                } else {
                    &&& r matches Ok(actions) && action_specs(actions@) == seq![
                        ActionSpec::Delete(before.indexes()[k][id]),
                        ActionSpec::Notify(id, ContainerEvent::Uninstalled),
                    ]
                    &&& self.slots() == before.slots().remove(i)
                    &&& self.indexes() == before.indexes().update(k, before.indexes()[k].remove(id))
                }
            },
        }
    }

    /// Uninstalls `container`.
    pub fn uninstall(&mut self, container: &Container) -> (r: Result<Vec<Action>, Error>)
        ensures
            final(self).uninstalls(old(self), container@, r),
    {
        proof {
            use_type_invariant(&*self);
        }
        let i = match self.find(container) {
            Some(i) => i,
            None => {
                return Err(Error::InvalidContainer(container.clone()));
            },
        };
        match self.slots[i].status {
            Status::Installed => {},
            Status::Starting | Status::Running { .. } | Status::Stopping { .. } => {
                return Err(Error::ContainerStarted(container.clone()));
            },
            _ => {
                return Err(Error::ContainerMounted(container.clone()));
            },
        }
        let k = self.slots[i].repository;
        let mut repositories: Vec<Repository> = Vec::new();
        let mut slots: Vec<Slot> = Vec::new();
        core::mem::swap(&mut slots, &mut self.slots);
        core::mem::swap(&mut repositories, &mut self.repositories);
        let ghost old_repositories = repositories@;
        let ghost old_slots = slots@;
        proof {
            slot_of_is_first(old_slots, container@);
            assert(old_slots[i as int].repository < old_repositories.len());
        }
        let mut target = repositories.remove(k);
        let removed = target.remove(container);
        repositories.insert(k, target);
        proof {
            assert(repositories@ =~= old_repositories.update(k as int, target));
        }
        match removed {
            Ok(path) => {
                slots.remove(i);
                let mut actions: Vec<Action> = Vec::new();
                actions.push(Action::Delete(path));
                actions.push(Action::Notify(container.clone(), ContainerEvent::Uninstalled));
                proof {
                    let id = container@;
                    assert(action_specs(actions@) =~= seq![
                        ActionSpec::Delete(indexes_of(old_repositories)[k as int][id]),
                        ActionSpec::Notify(id, ContainerEvent::Uninstalled),
                    ]);
                    assert(indexes_of(repositories@) =~= indexes_of(old_repositories).update(
                        k as int,
                        indexes_of(old_repositories)[k as int].remove(id),
                    ));
                    assert forall|a: int, b: int| 0 <= a < b < slots@.len() implies (
                    #[trigger] slots@[a]).container@ != (#[trigger] slots@[b]).container@ by {
                        let a0 = if a < i {
                            a
                        } else {
                            a + 1
                        };
                        let b0 = if b < i {
                            b
                        } else {
                            b + 1
                        };
                        assert(slots@[a] == old_slots[a0]);
                        assert(slots@[b] == old_slots[b0]);
                    }
                    assert forall|j: int| 0 <= j < slots@.len() implies {
                        &&& (#[trigger] slots@[j]).repository < repositories@.len()
                        &&& repositories@[slots@[j].repository as int]@.contains_key(
                            slots@[j].container@,
                        )
                        &&& slots@[j].manifest.identity() == slots@[j].container@
                    } by {
                        let j0 = if j < i {
                            j
                        } else {
                            j + 1
                        };
                        assert(slots@[j] == old_slots[j0]);
                        assert(old_slots[j0].repository < old_repositories.len());
                        assert(old_slots[j0].container@ != old_slots[i as int].container@);
                    }
                }
                self.repositories = repositories;
                self.slots = slots;
                Ok(actions)
            },
            Err(e) => {
                proof {
                    assert(old_repositories[k as int]@.contains_key(container@));
                }
                self.repositories = repositories;
                self.slots = slots;
                Err(e)
            },
        }
    }
}

/// The slot `slot` once its process, if it runs, was sent a signal.
pub open spec fn stopped(slot: Slot) -> Slot {
    match slot.status {
        Status::Running { pid, .. } => Slot {
            container: slot.container,
            repository: slot.repository,
            manifest: slot.manifest,
            status: Status::Stopping { pid },
            exits: slot.exits,
        },
        _ => slot,
    }
}

/// The signals that stop the running containers among the first `n` of
/// `slots`, in the order of the slots.
pub open spec fn stop_signals(slots: Seq<Slot>, n: int, signal: i32) -> Seq<ActionSpec>
    decreases n,
{
    if n <= 0 {
        seq![]
    } else {
        let before = stop_signals(slots, n - 1, signal);
        match slots[n - 1].status {
            Status::Running { pid, .. } => before.push(ActionSpec::Signal { pid, signal }),
            _ => before,
        }
    }
}

impl State {
    /// Sends every running container the signal `signal`, as the runtime
    /// does when it shuts down: each of them is waited for from then on, and
    /// nothing else changes.
    pub fn stop_all(&mut self, signal: i32) -> (actions: Vec<Action>)
        ensures
            final(self).all_stopped(old(self), signal, action_specs(actions@)),
    {
        let ghost before = self.slots@;
        let mut actions: Vec<Action> = Vec::new();
        let mut i: usize = 0;
        proof {
            assert(action_specs(actions@) =~= stop_signals(before, 0, signal));
        }
        while i < self.slots.len()
            invariant
                i <= self.slots@.len(),
                self.slots@.len() == before.len(),
                self.repositories() == old(self).repositories(),
                before == old(self).slots(),
                forall|j: int| 0 <= j < i ==> self.slots@[j] == stopped(before[j]),
                forall|j: int| i <= j < before.len() ==> self.slots@[j] == before[j],
                action_specs(actions@) == stop_signals(before, i as int, signal),
            decreases self.slots@.len() - i,
        {
            match self.slots[i].status {
                Status::Running { pid, started_at: _ } => {
                    let exits = self.slots[i].exits;
                    let ghost sent = action_specs(actions@);
                    actions.push(Action::Signal { pid, signal });
                    proof {
                        assert(action_specs(actions@) =~= sent.push(
                            ActionSpec::Signal { pid, signal },
                        ));
                    }
                    self.set_status(i, Status::Stopping { pid }, exits);
                },
                _ => {},
            }
            i += 1;
        }
        proof {
            assert(self.slots@ =~= before.map_values(|s: Slot| stopped(s)));
        }
        actions
    }

    /// The containers that start with the runtime: those whose manifest
    /// says so, in the order in which they were installed.
    pub fn autostarts(&self) -> (list: Vec<Container>)
        ensures
            identities(list@) == slot_identities(
                self.slots().filter(|s: Slot| s.manifest.autostart == Some(true)),
            ),
    {
        let ghost wanted = |s: Slot| s.manifest.autostart == Some(true);
        let mut list: Vec<Container> = Vec::new();
        let mut i: usize = 0;
        proof {
            assert(self.slots@.take(0) =~= Seq::<Slot>::empty());
            assert(identities(list@) =~= slot_identities(self.slots@.take(0).filter(wanted)));
        }
        while i < self.slots.len()
            invariant
                i <= self.slots.len(),
                wanted == |s: Slot| s.manifest.autostart == Some(true),
                identities(list@) == slot_identities(self.slots@.take(i as int).filter(wanted)),
            decreases self.slots.len() - i,
        {
            proof {
                assert(self.slots@.take(i + 1).drop_last() =~= self.slots@.take(i as int));
                reveal_with_fuel(Seq::filter, 2);
            }
            let ghost kept = self.slots@.take(i as int).filter(wanted);
            let ghost ids = identities(list@);
            match self.slots[i].manifest.autostart {
                Some(true) => {
                    list.push(self.slots[i].container.clone());
                    proof {
                        assert(identities(list@) =~= ids.push(self.slots@[i as int].container@));
                        assert(slot_identities(kept.push(self.slots@[i as int])) =~= slot_identities(
                            kept,
                        ).push(self.slots@[i as int].container@));
                    }
                },
                _ => {},
            }
            i += 1;
        }
        proof {
            assert(self.slots@.take(i as int) =~= self.slots@);
        }
        list
    }
}

/// Replacing the status of a slot moves no container to another slot.
pub proof fn status_keeps_slots(slots: Seq<Slot>, i: int, status: Status, exits: u32, id: ContainerId)
    requires
        0 <= i < slots.len(),
    ensures
        slot_of(with_status(slots, i, status, exits), id) == slot_of(slots, id),
    decreases slots.len(),
{
    let after = with_status(slots, i, status, exits);
    if i < slots.len() - 1 {
        assert(after.drop_last() =~= with_status(slots.drop_last(), i, status, exits));
        status_keeps_slots(slots.drop_last(), i, status, exits, id);
    } else {
        assert(after.drop_last() =~= slots.drop_last());
    }
}

/// Why `op` is refused for the container `id` among `slots`, if it is: the
/// container is not installed, or the life cycle does not allow the
/// transition.
pub open spec fn refusal(slots: Seq<Slot>, id: ContainerId, op: Op) -> Option<ErrorSpec> {
    match slot_of(slots, id) {
        None => Some(ErrorSpec::InvalidContainer(id)),
        Some(i) => match transition(
            id,
            slots[i].status,
            slots[i].exits,
            slots[i].manifest.on_exit,
            None,
            op,
        ) {
            Ok(_) => None,
            Err(e) => Some(e),
        },
    }
}

/// Why `op` is refused for the first of the first `n` of `ids` for which it
/// is refused, if there is one.
pub open spec fn first_refusal(slots: Seq<Slot>, ids: Seq<ContainerId>, n: int, op: Op) -> Option<
    ErrorSpec,
>
    decreases n,
{
    if n <= 0 {
        None
    } else {
        match first_refusal(slots, ids, n - 1, op) {
            Some(e) => Some(e),
            None => refusal(slots, ids[n - 1], op),
        }
    }
}

/// The first refusal among the first `n` containers is the first among any
/// more of them.
pub proof fn refusal_stays_first(slots: Seq<Slot>, ids: Seq<ContainerId>, n: int, m: int, op: Op)
    requires
        n <= m,
        first_refusal(slots, ids, n, op) is Some,
    ensures
        first_refusal(slots, ids, m, op) == first_refusal(slots, ids, n, op),
    decreases m - n,
{
    if n < m {
        refusal_stays_first(slots, ids, n, m - 1, op);
    }
}

/// The slots and the actions after `op` was applied to the first `n` of
/// `ids`, one after the other. A container for which `op` is refused is
/// passed over.
pub open spec fn after_all(slots: Seq<Slot>, ids: Seq<ContainerId>, n: int, op: Op) -> (
    Seq<Slot>,
    Seq<ActionSpec>,
)
    decreases n,
{
    if n <= 0 {
        (slots, seq![])
    } else {
        let (before, actions) = after_all(slots, ids, n - 1, op);
        let id = ids[n - 1];
        match slot_of(before, id) {
            None => (before, actions),
            Some(i) => match transition(
                id,
                before[i].status,
                before[i].exits,
                before[i].manifest.on_exit,
                None,
                op,
            ) {
                Ok(next) => (with_status(before, i, next.status, next.exits), actions + next.actions),
                Err(_) => (before, actions),
            },
        }
    }
}

impl State {
    /// Whether this state and the result `r` are what applying `op` to all
    /// of the containers `ids`, one after the other, makes of the state
    /// `before`: where `op` is refused for one of them in the state
    /// `before`, nothing changes and the first refusal is the error.
    pub open spec fn all_follow(
        &self,
        before: &State,
        ids: Seq<ContainerId>,
        op: Op,
        r: Result<Vec<Action>, Error>,
    ) -> bool {
        &&& self.repositories() == before.repositories()
        &&& match first_refusal(before.slots(), ids, ids.len() as int, op) {
            Some(e) => r matches Err(x) && x@ == e && self.slots() == before.slots(),
            None => {
                let (slots, actions) = after_all(before.slots(), ids, ids.len() as int, op);
                r matches Ok(list) && action_specs(list@) == actions && self.slots() == slots
            },
        }
    }

    /// Whether this state and the actions `actions` are what stopping all
    /// running containers with the signal `signal` makes of the state
    /// `before`.
    pub open spec fn all_stopped(&self, before: &State, signal: i32, actions: Seq<ActionSpec>) -> bool {
        &&& self.repositories() == before.repositories()
        &&& self.slots() == before.slots().map_values(|s: Slot| stopped(s))
        &&& actions == stop_signals(before.slots(), before.slots().len() as int, signal)
    }

    /// Applies `op`, which is `Mount` or `Umount`, to all of `containers` or
    /// to none of them.
    fn apply_all(&mut self, containers: &Vec<Container>, op: Op) -> (r: Result<Vec<Action>, Error>)
        requires
            op == Op::Mount || op == Op::Umount,
        ensures
            final(self).all_follow(old(self), identities(containers@), op, r),
    {
        let ghost ids = identities(containers@);
        let ghost start = self.slots@;
        let n = containers.len();
        let mut k: usize = 0;
        while k < n
            invariant
                k <= n,
                n == containers@.len(),
                ids == identities(containers@),
                start == self.slots@,
                op == Op::Mount || op == Op::Umount,
                first_refusal(start, ids, k as int, op) is None,
            decreases n - k,
        {
            let container = &containers[k];
            proof {
                assert(ids[k as int] == container@);
            }
            match self.status(container) {
                None => {
                    proof {
                        refusal_stays_first(start, ids, k + 1, n as int, op);
                    }
                    return Err(Error::InvalidContainer(container.clone()));
                },
                Some(status) => {
                    let started = match status {
                        Status::Starting | Status::Running { .. } | Status::Stopping { .. } => true,
                        _ => false,
                    };
                    if started && op == Op::Umount {
                        proof {
                            refusal_stays_first(start, ids, k + 1, n as int, op);
                        }
                        return Err(Error::ContainerStarted(container.clone()));
                    }
                },
            }
            k += 1;
        }
        proof {
            assert forall|j: int| 0 <= j < n implies refusal(start, #[trigger] ids[j], op) is None by {
                none_refused(start, ids, n as int, j, op);
            }
        }
        let mut actions: Vec<Action> = Vec::new();
        let mut k: usize = 0;
        proof {
            assert(action_specs(actions@) =~= after_all(start, ids, 0, op).1);
        }
        while k < n
            invariant
                k <= n,
                n == containers@.len(),
                ids == identities(containers@),
                start == old(self).slots(),
                op == Op::Mount || op == Op::Umount,
                self.repositories() == old(self).repositories(),
                first_refusal(start, ids, n as int, op) is None,
                forall|j: int| 0 <= j < n ==> refusal(self.slots@, #[trigger] ids[j], op) is None,
                self.slots@ == after_all(start, ids, k as int, op).0,
                action_specs(actions@) == after_all(start, ids, k as int, op).1,
            decreases n - k,
        {
            let container = &containers[k];
            let ghost before = self.slots@;
            let ghost sent = action_specs(actions@);
            proof {
                assert(ids[k as int] == container@);
                assert(refusal(before, ids[k as int], op) is None);
                slot_of_is_first(before, container@);
            }
            match self.apply(container, op) {
                Ok(mut more) => {
                    let ghost added = action_specs(more@);
                    actions.append(&mut more);
                    proof {
                        let i = slot_of(before, container@)->Some_0;
                        assert(action_specs(actions@) =~= sent + added);
                        assert forall|j: int| 0 <= j < n implies refusal(
                            self.slots@,
                            #[trigger] ids[j],
                            op,
                        ) is None by {
                            assert(refusal(before, ids[j], op) is None);
                            let next = transition(
                                container@,
                                before[i].status,
                                before[i].exits,
                                before[i].manifest.on_exit,
                                missing_resource(before[i].manifest.mounts@, old(self).installed()),
                                op,
                            )->Ok_0;
                            assert(self.slots@ == with_status(before, i, next.status, next.exits));
                            status_keeps_slots(before, i, next.status, next.exits, ids[j]);
                            slot_of_is_first(before, ids[j]);
                            let i2 = slot_of(before, ids[j])->Some_0;
                            if i2 != i {
                                assert(self.slots@[i2] == before[i2]);
                            }
                        }
                    }
                },
                Err(e) => {
                    return Err(e);
                },
            }
            k += 1;
        }
        Ok(actions)
    }

    /// Mounts the roots of all of `containers`, or of none of them where one
    /// of them is not installed. A container that is mounted already is
    /// passed over.
    pub fn mount_all(&mut self, containers: &Vec<Container>) -> (r: Result<Vec<Action>, Error>)
        ensures
            final(self).all_follow(old(self), identities(containers@), Op::Mount, r),
    {
        self.apply_all(containers, Op::Mount)
    }

    /// Takes the mounts of all of `containers` down, or of none of them
    /// where one of them is not installed or has a process.
    pub fn umount_all(&mut self, containers: &Vec<Container>) -> (r: Result<Vec<Action>, Error>)
        ensures
            final(self).all_follow(old(self), identities(containers@), Op::Umount, r),
    {
        self.apply_all(containers, Op::Umount)
    }
}

/// Where `op` is refused for none of the first `n` containers, it is
/// refused for none of them.
pub proof fn none_refused(slots: Seq<Slot>, ids: Seq<ContainerId>, n: int, j: int, op: Op)
    requires
        0 <= j < n,
        first_refusal(slots, ids, n, op) is None,
    ensures
        refusal(slots, ids[j], op) is None,
    decreases n,
{
    if j < n - 1 {
        none_refused(slots, ids, n - 1, j, op);
    }
}

impl Status {
    /// The process of a container in this status, if it has one that runs.
    pub open spec fn process(self) -> Option<u32> {
        match self {
            Status::Running { pid, .. } => Some(pid),
            Status::Stopping { pid } => Some(pid),
            _ => None,
        }
    }

    /// The process of a container in this status, if it has one that runs.
    pub fn pid(&self) -> (pid: Option<u32>)
        ensures
            pid == self.process(),
    {
        match self {
            Status::Running { pid, .. } => Some(*pid),
            Status::Stopping { pid } => Some(*pid),
            _ => None,
        }
    }
}

/// Whether `data` tells of `slot`, which lies in a repository named
/// `repository`.
pub open spec fn tells_of(data: ContainerData, slot: Slot, repository: Seq<char>) -> bool {
    &&& data.container@ == slot.container@
    &&& data.repository@ == repository
    &&& data.mounted == slot.status.is_mounted()
    &&& data.pid == slot.status.process()
}

impl State {
    /// Whether `list` tells of the installed containers of this state, one
    /// entry for each and in their order.
    pub open spec fn is_listed(&self, list: Seq<ContainerData>) -> bool {
        &&& list.len() == self.slots().len()
        &&& forall|i: int|
            0 <= i < list.len() ==> self.slots()[i].repository < self.repositories().len()
                && tells_of(
                #[trigger] list[i],
                self.slots()[i],
                self.repositories()[self.slots()[i].repository as int].name(),
            )
    }

    /// Tells of every installed container: which it is, the repository it
    /// lies in, whether it is mounted, and its process while it runs.
    pub fn list(&self) -> (list: Vec<ContainerData>)
        ensures
            self.is_listed(list@),
    {
        proof {
            use_type_invariant(self);
        }
        let mut list: Vec<ContainerData> = Vec::new();
        let mut i: usize = 0;
        while i < self.slots.len()
            invariant
                i <= self.slots.len(),
                housed(self.slots@, self.repositories@),
                list@.len() == i,
                forall|j: int|
                    0 <= j < i ==> tells_of(
                        #[trigger] list@[j],
                        self.slots@[j],
                        self.repositories@[self.slots@[j].repository as int].name(),
                    ),
            decreases self.slots.len() - i,
        {
            let slot = &self.slots[i];
            proof {
                assert(self.slots@[i as int].repository < self.repositories@.len());
            }
            list.push(
                ContainerData {
                    container: slot.container.clone(),
                    repository: self.repositories[slot.repository].id().clone(),
                    mounted: slot.status.mounted(),
                    pid: slot.status.pid(),
                },
            );
            i += 1;
        }
        proof {
            assert forall|j: int| 0 <= j < list@.len() implies self.slots()[j].repository
                < self.repositories().len() by {
                assert(self.slots@[j].repository < self.repositories@.len());
            }
        }
        list
    }

    /// The names of the repositories, in the order of the repositories.
    pub fn repository_names(&self) -> (names: Vec<String>)
        ensures
            names@.len() == self.repositories().len(),
            forall|k: int|
                0 <= k < names@.len() ==> (#[trigger] names@[k])@ == self.repositories()[k].name(),
    {
        let mut names: Vec<String> = Vec::new();
        let mut k: usize = 0;
        while k < self.repositories.len()
            invariant
                k <= self.repositories.len(),
                names@.len() == k,
                forall|j: int| 0 <= j < k ==> (#[trigger] names@[j])@ == self.repositories@[j].name(),
            decreases self.repositories.len() - k,
        {
            names.push(self.repositories[k].id().clone());
            k += 1;
        }
        names
    }
}

impl State {
    /// The manifest of `container`, or `None` where it is not installed.
    pub fn manifest(&self, container: &Container) -> (manifest: Option<&Manifest>)
        ensures
            match slot_of(self.slots(), container@) {
                Some(i) => manifest == Some(&self.slots()[i].manifest),
                None => manifest is None,
            },
    {
        match self.find(container) {
            Some(i) => Some(&self.slots[i].manifest),
            None => None,
        }
    }

    /// The repository at position `k`, or `None` where there is none.
    pub fn repository(&self, k: usize) -> (repository: Option<&Repository>)
        ensures
            repository == if k < self.repositories().len() {
                Some(&self.repositories()[k as int])
            } else {
                None
            },
    {
        if k < self.repositories.len() {
            Some(&self.repositories[k])
        } else {
            None
        }
    }
}

} // verus!
