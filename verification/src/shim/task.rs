//! The shim's task service: the table of containers it manages, and what each request
//! of containerd's task API decides and changes. The work on the OCI runtime that a
//! request needs happens between the calls here: the caller asks what to do, does it,
//! and reports back.
use vstd::prelude::*;

use crate::error::{ErrorKind, ErrorModel, ShimError};
use crate::shim::common::{has_shared_pid_namespace, shared_pid_namespace, ExecProcessRequest, RuntimeSpec};
use crate::shim::container::{ContainerFactory, exec_not_found, exec_pid_is, opt_view, pid_is, CommonContainer, ContainerModel};
use crate::shim::event::{exit_in, Event, EventModel};
use crate::shim::io::{Stdio, StdioModel};
use crate::shim::process::{ProcessModel, StateModel, StateResponse, Status, Timestamp};
use crate::text::{first_match, lemma_first_match_at, lemma_first_match_none, lemma_first_match_props};

verus! {

/// The predicate "has id `id`" on containers.
pub open spec fn cid_is(id: Seq<char>) -> spec_fn(ContainerModel) -> bool {
    |c: ContainerModel| c.id == id
}

/// The predicate "does not have id `id`" on containers.
pub open spec fn cid_is_not(id: Seq<char>) -> spec_fn(ContainerModel) -> bool {
    |c: ContainerModel| c.id != id
}

/// An exec id as the task API carries it: the empty id addresses the init process.
pub open spec fn exec_opt(exec_id: Seq<char>) -> Option<Seq<char>> {
    if exec_id.len() == 0 {
        None
    } else {
        Some(exec_id)
    }
}

/// The error for a container id that names no container of the service.
pub open spec fn container_not_found(id: Seq<char>) -> ErrorModel {
    ErrorModel { kind: ErrorKind::NotFound, detail: "can not find container by id "@ + id }
}

/// The view of a result whose value has a view.
pub open spec fn rview<T: View>(r: Result<T, ShimError>) -> Result<T::V, ErrorModel> {
    match r {
        Ok(v) => Ok(v@),
        Err(e) => Err(e@),
    }
}

/// The mathematical value of a [`TaskService`].
pub struct ServiceModel {
    pub containers: Seq<ContainerModel>,
    pub namespace: Seq<char>,
}

impl ServiceModel {
    /// No two containers share an id.
    pub open spec fn ids_unique(self) -> bool {
        forall|i: int, j: int|
            0 <= i < self.containers.len() && 0 <= j < self.containers.len() && i != j
                ==> #[trigger] self.containers[i].id != #[trigger] self.containers[j].id
    }

    /// Position of the container with id `id`, or `-1`.
    pub open spec fn pos(self, id: Seq<char>) -> int {
        first_match(self.containers, cid_is(id))
    }

    /// The container with id `id`.
    pub open spec fn container(self, id: Seq<char>) -> Option<ContainerModel> {
        if self.pos(id) >= 0 {
            Some(self.containers[self.pos(id)])
        } else {
            None
        }
    }

    /// The container with id `id`, or the error for an unknown id.
    pub open spec fn lookup(self, id: Seq<char>) -> Result<ContainerModel, ErrorModel> {
        match self.container(id) {
            Some(c) => Ok(c),
            None => Err(container_not_found(id)),
        }
    }

    /// The service with the container `c` added, replacing any container with its id.
    pub open spec fn with_container(self, c: ContainerModel) -> ServiceModel {
        ServiceModel { containers: self.containers.filter(cid_is_not(c.id)).push(c), ..self }
    }

    /// The service without the container with id `id`.
    pub open spec fn without_container(self, id: Seq<char>) -> ServiceModel {
        ServiceModel { containers: self.containers.filter(cid_is_not(id)), ..self }
    }

    /// The service with the container with id `id` replaced by `c`.
    pub open spec fn replace(self, id: Seq<char>, c: ContainerModel) -> ServiceModel {
        if self.pos(id) >= 0 {
            ServiceModel { containers: self.containers.update(self.pos(id), c), ..self }
        } else {
            self
        }
    }

    /// What the `state` request reports.
    pub open spec fn state(self, id: Seq<char>, exec_id: Seq<char>) -> Result<StateModel, ErrorModel> {
        match self.lookup(id) {
            Err(e) => Err(e),
            Ok(c) => match c.state_report(exec_opt(exec_id)) {
                Some(s) => Ok(s),
                None => Err(exec_not_found()),
            },
        }
    }
}

/// The task service's table of containers.
pub struct TaskService {
    pub containers: Vec<CommonContainer>,
    pub namespace: String,
}

impl View for TaskService {
    type V = ServiceModel;

    open spec fn view(&self) -> ServiceModel {
        ServiceModel {
            containers: self.containers@.map_values(|c: CommonContainer| c@),
            namespace: self.namespace@,
        }
    }
}

fn container_not_found_error(id: &str) -> (e: ShimError)
    ensures
        e@ == container_not_found(id@),
{
    ShimError::NotFound(String::from_str("can not find container by id ").concat(id))
}

/// The exec id the task API's empty id stands for.
pub fn as_option(exec_id: &str) -> (r: Option<&str>)
    ensures
        opt_view(r) == exec_opt(exec_id@),
{
    if exec_id.is_empty() {
        None
    } else {
        Some(exec_id)
    }
}

impl TaskService {
    /// A service for namespace `ns` with no containers.
    pub fn new(ns: &str) -> (s: Self)
        ensures
            s@ == (ServiceModel { containers: Seq::empty(), namespace: ns@ }),
    {
        let s = TaskService { containers: Vec::new(), namespace: ns.to_owned() };
        assert(s@.containers =~= Seq::<ContainerModel>::empty());
        s
    }

    /// Position of the container with id `id`.
    pub fn find(&self, id: &str) -> (r: Option<usize>)
        ensures
            match r {
                Some(i) => i == self@.pos(id@) && i < self.containers@.len(),
                None => self@.pos(id@) == -1,
            },
    {
        let n = self.containers.len();
        let mut i: usize = 0;
        while i < n
            invariant
                n == self.containers@.len(),
                i <= n,
                forall|j: int| 0 <= j < i ==> !cid_is(id@)(#[trigger] self@.containers[j]),
            decreases n - i,
        {
            if crate::text::str_eq(self.containers[i].id.as_str(), id) {
                proof {
                    lemma_first_match_at(self@.containers, cid_is(id@), i as int);
                }
                return Some(i);
            }
            i = i + 1;
        }
        proof {
            lemma_first_match_none(self@.containers, cid_is(id@));
        }
        None
    }

    /// The container with id `id`.
    pub fn container(&self, id: &str) -> (r: Result<&CommonContainer, ShimError>)
        ensures
            match r {
                Ok(c) => self@.lookup(id@) == Ok::<ContainerModel, ErrorModel>(c@),
                Err(e) => self@.lookup(id@) == Err::<ContainerModel, ErrorModel>(e@),
            },
    {
        match self.find(id) {
            Some(i) => Ok(&self.containers[i]),
            None => Err(container_not_found_error(id)),
        }
    }

    /// The `state` request: the state of a process of a container.
    pub fn state(&self, id: &str, exec_id: &str) -> (r: Result<StateResponse, ShimError>)
        ensures
            rview(r) == self@.state(id@, exec_id@),
    {
        let container = self.container(id)?;
        container.state(as_option(exec_id))
    }

    /// The `connect` request: the pid of the container's init process, or `0` for an
    /// unknown container.
    pub fn connect(&self, id: &str) -> (pid: u32)
        ensures
            pid == match self@.container(id@) {
                Some(c) => c.init.pid as u32,
                None => 0u32,
            },
    {
        match self.find(id) {
            Some(i) => self.containers[i].init.pid as u32,
            None => 0,
        }
    }

    /// The `shutdown` request: whether the shim may exit, which it may once it holds no
    /// container.
    pub fn shutdown(&self) -> (exit: bool)
        ensures
            exit == (self@.containers.len() == 0),
    {
        self.containers.len() == 0
    }
}


/// What delivering a kill request takes.
#[derive(Debug)]
pub enum KillAction {
    /// Ask the OCI runtime to signal the container's init process (and, with `all`, every
    /// process of the container).
    Runtime { container_id: String, signal: u32, all: bool },
    /// Send `signal` to the exec process with pid `pid` directly.
    Signal { pid: i32, signal: u32 },
}

/// The mathematical value of a [`KillAction`].
pub enum KillActionModel {
    Runtime { container_id: Seq<char>, signal: u32, all: bool },
    Signal { pid: i32, signal: u32 },
}

impl View for KillAction {
    type V = KillActionModel;

    open spec fn view(&self) -> KillActionModel {
        match self {
            KillAction::Runtime { container_id, signal, all } =>
                KillActionModel::Runtime { container_id: container_id@, signal: *signal, all: *all },
            KillAction::Signal { pid, signal } => KillActionModel::Signal { pid: *pid, signal: *signal },
        }
    }
}

/// What a delete request reports of the process it deleted.
#[derive(Debug, PartialEq, Eq, Structural, Clone, Copy)]
pub struct DeleteResponse {
    pub pid: u32,
    pub exit_status: u32,
    pub exited_at: Option<Timestamp>,
}

/// What a wait request does next.
#[derive(Debug, PartialEq, Eq, Structural, Clone, Copy)]
pub enum WaitDecision {
    /// The process is no longer running: answer at once with its exit.
    Exited { exit_status: u32, exited_at: Option<Timestamp> },
    /// The process is running: wait for its exit, registering a waiter if it has not
    /// exited meanwhile.
    Pending { register: bool },
}

/// A process listed by a pids request, with the id of the exec it belongs to.
#[derive(Debug)]
pub struct ProcessInfo {
    pub pid: u32,
    pub exec_id: Option<String>,
}

/// The mathematical value of a [`ProcessInfo`].
pub struct ProcessInfoModel {
    pub pid: u32,
    pub exec_id: Option<Seq<char>>,
}

impl View for ProcessInfo {
    type V = ProcessInfoModel;

    open spec fn view(&self) -> ProcessInfoModel {
        ProcessInfoModel {
            pid: self.pid,
            exec_id: match &self.exec_id {
                Some(e) => Some(e@),
                None => None,
            },
        }
    }
}

/// What the exit of a container's init process sets off, given the container's spec as
/// read from its bundle (`None` where it could not be read): where the container
/// shares its pid namespace, its remaining processes are killed (`SIGKILL`, to all of
/// them) through the runtime; otherwise, and where the spec is unknown, nothing.
pub fn init_exit_kill(id: &str, spec: Option<&RuntimeSpec>) -> (r: Option<KillAction>)
    ensures
        r is Some <==> (spec matches Some(s) && shared_pid_namespace(*s)),
        r matches Some(a) ==> a@ == (KillActionModel::Runtime { container_id: id@, signal: 9, all: true }),
{
    let shared = match spec {
        Some(s) => has_shared_pid_namespace(s),
        None => false,
    };
    if shared {
        Some(KillAction::Runtime { container_id: id.to_owned(), signal: 9, all: true })
    } else {
        None
    }
}

/// The event a start publishes: the task's start for its init process, an exec's
/// start otherwise.
pub open spec fn start_event_model(id: Seq<char>, exec_id: Seq<char>, pid: u32) -> EventModel {
    if exec_id.len() == 0 {
        EventModel::TaskStart { container_id: id, pid }
    } else {
        EventModel::TaskExecStarted { container_id: id, exec_id, pid }
    }
}

/// The predicate "the init process has pid `pid`" on containers.
pub open spec fn init_pid_is(pid: i32) -> spec_fn(ContainerModel) -> bool {
    |c: ContainerModel| c.init.pid == pid
}

/// How an exit of process `pid` with `code` at `now` is recorded, container by
/// container in table order: `exit_in` applies to each container passed, until the
/// first container whose init process has that pid, which ends the walk. Returns the
/// new containers, the exit events and the waiters woken.
#[verifier::opaque]
pub open spec fn route_exit(cs: Seq<ContainerModel>, pid: i32, code: i32, now: Timestamp)
    -> (Seq<ContainerModel>, Seq<EventModel>, Seq<u64>)
    decreases cs.len(),
{
    if cs.len() == 0 {
        (cs, Seq::empty(), Seq::empty())
    } else {
        let step = exit_in(cs[0], pid, code, now);
        if cs[0].init.pid == pid {
            (cs.update(0, step.0), step.1, step.2)
        } else {
            let rest = route_exit(cs.drop_first(), pid, code, now);
            (seq![step.0] + rest.0, step.1 + rest.1, step.2 + rest.2)
        }
    }
}

/// One step of `route_exit`.
pub proof fn lemma_route_exit_step(cs: Seq<ContainerModel>, pid: i32, code: i32, now: Timestamp)
    requires
        cs.len() > 0,
    ensures
        route_exit(cs, pid, code, now) == if cs[0].init.pid == pid {
            (cs.update(0, exit_in(cs[0], pid, code, now).0), exit_in(cs[0], pid, code, now).1,
             exit_in(cs[0], pid, code, now).2)
        } else {
            (seq![exit_in(cs[0], pid, code, now).0] + route_exit(cs.drop_first(), pid, code, now).0,
             exit_in(cs[0], pid, code, now).1 + route_exit(cs.drop_first(), pid, code, now).1,
             exit_in(cs[0], pid, code, now).2 + route_exit(cs.drop_first(), pid, code, now).2)
        },
{
    reveal(route_exit);
}

/// `route_exit` of no containers.
pub proof fn lemma_route_exit_empty(cs: Seq<ContainerModel>, pid: i32, code: i32, now: Timestamp)
    requires
        cs.len() == 0,
    ensures
        route_exit(cs, pid, code, now) == (cs, Seq::<EventModel>::empty(), Seq::<u64>::empty()),
{
    reveal(route_exit);
}

impl ServiceModel {
    /// Whether a start request may proceed.
    pub open spec fn start_check(self, id: Seq<char>, exec_id: Seq<char>) -> Result<(), ErrorModel> {
        match self.lookup(id) {
            Err(e) => Err(e),
            Ok(c) => if c.init.state == Status::Stopped {
                Err(ErrorModel { kind: ErrorKind::FailedPrecondition, detail: "container init process has exited "@ + id })
            } else if c.process(exec_opt(exec_id)) is None {
                Err(exec_not_found())
            } else {
                Ok(())
            },
        }
    }

    /// The pid a started process reports: the init process keeps its pid, an exec takes
    /// the one its runtime reported.
    pub open spec fn started_pid(self, id: Seq<char>, exec_id: Seq<char>, exec_pid: i32) -> i32 {
        if exec_id.len() == 0 {
            self.container(id)->0.init.pid
        } else {
            exec_pid
        }
    }

    /// The service after the process addressed by `exec_id` of container `id` started.
    pub open spec fn started(self, id: Seq<char>, exec_id: Seq<char>, exec_pid: i32) -> ServiceModel {
        let c = self.container(id)->0;
        let p = c.process(exec_opt(exec_id))->0;
        self.replace(id, c.with_process(exec_opt(exec_id), p.running(self.started_pid(id, exec_id, exec_pid))))
    }

    /// The process addressed by a request, or why there is none.
    pub open spec fn target(self, id: Seq<char>, exec_id: Seq<char>) -> Result<ProcessModel, ErrorModel> {
        match self.lookup(id) {
            Err(e) => Err(e),
            Ok(c) => match c.process(exec_opt(exec_id)) {
                Some(p) => Ok(p),
                None => Err(exec_not_found()),
            },
        }
    }

    /// The service after a delete request for the process addressed by `exec_id`.
    pub open spec fn deleted(self, id: Seq<char>, exec_id: Seq<char>) -> ServiceModel {
        if exec_id.len() == 0 {
            self.without_container(id)
        } else {
            self.replace(id, self.container(id)->0.without_exec(exec_id))
        }
    }

    /// What a wait request does for the process addressed by `exec_id`.
    pub open spec fn wait_decision(self, id: Seq<char>, exec_id: Seq<char>) -> Result<WaitDecision, ErrorModel> {
        match self.state(id, exec_id) {
            Err(e) => Err(e),
            Ok(s) => if s.status != Status::Running && s.status != Status::Created {
                Ok(WaitDecision::Exited { exit_status: s.exit_status, exited_at: s.exited_at })
            } else {
                Ok(WaitDecision::Pending { register: self.target(id, exec_id)->Ok_0.exited_at is None })
            },
        }
    }

    /// The service with a console attached to the process addressed.
    pub open spec fn with_console(self, id: Seq<char>, exec_id: Seq<char>) -> ServiceModel {
        let c = self.container(id)->Some_0;
        self.replace(id, c.with_process(exec_opt(exec_id), c.process(exec_opt(exec_id))->Some_0.with_console()))
    }

    /// The service with `waiter` registered for the exit of the process addressed.
    pub open spec fn with_waiter(self, id: Seq<char>, exec_id: Seq<char>, waiter: u64) -> ServiceModel {
        let c = self.container(id)->Some_0;
        self.replace(id, c.with_process(exec_opt(exec_id), c.process(exec_opt(exec_id))->Some_0.with_waiter(waiter)))
    }

    /// The service after the exit of process `pid` with `code` at `now`.
    pub open spec fn after_exit(self, pid: i32, code: i32, now: Timestamp) -> ServiceModel {
        ServiceModel { containers: route_exit(self.containers, pid, code, now).0, ..self }
    }
}

impl TaskService {
    fn take(&mut self, i: usize) -> (c: CommonContainer)
        requires
            i < old(self).containers@.len(),
        ensures
            c@ == old(self)@.containers[i as int],
            final(self).containers@ == old(self).containers@.remove(i as int),
            final(self).namespace == old(self).namespace,
    {
        self.containers.remove(i)
    }

    fn put(&mut self, i: usize, c: CommonContainer)
        requires
            i <= old(self).containers@.len(),
        ensures
            final(self).containers@ == old(self).containers@.insert(i as int, c),
            final(self).namespace == old(self).namespace,
    {
        self.containers.insert(i, c);
    }

    /// Removes the container with id `id`, if there is one.
    pub fn remove_container(&mut self, id: &str)
        ensures
            final(self)@ == old(self)@.without_container(id@),
    {
        let ghost orig = old(self)@.containers;
        let ghost pred = cid_is_not(id@);
        let mut kept: Vec<CommonContainer> = Vec::new();
        let mut rest: Vec<CommonContainer> = Vec::new();
        std::mem::swap(&mut rest, &mut self.containers);
        let n0 = rest.len();
        let ghost total = n0 as nat;
        let mut k: usize = 0;
        assert(orig.take(0).filter(pred) =~= Seq::<ContainerModel>::empty()) by {
            reveal_with_fuel(Seq::filter, 1);
        }
        while rest.len() > 0
            invariant
                total == orig.len(),
                k + rest@.len() == total,
                rest@.map_values(|c: CommonContainer| c@) == orig.skip(k as int),
                kept@.map_values(|c: CommonContainer| c@) == orig.take(k as int).filter(pred),
                self.namespace == old(self).namespace,
                self.containers@.len() == 0,
                total <= usize::MAX,
                pred == cid_is_not(id@),
                orig == old(self)@.containers,
            decreases rest.len(),
        {
            let ghost old_map = rest@.map_values(|c: CommonContainer| c@);
            let c = rest.remove(0);
            assert(rest@.map_values(|c: CommonContainer| c@) =~= old_map.skip(1));
            proof {
                assert(c@ == orig[k as int]) by {
                    assert(orig.skip(k as int)[0] == orig[k as int]);
                }
            }
            let ghost before = kept@.map_values(|c: CommonContainer| c@);
            let keep = !crate::text::str_eq(c.id.as_str(), id);
            proof {
                let t = orig.take(k + 1);
                assert(t.drop_last() =~= orig.take(k as int));
                assert(t.last() == orig[k as int]);
                assert(c.id@ == orig[k as int].id);
                assert(pred(orig[k as int]) == (orig[k as int].id != id@));
                reveal_with_fuel(Seq::filter, 1);
                assert(t.filter(pred) == if pred(orig[k as int]) {
                    orig.take(k as int).filter(pred).push(orig[k as int])
                } else {
                    orig.take(k as int).filter(pred)
                });
            }
            if keep {
                kept.push(c);
                assert(kept@.map_values(|c: CommonContainer| c@) =~= before.push(orig[k as int]));
            }
            k = k + 1;
            assert(old_map.skip(1) =~= orig.skip(k as int));
        }
        assert(orig.take(k as int) =~= orig);
        self.containers = kept;
    }

    /// The `create` request, once the container exists: adds it to the table, replacing
    /// any container with its id, and returns its pid and the event to publish.
    pub fn create(&mut self, container: CommonContainer) -> (r: (u32, Event))
        ensures
            final(self)@ == old(self)@.with_container(container@),
            r.0 == container@.init.pid as u32,
            r.1@ == (EventModel::TaskCreate {
                container_id: container@.id,
                bundle: container@.bundle,
                stdio: container@.init.stdio,
                pid: r.0,
            }),
    {
        let pid = container.init.pid as u32;
        let event = Event::TaskCreate {
            container_id: container.id.clone(),
            bundle: container.bundle.clone(),
            stdio: container.init.stdio.duplicate(),
            pid,
        };
        self.remove_container(container.id.as_str());
        let ghost before = self@;
        self.containers.push(container);
        assert(self@.containers =~= before.containers.push(container@));
        (pid, event)
    }

    /// The `create` request: has `factory` make the container in the service's
    /// namespace, then adds it as [`Self::create_task`] does. Whatever the factory
    /// gave, the table gains the container the event describes, or stays unchanged on
    /// an error.
    pub fn create_with<R, F: ContainerFactory<CommonContainer, R>>(&mut self, factory: &F, req: &R) -> (r: Result<(u32, Event), ShimError>)
        ensures
            match r {
                Ok((pid, ev)) => exists|c: ContainerModel| {
                    &&& final(self)@ == old(self)@.with_container(c)
                    &&& pid == c.init.pid as u32
                    &&& #[trigger] ev@ == (EventModel::TaskCreate { container_id: c.id, bundle: c.bundle, stdio: c.init.stdio, pid })
                },
                Err(_) => final(self)@ == old(self)@,
            },
    {
        let made = factory.create(self.namespace.as_str(), req);
        self.create_task(made)
    }

    /// The `create` request, given what the container factory made of it: the container,
    /// which is added as by [`Self::create`], or the factory's error, which is returned
    /// with the table unchanged and no event.
    pub fn create_task(&mut self, made: Result<CommonContainer, ShimError>) -> (r: Result<(u32, Event), ShimError>)
        ensures
            match made {
                Ok(c) => r matches Ok((pid, ev)) && final(self)@ == old(self)@.with_container(c@)
                    && pid == c@.init.pid as u32
                    && ev@ == (EventModel::TaskCreate {
                        container_id: c@.id,
                        bundle: c@.bundle,
                        stdio: c@.init.stdio,
                        pid,
                    }),
                Err(e) => r matches Err(e2) && e2@ == e@ && final(self)@ == old(self)@,
            },
    {
        match made {
            Ok(c) => Ok(self.create(c)),
            Err(e) => Err(e),
        }
    }
}


impl TaskService {
    /// Whether a `start` request may proceed: the container exists, its init process has
    /// not exited, and the process addressed exists.
    pub fn start_check(&self, id: &str, exec_id: &str) -> (r: Result<(), ShimError>)
        ensures
            match r {
                Ok(()) => self@.start_check(id@, exec_id@) == Ok::<(), ErrorModel>(()),
                Err(e) => self@.start_check(id@, exec_id@) == Err::<(), ErrorModel>(e@),
            },
    {
        let c = self.container(id)?;
        if c.init.state == Status::Stopped {
            return Err(ShimError::FailedPrecondition(
                String::from_str("container init process has exited ").concat(id),
            ));
        }
        match c.get_process(as_option(exec_id)) {
            Ok(_) => Ok(()),
            Err(e) => Err(e),
        }
    }

    fn set_running_at(&mut self, i: usize, exec_id: Option<&str>, pid: i32) -> (r: Result<(), ShimError>)
        requires
            i < old(self).containers@.len(),
        ensures
            match r {
                Ok(()) => old(self)@.containers[i as int].process(opt_view(exec_id)) matches Some(p)
                    && final(self)@ == (ServiceModel {
                        containers: old(self)@.containers.update(i as int,
                            old(self)@.containers[i as int].with_process(opt_view(exec_id), p.running(pid))),
                        ..old(self)@
                    }),
                Err(e) => old(self)@.containers[i as int].process(opt_view(exec_id)) is None
                    && e@ == exec_not_found() && final(self)@ == old(self)@,
            },
    {
        let ghost old_self = self@;
        let mut c = self.take(i);
        let res = c.set_running(exec_id, pid);
        self.put(i, c);
        if res.is_ok() {
            assert(self@.containers =~= old_self.containers.update(i as int, c@));
        } else {
            assert(self@.containers =~= old_self.containers);
        }
        res
    }

    /// Registers `waiter` for the exit of the process addressed, unless it has already
    /// exited; returns whether it was registered. The exit wakes it (see
    /// [`Self::process_exit`]).
    #[verifier::rlimit(40)]
    pub fn add_waiter(&mut self, id: &str, exec_id: &str, waiter: u64) -> (r: Result<bool, ShimError>)
        ensures
            match r {
                Ok(b) => old(self)@.target(id@, exec_id@) matches Ok(p) && b == (p.exited_at is None)
                    && final(self)@ == if b { old(self)@.with_waiter(id@, exec_id@, waiter) } else { old(self)@ },
                Err(e) => old(self)@.target(id@, exec_id@) == Err::<ProcessModel, ErrorModel>(e@)
                    && final(self)@ == old(self)@,
            },
    {
        let i = match self.find(id) {
            Some(i) => i,
            None => return Err(container_not_found_error(id)),
        };
        let ghost old_self = self@;
        let ghost oc = old_self.containers[i as int];
        assert(old_self.container(id@) == Some(oc));
        let eo = as_option(exec_id);
        let mut c = self.take(i);
        let res = c.wait_channel(eo, waiter);
        self.put(i, c);
        proof {
            if res matches Ok(true) {
                assert(c@ == oc.with_process(exec_opt(exec_id@), oc.process(exec_opt(exec_id@))->Some_0.with_waiter(waiter)));
                assert(self@.containers =~= old_self.containers.update(i as int, c@));
                assert(self@ == old_self.with_waiter(id@, exec_id@, waiter));
            } else {
                assert(self@.containers =~= old_self.containers);
            }
        }
        res
    }

    /// Records that the runtime handed over a console for the process addressed.
    #[verifier::rlimit(90)]
    pub fn attach_console(&mut self, id: &str, exec_id: &str) -> (r: Result<(), ShimError>)
        ensures
            match r {
                Ok(()) => old(self)@.target(id@, exec_id@) is Ok
                    && final(self)@ == old(self)@.with_console(id@, exec_id@),
                Err(e) => old(self)@.target(id@, exec_id@) == Err::<ProcessModel, ErrorModel>(e@)
                    && final(self)@ == old(self)@,
            },
    {
        let i = match self.find(id) {
            Some(i) => i,
            None => return Err(container_not_found_error(id)),
        };
        let ghost old_self = self@;
        let ghost oc = old_self.containers[i as int];
        assert(old_self.container(id@) == Some(oc));
        let eo = as_option(exec_id);
        let mut c = self.take(i);
        let res = c.set_console(eo);
        self.put(i, c);
        proof {
            if res is Ok {
                let p = oc.process(exec_opt(exec_id@))->Some_0;
                assert(old_self.target(id@, exec_id@) == Ok::<ProcessModel, ErrorModel>(p));
                assert(c@ == oc.with_process(exec_opt(exec_id@), p.with_console()));
                assert(self@.containers =~= old_self.containers.update(i as int, c@));
                assert(self@ == old_self.with_console(id@, exec_id@));
            } else {
                assert(old_self.target(id@, exec_id@) == Err::<ProcessModel, ErrorModel>(exec_not_found()));
                assert(self@.containers =~= old_self.containers);
            }
        }
        res
    }

    fn start_event(id: &str, exec_id: &str, pid: u32) -> (ev: Event)
        ensures
            ev@ == start_event_model(id@, exec_id@, pid),
    {
        if exec_id.is_empty() {
            Event::TaskStart { container_id: id.to_owned(), pid }
        } else {
            Event::TaskExecStarted { container_id: id.to_owned(), exec_id: exec_id.to_owned(), pid }
        }
    }

    /// The `start` request, once the runtime started the process: marks it running,
    /// with `exec_pid` as its pid if it is an exec, and returns its pid and the event to
    /// publish.
    pub fn start_finish(&mut self, id: &str, exec_id: &str, exec_pid: i32) -> (r: Result<(u32, Event), ShimError>)
        ensures
            match r {
                Ok((pid, ev)) => {
                    &&& old(self)@.target(id@, exec_id@) is Ok
                    &&& final(self)@ == old(self)@.started(id@, exec_id@, exec_pid)
                    &&& pid == old(self)@.started_pid(id@, exec_id@, exec_pid) as u32
                    &&& ev@ == start_event_model(id@, exec_id@, pid)
                },
                Err(e) => old(self)@.target(id@, exec_id@) == Err::<ProcessModel, ErrorModel>(e@)
                    && final(self)@ == old(self)@,
            },
    {
        let i = match self.find(id) {
            Some(i) => i,
            None => return Err(container_not_found_error(id)),
        };
        let eo = as_option(exec_id);
        let pid = match eo {
            None => self.containers[i].init.pid,
            Some(_) => exec_pid,
        };
        let ghost old_self = self@;
        assert(old_self.container(id@) == Some(old_self.containers[i as int]));
        let res = self.set_running_at(i, eo, pid);
        match res {
            Ok(()) => {
                let upid = pid as u32;
                Ok((upid, Self::start_event(id, exec_id, upid)))
            },
            Err(e) => Err(e),
        }
    }

    /// The `kill` request: what delivering `signal` to the process addressed takes.
    pub fn kill_action(&self, id: &str, exec_id: &str, signal: u32, all: bool) -> (r: Result<KillAction, ShimError>)
        ensures
            match r {
                Ok(a) => self@.target(id@, exec_id@) matches Ok(p) && a@ == if exec_id@.len() == 0 {
                    KillActionModel::Runtime { container_id: id@, signal, all }
                } else {
                    KillActionModel::Signal { pid: p.pid, signal }
                } && (exec_id@.len() > 0 ==> p.pid != 0 && p.exited_at is None),
                Err(e) => match self@.target(id@, exec_id@) {
                    Err(t) => t == e@,
                    Ok(p) => exec_id@.len() > 0 && if p.pid == 0 {
                        e@ == (ErrorModel { kind: ErrorKind::FailedPrecondition, detail: "process not created"@ })
                    } else {
                        p.exited_at is Some
                            && e@ == (ErrorModel { kind: ErrorKind::NotFound, detail: "process already finished"@ })
                    },
                },
            },
    {
        let c = self.container(id)?;
        let p = c.get_process(as_option(exec_id))?;
        if exec_id.is_empty() {
            Ok(KillAction::Runtime { container_id: id.to_owned(), signal, all })
        } else if p.pid == 0 {
            Err(ShimError::FailedPrecondition(String::from_str("process not created")))
        } else if p.exited_at.is_some() {
            Err(ShimError::NotFound(String::from_str("process already finished")))
        } else {
            Ok(KillAction::Signal { pid: p.pid, signal })
        }
    }

    /// The `exec` request: adds the exec process to its container and returns the event
    /// to publish.
    pub fn exec(&mut self, req: ExecProcessRequest) -> (r: Result<Event, ShimError>)
        ensures
            match r {
                Ok(ev) => old(self)@.container(req.id@) matches Some(c) && req.spec_decodes()
                    && final(self)@ == old(self)@.replace(req.id@,
                        c.with_exec(ProcessModel::created(req.exec_id@, req.stdio_model())))
                    && ev@ == (EventModel::TaskExecAdded { container_id: req.id@, exec_id: req.exec_id@ }),
                Err(e) => final(self)@ == old(self)@ && match old(self)@.container(req.id@) {
                    None => e@ == container_not_found(req.id@),
                    Some(c) => !req.spec_decodes() && e@.kind == ErrorKind::Other,
                },
            },
    {
        let i = match self.find(req.id.as_str()) {
            Some(i) => i,
            None => return Err(container_not_found_error(req.id.as_str())),
        };
        let ghost old_self = self@;
        proof {
            lemma_first_match_props(old_self.containers, cid_is(req.id@));
        }
        let container_id = req.id.clone();
        let exec_id = req.exec_id.clone();
        let ghost rq = req;
        let mut c = self.take(i);
        let res = c.exec(req);
        self.put(i, c);
        match res {
            Ok(()) => {
                assert(self@.containers =~= old_self.containers.update(i as int, c@));
                Ok(Event::TaskExecAdded { container_id, exec_id })
            },
            Err(e) => {
                assert(self@.containers =~= old_self.containers);
                Err(e)
            },
        }
    }

    /// The pid, exit code and exit time of the process addressed, which a delete request
    /// reports and a wait request answers with.
    pub fn exit_info(&self, id: &str, exec_id: &str) -> (r: Result<(i32, i32, Option<Timestamp>), ShimError>)
        ensures
            match r {
                Ok(t) => self@.target(id@, exec_id@) matches Ok(p) && t == (p.pid, p.exit_code, p.exited_at),
                Err(e) => self@.target(id@, exec_id@) == Err::<ProcessModel, ErrorModel>(e@),
            },
    {
        let c = self.container(id)?;
        c.get_exit_info(as_option(exec_id))
    }

    /// The `delete` request, once the runtime deleted the container where the init
    /// process is addressed: removes the exec, or the whole container, and returns what
    /// it reports and the event to publish.
    pub fn delete(&mut self, id: &str, exec_id: &str) -> (r: Result<(DeleteResponse, Event), ShimError>)
        ensures
            match r {
                Ok((resp, ev)) => old(self)@.target(id@, exec_id@) matches Ok(p)
                    && final(self)@ == old(self)@.deleted(id@, exec_id@)
                    && resp == (DeleteResponse { pid: p.pid as u32, exit_status: p.exit_code as u32, exited_at: p.exited_at })
                    && ev@ == (EventModel::TaskDelete {
                        container_id: id@,
                        pid: p.pid as u32,
                        exit_status: p.exit_code as u32,
                        exited_at: p.exited_at,
                    }),
                Err(e) => old(self)@.target(id@, exec_id@) == Err::<ProcessModel, ErrorModel>(e@)
                    && final(self)@ == old(self)@,
            },
    {
        let (pid, code, exited_at) = self.exit_info(id, exec_id)?;
        let i = match self.find(id) {
            Some(i) => i,
            None => return Err(container_not_found_error(id)),
        };
        let ghost old_self = self@;
        proof {
            lemma_first_match_props(old_self.containers, cid_is(id@));
        }
        if exec_id.is_empty() {
            self.remove_container(id);
        } else {
            let mut c = self.take(i);
            c.remove_exec(exec_id);
            self.put(i, c);
            assert(self@.containers =~= old_self.containers.update(i as int, c@));
        }
        let resp = DeleteResponse { pid: pid as u32, exit_status: code as u32, exited_at };
        let ev = Event::TaskDelete {
            container_id: id.to_owned(),
            pid: pid as u32,
            exit_status: code as u32,
            exited_at,
        };
        Ok((resp, ev))
    }
}


/// The error for a pause or resume requested in the wrong state.
pub open spec fn wrong_state(verb: Seq<char>, s: Status) -> ErrorModel {
    ErrorModel { kind: ErrorKind::Other, detail: "cannot "@ + verb + " when in "@ + s.spec_name() + " state"@ }
}

fn wrong_state_error(verb: &str, s: Status) -> (e: ShimError)
    ensures
        e@ == wrong_state(verb@, s),
{
    let msg = String::from_str("cannot ").concat(verb).concat(" when in ").concat(s.name().as_str()).concat(" state");
    assert(msg@ =~= "cannot "@ + verb@ + " when in "@ + s.spec_name() + " state"@);
    ShimError::Other(msg)
}

/// What a pids request reports of pid `p` listed in container `c`.
pub open spec fn info_of(c: ContainerModel, p: usize) -> ProcessInfoModel {
    ProcessInfoModel {
        pid: p as u32,
        exec_id: if first_match(c.execs, pid_is(p)) >= 0 {
            Some(c.execs[first_match(c.execs, pid_is(p))].id)
        } else {
            None
        },
    }
}

fn info_for(c: &CommonContainer, p: usize) -> (r: ProcessInfo)
    ensures
        r@ == info_of(c@, p),
{
    ProcessInfo { pid: p as u32, exec_id: c.exec_id_of_pid(p) }
}

impl ServiceModel {
    /// The service with the init process of container `id` in status `s`.
    pub open spec fn with_init_status(self, id: Seq<char>, s: Status) -> ServiceModel {
        let c = self.container(id)->0;
        self.replace(id, ContainerModel { init: ProcessModel { state: s, ..c.init }, ..c })
    }

    /// What a pids request reports for the pids `ps` listed.
    pub open spec fn pids(self, id: Seq<char>, ps: Seq<usize>) -> Result<Seq<ProcessInfoModel>, ErrorModel> {
        match self.lookup(id) {
            Err(e) => Err(e),
            Ok(c) => Ok(ps.map_values(|p: usize| info_of(c, p))),
        }
    }
}

impl TaskService {
    fn set_init_status_at(&mut self, i: usize, s: Status)
        requires
            i < old(self).containers@.len(),
        ensures
            final(self)@ == (ServiceModel {
                containers: old(self)@.containers.update(i as int, ContainerModel {
                    init: ProcessModel { state: s, ..old(self)@.containers[i as int].init },
                    ..old(self)@.containers[i as int]
                }),
                ..old(self)@
            }),
    {
        let ghost old_self = self@;
        let mut c = self.take(i);
        c.init.set_status(s);
        self.put(i, c);
        assert(self@.containers =~= old_self.containers.update(i as int, c@));
    }

    /// Whether a `pause` request may proceed, which it may while the init process runs;
    /// if so, marks it pausing.
    pub fn pause_begin(&mut self, id: &str) -> (r: Result<(), ShimError>)
        ensures
            match r {
                Ok(()) => old(self)@.container(id@) matches Some(c) && c.init.state == Status::Running
                    && final(self)@ == old(self)@.with_init_status(id@, Status::Pausing),
                Err(e) => final(self)@ == old(self)@ && match old(self)@.container(id@) {
                    None => e@ == container_not_found(id@),
                    Some(c) => c.init.state != Status::Running && e@ == wrong_state("pause"@, c.init.state),
                },
            },
    {
        let i = match self.find(id) {
            Some(i) => i,
            None => return Err(container_not_found_error(id)),
        };
        let st = self.containers[i].init.state;
        if st != Status::Running {
            return Err(wrong_state_error("pause", st));
        }
        self.set_init_status_at(i, Status::Pausing);
        Ok(())
    }

    /// The end of a `pause` request: the container is paused if the runtime paused it,
    /// and running again if it failed to. Returns the event to publish, if any.
    pub fn pause_end(&mut self, id: &str, paused: bool) -> (r: Result<Option<Event>, ShimError>)
        ensures
            match r {
                Ok(ev) => old(self)@.container(id@) is Some && if paused {
                    final(self)@ == old(self)@.with_init_status(id@, Status::Paused)
                        && (ev matches Some(x) && x@ == (EventModel::TaskPaused { container_id: id@ }))
                } else {
                    final(self)@ == old(self)@.with_init_status(id@, Status::Running) && ev is None
                },
                Err(e) => old(self)@.container(id@) is None && e@ == container_not_found(id@)
                    && final(self)@ == old(self)@,
            },
    {
        let i = match self.find(id) {
            Some(i) => i,
            None => return Err(container_not_found_error(id)),
        };
        if paused {
            self.set_init_status_at(i, Status::Paused);
            Ok(Some(Event::TaskPaused { container_id: id.to_owned() }))
        } else {
            self.set_init_status_at(i, Status::Running);
            Ok(None)
        }
    }

    /// Whether a `resume` request may proceed, which it may while the container is paused.
    pub fn resume_check(&self, id: &str) -> (r: Result<(), ShimError>)
        ensures
            match r {
                Ok(()) => self@.container(id@) matches Some(c) && c.init.state == Status::Paused,
                Err(e) => match self@.container(id@) {
                    None => e@ == container_not_found(id@),
                    Some(c) => c.init.state != Status::Paused && e@ == wrong_state("resume"@, c.init.state),
                },
            },
    {
        let c = self.container(id)?;
        if c.init.state != Status::Paused {
            return Err(wrong_state_error("resume", c.init.state));
        }
        Ok(())
    }

    /// The end of a `resume` request the runtime carried out: the container runs again.
    /// Returns the event to publish.
    pub fn resume_finish(&mut self, id: &str) -> (r: Result<Event, ShimError>)
        ensures
            match r {
                Ok(ev) => old(self)@.container(id@) is Some
                    && final(self)@ == old(self)@.with_init_status(id@, Status::Running)
                    && ev@ == (EventModel::TaskResumed { container_id: id@ }),
                Err(e) => old(self)@.container(id@) is None && e@ == container_not_found(id@)
                    && final(self)@ == old(self)@,
            },
    {
        let i = match self.find(id) {
            Some(i) => i,
            None => return Err(container_not_found_error(id)),
        };
        self.set_init_status_at(i, Status::Running);
        Ok(Event::TaskResumed { container_id: id.to_owned() })
    }

    /// The `pids` request: the pids `ps` listed for the container, each with the exec it
    /// belongs to, if any.
    pub fn pids(&self, id: &str, ps: &Vec<usize>) -> (r: Result<Vec<ProcessInfo>, ShimError>)
        ensures
            match r {
                Ok(v) => self@.pids(id@, ps@) == Ok::<Seq<ProcessInfoModel>, ErrorModel>(v@.map_values(|x: ProcessInfo| x@)),
                Err(e) => self@.pids(id@, ps@) == Err::<Seq<ProcessInfoModel>, ErrorModel>(e@),
            },
    {
        let c = self.container(id)?;
        let ghost cm = c@;
        let mut out: Vec<ProcessInfo> = Vec::new();
        let n = ps.len();
        let mut i: usize = 0;
        while i < n
            invariant
                n == ps@.len(),
                i <= n,
                cm == c@,
                out@.map_values(|x: ProcessInfo| x@) == ps@.take(i as int).map_values(|p: usize| info_of(cm, p)),
            decreases n - i,
        {
            let info = info_for(c, ps[i]);
            let ghost before = out@.map_values(|x: ProcessInfo| x@);
            out.push(info);
            i = i + 1;
            assert(out@.map_values(|x: ProcessInfo| x@) =~= before.push(info@));
            assert(ps@.take(i as int).drop_last() =~= ps@.take(i - 1));
            assert(out@.map_values(|x: ProcessInfo| x@) =~= ps@.take(i as int).map_values(|p: usize| info_of(cm, p)));
        }
        assert(ps@.take(n as int) =~= ps@);
        Ok(out)
    }

    /// What a `wait` request does for the process addressed.
    pub fn wait_check(&self, id: &str, exec_id: &str) -> (r: Result<WaitDecision, ShimError>)
        ensures
            match r {
                Ok(d) => self@.wait_decision(id@, exec_id@) == Ok::<WaitDecision, ErrorModel>(d),
                Err(e) => self@.wait_decision(id@, exec_id@) == Err::<WaitDecision, ErrorModel>(e@),
            },
    {
        let state = self.state(id, exec_id)?;
        if state.status != Status::Running && state.status != Status::Created {
            return Ok(WaitDecision::Exited { exit_status: state.exit_status, exited_at: state.exited_at });
        }
        let c = self.container(id)?;
        let p = c.get_process(as_option(exec_id))?;
        Ok(WaitDecision::Pending { register: p.exited_at.is_none() })
    }

    /// The `resize_pty` request: whether there is a console to resize.
    pub fn resize_pty(&self, id: &str, exec_id: &str, height: u32, width: u32) -> (r: Result<bool, ShimError>)
        ensures
            match r {
                Ok(b) => self@.target(id@, exec_id@) matches Ok(p) && b == (exec_id@.len() > 0 && p.console),
                Err(e) => self@.target(id@, exec_id@) == Err::<ProcessModel, ErrorModel>(e@),
            },
    {
        let c = self.container(id)?;
        c.resize_pty(as_option(exec_id), height, width)
    }

    /// The `close_io` request: whether the process addressed exists to close the stdin of.
    pub fn close_io(&self, id: &str, exec_id: &str) -> (r: Result<(), ShimError>)
        ensures
            match r {
                Ok(()) => self@.target(id@, exec_id@) is Ok,
                Err(e) => self@.target(id@, exec_id@) == Err::<ProcessModel, ErrorModel>(e@),
            },
    {
        let c = self.container(id)?;
        let _ = c.get_process(as_option(exec_id))?;
        Ok(())
    }

    /// The pid of the init process of container `id`, which `update` and `stats` act on.
    pub fn init_pid(&self, id: &str) -> (r: Result<i32, ShimError>)
        ensures
            match r {
                Ok(pid) => self@.container(id@) matches Some(c) && pid == c.init.pid,
                Err(e) => self@.container(id@) is None && e@ == container_not_found(id@),
            },
    {
        let c = self.container(id)?;
        Ok(c.init.pid)
    }

    /// The container (its id and bundle) whose init process has pid `pid` and which an
    /// exit of `pid` ends at: the first in table order.
    pub fn init_owner(&self, pid: i32) -> (r: Option<(String, String)>)
        ensures
            match r {
                Some((id, bundle)) => first_match(self@.containers, init_pid_is(pid)) >= 0
                    && id@ == self@.containers[first_match(self@.containers, init_pid_is(pid))].id
                    && bundle@ == self@.containers[first_match(self@.containers, init_pid_is(pid))].bundle,
                None => first_match(self@.containers, init_pid_is(pid)) == -1,
            },
    {
        let n = self.containers.len();
        let mut i: usize = 0;
        while i < n
            invariant
                n == self.containers@.len(),
                i <= n,
                forall|j: int| 0 <= j < i ==> !init_pid_is(pid)(#[trigger] self@.containers[j]),
            decreases n - i,
        {
            if self.containers[i].init.pid == pid {
                proof {
                    lemma_first_match_at(self@.containers, init_pid_is(pid), i as int);
                }
                return Some((self.containers[i].id.clone(), self.containers[i].bundle.clone()));
            }
            i = i + 1;
        }
        proof {
            lemma_first_match_none(self@.containers, init_pid_is(pid));
        }
        None
    }
}


impl TaskService {
    /// Applies `exit_in` to the container at position `i`.
    fn exit_step(&mut self, i: usize, pid: i32, code: i32, now: Timestamp) -> (r: (Vec<Event>, Vec<u64>))
        requires
            i < old(self).containers@.len(),
        ensures
            final(self)@ == (ServiceModel {
                containers: old(self)@.containers.update(i as int, exit_in(old(self)@.containers[i as int], pid, code, now).0),
                ..old(self)@
            }),
            r.0@.map_values(|e: Event| e@) == exit_in(old(self)@.containers[i as int], pid, code, now).1,
            r.1@ == exit_in(old(self)@.containers[i as int], pid, code, now).2,
    {
        let ghost old_self = self@;
        let mut c = self.take(i);
        let r = c.apply_exit(pid, code, now);
        self.put(i, c);
        assert(self@.containers =~= old_self.containers.update(i as int, c@));
        r
    }

    /// Records the exit of process `pid` with `code` at `now`, as `route_exit` describes,
    /// and returns the exit events to publish and the waiters to wake.
    #[verifier::rlimit(80)]
    pub fn process_exit(&mut self, pid: i32, code: i32, now: Timestamp) -> (r: (Vec<Event>, Vec<u64>))
        ensures
            final(self)@ == old(self)@.after_exit(pid, code, now),
            r.0@.map_values(|e: Event| e@) == route_exit(old(self)@.containers, pid, code, now).1,
            r.1@ == route_exit(old(self)@.containers, pid, code, now).2,
    {
        let ghost orig = self@.containers;
        let n = self.containers.len();
        let mut events: Vec<Event> = Vec::new();
        let mut woken: Vec<u64> = Vec::new();
        let mut i: usize = 0;
        assert(orig.skip(0) =~= orig);
        assert(orig.take(0) + route_exit(orig, pid, code, now).0 =~= route_exit(orig, pid, code, now).0);
        assert(events@.map_values(|e: Event| e@) + route_exit(orig, pid, code, now).1 =~= route_exit(orig, pid, code, now).1);
        assert(woken@ + route_exit(orig, pid, code, now).2 =~= route_exit(orig, pid, code, now).2);
        while i < n
            invariant
                n == orig.len(),
                i <= n,
                self@.containers.len() == n,
                self@.namespace == old(self)@.namespace,
                orig == old(self)@.containers,
                self@.containers.skip(i as int) == orig.skip(i as int),
                route_exit(orig, pid, code, now).0 == self@.containers.take(i as int) + route_exit(orig.skip(i as int), pid, code, now).0,
                route_exit(orig, pid, code, now).1 == events@.map_values(|e: Event| e@) + route_exit(orig.skip(i as int), pid, code, now).1,
                route_exit(orig, pid, code, now).2 == woken@ + route_exit(orig.skip(i as int), pid, code, now).2,
            decreases n - i,
        {
            let ghost cur = self@;
            let ghost rest = orig.skip(i as int);
            let ghost evs_before = events@.map_values(|e: Event| e@);
            let ghost woken_before = woken@;
            assert(rest[0] == cur.containers[i as int]) by {
                assert(cur.containers.skip(i as int)[0] == cur.containers[i as int]);
            }
            assert(rest.drop_first() =~= orig.skip(i + 1));
            proof {
                lemma_route_exit_step(rest, pid, code, now);
            }
            let stop = self.containers[i].init.pid == pid;
            let (mut step, mut step_woken) = self.exit_step(i, pid, code, now);
            let ghost step_view = step@.map_values(|e: Event| e@);
            let ghost step_woken_view = step_woken@;
            events.append(&mut step);
            woken.append(&mut step_woken);
            assert(events@.map_values(|e: Event| e@) =~= evs_before + step_view);
            assert(woken@ =~= woken_before + step_woken_view);
            if stop {
                proof {
                    assert(self@.containers =~= cur.containers.take(i as int) + route_exit(rest, pid, code, now).0) by {
                        assert(cur.containers.skip(i as int) =~= rest);
                    }
                    assert(evs_before + step_view =~= evs_before + route_exit(rest, pid, code, now).1);
                    assert(woken_before + step_woken_view =~= woken_before + route_exit(rest, pid, code, now).2);
                }
                return (events, woken);
            }
            proof {
                let r2 = route_exit(rest.drop_first(), pid, code, now);
                assert(self@.containers.take(i + 1) =~= cur.containers.take(i as int).push(self@.containers[i as int]));
                assert(self@.containers.skip(i + 1) =~= orig.skip(i + 1)) by {
                    assert(cur.containers.skip(i as int).drop_first() =~= cur.containers.skip(i + 1));
                }
                assert(route_exit(rest, pid, code, now).0 =~= seq![self@.containers[i as int]] + r2.0);
                assert(cur.containers.take(i as int) + route_exit(rest, pid, code, now).0
                    =~= self@.containers.take(i + 1) + r2.0);
                assert(evs_before + route_exit(rest, pid, code, now).1 =~= (evs_before + step_view) + r2.1);
                assert(woken_before + route_exit(rest, pid, code, now).2 =~= (woken_before + step_woken_view) + r2.2);
            }
            i = i + 1;
        }
        proof {
            assert(orig.skip(n as int) =~= Seq::<ContainerModel>::empty());
            lemma_route_exit_empty(orig.skip(n as int), pid, code, now);
            assert(self@.containers.take(n as int) =~= self@.containers);
            assert(events@.map_values(|e: Event| e@) + Seq::<EventModel>::empty() =~= events@.map_values(|e: Event| e@));
            assert(woken@ + Seq::<u64>::empty() =~= woken@);
            assert(self@.containers + Seq::<ContainerModel>::empty() =~= self@.containers);
        }
        (events, woken)
    }
}

} // verus!
