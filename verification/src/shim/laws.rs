//! Properties of the shim that hold of all inputs: of the task service across its
//! requests, of the stdio it wires up, and of how it reports failed kills.
use vstd::prelude::*;

use crate::error::{ErrorKind, ErrorModel};
use crate::shim::container::{exec_not_found, exec_pid_is, id_is, id_is_not, is_pause_status, ContainerModel};
use crate::shim::event::{exit_in, EventModel};
use crate::shim::io::StdioModel;
use crate::shim::process::{ProcessModel, StateModel, Status, Timestamp};
use crate::shim::task::{
    cid_is, cid_is_not, container_not_found, exec_opt, init_pid_is, lemma_route_exit_step, route_exit, start_event_model,
    ServiceModel, WaitDecision,
};
use crate::io::{piped_io_plan_spec, IOOption, IoDriverModel, PipeEnd, Stream};
use crate::shim::common::{kill_error, lowercase, shared_pid_namespace, spec_create_io, LinuxNamespaceType, RuntimeSpec};
use crate::shim::lifecycle::copy_plan_spec;
use crate::text::{
    contains_seq, first_match, lemma_first_match_at, lemma_first_match_none, lemma_first_match_props, occurs_at,
};

verus! {

/// Two sequences on which a predicate agrees pointwise have the same first match.
proof fn lemma_first_match_same<A>(s1: Seq<A>, s2: Seq<A>, p: spec_fn(A) -> bool)
    requires
        s1.len() == s2.len(),
        forall|i: int| 0 <= i < s1.len() ==> p(s1[i]) == p(s2[i]),
    ensures
        first_match(s1, p) == first_match(s2, p),
{
    lemma_first_match_props(s1, p);
    lemma_first_match_props(s2, p);
    let k = first_match(s1, p);
    if k >= 0 {
        lemma_first_match_at(s2, p, k);
    } else {
        lemma_first_match_none(s2, p);
    }
}

/// Nothing that a filter dropped is found in what it kept.
proof fn lemma_filter_excludes<A>(s: Seq<A>, keep: spec_fn(A) -> bool, p: spec_fn(A) -> bool)
    requires
        forall|x: A| #[trigger] p(x) ==> !keep(x),
    ensures
        forall|j: int| 0 <= j < s.filter(keep).len() ==> !p(#[trigger] s.filter(keep)[j]),
{
    broadcast use vstd::seq_lib::group_filter_ensures;
    assert forall|j: int| 0 <= j < s.filter(keep).len() implies !p(#[trigger] s.filter(keep)[j]) by {
        assert(keep(s.filter(keep)[j]));
    }
}

/// Updating a container with one of the same id moves no container.
proof fn lemma_update_same_id(cs: Seq<ContainerModel>, k: int, c: ContainerModel, other: Seq<char>)
    requires
        0 <= k < cs.len(),
        c.id == cs[k].id,
    ensures
        first_match(cs.update(k, c), cid_is(other)) == first_match(cs, cid_is(other)),
{
    let cs2 = cs.update(k, c);
    assert forall|i: int| 0 <= i < cs.len() implies cid_is(other)(cs[i]) == cid_is(other)(cs2[i]) by {
        if i != k {
            assert(cs2[i] == cs[i]);
        }
    }
    lemma_first_match_same(cs, cs2, cid_is(other));
}

/// Replacing a container by one with the same id keeps every container where it was.
pub proof fn lemma_replace_container(s: ServiceModel, id: Seq<char>, c: ContainerModel, other: Seq<char>)
    requires
        s.pos(id) >= 0,
        c.id == id,
    ensures
        s.replace(id, c).pos(other) == s.pos(other),
        s.replace(id, c).container(id) == Some(c),
{
    lemma_first_match_props(s.containers, cid_is(id));
    let k = s.pos(id);
    lemma_update_same_id(s.containers, k, c, other);
    lemma_update_same_id(s.containers, k, c, id);
}

/// A container just added is found under its id.
pub proof fn lemma_with_container(s: ServiceModel, c: ContainerModel)
    ensures
        s.with_container(c).container(c.id) == Some(c),
{
    let f = s.containers.filter(cid_is_not(c.id));
    lemma_filter_excludes(s.containers, cid_is_not(c.id), cid_is(c.id));
    let s2 = s.with_container(c);
    assert forall|j: int| 0 <= j < f.len() implies !cid_is(c.id)(s2.containers[j]) by {
        assert(s2.containers[j] == f[j]);
    }
    lemma_first_match_at(s2.containers, cid_is(c.id), f.len() as int);
}

/// A container removed is no longer found.
pub proof fn lemma_without_container(s: ServiceModel, id: Seq<char>)
    ensures
        s.without_container(id).container(id) is None,
{
    lemma_filter_excludes(s.containers, cid_is_not(id), cid_is(id));
    lemma_first_match_none(s.without_container(id).containers, cid_is(id));
}

/// An exec just added is found under its id.
pub proof fn lemma_with_exec(c: ContainerModel, p: ProcessModel)
    ensures
        c.with_exec(p).process(Some(p.id)) == Some(p),
{
    let f = c.execs.filter(id_is_not(p.id));
    lemma_filter_excludes(c.execs, id_is_not(p.id), id_is(p.id));
    let c2 = c.with_exec(p);
    assert forall|j: int| 0 <= j < f.len() implies !id_is(p.id)(c2.execs[j]) by {
        assert(c2.execs[j] == f[j]);
    }
    lemma_first_match_at(c2.execs, id_is(p.id), f.len() as int);
}

/// An exec removed is no longer found.
pub proof fn lemma_without_exec(c: ContainerModel, id: Seq<char>)
    ensures
        c.without_exec(id).process(Some(id)) is None,
{
    lemma_filter_excludes(c.execs, id_is_not(id), id_is(id));
    lemma_first_match_none(c.without_exec(id).execs, id_is(id));
}

/// The walk of an exit reaches the first container whose init process has the pid,
/// applies `exit_in` to it, changes no container's id, and leaves the containers after
/// it alone.
pub proof fn lemma_route_exit_reaches(cs: Seq<ContainerModel>, pid: i32, code: i32, now: Timestamp, k: int)
    requires
        0 <= k < cs.len(),
        cs[k].init.pid == pid,
        forall|j: int| 0 <= j < k ==> cs[j].init.pid != pid,
    ensures
        route_exit(cs, pid, code, now).0.len() == cs.len(),
        route_exit(cs, pid, code, now).0[k] == exit_in(cs[k], pid, code, now).0,
        forall|j: int| 0 <= j < cs.len() ==> (#[trigger] route_exit(cs, pid, code, now).0[j]).id == cs[j].id,
        route_exit(cs, pid, code, now).2.len() >= cs[k].init.waiters.len(),
        route_exit(cs, pid, code, now).2.skip(
            route_exit(cs, pid, code, now).2.len() - cs[k].init.waiters.len(),
        ) == cs[k].init.waiters,
    decreases k,
{
    lemma_route_exit_step(cs, pid, code, now);
    if k == 0 {
        assert(route_exit(cs, pid, code, now).2.skip(0) =~= route_exit(cs, pid, code, now).2);
    } else {
        let rest = cs.drop_first();
        assert forall|j: int| 0 <= j < k - 1 implies rest[j].init.pid != pid by {
            assert(rest[j] == cs[j + 1]);
        }
        lemma_route_exit_reaches(rest, pid, code, now, k - 1);
        let w = route_exit(cs, pid, code, now).2;
        let w2 = route_exit(rest, pid, code, now).2;
        let e = exit_in(cs[0], pid, code, now).2;
        assert(rest[k - 1] == cs[k]);
        assert(w == e + w2);
        assert(w.skip(w.len() - cs[k].init.waiters.len()) =~= w2.skip(w2.len() - cs[k].init.waiters.len()));
        let r = route_exit(cs, pid, code, now).0;
        let r2 = route_exit(rest, pid, code, now).0;
        assert forall|j: int| 0 <= j < cs.len() implies (#[trigger] r[j]).id == cs[j].id by {
            if j > 0 {
                assert(r[j] == r2[j - 1]);
                assert(rest[j - 1] == cs[j]);
            }
        }
    }
}

/// The init process of `id` is the first in table order with pid `pid`.
pub open spec fn exits_at(s: ServiceModel, id: Seq<char>, pid: i32) -> bool {
    s.pos(id) >= 0 && s.containers[s.pos(id)].init.pid == pid
        && forall|j: int| 0 <= j < s.pos(id) ==> s.containers[j].init.pid != pid
}

/// After the exit of a container's init process is recorded, the container is found
/// with its init process marked exited.
pub proof fn lemma_after_exit_container(s: ServiceModel, id: Seq<char>, pid: i32, code: i32, now: Timestamp)
    requires
        exits_at(s, id, pid),
    ensures
        s.after_exit(pid, code, now).container(id) matches Some(c2) && c2 == (ContainerModel {
            init: s.container(id)->0.init.exited(code, now),
            ..s.container(id)->0
        }),
{
    let k = s.pos(id);
    lemma_first_match_props(s.containers, cid_is(id));
    lemma_route_exit_reaches(s.containers, pid, code, now, k);
    let s2 = s.after_exit(pid, code, now);
    lemma_first_match_same(s.containers, s2.containers, cid_is(id));
}

/// once the exit of a container's init process with `code` at `now` is recorded,
/// the container's state reports it stopped, with that exit status and time.
pub proof fn law_state_after_exit(s: ServiceModel, id: Seq<char>, pid: i32, code: i32, now: Timestamp)
    requires
        exits_at(s, id, pid),
    ensures
        s.after_exit(pid, code, now).state(id, Seq::empty()) matches Ok(st)
            && st.status == Status::Stopped
            && st.exit_status == code as u32
            && st.exited_at == Some(now),
{
    lemma_after_exit_container(s, id, pid, code, now);
}

/// once the exit of a container's init process is recorded, a wait on it answers
/// at once with that exit; wait changes nothing, so every later wait answers the same.
pub proof fn law_wait_after_exit(s: ServiceModel, id: Seq<char>, pid: i32, code: i32, now: Timestamp)
    requires
        exits_at(s, id, pid),
    ensures
        s.after_exit(pid, code, now).wait_decision(id, Seq::empty())
            == Ok::<WaitDecision, ErrorModel>(WaitDecision::Exited { exit_status: code as u32, exited_at: Some(now) }),
{
    lemma_after_exit_container(s, id, pid, code, now);
}

/// a container whose init process exited cannot be started again.
pub proof fn law_start_after_exit(s: ServiceModel, id: Seq<char>, exec_id: Seq<char>, pid: i32, code: i32, now: Timestamp)
    requires
        exits_at(s, id, pid),
    ensures
        s.after_exit(pid, code, now).start_check(id, exec_id) matches Err(e)
            && e.kind == ErrorKind::FailedPrecondition,
{
    lemma_after_exit_container(s, id, pid, code, now);
}

/// an exec added to a container is then found by its id, created, and reported
/// with the container's bundle; its status is the container's while the container is
/// paused or pausing.
pub proof fn law_exec_then_state(s: ServiceModel, id: Seq<char>, exec_id: Seq<char>, stdio: StdioModel)
    requires
        s.container(id) is Some,
        exec_id.len() > 0,
    ensures
        ({
            let c = s.container(id)->0;
            let s2 = s.replace(id, c.with_exec(ProcessModel::created(exec_id, stdio)));
            s2.state(id, exec_id) matches Ok(st)
                && st.id == exec_id
                && st.bundle == c.bundle
                && st.status == (if is_pause_status(c.init.state) { c.init.state } else { Status::Created })
                && st.pid == 0
                && st.exited_at is None
        }),
{
    let c = s.container(id)->0;
    let p = ProcessModel::created(exec_id, stdio);
    lemma_first_match_props(s.containers, cid_is(id));
    lemma_replace_container(s, id, c.with_exec(p), id);
    lemma_with_exec(c, p);
}

/// deleting an exec removes it and keeps its container.
pub proof fn law_delete_exec(s: ServiceModel, id: Seq<char>, exec_id: Seq<char>)
    requires
        s.container(id) is Some,
        exec_id.len() > 0,
    ensures
        s.deleted(id, exec_id).state(id, exec_id) == Err::<StateModel, ErrorModel>(exec_not_found()),
        s.deleted(id, exec_id).container(id) is Some,
{
    let c = s.container(id)->0;
    lemma_first_match_props(s.containers, cid_is(id));
    lemma_replace_container(s, id, c.without_exec(exec_id), id);
    lemma_without_exec(c, exec_id);
}

/// deleting a container's init process removes the container; every later request
/// on it is answered with not-found.
pub proof fn law_delete_container(s: ServiceModel, id: Seq<char>, exec_id: Seq<char>)
    ensures
        s.deleted(id, Seq::empty()).state(id, exec_id) == Err::<StateModel, ErrorModel>(container_not_found(id)),
{
    lemma_without_container(s, id);
}

/// a created container is then found, and reports its init process with its bundle.
pub proof fn law_create_then_state(s: ServiceModel, c: ContainerModel)
    ensures
        s.with_container(c).state(c.id, Seq::empty())
            == Ok::<StateModel, ErrorModel>(StateModel { bundle: c.bundle, ..c.init.state_report() }),
{
    lemma_with_container(s, c);
}

/// while a container is paused, every exec in it reports the paused status; once
/// it runs again, each exec reports its own.
pub proof fn law_pause_projects(s: ServiceModel, id: Seq<char>, exec_id: Seq<char>)
    requires
        s.container(id) matches Some(c) && c.process(Some(exec_id)) is Some,
        exec_id.len() > 0,
    ensures
        s.with_init_status(id, Status::Paused).state(id, exec_id) matches Ok(st) && st.status == Status::Paused,
        s.with_init_status(id, Status::Running).state(id, exec_id) matches Ok(st)
            && st.status == s.container(id)->0.process(Some(exec_id))->0.state,
{
    let c = s.container(id)->0;
    lemma_first_match_props(s.containers, cid_is(id));
    let cp = ContainerModel { init: ProcessModel { state: Status::Paused, ..c.init }, ..c };
    let cr = ContainerModel { init: ProcessModel { state: Status::Running, ..c.init }, ..c };
    lemma_replace_container(s, id, cp, id);
    lemma_replace_container(s, id, cr, id);
}


/// The shim never copies a process's streams itself: the runtime writes named pipes
/// directly; and null stdio still gets a driver, the null one, with no URI.
pub proof fn law_create_io_never_copies(stdio: StdioModel)
    ensures
        !spec_create_io(stdio).copy,
        stdio.is_null() ==> (spec_create_io(stdio).io matches Some(IoDriverModel::Null) && spec_create_io(
            stdio,
        ).uri is None),
{
}

/// How a failed kill is reported does not depend on the case of runc's message.
pub proof fn law_kill_error_ignores_case(a: Seq<char>, b: Seq<char>)
    requires
        lowercase(a) == lowercase(b),
    ensures
        kill_error(lowercase(a)) == kill_error(lowercase(b)),
{
}

/// A kill failure that is neither a finished process nor a missing container is not
/// reported as not found, and its report keeps runc's (lowercased) message.
pub proof fn law_unknown_kill_error_kept(m: Seq<char>)
    requires
        !contains_seq(m, "process already finished"@),
        !contains_seq(m, "container not running"@),
        !contains_seq(m, "no such process"@),
        !contains_seq(m, "does not exist"@),
    ensures
        kill_error(m).kind == ErrorKind::Other,
        contains_seq(kill_error(m).detail, m),
{
    let d = kill_error(m).detail;
    let k = "unknown error after kill "@.len() as int;
    assert(d.subrange(k, k + m.len()) =~= m);
    assert(occurs_at(d, m, k));
}


/// The exit of a container's init process wakes every waiter registered for it before
/// (and only a waiter that registered before the exit is kept: see `add_waiter`);
/// afterwards the process keeps no waiters, and every wait answers at once with the
/// exit.
pub proof fn law_exit_wakes_waiters(s: ServiceModel, id: Seq<char>, pid: i32, code: i32, now: Timestamp)
    requires
        exits_at(s, id, pid),
    ensures
        forall|j: int|
            0 <= j < s.container(id)->Some_0.init.waiters.len() ==> route_exit(s.containers, pid, code, now).2.contains(
                #[trigger] s.container(id)->Some_0.init.waiters[j],
            ),
        s.after_exit(pid, code, now).container(id)->Some_0.init.waiters.len() == 0,
        s.after_exit(pid, code, now).wait_decision(id, Seq::empty())
            == Ok::<WaitDecision, ErrorModel>(WaitDecision::Exited { exit_status: code as u32, exited_at: Some(now) }),
{
    let k = s.pos(id);
    lemma_first_match_props(s.containers, cid_is(id));
    lemma_route_exit_reaches(s.containers, pid, code, now, k);
    lemma_after_exit_container(s, id, pid, code, now);
    let w = route_exit(s.containers, pid, code, now).2;
    let ws = s.containers[k].init.waiters;
    assert(s.container(id)->Some_0 == s.containers[k]);
    assert forall|j: int| 0 <= j < ws.len() implies w.contains(#[trigger] ws[j]) by {
        let off = w.len() - ws.len();
        assert(w.skip(off)[j] == w[off + j]);
    }
}

/// A wait on a running container's init process that has not exited does not answer
/// at once: it registers a waiter, after which the process still runs, so that further
/// waits register too. The exit of the init process then wakes that waiter, and the
/// wait answers with the exit's status and time.
pub proof fn law_wait_before_exit(s: ServiceModel, id: Seq<char>, w: u64, pid: i32, code: i32, now: Timestamp)
    requires
        exits_at(s, id, pid),
        s.container(id)->Some_0.init.state == Status::Running,
        s.container(id)->Some_0.init.exited_at is None,
    ensures
        s.wait_decision(id, Seq::empty()) == Ok::<WaitDecision, ErrorModel>(WaitDecision::Pending { register: true }),
        ({
            let s1 = s.with_waiter(id, Seq::empty(), w);
            &&& exits_at(s1, id, pid)
            &&& s1.container(id)->Some_0.init.state == Status::Running
            &&& s1.container(id)->Some_0.init.exited_at is None
            &&& route_exit(s1.containers, pid, code, now).2.contains(w)
            &&& s1.after_exit(pid, code, now).wait_decision(id, Seq::empty())
                == Ok::<WaitDecision, ErrorModel>(WaitDecision::Exited { exit_status: code as u32, exited_at: Some(now) })
        }),
{
    let c = s.container(id)->Some_0;
    lemma_first_match_props(s.containers, cid_is(id));
    assert(cid_is(id)(s.containers[s.pos(id)]));
    assert(c.id == id);
    assert(exec_opt(Seq::<char>::empty()) == None::<Seq<char>>);
    let c1 = c.with_process(None, c.init.with_waiter(w));
    lemma_replace_container(s, id, c1, id);
    let s1 = s.with_waiter(id, Seq::empty(), w);
    assert(s1 == s.replace(id, c1));
    let k = s.pos(id);
    assert forall|j: int| 0 <= j < s1.pos(id) implies s1.containers[j].init.pid != pid by {
        assert(s1.containers[j] == s.containers[j]);
    }
    assert(exits_at(s1, id, pid));
    law_exit_wakes_waiters(s1, id, pid, code, now);
    let ws = c1.init.waiters;
    assert(ws[ws.len() - 1] == w);
}

/// A container's lifecycle publishes its events in order: creating a container,
/// starting it, adding an exec to it and starting that exec each succeed (the exec's
/// addition wherever its spec decodes), and their events come on the create, start,
/// exec-added and exec-started topics. `create`, `start_finish` and `exec` state the
/// services and events used here.
pub proof fn law_lifecycle_events(
    s: ServiceModel,
    c: ContainerModel,
    exec_id: Seq<char>,
    stdio: StdioModel,
    exec_pid: i32,
)
    requires
        exec_id.len() > 0,
    ensures
        ({
            let s1 = s.with_container(c);
            let s2 = s1.started(c.id, Seq::empty(), 0);
            let s3 = s2.replace(c.id, s2.container(c.id)->Some_0.with_exec(ProcessModel::created(exec_id, stdio)));
            &&& s1.target(c.id, Seq::empty()) is Ok
            &&& s2.container(c.id) is Some
            &&& s3.target(c.id, exec_id) is Ok
            &&& seq![
                EventModel::TaskCreate { container_id: c.id, bundle: c.bundle, stdio: c.init.stdio, pid: c.init.pid as u32 },
                start_event_model(c.id, Seq::empty(), s1.started_pid(c.id, Seq::empty(), 0) as u32),
                EventModel::TaskExecAdded { container_id: c.id, exec_id },
                start_event_model(c.id, exec_id, s3.started_pid(c.id, exec_id, exec_pid) as u32),
            ].map_values(|e: EventModel| e.topic())
                == seq!["/tasks/create"@, "/tasks/start"@, "/tasks/exec-added"@, "/tasks/exec-started"@]
        }),
{
    let s1 = s.with_container(c);
    lemma_with_container(s, c);
    let c1 = s1.container(c.id)->Some_0;
    let p1 = c1.process(None)->Some_0;
    let c2 = c1.with_process(None, p1.running(s1.started_pid(c.id, Seq::empty(), 0)));
    assert(exec_opt(Seq::<char>::empty()) == None::<Seq<char>>);
    lemma_replace_container(s1, c.id, c2, c.id);
    let s2 = s1.started(c.id, Seq::empty(), 0);
    assert(s2 == s1.replace(c.id, c2));
    let p = ProcessModel::created(exec_id, stdio);
    let c3 = c2.with_exec(p);
    lemma_replace_container(s2, c.id, c3, c.id);
    lemma_with_exec(c2, p);
    assert(exec_opt(exec_id) == Some(exec_id));
    let evs = seq![
        EventModel::TaskCreate { container_id: c.id, bundle: c.bundle, stdio: c.init.stdio, pid: c.init.pid as u32 },
        start_event_model(c.id, Seq::empty(), s1.started_pid(c.id, Seq::empty(), 0) as u32),
        EventModel::TaskExecAdded { container_id: c.id, exec_id },
        start_event_model(c.id, exec_id, exec_pid as u32),
    ];
    assert(evs.map_values(|e: EventModel| e.topic())
        =~= seq!["/tasks/create"@, "/tasks/start"@, "/tasks/exec-added"@, "/tasks/exec-started"@]);
}

/// The keys of a sequence are pairwise distinct.
pub open spec fn keys_distinct<A>(s: Seq<A>, key: spec_fn(A) -> Seq<char>) -> bool {
    forall|i: int, j: int| 0 <= i < s.len() && 0 <= j < s.len() && i != j ==> #[trigger] key(s[i]) != #[trigger] key(s[j])
}

/// What a filter keeps of a sequence with distinct keys has distinct keys.
proof fn lemma_filter_keeps_distinct<A>(s: Seq<A>, key: spec_fn(A) -> Seq<char>, p: spec_fn(A) -> bool)
    requires
        keys_distinct(s, key),
    ensures
        keys_distinct(s.filter(p), key),
    decreases s.len(),
{
    reveal(Seq::filter);
    if s.len() > 0 {
        let d = s.drop_last();
        assert(keys_distinct(d, key)) by {
            assert forall|i: int, j: int| 0 <= i < d.len() && 0 <= j < d.len() && i != j implies #[trigger] key(d[i]) != #[trigger] key(d[j]) by {
                assert(d[i] == s[i] && d[j] == s[j]);
            }
        }
        lemma_filter_keeps_distinct(d, key, p);
        let f = d.filter(p);
        if p(s.last()) {
            let g = f.push(s.last());
            assert(s.filter(p) == g);
            assert forall|i: int| 0 <= i < f.len() implies key(f[i]) != key(s.last()) by {
                assert(f.contains(f[i]));
                d.lemma_filter_contains_rev(p, f[i]);
                let k = choose|k: int| 0 <= k < d.len() && d[k] == f[i];
                assert(s[k] == f[i]);
                assert(key(s[k]) != key(s[s.len() - 1]));
            }
            assert forall|i: int, j: int| 0 <= i < g.len() && 0 <= j < g.len() && i != j implies #[trigger] key(g[i]) != #[trigger] key(g[j]) by {
                if i < f.len() && j < f.len() {
                    assert(g[i] == f[i] && g[j] == f[j]);
                } else if i < f.len() {
                    assert(g[i] == f[i]);
                } else {
                    assert(g[j] == f[j]);
                }
            }
        }
    }
}

/// Appending an item whose key no item has keeps the keys distinct.
proof fn lemma_push_keeps_distinct<A>(s: Seq<A>, key: spec_fn(A) -> Seq<char>, x: A)
    requires
        keys_distinct(s, key),
        forall|i: int| 0 <= i < s.len() ==> key(#[trigger] s[i]) != key(x),
    ensures
        keys_distinct(s.push(x), key),
{
    let g = s.push(x);
    assert forall|i: int, j: int| 0 <= i < g.len() && 0 <= j < g.len() && i != j implies #[trigger] key(g[i]) != #[trigger] key(g[j]) by {
        if i < s.len() && j < s.len() {
            assert(g[i] == s[i] && g[j] == s[j]);
        } else if i < s.len() {
            assert(g[i] == s[i]);
        } else {
            assert(g[j] == s[j]);
        }
    }
}

/// Adding and removing containers keeps container ids unique: an added container
/// replaces any container with its id.
pub proof fn law_container_ids_stay_unique(s: ServiceModel, c: ContainerModel, id: Seq<char>)
    requires
        s.ids_unique(),
    ensures
        s.with_container(c).ids_unique(),
        s.without_container(id).ids_unique(),
{
    let key = |m: ContainerModel| m.id;
    assert(keys_distinct(s.containers, key)) by {
        assert forall|i: int, j: int| 0 <= i < s.containers.len() && 0 <= j < s.containers.len() && i != j
            implies #[trigger] key(s.containers[i]) != #[trigger] key(s.containers[j]) by {
            assert(s.containers[i].id != s.containers[j].id);
        }
    }
    lemma_filter_keeps_distinct(s.containers, key, cid_is_not(c.id));
    lemma_filter_keeps_distinct(s.containers, key, cid_is_not(id));
    let f = s.containers.filter(cid_is_not(c.id));
    lemma_filter_excludes(s.containers, cid_is_not(c.id), cid_is(c.id));
    assert forall|i: int| 0 <= i < f.len() implies key(#[trigger] f[i]) != key(c) by {
        assert(!cid_is(c.id)(f[i]));
    }
    lemma_push_keeps_distinct(f, key, c);
    let a = s.with_container(c).containers;
    let b = s.without_container(id).containers;
    assert forall|i: int, j: int| 0 <= i < a.len() && 0 <= j < a.len() && i != j implies #[trigger] a[i].id != #[trigger] a[j].id by {
        assert(key(a[i]) != key(a[j]));
    }
    assert forall|i: int, j: int| 0 <= i < b.len() && 0 <= j < b.len() && i != j implies #[trigger] b[i].id != #[trigger] b[j].id by {
        assert(key(b[i]) != key(b[j]));
    }
}

/// Adding and removing execs keeps a container's exec ids unique: an added exec
/// replaces any exec with its id.
pub proof fn law_exec_ids_stay_unique(c: ContainerModel, p: ProcessModel, id: Seq<char>)
    requires
        c.exec_ids_unique(),
    ensures
        c.with_exec(p).exec_ids_unique(),
        c.without_exec(id).exec_ids_unique(),
{
    let key = |m: ProcessModel| m.id;
    assert(keys_distinct(c.execs, key)) by {
        assert forall|i: int, j: int| 0 <= i < c.execs.len() && 0 <= j < c.execs.len() && i != j
            implies #[trigger] key(c.execs[i]) != #[trigger] key(c.execs[j]) by {
            assert(c.execs[i].id != c.execs[j].id);
        }
    }
    lemma_filter_keeps_distinct(c.execs, key, id_is_not(p.id));
    lemma_filter_keeps_distinct(c.execs, key, id_is_not(id));
    let f = c.execs.filter(id_is_not(p.id));
    lemma_filter_excludes(c.execs, id_is_not(p.id), id_is(p.id));
    assert forall|i: int| 0 <= i < f.len() implies key(#[trigger] f[i]) != key(p) by {
        assert(!id_is(p.id)(f[i]));
    }
    lemma_push_keeps_distinct(f, key, p);
    let a = c.with_exec(p).execs;
    let b = c.without_exec(id).execs;
    assert forall|i: int, j: int| 0 <= i < a.len() && 0 <= j < a.len() && i != j implies #[trigger] a[i].id != #[trigger] a[j].id by {
        assert(key(a[i]) != key(a[j]));
    }
    assert forall|i: int, j: int| 0 <= i < b.len() && 0 <= j < b.len() && i != j implies #[trigger] b[i].id != #[trigger] b[j].id by {
        assert(key(b[i]) != key(b[j]));
    }
}

/// A wait on a process that is created or running and has not exited does not answer
/// at once: it is pending, and registers a waiter. (An exec of a paused container is
/// reported with the container's status, so there the exec must not be paused.)
pub proof fn law_wait_pending_while_live(s: ServiceModel, id: Seq<char>, exec_id: Seq<char>)
    requires
        s.target(id, exec_id) matches Ok(p)
            && (p.state == Status::Created || p.state == Status::Running)
            && p.exited_at is None,
        exec_id.len() > 0 ==> !is_pause_status(s.container(id)->Some_0.init.state),
    ensures
        s.wait_decision(id, exec_id) == Ok::<WaitDecision, ErrorModel>(WaitDecision::Pending { register: true }),
{
}

/// A wait on a process that has stopped answers at once with its exit status and time.
pub proof fn law_wait_answers_stopped(s: ServiceModel, id: Seq<char>, exec_id: Seq<char>)
    requires
        s.target(id, exec_id) matches Ok(p) && p.state == Status::Stopped,
        exec_id.len() > 0 ==> !is_pause_status(s.container(id)->Some_0.init.state),
    ensures
        s.wait_decision(id, exec_id) matches Ok(d) && d == (WaitDecision::Exited {
            exit_status: s.target(id, exec_id)->Ok_0.exit_code as u32,
            exited_at: s.target(id, exec_id)->Ok_0.exited_at,
        }),
{
}

/// The walk of an exit that matches no container's init process passes every
/// container, recording the exit in each.
proof fn lemma_route_exit_all(cs: Seq<ContainerModel>, pid: i32, code: i32, now: Timestamp)
    requires
        forall|j: int| 0 <= j < cs.len() ==> cs[j].init.pid != pid,
    ensures
        route_exit(cs, pid, code, now).0.len() == cs.len(),
        forall|j: int| 0 <= j < cs.len() ==> #[trigger] route_exit(cs, pid, code, now).0[j] == exit_in(cs[j], pid, code, now).0,
    decreases cs.len(),
{
    if cs.len() > 0 {
        lemma_route_exit_step(cs, pid, code, now);
        let rest = cs.drop_first();
        assert forall|j: int| 0 <= j < rest.len() implies rest[j].init.pid != pid by {
            assert(rest[j] == cs[j + 1]);
        }
        lemma_route_exit_all(rest, pid, code, now);
        let r = route_exit(cs, pid, code, now).0;
        let r2 = route_exit(rest, pid, code, now).0;
        assert forall|j: int| 0 <= j < cs.len() implies #[trigger] r[j] == exit_in(cs[j], pid, code, now).0 by {
            if j > 0 {
                assert(r[j] == r2[j - 1]);
                assert(rest[j - 1] == cs[j]);
            }
        }
    } else {
        reveal(route_exit);
    }
}

/// Once the exit of an exec process is recorded (its pid is no container's init pid and
/// no other exec's of its container), its state reports it stopped, with that exit
/// status and time, like an init process.
pub proof fn law_exec_state_after_exit(
    s: ServiceModel,
    id: Seq<char>,
    exec_id: Seq<char>,
    pid: i32,
    code: i32,
    now: Timestamp,
)
    requires
        exec_id.len() > 0,
        forall|j: int| 0 <= j < s.containers.len() ==> s.containers[j].init.pid != pid,
        s.container(id) is Some,
        !is_pause_status(s.container(id)->Some_0.init.state),
        s.container(id)->Some_0.process(Some(exec_id)) matches Some(p) && p.pid == pid,
        forall|j: int|
            0 <= j < s.container(id)->Some_0.execs.len() && j != s.container(id)->Some_0.exec_pos(exec_id)
                ==> s.container(id)->Some_0.execs[j].pid != pid,
    ensures
        s.after_exit(pid, code, now).state(id, exec_id) matches Ok(st)
            && st.status == Status::Stopped
            && st.exit_status == code as u32
            && st.exited_at == Some(now),
{
    let cs = s.containers;
    lemma_route_exit_all(cs, pid, code, now);
    let s2 = s.after_exit(pid, code, now);
    let k = s.pos(id);
    lemma_first_match_props(cs, cid_is(id));
    assert forall|j: int| 0 <= j < cs.len() implies cid_is(id)(cs[j]) == cid_is(id)(s2.containers[j]) by {
        assert(s2.containers[j] == exit_in(cs[j], pid, code, now).0);
    }
    lemma_first_match_same(cs, s2.containers, cid_is(id));
    let c = cs[k];
    let c2 = s2.containers[k];
    assert(c2 == exit_in(c, pid, code, now).0);
    let e = c.exec_pos(exec_id);
    lemma_first_match_props(c.execs, id_is(exec_id));
    assert(exec_pid_is(pid)(c.execs[e]));
    assert forall|j: int| 0 <= j < e implies !exec_pid_is(pid)(c.execs[j]) by {}
    lemma_first_match_at(c.execs, exec_pid_is(pid), e);
    assert(c2.execs == c.execs.update(e, c.execs[e].exited(code, now)));
    assert forall|j: int| 0 <= j < c.execs.len() implies id_is(exec_id)(c.execs[j]) == id_is(exec_id)(c2.execs[j]) by {
        if j != e {
            assert(c2.execs[j] == c.execs[j]);
        }
    }
    lemma_first_match_same(c.execs, c2.execs, id_is(exec_id));
    assert(c2.process(Some(exec_id)) == Some(c.execs[e].exited(code, now)));
    assert(exec_opt(exec_id) == Some(exec_id));
}

/// When the shim copies, each stream is copied exactly when the driver offers it and
/// its own path is set, whatever the other streams are; nothing is held open.
pub proof fn law_copy_plan_streams(hold: bool, has_stdin: bool, has_stdout: bool, has_stderr: bool, stdio: StdioModel)
    ensures
        copy_plan_spec(true, hold, has_stdin, has_stdout, has_stderr, stdio).stdin == (has_stdin && stdio.stdin.len() > 0),
        copy_plan_spec(true, hold, has_stdin, has_stdout, has_stderr, stdio).stdout == (has_stdout && stdio.stdout.len() > 0),
        copy_plan_spec(true, hold, has_stdin, has_stdout, has_stderr, stdio).stderr == (has_stderr && stdio.stderr.len() > 0),
        !copy_plan_spec(true, hold, has_stdin, has_stdout, has_stderr, stdio).hold_stdout,
        !copy_plan_spec(true, hold, has_stdin, has_stdout, has_stderr, stdio).hold_stderr,
{
}

/// When the runtime writes the paths itself, nothing is copied, and a reader is held
/// on each output path that is set, where the shim holds them.
pub proof fn law_copy_plan_holds(hold: bool, has_stdin: bool, has_stdout: bool, has_stderr: bool, stdio: StdioModel)
    ensures
        !copy_plan_spec(false, hold, has_stdin, has_stdout, has_stderr, stdio).stdin,
        !copy_plan_spec(false, hold, has_stdin, has_stdout, has_stderr, stdio).stdout,
        !copy_plan_spec(false, hold, has_stdin, has_stdout, has_stderr, stdio).stderr,
        copy_plan_spec(false, hold, has_stdin, has_stdout, has_stderr, stdio).hold_stdout == (hold && stdio.stdout.len() > 0),
        copy_plan_spec(false, hold, has_stdin, has_stdout, has_stderr, stdio).hold_stderr == (hold && stdio.stderr.len() > 0),
{
}

/// Whether the option for a stream is set.
pub open spec fn stream_opened(opts: IOOption, st: Stream) -> bool {
    match st {
        Stream::Stdin => opts.open_stdin,
        Stream::Stdout => opts.open_stdout,
        Stream::Stderr => opts.open_stderr,
    }
}

/// A piped driver opens one pipe for each stream whose option is set, whatever the
/// other options are, and no other: the command gets the read end of stdin and the
/// write ends of stdout and stderr as the same stream, and the io user gets that end.
pub proof fn law_piped_io_plan_streams(opts: IOOption, st: Stream)
    ensures
        (exists|i: int| 0 <= i < piped_io_plan_spec(opts).len() && (#[trigger] piped_io_plan_spec(opts)[i]).stream == st)
            <==> stream_opened(opts, st),
        forall|i: int, j: int|
            0 <= i < j < piped_io_plan_spec(opts).len()
                ==> (#[trigger] piped_io_plan_spec(opts)[i]).stream != (#[trigger] piped_io_plan_spec(opts)[j]).stream,
        forall|i: int| 0 <= i < piped_io_plan_spec(opts).len() ==> {
            let p = #[trigger] piped_io_plan_spec(opts)[i];
            &&& p.child_stream == p.stream
            &&& p.child_end == (if p.stream == Stream::Stdin { PipeEnd::Read } else { PipeEnd::Write })
            &&& p.chown == p.child_end
        },
{
    let plan = piped_io_plan_spec(opts);
    if stream_opened(opts, st) {
        let a: int = if opts.open_stdin { 1 } else { 0 };
        let b: int = if opts.open_stdout { 1 } else { 0 };
        let i: int = match st {
            Stream::Stdin => 0,
            Stream::Stdout => a,
            Stream::Stderr => a + b,
        };
        assert(plan[i].stream == st);
    }
}

/// A container has a pid namespace of its own, and so is not taken as sharing one,
/// whenever any of its namespaces, at any position, is a pid namespace without a path.
pub proof fn law_private_pid_namespace_anywhere(spec: RuntimeSpec, i: int)
    requires
        spec.linux matches Some(l) && l.namespaces matches Some(ns)
            && 0 <= i < ns@.len() && ns@[i].typ == LinuxNamespaceType::Pid && ns@[i].path is None,
    ensures
        !shared_pid_namespace(spec),
{
    let ns = spec.linux->Some_0.namespaces->Some_0;
    assert(crate::shim::common::private_pid_ns(ns@[i]));
}

/// A container whose namespaces hold no pid namespace without a path (or that lists
/// none) shares a pid namespace.
pub proof fn law_shared_without_private_pid(spec: RuntimeSpec)
    requires
        spec.linux is Some && spec.linux->Some_0.namespaces is Some ==> forall|i: int|
            0 <= i < spec.linux->Some_0.namespaces->Some_0@.len() ==> !(
                (#[trigger] spec.linux->Some_0.namespaces->Some_0@[i]).typ == LinuxNamespaceType::Pid
                    && spec.linux->Some_0.namespaces->Some_0@[i].path is None),
    ensures
        shared_pid_namespace(spec),
{
}

} // verus!
