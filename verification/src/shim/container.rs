//! A container: its init process and the exec processes started inside it.
use vstd::prelude::*;

use crate::error::{ErrorKind, ErrorModel, ShimError};
use crate::shim::common::{get_spec_from_request, process_spec_parse_error, ExecProcessRequest, ExecSpec};
use crate::shim::event::{exit_in, Event};
use crate::shim::io::Stdio;
use crate::shim::process::{CommonProcess, ProcessModel, StateModel, StateResponse, Status, Timestamp};
use crate::text::{first_match, lemma_first_match_at, lemma_first_match_none, lemma_first_match_props};

verus! {

/// Makes the container a create request of type `R` asks for, in a namespace: what a
/// runtime does to create one is up to the implementation.
pub trait ContainerFactory<C, R> {
    fn create(&self, ns: &str, req: &R) -> Result<C, ShimError>;
}

/// An exec process: its bookkeeping and the OCI process spec it runs.
pub struct ExecProcess {
    pub common: CommonProcess,
    pub spec: ExecSpec,
}

impl View for ExecProcess {
    type V = ProcessModel;

    open spec fn view(&self) -> ProcessModel {
        self.common@
    }
}

/// The predicate "has id `id`" on processes.
pub open spec fn id_is(id: Seq<char>) -> spec_fn(ProcessModel) -> bool {
    |m: ProcessModel| m.id == id
}

/// The predicate "does not have id `id`" on processes.
pub open spec fn id_is_not(id: Seq<char>) -> spec_fn(ProcessModel) -> bool {
    |m: ProcessModel| m.id != id
}

/// The view of an optional exec id.
pub open spec fn opt_view(exec_id: Option<&str>) -> Option<Seq<char>> {
    match exec_id {
        Some(e) => Some(e@),
        None => None,
    }
}

/// Whether a status is one that a container as a whole passes on to all its processes.
pub open spec fn is_pause_status(s: Status) -> bool {
    s == Status::Paused || s == Status::Pausing
}

/// The mathematical value of a [`CommonContainer`].
pub struct ContainerModel {
    pub id: Seq<char>,
    pub bundle: Seq<char>,
    pub init: ProcessModel,
    pub execs: Seq<ProcessModel>,
}

impl ContainerModel {
    /// No two execs of the container share an id.
    pub open spec fn exec_ids_unique(self) -> bool {
        forall|i: int, j: int|
            0 <= i < self.execs.len() && 0 <= j < self.execs.len() && i != j
                ==> #[trigger] self.execs[i].id != #[trigger] self.execs[j].id
    }

    /// Position of the exec with id `id`, or `-1`.
    pub open spec fn exec_pos(self, id: Seq<char>) -> int {
        first_match(self.execs, id_is(id))
    }

    /// The process addressed by `exec_id`: the init process for `None`.
    pub open spec fn process(self, exec_id: Option<Seq<char>>) -> Option<ProcessModel> {
        match exec_id {
            None => Some(self.init),
            Some(e) => if self.exec_pos(e) >= 0 {
                Some(self.execs[self.exec_pos(e)])
            } else {
                None
            },
        }
    }

    /// What the task API reports of the process addressed by `exec_id`. An exec of a
    /// paused (or pausing) container reports the container's status.
    pub open spec fn state_report(self, exec_id: Option<Seq<char>>) -> Option<StateModel> {
        match self.process(exec_id) {
            None => None,
            Some(p) => Some(StateModel {
                bundle: self.bundle,
                status: if exec_id is Some && is_pause_status(self.init.state) {
                    self.init.state
                } else {
                    p.state
                },
                ..p.state_report()
            }),
        }
    }

    /// The container with the exec `p` added, replacing any exec with the same id.
    pub open spec fn with_exec(self, p: ProcessModel) -> ContainerModel {
        ContainerModel { execs: self.execs.filter(id_is_not(p.id)).push(p), ..self }
    }

    /// The container without the exec with id `id`.
    pub open spec fn without_exec(self, id: Seq<char>) -> ContainerModel {
        ContainerModel { execs: self.execs.filter(id_is_not(id)), ..self }
    }

    /// The container with the process addressed by `exec_id` replaced by `p`.
    pub open spec fn with_process(self, exec_id: Option<Seq<char>>, p: ProcessModel) -> ContainerModel {
        match exec_id {
            None => ContainerModel { init: p, ..self },
            Some(e) => if self.exec_pos(e) >= 0 {
                ContainerModel { execs: self.execs.update(self.exec_pos(e), p), ..self }
            } else {
                self
            },
        }
    }
}

/// A container: its id, bundle, init process and exec processes.
pub struct CommonContainer {
    pub id: String,
    pub bundle: String,
    pub init: CommonProcess,
    pub processes: Vec<ExecProcess>,
}

impl View for CommonContainer {
    type V = ContainerModel;

    open spec fn view(&self) -> ContainerModel {
        ContainerModel {
            id: self.id@,
            bundle: self.bundle@,
            init: self.init@,
            execs: self.processes@.map_values(|e: ExecProcess| e@),
        }
    }
}

/// The error for an exec id that names no exec of the container.
pub open spec fn exec_not_found() -> ErrorModel {
    ErrorModel { kind: ErrorKind::NotFound, detail: "can not find the exec by id"@ }
}

fn exec_not_found_error() -> (e: ShimError)
    ensures
        e@ == exec_not_found(),
{
    ShimError::NotFound(String::from_str("can not find the exec by id"))
}

impl CommonContainer {
    /// A container whose only process is its init process.
    pub fn new(id: &str, bundle: &str, init: CommonProcess) -> (c: Self)
        ensures
            c@ == (ContainerModel { id: id@, bundle: bundle@, init: init@, execs: Seq::empty() }),
    {
        let c = CommonContainer { id: id.to_owned(), bundle: bundle.to_owned(), init, processes: Vec::new() };
        assert(c@.execs =~= Seq::<ProcessModel>::empty());
        c
    }

    /// Position of the exec with id `id`.
    pub fn find_exec(&self, id: &str) -> (r: Option<usize>)
        ensures
            match r {
                Some(i) => i == self@.exec_pos(id@) && i < self.processes@.len(),
                None => self@.exec_pos(id@) == -1,
            },
    {
        let n = self.processes.len();
        let mut i: usize = 0;
        while i < n
            invariant
                n == self.processes@.len(),
                i <= n,
                forall|j: int| 0 <= j < i ==> !id_is(id@)(#[trigger] self@.execs[j]),
            decreases n - i,
        {
            if crate::text::str_eq(self.processes[i].common.id.as_str(), id) {
                proof {
                    lemma_first_match_at(self@.execs, id_is(id@), i as int);
                }
                return Some(i);
            }
            i = i + 1;
        }
        proof {
            lemma_first_match_none(self@.execs, id_is(id@));
        }
        None
    }

    /// The process addressed by `exec_id`.
    pub fn get_process(&self, exec_id: Option<&str>) -> (r: Result<&CommonProcess, ShimError>)
        ensures
            match r {
                Ok(p) => self@.process(opt_view(exec_id)) == Some(p@),
                Err(e) => self@.process(opt_view(exec_id)) is None && e@ == exec_not_found(),
            },
    {
        match exec_id {
            Some(e) => match self.find_exec(e) {
                Some(i) => Ok(&self.processes[i].common),
                None => Err(exec_not_found_error()),
            },
            None => Ok(&self.init),
        }
    }

    /// The state of the process addressed by `exec_id`, with the container's bundle.
    pub fn state(&self, exec_id: Option<&str>) -> (r: Result<StateResponse, ShimError>)
        ensures
            match r {
                Ok(s) => self@.state_report(opt_view(exec_id)) == Some(s@),
                Err(e) => self@.state_report(opt_view(exec_id)) is None && e@ == exec_not_found(),
            },
    {
        let process = self.get_process(exec_id)?;
        let mut resp = process.state();
        resp.bundle = self.bundle.clone();
        if exec_id.is_some() && (self.init.state == Status::Paused || self.init.state == Status::Pausing) {
            resp.status = self.init.state;
        }
        Ok(resp)
    }

    /// Adds the exec process the request describes, replacing any exec with the same id.
    pub fn exec(&mut self, req: ExecProcessRequest) -> (r: Result<(), ShimError>)
        ensures
            r is Ok <==> req.spec_decodes(),
            r is Ok ==> final(self)@ == old(self)@.with_exec(ProcessModel::created(req.exec_id@, req.stdio_model())),
            r is Ok ==> final(self).processes@.last().spec.terminal_view() == Some(req.terminal),
            r is Err ==> final(self)@ == old(self)@,
            r matches Err(e) ==> e@ == (ErrorModel {
                kind: ErrorKind::Other,
                detail: "convert ExecProcess: "@ + match req.spec {
                    None => "Invalid argument: "@ + "no spec in request"@,
                    Some(b) => "Other: "@ + process_spec_parse_error(b@)->0,
                },
            }),
    {
        let spec = match get_spec_from_request(&req) {
            Ok(p) => p,
            Err(e) => {
                let msg = String::from_str("convert ExecProcess: ").concat(e.to_string().as_str());
                return Err(ShimError::Other(msg));
            },
        };
        let exec_id = req.exec_id;
        let stdio = Stdio { stdin: req.stdin, stdout: req.stdout, stderr: req.stderr, terminal: req.terminal };
        let common = CommonProcess::new(exec_id.as_str(), stdio);
        self.remove_exec(exec_id.as_str());
        let ghost before = self@;
        self.processes.push(ExecProcess { common, spec });
        assert(self@.execs =~= before.execs.push(common@));
        Ok(())
    }

    /// Removes the exec with id `id`, if there is one.
    pub fn remove_exec(&mut self, id: &str)
        ensures
            final(self)@ == old(self)@.without_exec(id@),
    {
        let ghost orig = old(self)@.execs;
        let ghost pred = id_is_not(id@);
        let mut kept: Vec<ExecProcess> = Vec::new();
        let mut rest: Vec<ExecProcess> = Vec::new();
        std::mem::swap(&mut rest, &mut self.processes);
        let n0 = rest.len();
        let ghost total = n0 as nat;
        let mut k: usize = 0;
        assert(orig.take(0).filter(pred) =~= Seq::<ProcessModel>::empty()) by {
            reveal_with_fuel(Seq::filter, 1);
        }
        while rest.len() > 0
            invariant
                total == orig.len(),
                k + rest@.len() == total,
                rest@.map_values(|e: ExecProcess| e@) == orig.skip(k as int),
                kept@.map_values(|e: ExecProcess| e@) == orig.take(k as int).filter(pred),
                self.id == old(self).id,
                self.bundle == old(self).bundle,
                self.init == old(self).init,
                self.processes@.len() == 0,
                total <= usize::MAX,
                pred == id_is_not(id@),
                orig == old(self)@.execs,
            decreases rest.len(),
        {
            let ghost old_map = rest@.map_values(|e: ExecProcess| e@);
            let e = rest.remove(0);
            assert(rest@.map_values(|e: ExecProcess| e@) =~= old_map.skip(1));
            proof {
                assert(e@ == orig[k as int]) by {
                    assert(orig.skip(k as int)[0] == orig[k as int]);
                }
                assert(orig.take(k + 1).drop_last() =~= orig.take(k as int));
                reveal_with_fuel(Seq::filter, 1);
            }
            let ghost before = kept@.map_values(|e: ExecProcess| e@);
            let keep = !crate::text::str_eq(e.common.id.as_str(), id);
            proof {
                let t = orig.take(k + 1);
                assert(t.drop_last() =~= orig.take(k as int));
                assert(t.last() == orig[k as int]);
                assert(e.common.id@ == orig[k as int].id);
                assert(pred(orig[k as int]) == (orig[k as int].id != id@));
                assert(keep == pred(orig[k as int]));
                assert(t.filter(pred) == if pred(orig[k as int]) {
                    orig.take(k as int).filter(pred).push(orig[k as int])
                } else {
                    orig.take(k as int).filter(pred)
                });
            }
            if keep {
                kept.push(e);
                assert(kept@.map_values(|e: ExecProcess| e@) =~= before.push(orig[k as int]));
            }
            k = k + 1;
            assert(old_map.skip(1) =~= orig.skip(k as int));
        }
        assert(orig.take(k as int) =~= orig);
        self.processes = kept;
    }

    /// Registers `waiter` for the exit of the process addressed by `exec_id`, unless that
    /// process has already exited; returns whether it was registered (a waiter that was
    /// not is answered at once).
    pub fn wait_channel(&mut self, exec_id: Option<&str>, waiter: u64) -> (r: Result<bool, ShimError>)
        ensures
            match r {
                Ok(b) => old(self)@.process(opt_view(exec_id)) matches Some(p) && b == (p.exited_at is None)
                    && final(self)@ == if b {
                        old(self)@.with_process(opt_view(exec_id), p.with_waiter(waiter))
                    } else {
                        old(self)@
                    },
                Err(e) => old(self)@.process(opt_view(exec_id)) is None && e@ == exec_not_found()
                    && final(self)@ == old(self)@,
            },
    {
        match exec_id {
            None => {
                if self.init.exited_at.is_some() {
                    return Ok(false);
                }
                self.init.add_wait(waiter);
                Ok(true)
            },
            Some(e) => match self.find_exec(e) {
                Some(i) => {
                    if self.processes[i].common.exited_at.is_some() {
                        return Ok(false);
                    }
                    let ghost before = self@;
                    let mut p = self.processes.remove(i);
                    assert(p@ == before.execs[i as int]);
                    p.common.add_wait(waiter);
                    self.processes.insert(i, p);
                    assert(self@.execs =~= before.execs.update(i as int, before.execs[i as int].with_waiter(waiter)));
                    Ok(true)
                },
                None => Err(exec_not_found_error()),
            },
        }
    }

    /// The pid, exit code and exit time of the process addressed by `exec_id`.
    pub fn get_exit_info(&self, exec_id: Option<&str>) -> (r: Result<(i32, i32, Option<Timestamp>), ShimError>)
        ensures
            match r {
                Ok(t) => self@.process(opt_view(exec_id)) matches Some(p) && t == (p.pid, p.exit_code, p.exited_at),
                Err(e) => self@.process(opt_view(exec_id)) is None && e@ == exec_not_found(),
            },
    {
        let process = self.get_process(exec_id)?;
        Ok((process.pid, process.exit_code, process.exited_at))
    }

    /// Whether resizing the pty of the process addressed by `exec_id` has a console to
    /// act on. The init process is not resized; an exec without a console has nothing
    /// to resize.
    pub fn resize_pty(&self, exec_id: Option<&str>, height: u32, width: u32) -> (r: Result<bool, ShimError>)
        ensures
            match r {
                Ok(b) => self@.process(opt_view(exec_id)) matches Some(p) && b == (exec_id is Some && p.console),
                Err(e) => self@.process(opt_view(exec_id)) is None && e@ == exec_not_found(),
            },
    {
        match exec_id {
            Some(e) => {
                let process = self.get_process(exec_id)?;
                Ok(process.console)
            },
            None => Ok(false),
        }
    }

    /// Records that a console is attached to the process addressed by `exec_id`, once the
    /// runtime handed one over.
    pub fn set_console(&mut self, exec_id: Option<&str>) -> (r: Result<(), ShimError>)
        ensures
            match r {
                Ok(()) => old(self)@.process(opt_view(exec_id)) matches Some(p)
                    && final(self)@ == old(self)@.with_process(opt_view(exec_id), p.with_console()),
                Err(e) => old(self)@.process(opt_view(exec_id)) is None && e@ == exec_not_found()
                    && final(self)@ == old(self)@,
            },
    {
        match exec_id {
            None => {
                self.init.set_console();
                Ok(())
            },
            Some(e) => match self.find_exec(e) {
                Some(i) => {
                    let ghost before = self@;
                    let mut p = self.processes.remove(i);
                    assert(p@ == before.execs[i as int]);
                    p.common.set_console();
                    self.processes.insert(i, p);
                    assert(self@.execs =~= before.execs.update(i as int, before.execs[i as int].with_console()));
                    Ok(())
                },
                None => Err(exec_not_found_error()),
            },
        }
    }

    /// Replaces the process addressed by `exec_id` by the result of `set_exited`.
    pub fn set_exited(&mut self, exec_id: Option<&str>, exit_code: i32, now: Timestamp) -> (r: Result<(), ShimError>)
        ensures
            match r {
                Ok(()) => old(self)@.process(opt_view(exec_id)) matches Some(p)
                    && final(self)@ == old(self)@.with_process(opt_view(exec_id), p.exited(exit_code, now)),
                Err(e) => old(self)@.process(opt_view(exec_id)) is None && e@ == exec_not_found()
                    && final(self)@ == old(self)@,
            },
    {
        match exec_id {
            None => {
                let _woken = self.init.set_exited(exit_code, now);
                Ok(())
            },
            Some(e) => match self.find_exec(e) {
                Some(i) => {
                    let ghost before = self@;
                    let mut p = self.processes.remove(i);
                    assert(p@ == before.execs[i as int]);
                    let ghost pb = p@;
                    assert(pb == before.execs[i as int]);
                    let _woken = p.common.set_exited(exit_code, now);
                    assert(p@ == pb.exited(exit_code, now));
                    self.processes.insert(i, p);
                    assert(self@.execs =~= before.execs.update(i as int, before.execs[i as int].exited(exit_code, now)));
                    Ok(())
                },
                None => Err(exec_not_found_error()),
            },
        }
    }

    /// Marks the process addressed by `exec_id` running with pid `pid`.
    pub fn set_running(&mut self, exec_id: Option<&str>, pid: i32) -> (r: Result<(), ShimError>)
        ensures
            match r {
                Ok(()) => old(self)@.process(opt_view(exec_id)) matches Some(p)
                    && final(self)@ == old(self)@.with_process(opt_view(exec_id), p.running(pid)),
                Err(e) => old(self)@.process(opt_view(exec_id)) is None && e@ == exec_not_found()
                    && final(self)@ == old(self)@,
            },
    {
        match exec_id {
            None => {
                self.init.set_running(pid);
                Ok(())
            },
            Some(e) => match self.find_exec(e) {
                Some(i) => {
                    let ghost before = self@;
                    let mut p = self.processes.remove(i);
                    assert(p@ == before.execs[i as int]);
                    p.common.set_running(pid);
                    self.processes.insert(i, p);
                    assert(self@.execs =~= before.execs.update(i as int, before.execs[i as int].running(pid)));
                    Ok(())
                },
                None => Err(exec_not_found_error()),
            },
        }
    }
}

impl CommonContainer {
    /// Position of the first exec with pid `pid`.
    pub fn find_exec_pid(&self, pid: i32) -> (r: Option<usize>)
        ensures
            match r {
                Some(i) => i == first_match(self@.execs, exec_pid_is(pid)) && i < self.processes@.len(),
                None => first_match(self@.execs, exec_pid_is(pid)) == -1,
            },
    {
        let n = self.processes.len();
        let mut i: usize = 0;
        while i < n
            invariant
                n == self.processes@.len(),
                i <= n,
                forall|j: int| 0 <= j < i ==> !exec_pid_is(pid)(#[trigger] self@.execs[j]),
            decreases n - i,
        {
            if self.processes[i].common.pid == pid {
                proof {
                    lemma_first_match_at(self@.execs, exec_pid_is(pid), i as int);
                }
                return Some(i);
            }
            i = i + 1;
        }
        proof {
            lemma_first_match_none(self@.execs, exec_pid_is(pid));
        }
        None
    }

    /// Marks the exec at position `k` exited with `exit_code` at `now`.
    pub fn exec_set_exited_at(&mut self, k: usize, exit_code: i32, now: Timestamp) -> (woken: Vec<u64>)
        requires
            k < old(self).processes@.len(),
        ensures
            final(self)@ == (ContainerModel {
                execs: old(self)@.execs.update(k as int, old(self)@.execs[k as int].exited(exit_code, now)),
                ..old(self)@
            }),
            woken@ == old(self)@.execs[k as int].waiters,
    {
        let ghost before = self@;
        let mut p = self.processes.remove(k);
        assert(p@ == before.execs[k as int]);
        let woken = p.common.set_exited(exit_code, now);
        self.processes.insert(k, p);
        assert(self@.execs =~= before.execs.update(k as int, before.execs[k as int].exited(exit_code, now)));
        woken
    }

    /// The id of the first exec whose pid, as `ps` lists pids, is `pid`.
    pub fn exec_id_of_pid(&self, pid: usize) -> (r: Option<String>)
        ensures
            match r {
                Some(e) => first_match(self@.execs, pid_is(pid)) >= 0
                    && e@ == self@.execs[first_match(self@.execs, pid_is(pid))].id,
                None => first_match(self@.execs, pid_is(pid)) == -1,
            },
    {
        let n = self.processes.len();
        let mut i: usize = 0;
        while i < n
            invariant
                n == self.processes@.len(),
                i <= n,
                forall|j: int| 0 <= j < i ==> !pid_is(pid)(#[trigger] self@.execs[j]),
            decreases n - i,
        {
            if self.processes[i].common.pid as usize == pid {
                proof {
                    lemma_first_match_at(self@.execs, pid_is(pid), i as int);
                }
                return Some(self.processes[i].common.id.clone());
            }
            i = i + 1;
        }
        proof {
            lemma_first_match_none(self@.execs, pid_is(pid));
        }
        None
    }
}

/// The predicate "has pid `pid`" on processes.
pub open spec fn exec_pid_is(pid: i32) -> spec_fn(ProcessModel) -> bool {
    |m: ProcessModel| m.pid == pid
}

/// The predicate "has pid `pid`" on processes, as `ps` lists pids.
pub open spec fn pid_is(pid: usize) -> spec_fn(ProcessModel) -> bool {
    |m: ProcessModel| m.pid as usize == pid
}

impl CommonContainer {
    /// Records the exit of process `pid` with `code` at `now`, as `exit_in` describes,
    /// and returns the exit events to publish and the waiters to wake.
    #[verifier::rlimit(40)]
    pub fn apply_exit(&mut self, pid: i32, code: i32, now: Timestamp) -> (r: (Vec<Event>, Vec<u64>))
        ensures
            final(self)@ == exit_in(old(self)@, pid, code, now).0,
            r.0@.map_values(|e: Event| e@) == exit_in(old(self)@, pid, code, now).1,
            r.1@ == exit_in(old(self)@, pid, code, now).2,
    {
        let mut evs: Vec<Event> = Vec::new();
        let mut woken: Vec<u64> = Vec::new();
        if self.init.pid == pid {
            let ev = Event::TaskExit {
                container_id: self.id.clone(),
                id: self.id.clone(),
                pid: self.init.pid as u32,
                exit_status: code as u32,
                exited_at: Some(now),
            };
            woken = self.init.set_exited(code, now);
            evs.push(ev);
        } else {
            match self.find_exec_pid(pid) {
                Some(k) => {
                    let ev = Event::TaskExit {
                        container_id: self.id.clone(),
                        id: self.processes[k].common.id.clone(),
                        pid: self.processes[k].common.pid as u32,
                        exit_status: code as u32,
                        exited_at: Some(now),
                    };
                    woken = self.exec_set_exited_at(k, code, now);
                    evs.push(ev);
                },
                None => {},
            }
        }
        assert(evs@.map_values(|e: Event| e@) =~= exit_in(old(self)@, pid, code, now).1);
        (evs, woken)
    }
}

} // verus!
