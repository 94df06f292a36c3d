//! A process the shim tracks: the container's init process or one of its execs.
use vstd::prelude::*;

use crate::error::ShimError;
use crate::shim::io::{Stdio, StdioModel};

verus! {

/// The lifecycle status of a process, as containerd's task API reports it.
#[derive(PartialEq, Eq, Structural, Clone, Copy, Debug)]
pub enum Status {
    Unknown,
    Created,
    Running,
    Stopped,
    Paused,
    Pausing,
}

impl Status {
    /// The name of the status, as containerd spells it.
    pub open spec fn spec_name(self) -> Seq<char> {
        match self {
            Status::Unknown => "UNKNOWN"@,
            Status::Created => "CREATED"@,
            Status::Running => "RUNNING"@,
            Status::Stopped => "STOPPED"@,
            Status::Paused => "PAUSED"@,
            Status::Pausing => "PAUSING"@,
        }
    }

    /// The name of the status.
    pub fn name(&self) -> (s: String)
        ensures
            s@ == self.spec_name(),
    {
        match self {
            Status::Unknown => String::from_str("UNKNOWN"),
            Status::Created => String::from_str("CREATED"),
            Status::Running => String::from_str("RUNNING"),
            Status::Stopped => String::from_str("STOPPED"),
            Status::Paused => String::from_str("PAUSED"),
            Status::Pausing => String::from_str("PAUSING"),
        }
    }
}

/// A point in time: seconds and nanoseconds since the Unix epoch.
#[derive(PartialEq, Eq, Structural, Clone, Copy, Debug)]
pub struct Timestamp {
    pub seconds: i64,
    pub nanos: i32,
}

/// A process of a container.
#[derive(Debug)]
pub struct CommonProcess {
    pub state: Status,
    pub id: String,
    pub stdio: Stdio,
    pub pid: i32,
    pub exit_code: i32,
    pub exited_at: Option<Timestamp>,
    /// Whether a console is attached to the process.
    pub console: bool,
    /// The waiters registered for the process's exit, by the tickets the caller gave
    /// them; they are woken, and dropped, when it exits.
    pub waiters: Vec<u64>,
}

/// The mathematical value of a [`CommonProcess`].
pub struct ProcessModel {
    pub state: Status,
    pub id: Seq<char>,
    pub stdio: StdioModel,
    pub pid: i32,
    pub exit_code: i32,
    pub exited_at: Option<Timestamp>,
    pub console: bool,
    pub waiters: Seq<u64>,
}

impl View for CommonProcess {
    type V = ProcessModel;

    open spec fn view(&self) -> ProcessModel {
        ProcessModel {
            state: self.state,
            id: self.id@,
            stdio: self.stdio@,
            pid: self.pid,
            exit_code: self.exit_code,
            exited_at: self.exited_at,
            console: self.console,
            waiters: self.waiters@,
        }
    }
}

/// What the task API reports of a process.
#[derive(Debug)]
pub struct StateResponse {
    pub id: String,
    pub bundle: String,
    pub pid: u32,
    pub status: Status,
    pub stdin: String,
    pub stdout: String,
    pub stderr: String,
    pub terminal: bool,
    pub exit_status: u32,
    pub exited_at: Option<Timestamp>,
}

/// The mathematical value of a [`StateResponse`].
pub struct StateModel {
    pub id: Seq<char>,
    pub bundle: Seq<char>,
    pub pid: u32,
    pub status: Status,
    pub stdin: Seq<char>,
    pub stdout: Seq<char>,
    pub stderr: Seq<char>,
    pub terminal: bool,
    pub exit_status: u32,
    pub exited_at: Option<Timestamp>,
}

impl View for StateResponse {
    type V = StateModel;

    open spec fn view(&self) -> StateModel {
        StateModel {
            id: self.id@,
            bundle: self.bundle@,
            pid: self.pid,
            status: self.status,
            stdin: self.stdin@,
            stdout: self.stdout@,
            stderr: self.stderr@,
            terminal: self.terminal,
            exit_status: self.exit_status,
            exited_at: self.exited_at,
        }
    }
}

impl ProcessModel {
    /// A fresh process: created, with no pid and no exit yet.
    pub open spec fn created(id: Seq<char>, stdio: StdioModel) -> ProcessModel {
        ProcessModel {
            state: Status::Created,
            id,
            stdio,
            pid: 0,
            exit_code: 0,
            exited_at: None,
            console: false,
            waiters: Seq::empty(),
        }
    }

    /// The process after it exited with `code` at `at`: its waiters are woken and gone.
    pub open spec fn exited(self, code: i32, at: Timestamp) -> ProcessModel {
        ProcessModel { state: Status::Stopped, exit_code: code, exited_at: Some(at), waiters: Seq::empty(), ..self }
    }

    /// The process once a console is attached to it.
    pub open spec fn with_console(self) -> ProcessModel {
        ProcessModel { console: true, ..self }
    }

    /// The process with one more waiter for its exit.
    pub open spec fn with_waiter(self, w: u64) -> ProcessModel {
        ProcessModel { waiters: self.waiters.push(w), ..self }
    }

    /// The process after it started running with pid `pid`.
    pub open spec fn running(self, pid: i32) -> ProcessModel {
        ProcessModel { state: Status::Running, pid, ..self }
    }

    /// The process's state as reported; the bundle is left empty for the container to fill.
    pub open spec fn state_report(self) -> StateModel {
        StateModel {
            id: self.id,
            bundle: Seq::empty(),
            pid: self.pid as u32,
            status: self.state,
            stdin: self.stdio.stdin,
            stdout: self.stdio.stdout,
            stderr: self.stdio.stderr,
            terminal: self.stdio.terminal,
            exit_status: self.exit_code as u32,
            exited_at: self.exited_at,
        }
    }
}

impl CommonProcess {
    /// A fresh process with the given id and stdio.
    pub fn new(id: &str, stdio: Stdio) -> (p: Self)
        ensures
            p@ == ProcessModel::created(id@, stdio@),
    {
        CommonProcess {
            state: Status::Created,
            id: id.to_owned(),
            stdio,
            pid: 0,
            exit_code: 0,
            exited_at: None,
            console: false,
            waiters: Vec::new(),
        }
    }

    /// Records that the process exited with `exit_code` at `now`, and returns the waiters
    /// to wake: all that were registered.
    pub fn set_exited(&mut self, exit_code: i32, now: Timestamp) -> (woken: Vec<u64>)
        ensures
            final(self)@ == old(self)@.exited(exit_code, now),
            woken@ == old(self)@.waiters,
    {
        self.state = Status::Stopped;
        self.exit_code = exit_code;
        self.exited_at = Some(now);
        let mut woken: Vec<u64> = Vec::new();
        std::mem::swap(&mut woken, &mut self.waiters);
        woken
    }

    /// Registers a waiter for the process's exit.
    pub fn add_wait(&mut self, waiter: u64)
        ensures
            final(self)@ == old(self)@.with_waiter(waiter),
    {
        self.waiters.push(waiter);
    }

    /// Records that a console is attached to the process.
    pub fn set_console(&mut self)
        ensures
            final(self)@ == old(self)@.with_console(),
    {
        self.console = true;
    }

    /// Records that the process is running with pid `pid`.
    pub fn set_running(&mut self, pid: i32)
        ensures
            final(self)@ == old(self)@.running(pid),
    {
        self.state = Status::Running;
        self.pid = pid;
    }

    pub fn id(&self) -> (s: &str)
        ensures
            s@ == self@.id,
    {
        self.id.as_str()
    }

    pub fn status(&self) -> (s: Status)
        ensures
            s == self@.state,
    {
        self.state
    }

    pub fn set_status(&mut self, status: Status)
        ensures
            final(self)@ == (ProcessModel { state: status, ..old(self)@ }),
    {
        self.state = status;
    }

    pub fn pid(&self) -> (p: i32)
        ensures
            p == self@.pid,
    {
        self.pid
    }

    pub fn terminal(&self) -> (t: bool)
        ensures
            t == self@.stdio.terminal,
    {
        self.stdio.terminal
    }

    pub fn stdin(&self) -> (s: String)
        ensures
            s@ == self@.stdio.stdin,
    {
        self.stdio.stdin.clone()
    }

    pub fn stdout(&self) -> (s: String)
        ensures
            s@ == self@.stdio.stdout,
    {
        self.stdio.stdout.clone()
    }

    pub fn stderr(&self) -> (s: String)
        ensures
            s@ == self@.stdio.stderr,
    {
        self.stdio.stderr.clone()
    }

    pub fn exit_code(&self) -> (c: i32)
        ensures
            c == self@.exit_code,
    {
        self.exit_code
    }

    pub fn exited_at(&self) -> (t: Option<Timestamp>)
        ensures
            t == self@.exited_at,
    {
        self.exited_at
    }

    /// What the task API reports of this process.
    pub fn state(&self) -> (r: StateResponse)
        ensures
            r@ == self@.state_report(),
    {
        StateResponse {
            id: self.id.clone(),
            bundle: String::new(),
            pid: self.pid as u32,
            status: self.state,
            stdin: self.stdio.stdin.clone(),
            stdout: self.stdio.stdout.clone(),
            stderr: self.stdio.stderr.clone(),
            terminal: self.stdio.terminal,
            exit_status: self.exit_code as u32,
            exited_at: self.exited_at,
        }
    }
}

} // verus!
