//! The events the shim publishes to containerd, and the exit events in particular.
use vstd::prelude::*;

use crate::shim::container::{exec_pid_is, ContainerModel};
use crate::shim::io::{Stdio, StdioModel};
use crate::shim::process::{ProcessModel, Timestamp};
use crate::text::first_match;

verus! {

/// An event the shim publishes to containerd.
#[derive(Debug)]
pub enum Event {
    TaskCreate { container_id: String, bundle: String, stdio: Stdio, pid: u32 },
    TaskStart { container_id: String, pid: u32 },
    TaskExecAdded { container_id: String, exec_id: String },
    TaskExecStarted { container_id: String, exec_id: String, pid: u32 },
    TaskDelete { container_id: String, pid: u32, exit_status: u32, exited_at: Option<Timestamp> },
    TaskExit { container_id: String, id: String, pid: u32, exit_status: u32, exited_at: Option<Timestamp> },
    TaskPaused { container_id: String },
    TaskResumed { container_id: String },
    TaskOOM { container_id: String },
}

/// The mathematical value of an [`Event`].
pub enum EventModel {
    TaskCreate { container_id: Seq<char>, bundle: Seq<char>, stdio: StdioModel, pid: u32 },
    TaskStart { container_id: Seq<char>, pid: u32 },
    TaskExecAdded { container_id: Seq<char>, exec_id: Seq<char> },
    TaskExecStarted { container_id: Seq<char>, exec_id: Seq<char>, pid: u32 },
    TaskDelete { container_id: Seq<char>, pid: u32, exit_status: u32, exited_at: Option<Timestamp> },
    TaskExit { container_id: Seq<char>, id: Seq<char>, pid: u32, exit_status: u32, exited_at: Option<Timestamp> },
    TaskPaused { container_id: Seq<char> },
    TaskResumed { container_id: Seq<char> },
    TaskOOM { container_id: Seq<char> },
}

impl View for Event {
    type V = EventModel;

    open spec fn view(&self) -> EventModel {
        match self {
            Event::TaskCreate { container_id, bundle, stdio, pid } =>
                EventModel::TaskCreate { container_id: container_id@, bundle: bundle@, stdio: stdio@, pid: *pid },
            Event::TaskStart { container_id, pid } => EventModel::TaskStart { container_id: container_id@, pid: *pid },
            Event::TaskExecAdded { container_id, exec_id } =>
                EventModel::TaskExecAdded { container_id: container_id@, exec_id: exec_id@ },
            Event::TaskExecStarted { container_id, exec_id, pid } =>
                EventModel::TaskExecStarted { container_id: container_id@, exec_id: exec_id@, pid: *pid },
            Event::TaskDelete { container_id, pid, exit_status, exited_at } =>
                EventModel::TaskDelete { container_id: container_id@, pid: *pid, exit_status: *exit_status, exited_at: *exited_at },
            Event::TaskExit { container_id, id, pid, exit_status, exited_at } =>
                EventModel::TaskExit { container_id: container_id@, id: id@, pid: *pid, exit_status: *exit_status, exited_at: *exited_at },
            Event::TaskPaused { container_id } => EventModel::TaskPaused { container_id: container_id@ },
            Event::TaskResumed { container_id } => EventModel::TaskResumed { container_id: container_id@ },
            Event::TaskOOM { container_id } => EventModel::TaskOOM { container_id: container_id@ },
        }
    }
}

impl EventModel {
    /// The topic an event is published on.
    pub open spec fn topic(self) -> Seq<char> {
        match self {
            EventModel::TaskCreate { .. } => "/tasks/create"@,
            EventModel::TaskStart { .. } => "/tasks/start"@,
            EventModel::TaskExecAdded { .. } => "/tasks/exec-added"@,
            EventModel::TaskExecStarted { .. } => "/tasks/exec-started"@,
            EventModel::TaskDelete { .. } => "/tasks/delete"@,
            EventModel::TaskExit { .. } => "/tasks/exit"@,
            EventModel::TaskPaused { .. } => "/tasks/paused"@,
            EventModel::TaskResumed { .. } => "/tasks/resumed"@,
            EventModel::TaskOOM { .. } => "/tasks/oom"@,
        }
    }
}

impl Event {
    /// The topic this event is published on.
    pub fn topic(&self) -> (t: String)
        ensures
            t@ == self@.topic(),
    {
        match self {
            Event::TaskCreate { .. } => String::from_str("/tasks/create"),
            Event::TaskStart { .. } => String::from_str("/tasks/start"),
            Event::TaskExecAdded { .. } => String::from_str("/tasks/exec-added"),
            Event::TaskExecStarted { .. } => String::from_str("/tasks/exec-started"),
            Event::TaskDelete { .. } => String::from_str("/tasks/delete"),
            Event::TaskExit { .. } => String::from_str("/tasks/exit"),
            Event::TaskPaused { .. } => String::from_str("/tasks/paused"),
            Event::TaskResumed { .. } => String::from_str("/tasks/resumed"),
            Event::TaskOOM { .. } => String::from_str("/tasks/oom"),
        }
    }
}

/// The exit event for `p` of container `c`.
pub open spec fn exit_event(c: ContainerModel, p: ProcessModel, code: i32, now: Timestamp) -> EventModel {
    EventModel::TaskExit {
        container_id: c.id,
        id: p.id,
        pid: p.pid as u32,
        exit_status: code as u32,
        exited_at: Some(now),
    }
}

/// The exit event for the init process of container `c`.
pub open spec fn init_exit_event(c: ContainerModel, code: i32, now: Timestamp) -> EventModel {
    EventModel::TaskExit {
        container_id: c.id,
        id: c.id,
        pid: c.init.pid as u32,
        exit_status: code as u32,
        exited_at: Some(now),
    }
}

/// What an exit of process `pid` with `code` at `now` does to container `c`: its init
/// process, or else the first of its execs, with that pid is marked exited, with the
/// event that reports it and the waiters it wakes.
pub open spec fn exit_in(c: ContainerModel, pid: i32, code: i32, now: Timestamp) -> (ContainerModel, Seq<EventModel>, Seq<u64>) {
    if c.init.pid == pid {
        (ContainerModel { init: c.init.exited(code, now), ..c }, seq![init_exit_event(c, code, now)], c.init.waiters)
    } else {
        let k = first_match(c.execs, exec_pid_is(pid));
        if k >= 0 {
            (ContainerModel { execs: c.execs.update(k, c.execs[k].exited(code, now)), ..c },
             seq![exit_event(c, c.execs[k], code, now)], c.execs[k].waiters)
        } else {
            (c, Seq::<EventModel>::empty(), Seq::<u64>::empty())
        }
    }
}

} // verus!
