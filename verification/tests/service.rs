use runc_shim::error::{Code, ShimError};
use runc_shim::shim::common::{ExecProcessRequest, Linux, LinuxNamespace, LinuxNamespaceType, RuntimeSpec};
use runc_shim::shim::container::{CommonContainer, ContainerFactory};
use runc_shim::shim::runtime::{runtime_error, Log, RuntimeLog};
use runc_shim::shim::event::Event;
use runc_shim::shim::io::Stdio;
use runc_shim::shim::process::{CommonProcess, Status, Timestamp};
use runc_shim::shim::task::{init_exit_kill, KillAction, TaskService, WaitDecision};

const NOW: Timestamp = Timestamp { seconds: 1700000000, nanos: 5 };

fn code_of<T>(r: Result<T, ShimError>) -> Option<Code> {
    match r {
        Ok(_) => panic!("expected an error"),
        Err(e) => e.code(),
    }
}

/// Creates and starts a container whose init process runs as `pid`, returning the
/// events published.
fn start_container(svc: &mut TaskService, id: &str, pid: i32) -> Vec<Event> {
    let mut init = CommonProcess::new(id, Stdio::new("", "/run/out", "", false));
    init.pid = pid;
    let container = CommonContainer::new(id, "/bundles/x", init);
    let (created_pid, create) = svc.create(container);
    assert_eq!(created_pid, pid as u32);
    svc.start_check(id, "").map_err(|e| e.to_string()).expect("start check");
    let (started_pid, start) = svc.start_finish(id, "", 0).map_err(|e| e.to_string()).expect("start");
    assert_eq!(started_pid, pid as u32);
    vec![create, start]
}

/// Adds and starts an exec running as `pid`, returning the events published.
fn start_exec(svc: &mut TaskService, id: &str, exec_id: &str, pid: i32) -> Vec<Event> {
    let spec = oci_spec::runtime::Process::default();
    let req = ExecProcessRequest {
        id: id.to_string(),
        exec_id: exec_id.to_string(),
        spec: Some(serde_json::to_vec(&spec).unwrap()),
        ..Default::default()
    };
    let added = svc.exec(req).map_err(|e| e.to_string()).expect("exec");
    let (started_pid, started) =
        svc.start_finish(id, exec_id, pid).map_err(|e| e.to_string()).expect("start exec");
    assert_eq!(started_pid, pid as u32);
    vec![added, started]
}

#[test]
fn service_state_after_exit() {
    let mut svc = TaskService::new("default");
    start_container(&mut svc, "stopped", 100);
    svc.process_exit(100, 42, NOW);
    let resp = svc.state("stopped", "").map_err(|e| e.to_string()).expect("state after exit");
    assert_eq!(resp.status, Status::Stopped);
    assert_eq!(resp.exit_status, 42);
    assert_eq!(resp.exited_at, Some(NOW));
}

#[test]
fn service_wait_after_exit() {
    let mut svc = TaskService::new("default");
    start_container(&mut svc, "late-wait", 101);
    svc.process_exit(101, 3, NOW);
    for _ in 0..2 {
        let d = svc.wait_check("late-wait", "").map_err(|e| e.to_string()).expect("wait after exit");
        assert_eq!(d, WaitDecision::Exited { exit_status: 3, exited_at: Some(NOW) });
    }
}

#[test]
fn service_exit_events() {
    let mut svc = TaskService::new("default");
    start_container(&mut svc, "exit-event", 102);
    start_exec(&mut svc, "exit-event", "e1", 202);
    let (evs, _woken) = svc.process_exit(202, 5, NOW);
    assert_eq!(evs.len(), 1);
    match &evs[0] {
        Event::TaskExit { container_id, id, pid, exit_status, exited_at } => {
            assert_eq!(container_id, "exit-event");
            assert_eq!(id, "e1", "the event identifies the exec, not the task");
            assert_eq!(*pid, 202);
            assert_eq!(*exit_status, 5);
            assert!(exited_at.is_some());
        }
        _ => panic!("expected an exit event"),
    }
    let (evs, _woken) = svc.process_exit(102, 9, NOW);
    assert_eq!(evs.len(), 1);
    match &evs[0] {
        Event::TaskExit { container_id, id, pid, exit_status, .. } => {
            assert_eq!(container_id, "exit-event");
            assert_eq!(id, "exit-event");
            assert_eq!(*pid, 102);
            assert_eq!(*exit_status, 9);
        }
        _ => panic!("expected an exit event"),
    }
    assert!(svc.process_exit(999, 1, NOW).0.is_empty());
}

#[test]
fn service_start_after_exit() {
    let mut svc = TaskService::new("default");
    start_container(&mut svc, "dead", 103);
    svc.process_exit(103, 0, NOW);
    assert_eq!(code_of(svc.start_check("dead", "")), Some(Code::FailedPrecondition));
}

#[test]
fn service_delete_exec() {
    let mut svc = TaskService::new("default");
    start_container(&mut svc, "del-exec", 104);
    start_exec(&mut svc, "del-exec", "e1", 204);
    svc.process_exit(204, 4, NOW);
    let (resp, _ev) = svc.delete("del-exec", "e1").map_err(|e| e.to_string()).expect("delete exec");
    assert_eq!(resp.pid, 204);
    assert_eq!(resp.exit_status, 4);
    assert_eq!(code_of(svc.state("del-exec", "e1")), Some(Code::NotFound));
    assert!(svc.state("del-exec", "").is_ok(), "container should survive deleting one of its execs");
}

#[test]
fn service_delete_container() {
    let mut svc = TaskService::new("default");
    start_container(&mut svc, "del-task", 105);
    svc.process_exit(105, 6, NOW);
    let (resp, ev) = svc.delete("del-task", "").map_err(|e| e.to_string()).expect("delete container");
    assert_eq!(resp.pid, 105);
    assert_eq!(resp.exit_status, 6);
    assert_eq!(ev.topic(), "/tasks/delete");
    assert_eq!(code_of(svc.state("del-task", "")), Some(Code::NotFound));
}

#[test]
fn service_lifecycle_events() {
    let mut svc = TaskService::new("default");
    let mut evs = start_container(&mut svc, "lifecycle", 106);
    evs.extend(start_exec(&mut svc, "lifecycle", "e1", 206));
    let topics: Vec<String> = evs.iter().map(|e| e.topic()).collect();
    assert_eq!(
        topics,
        ["/tasks/create", "/tasks/start", "/tasks/exec-added", "/tasks/exec-started"]
    );
}

#[test]
fn service_unknown_container() {
    let mut svc = TaskService::new("default");
    assert_eq!(code_of(svc.state("ghost", "")), Some(Code::NotFound));
    assert_eq!(code_of(svc.delete("ghost", "")), Some(Code::NotFound));
    assert_eq!(code_of(svc.kill_action("ghost", "", 9, false)), Some(Code::NotFound));
    assert_eq!(code_of(svc.pids("ghost", &vec![])), Some(Code::NotFound));
    assert_eq!(svc.connect("ghost"), 0);
}

#[test]
fn service_kill_actions() {
    let mut svc = TaskService::new("default");
    start_container(&mut svc, "kill-args", 107);
    match svc.kill_action("kill-args", "", 15, true).map_err(|e| e.to_string()).unwrap() {
        KillAction::Runtime { container_id, signal, all } => {
            assert_eq!(container_id, "kill-args");
            assert_eq!(signal, 15);
            assert!(all);
        }
        _ => panic!("the init process is signalled through the runtime"),
    }
    start_exec(&mut svc, "kill-args", "e1", 207);
    match svc.kill_action("kill-args", "e1", 9, false).map_err(|e| e.to_string()).unwrap() {
        KillAction::Signal { pid, signal } => {
            assert_eq!(pid, 207);
            assert_eq!(signal, 9);
        }
        _ => panic!("an exec is signalled directly"),
    }
    svc.process_exit(207, 137, NOW);
    assert_eq!(code_of(svc.kill_action("kill-args", "e1", 9, false)), Some(Code::NotFound));
}

#[test]
fn service_pids_exec_details() {
    let mut svc = TaskService::new("default");
    start_container(&mut svc, "pids", 108);
    start_exec(&mut svc, "pids", "e1", 208);
    let infos = svc.pids("pids", &vec![108, 208]).map_err(|e| e.to_string()).unwrap();
    assert_eq!(infos.len(), 2);
    assert_eq!(infos[0].pid, 108);
    assert_eq!(infos[0].exec_id, None, "the init process carries no exec details");
    assert_eq!(infos[1].pid, 208);
    assert_eq!(infos[1].exec_id.as_deref(), Some("e1"));
}

#[test]
fn service_connect_and_shutdown() {
    let mut svc = TaskService::new("default");
    start_container(&mut svc, "connect", 109);
    assert_eq!(svc.connect("connect"), 109);
    assert!(!svc.shutdown(), "shutdown must not signal exit while a container is still held");
    svc.process_exit(109, 0, NOW);
    svc.delete("connect", "").map_err(|e| e.to_string()).unwrap();
    assert!(svc.shutdown(), "shutdown should signal exit once empty");
}

#[test]
fn service_pause_resume() {
    let mut svc = TaskService::new("default");
    start_container(&mut svc, "paused", 110);
    svc.pause_begin("paused").map_err(|e| e.to_string()).unwrap();
    assert_eq!(svc.state("paused", "").map_err(|e| e.to_string()).unwrap().status, Status::Pausing);
    svc.pause_end("paused", true).map_err(|e| e.to_string()).unwrap();
    assert_eq!(svc.state("paused", "").map_err(|e| e.to_string()).unwrap().status, Status::Paused);
    svc.resume_check("paused").map_err(|e| e.to_string()).unwrap();
    let ev = svc.resume_finish("paused").map_err(|e| e.to_string()).unwrap();
    assert_eq!(ev.topic(), "/tasks/resumed");
    assert_eq!(svc.state("paused", "").map_err(|e| e.to_string()).unwrap().status, Status::Running);
}

#[test]
fn service_waiters_woken_by_exit() {
    let mut svc = TaskService::new("default");
    start_container(&mut svc, "waiters", 111);
    start_exec(&mut svc, "waiters", "e1", 211);
    for w in 0..50u64 {
        let d = svc.wait_check("waiters", "").map_err(|e| e.to_string()).unwrap();
        assert_eq!(d, WaitDecision::Pending { register: true }, "a waiter returned before the task exited");
        assert!(svc.add_waiter("waiters", "", w).map_err(|e| e.to_string()).unwrap());
    }
    assert!(svc.add_waiter("waiters", "e1", 99).map_err(|e| e.to_string()).unwrap());
    let (_, woken) = svc.process_exit(211, 1, NOW);
    assert_eq!(woken, vec![99]);
    let (_, woken) = svc.process_exit(111, 7, NOW);
    assert_eq!(woken, (0..50u64).collect::<Vec<_>>(), "every waiter is woken after the task exited");
    let d = svc.wait_check("waiters", "").map_err(|e| e.to_string()).unwrap();
    assert_eq!(d, WaitDecision::Exited { exit_status: 7, exited_at: Some(NOW) });
    assert!(!svc.add_waiter("waiters", "", 100).map_err(|e| e.to_string()).unwrap());
    assert!(svc.process_exit(111, 7, NOW).1.is_empty());
}

#[test]
fn service_console_attached_to_exec() {
    let mut svc = TaskService::new("default");
    start_container(&mut svc, "tty", 120);
    start_exec(&mut svc, "tty", "e1", 220);
    assert!(!svc.resize_pty("tty", "e1", 24, 80).map_err(|e| e.to_string()).unwrap());
    svc.attach_console("tty", "e1").map_err(|e| e.to_string()).unwrap();
    assert!(svc.resize_pty("tty", "e1", 24, 80).map_err(|e| e.to_string()).unwrap());
    assert!(!svc.resize_pty("tty", "", 24, 80).map_err(|e| e.to_string()).unwrap());
    assert_eq!(code_of(svc.attach_console("tty", "e2")), Some(Code::NotFound));
    assert_eq!(code_of(svc.attach_console("none", "")), Some(Code::NotFound));
}

#[test]
fn init_exit_kill_follows_pid_namespace() {
    let shared = RuntimeSpec { linux: None };
    let private = RuntimeSpec {
        linux: Some(Linux {
            namespaces: Some(vec![LinuxNamespace { typ: LinuxNamespaceType::Pid, path: None }]),
        }),
    };
    match init_exit_kill("c1", Some(&shared)) {
        Some(KillAction::Runtime { container_id, signal, all }) => {
            assert_eq!(container_id, "c1");
            assert_eq!(signal, 9);
            assert!(all);
        },
        other => panic!("unexpected {:?}", other),
    }
    assert!(init_exit_kill("c1", Some(&private)).is_none());
    assert!(init_exit_kill("c1", None).is_none());
}

#[test]
fn service_ids_stay_unique() {
    let mut svc = TaskService::new("default");
    start_container(&mut svc, "dup", 130);
    let mut init = CommonProcess::new("dup", Stdio::new("", "", "", false));
    init.pid = 131;
    svc.create(CommonContainer::new("dup", "/bundles/y", init));
    assert_eq!(svc.init_pid("dup").map_err(|e| e.to_string()).unwrap(), 131);
    start_exec(&mut svc, "dup", "e1", 230);
    start_exec(&mut svc, "dup", "e1", 231);
    svc.delete("dup", "e1").map_err(|e| e.to_string()).unwrap();
    assert_eq!(code_of(svc.state("dup", "e1")), Some(Code::NotFound));
    svc.delete("dup", "").map_err(|e| e.to_string()).unwrap();
    assert_eq!(code_of(svc.state("dup", "")), Some(Code::NotFound));
}

#[test]
fn service_kill_unstarted_exec() {
    let mut svc = TaskService::new("default");
    start_container(&mut svc, "kill-new", 108);
    let req = ExecProcessRequest {
        id: "kill-new".to_string(),
        exec_id: "e1".to_string(),
        spec: Some(serde_json::to_vec(&oci_spec::runtime::Process::default()).unwrap()),
        ..Default::default()
    };
    svc.exec(req).map_err(|e| e.to_string()).unwrap();
    assert_eq!(code_of(svc.kill_action("kill-new", "e1", 9, false)), Some(Code::FailedPrecondition));
}

#[test]
fn create_failure() {
    let mut svc = TaskService::new("default");
    let log = RuntimeLog::Entries(vec![
        Log { level: "info".to_string(), msg: "hello".to_string() },
        Log { level: "error".to_string(), msg: "rootfs is not a directory".to_string() },
    ]);
    let made = Err(runtime_error("OCI runtime create failed", log, "exit status 1"));
    let err = svc.create_task(made).map(|_| ()).expect_err("create should fail");
    assert!(
        err.to_string().contains("rootfs is not a directory"),
        "expected the runtime log error in {:?}",
        err.to_string()
    );
    assert_eq!(code_of(svc.state("bad-create", "")), Some(Code::NotFound));
}

/// Makes containers whose init process runs as the pid the request names, or fails
/// on a negative one.
struct PidFactory;

impl ContainerFactory<CommonContainer, (String, i32)> for PidFactory {
    fn create(&self, _ns: &str, req: &(String, i32)) -> Result<CommonContainer, ShimError> {
        if req.1 < 0 {
            return Err(ShimError::Other("unable to create".to_string()));
        }
        let mut init = CommonProcess::new(&req.0, Stdio::new("", "", "", false));
        init.pid = req.1;
        Ok(CommonContainer::new(&req.0, "/bundles/f", init))
    }
}

#[test]
fn service_create_with_factory() {
    let mut svc = TaskService::new("default");
    let (pid, ev) = svc.create_with(&PidFactory, &("made".to_string(), 140)).map_err(|e| e.to_string()).unwrap();
    assert_eq!(pid, 140);
    match ev {
        Event::TaskCreate { container_id, pid, .. } => {
            assert_eq!(container_id, "made");
            assert_eq!(pid, 140);
        }
        other => panic!("unexpected {:?}", other),
    }
    assert_eq!(svc.init_pid("made").map_err(|e| e.to_string()).unwrap(), 140);
    assert!(svc.create_with(&PidFactory, &("broken".to_string(), -1)).is_err());
    assert_eq!(code_of(svc.state("broken", "")), Some(Code::NotFound));
}
