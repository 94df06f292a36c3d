use runc_shim::error::ShimError;
use runc_shim::shim::io::Stdio;
use runc_shim::shim::lifecycle::{
    check_cgroup_use, CgroupUse,
    console_copy_plan, copy_plan, criu_work_path, delete_outcome, exec_pid_path, exec_start_opts,
    init_create_opts, init_pid_path, parse_i32, CopyPlan,
};
use runc_shim::shim::process::Timestamp;
use runc_shim::shim::runtime::{
    copy_step, create_runc, delete_shim_response, existing_cgroup_mem_path, is_zombie_status,
    path_from_cgroup, path_from_mountinfo, runc_opts, runtime_error, shim_grouping, CopyStep, Log,
    ReadOutcome, RuntimeLog,
};

fn log(level: &str, msg: &str) -> Log {
    Log { level: level.to_string(), msg: msg.to_string() }
}

fn other_detail(e: ShimError) -> String {
    match e {
        ShimError::Other(d) => d,
        _ => panic!("expected an Other error"),
    }
}

#[test]
fn runtime_error_last_error() {
    let logs = vec![
        log("info", "hello world"),
        log("error", "failed error"),
        log("error", "  panic \n"),
    ];
    let e = runtime_error("OCI runtime create failed", RuntimeLog::Entries(logs), "exit status 1");
    assert_eq!(other_detail(e), "OCI runtime create failed: panic");
}

#[test]
fn runtime_error_without_error_entries() {
    let e = runtime_error("start failed", RuntimeLog::Entries(vec![log("info", "x")]), "exit status 2");
    assert_eq!(other_detail(e), "start failed: (no OCI runtime error in logfile) exit status 2");
    let e = runtime_error("m", RuntimeLog::Unparsable("bad".to_string()), "c");
    assert_eq!(other_detail(e), "m: unable to parse log msg: bad");
    let e = runtime_error("m", RuntimeLog::Unreadable("gone".to_string()), "c");
    assert_eq!(other_detail(e), "m: unable to open OCI runtime log file)gone");
}

#[test]
fn shim_runc_options() {
    let o = runc_opts("", "k8s.io", "/run/bundle", "", true);
    assert_eq!(o.command.as_deref(), Some("runc"));
    assert_eq!(o.root.as_deref(), Some("/run/containerd/runc/k8s.io"));
    assert_eq!(o.log.as_deref(), Some("/run/bundle/log.json"));
    assert!(o.systemd_cgroup);
    let o = runc_opts("/usr/local/bin/crun", "default", "/b/", "/var/run/x", false);
    assert_eq!(o.command.as_deref(), Some("/usr/local/bin/crun"));
    assert_eq!(o.root.as_deref(), Some("/var/run/x/default"));
    assert_eq!(o.log.as_deref(), Some("/b/log.json"));

    let runc = create_runc("", "default", "/b", "", false, Some("/usr/bin/runc".to_string()))
        .map_err(|e| e.to_string())
        .unwrap();
    assert_eq!(runc.command, "/usr/bin/runc");
    assert_eq!(
        runc.args,
        vec!["--root", "/run/containerd/runc/default", "--log", "/b/log.json", "--log-format", "json"]
    );
    let e = create_runc("", "default", "/b", "", false, None).err().unwrap();
    assert!(other_detail(e).starts_with("unable to create runc instance"));
}

#[test]
fn grouping_labels() {
    let anns = vec![
        ("io.kubernetes.cri.sandbox-id".to_string(), "sandbox".to_string()),
        ("other".to_string(), "x".to_string()),
    ];
    assert_eq!(shim_grouping("task", &anns), "sandbox");
    let anns = vec![
        ("io.kubernetes.cri.sandbox-id".to_string(), "sandbox".to_string()),
        ("io.containerd.runc.v2.group".to_string(), "group".to_string()),
    ];
    assert_eq!(shim_grouping("task", &anns), "group");
    assert_eq!(shim_grouping("task", &vec![]), "task");
}

#[test]
fn zombie_detection() {
    assert!(is_zombie_status("Name:\tsh\nState:\tZ (zombie)\nPid:\t1\n"));
    assert!(!is_zombie_status("Name:\tZed\nState:\tS (sleeping)\n"));
    assert!(!is_zombie_status(""));
    assert!(is_zombie_status("State:\tZ (zombie)\r\n"));
}

#[test]
fn cgroup_paths() {
    let text = "12:pids:/kubepods/x\n4:memory:/kubepods/burstable/pod1/abc\n0::/\n";
    assert_eq!(path_from_cgroup(text).map_err(|e| e.to_string()).unwrap(), "/kubepods/burstable/pod1/abc");
    assert_eq!(
        other_detail(path_from_cgroup("0::/\n").err().unwrap()),
        "Memory line not found"
    );
    assert_eq!(
        other_detail(path_from_cgroup("4:memory_x:/a\n").err().unwrap()),
        "Failed to parse memory line"
    );

    let mountinfo = "22 26 0:20 / /sys rw - sysfs sysfs rw\n\
        35 25 0:31 /kubepods /sys/fs/cgroup/memory rw,nosuid - cgroup cgroup rw,memory\n";
    let (root, point) = path_from_mountinfo(mountinfo).map_err(|e| e.to_string()).unwrap();
    assert_eq!(root, "/kubepods");
    assert_eq!(point, "/sys/fs/cgroup/memory");
    assert_eq!(
        other_detail(path_from_mountinfo("1 2 3\n").err().unwrap()),
        "Lines containers cgroup and memory not found in mountinfo"
    );
    assert_eq!(
        other_detail(path_from_mountinfo("a cgroup memory\n").err().unwrap()),
        "Invalid input information about mountinfo"
    );

    let (rel, point) = existing_cgroup_mem_path("/kubepods/kubepods/pod1", mountinfo)
        .map_err(|e| e.to_string())
        .unwrap();
    assert_eq!(rel, "/pod1");
    assert_eq!(point, "/sys/fs/cgroup/memory");
    let root_mount = "35 25 0:31 / /sys/fs/cgroup/memory rw - cgroup cgroup rw,memory\n";
    let (rel, _) = existing_cgroup_mem_path("/pod1", root_mount).map_err(|e| e.to_string()).unwrap();
    assert_eq!(rel, "/pod1");
}

#[test]
fn copy_loop_steps() {
    assert_eq!(copy_step(10, ReadOutcome::End), CopyStep::Done(10));
    assert_eq!(copy_step(10, ReadOutcome::Data(0)), CopyStep::Done(10));
    assert_eq!(copy_step(10, ReadOutcome::Data(5)), CopyStep::Write { len: 5, written: 15 });
    assert_eq!(copy_step(10, ReadOutcome::Interrupted), CopyStep::Retry);
    assert_eq!(copy_step(10, ReadOutcome::Failed), CopyStep::Fail);
}

#[test]
fn shim_delete_response() {
    let now = Timestamp { seconds: 12, nanos: 34 };
    let r = delete_shim_response(now);
    assert_eq!(r.exit_status, 137);
    assert_eq!(r.exited_at, Some(now));
}

#[test]
fn process_files_and_options() {
    assert_eq!(init_pid_path("/run/b"), "/run/b/init.pid");
    assert_eq!(exec_pid_path("/run/b/", "e1"), "/run/b/e1.pid");
    let o = init_create_opts("/run/b", true, false, None);
    assert_eq!(o.pid_file.as_deref(), Some("/run/b/init.pid"));
    assert!(o.no_pivot && !o.no_new_keyring && !o.detach);
    let o = exec_start_opts("/run/b", "e1", Some("/tmp/sock".to_string()));
    assert_eq!(o.pid_file.as_deref(), Some("/run/b/e1.pid"));
    assert_eq!(o.console_socket.as_deref(), Some("/tmp/sock"));
    assert!(o.detach);
    assert_eq!(criu_work_path("/run/b", ""), "/run/b/work");
    assert_eq!(criu_work_path("/run/b", "/criu"), "/criu");
}

#[test]
fn stream_copy_plans() {
    let stdio = Stdio::new("/in", "/out", "", false);
    assert_eq!(
        copy_plan(true, true, true, true, true, &stdio),
        CopyPlan { stdin: true, stdout: true, stderr: false, hold_stdout: false, hold_stderr: false }
    );
    assert_eq!(
        copy_plan(false, true, true, true, true, &stdio),
        CopyPlan { stdin: false, stdout: false, stderr: false, hold_stdout: true, hold_stderr: false }
    );
    assert_eq!(
        copy_plan(false, false, true, true, true, &stdio),
        CopyPlan { stdin: false, stdout: false, stderr: false, hold_stdout: false, hold_stderr: false }
    );
    assert_eq!(console_copy_plan(&stdio), (true, true));
    assert_eq!(console_copy_plan(&Stdio::default()), (false, false));
}

#[test]
fn pid_file_parsing() {
    assert_eq!(parse_i32("1234"), Some(1234));
    assert_eq!(parse_i32("+7"), Some(7));
    assert_eq!(parse_i32("-2147483648"), Some(i32::MIN));
    assert_eq!(parse_i32("2147483647"), Some(i32::MAX));
    assert_eq!(parse_i32("2147483648"), None);
    assert_eq!(parse_i32("99999999999999999999"), None);
    assert_eq!(parse_i32(""), None);
    assert_eq!(parse_i32("-"), None);
    assert_eq!(parse_i32("12a"), None);
    assert_eq!(parse_i32(" 12"), None);
    for s in ["0", "-0", "42", "+2147483647", "007"] {
        assert_eq!(parse_i32(s), s.parse::<i32>().ok());
    }
}

#[test]
fn runtime_delete_outcome() {
    assert!(delete_outcome(None).is_ok());
    assert!(delete_outcome(Some("container does not exist".to_string())).is_ok());
    let e = delete_outcome(Some("permission denied".to_string())).err().unwrap();
    assert_eq!(other_detail(e), "failed delete: permission denied");
}

#[test]
fn cgroup_use_checks() {
    assert!(check_cgroup_use(CgroupUse::Update, 12, false).is_ok());
    assert_eq!(
        other_detail(check_cgroup_use(CgroupUse::Update, 0, false).err().unwrap()),
        "failed to update resources because init process is 0"
    );
    assert_eq!(
        other_detail(check_cgroup_use(CgroupUse::Stats, -3, true).err().unwrap()),
        "failed to collect metrics because init process is -3"
    );
    assert_eq!(
        other_detail(check_cgroup_use(CgroupUse::Stats, 77, true).err().unwrap()),
        "failed to collect metrics because process 77 is a zombie"
    );
}

#[test]
fn runtime_delete_outcome_ignores_case() {
    assert!(delete_outcome(Some("Container Does Not Exist".to_string())).is_ok());
    let e = delete_outcome(Some("Permission Denied".to_string())).err().unwrap();
    assert_eq!(other_detail(e), "failed delete: Permission Denied");
}
