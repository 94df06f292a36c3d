use runc_shim::config::{DefaultMonitor, RuncConfig};
use runc_shim::io::{piped_io_plan, IOOption, PipeEnd, Stream};
use runc_shim::options::{Args, LogFormat};
use runc_shim::specs::{LinuxPids, LinuxResources};

#[test]
fn config_build_defaults() {
    let mut cfg = RuncConfig::default();
    assert_eq!(cfg.command_name(), "runc");
    let runc = cfg.build(Some("/usr/bin/runc".to_string())).unwrap();
    assert_eq!(runc.command, "/usr/bin/runc");
    assert_eq!(runc.log_format, LogFormat::Text);
    assert_eq!(runc.timeout_millis, 5000);
    assert_eq!(runc.args().unwrap(), vec!["--log-format", "text"]);
    assert!(matches!(cfg.build(None), Err(runc_shim::error::Error::NotFound)));
}

#[test]
fn config_setters() {
    let mut cfg = RuncConfig::default();
    cfg.command("crun");
    cfg.root("/run/crun/./state");
    cfg.debug(true);
    cfg.log("/var/log/../log/crun.log");
    cfg.log_format_json();
    cfg.systemd_cgroup(true);
    cfg.rootless(true);
    cfg.rootless_auto();
    cfg.set_pgid(true);
    cfg.timeout(100);
    assert_eq!(cfg.command_name(), "crun");
    let runc = cfg.build(Some("/usr/bin/crun".to_string())).unwrap();
    assert_eq!(runc.timeout_millis, 100);
    assert!(runc.set_pgid);
    assert_eq!(runc.rootless, None);
    assert_eq!(
        runc.args().unwrap(),
        vec![
            "--root",
            "/run/crun/state",
            "--debug",
            "--log",
            "/var/log/crun.log",
            "--log-format",
            "json",
            "--systemd-cgroup"
        ]
    );
    cfg.log_format(LogFormat::Text);
    cfg.log_format_text();
    cfg.rootless(false);
    let runc = cfg.build(Some("/usr/bin/crun".to_string())).unwrap();
    assert_eq!(runc.args().unwrap().last().map(|s| s.as_str()), Some("--rootless=false"));
}

#[test]
fn monitor_and_specs() {
    assert_eq!(DefaultMonitor::new(), DefaultMonitor {});
    let r = LinuxResources {
        devices: None,
        memory: None,
        cpu: None,
        pids: Some(LinuxPids { limit: Some(10) }),
        block_io: None,
        hugepage_limits: None,
        network: None,
        rdma: None,
    };
    assert_eq!(r.pids.unwrap().limit, Some(10));
}

#[test]
fn pipe_plans() {
    let all = IOOption::default();
    let plan = piped_io_plan(all);
    assert_eq!(plan.len(), 3);
    assert_eq!(plan[0].stream, Stream::Stdin);
    assert_eq!(plan[0].chown, PipeEnd::Read);
    assert_eq!(plan[0].child_end, PipeEnd::Read);
    assert_eq!(plan[0].child_stream, Stream::Stdin);
    for (p, s) in plan[1..].iter().zip([Stream::Stdout, Stream::Stderr]) {
        assert_eq!(p.stream, s);
        assert_eq!(p.chown, PipeEnd::Write);
        assert_eq!(p.child_end, PipeEnd::Write);
        assert_eq!(p.child_stream, s);
    }
    let plan = piped_io_plan(IOOption { open_stdin: false, open_stdout: true, open_stderr: false });
    assert_eq!(plan.len(), 1);
    assert_eq!(plan[0].stream, Stream::Stdout);
    assert_eq!(plan[0].child_stream, Stream::Stdout);
}
