use runc_shim::client::{finish, parse_json_list, Output, Runc};
use runc_shim::error::Error;
use runc_shim::options::{CreateOpts, DeleteOpts, ExecOpts, KillOpts};

fn runc() -> Runc {
    Runc {
        command: "/usr/bin/runc".to_string(),
        args: vec!["--log-format".to_string(), "text".to_string()],
    }
}

#[test]
fn create_command_line() {
    let opts = CreateOpts::new().pid_file("/run/c1/init.pid").detach(true);
    let sub = runc().create_args("c1", "/bundles/c1", Some(&opts)).unwrap();
    assert_eq!(
        sub,
        vec!["create", "--bundle", "/bundles/c1", "--pid-file", "/run/c1/init.pid", "--detach", "c1"]
    );
    assert_eq!(
        runc().command_line(&sub)[..3],
        ["--log-format".to_string(), "text".to_string(), "create".to_string()]
    );
    let sub = runc().run_args("c1", "/bundles/./c1/", None).unwrap();
    assert_eq!(sub, vec!["run", "--bundle", "/bundles/c1", "c1"]);
}

#[test]
fn create_relative_bundle_is_absolute() {
    let sub = runc().create_args("fake-id", "fake-bundle", None).unwrap();
    assert_eq!(sub[0], "create");
    assert!(sub[2].starts_with('/'));
    assert!(sub[2].ends_with("/fake-bundle"));
    assert_eq!(sub[3], "fake-id");
}

#[test]
fn create_empty_bundle_refused() {
    assert!(matches!(
        runc().create_args("c1", "", None),
        Err(Error::InvalidPath(_))
    ));
}

#[test]
fn exec_delete_kill_command_lines() {
    let opts = ExecOpts::new().detach(true);
    assert_eq!(
        runc().exec_args("c1", "/tmp/p.json", Some(&opts)).unwrap(),
        vec!["exec", "--process", "/tmp/p.json", "--detach", "c1"]
    );
    assert_eq!(
        runc().delete_args("c1", Some(&DeleteOpts { force: true })),
        vec!["delete", "--force", "c1"]
    );
    assert_eq!(runc().delete_args("c1", None), vec!["delete", "c1"]);
    assert_eq!(
        runc().kill_args("c1", 15, Some(&KillOpts { all: true })),
        vec!["kill", "--all", "c1", "15"]
    );
    assert_eq!(runc().kill_args("c1", 9, None), vec!["kill", "c1", "9"]);
    assert_eq!(runc().kill_args("c1", 0, None), vec!["kill", "c1", "0"]);
    assert_eq!(
        runc().kill_args("c1", 4294967295, None),
        vec!["kill", "c1", "4294967295"]
    );
}

#[test]
fn other_command_lines() {
    let r = runc();
    assert_eq!(r.list_args(), vec!["list", "--format=json"]);
    assert_eq!(r.pause_args("c"), vec!["pause", "c"]);
    assert_eq!(r.resume_args("c"), vec!["resume", "c"]);
    assert_eq!(r.ps_args("c"), vec!["ps", "--format=json", "c"]);
    assert_eq!(r.start_args("c"), vec!["start", "c"]);
    assert_eq!(r.state_args("c"), vec!["state", "c"]);
    assert_eq!(r.stats_args("c"), vec!["events", "--stats", "c"]);
    assert_eq!(
        r.update_args("c", "/tmp/r.json"),
        vec!["update", "--resources", "/tmp/r.json", "c"]
    );
}

#[test]
fn unsupported_calls() {
    let r = runc();
    assert!(matches!(r.events("c", 1000), Err(Error::Unimplemented(m)) if m == "events"));
    assert!(matches!(r.checkpoint(), Err(Error::Unimplemented(m)) if m == "checkpoint"));
    assert!(matches!(r.restore(), Err(Error::Unimplemented(m)) if m == "restore"));
}

#[test]
fn finished_call_outcome() {
    let ok = finish(42, 0, "out".to_string(), "err".to_string(), Output::Combined).unwrap();
    assert_eq!(ok.pid, 42);
    assert_eq!(ok.status, 0);
    assert_eq!(ok.output, "outerr");
    let ok = finish(42, 0, "out".to_string(), "err".to_string(), Output::Stdout).unwrap();
    assert_eq!(ok.output, "out");
    match finish(7, 1, String::new(), String::new(), Output::Combined) {
        Err(Error::CommandFailed { status, stdout, stderr }) => {
            assert_eq!(status, 1);
            assert!(stdout.is_empty());
            assert!(stderr.is_empty());
        }
        _ => panic!("a non-zero status must fail"),
    }
}

#[test]
fn ps_output_parsing() {
    assert_eq!(parse_json_list("null").unwrap(), Vec::<usize>::new());
    assert_eq!(parse_json_list(" null\n").unwrap(), Vec::<usize>::new());
    assert_eq!(parse_json_list("[]").unwrap(), Vec::<usize>::new());
    assert_eq!(parse_json_list("[1, 22, 333]\n").unwrap(), vec![1, 22, 333]);
    assert!(matches!(
        parse_json_list("not json"),
        Err(Error::JsonDeserializationFailed(_))
    ));
}
