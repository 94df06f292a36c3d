use runc_shim::error::{Code, ShimError};
use runc_shim::io::{piped_io_plan, IOOption, IoDriver};
use runc_shim::shim::common::{
    check_kill_error, create_io, get_spec_from_request, has_shared_pid_namespace, ExecProcessRequest,
    Linux, LinuxNamespace, LinuxNamespaceType, RuntimeSpec,
};
use runc_shim::shim::io::Stdio;

#[test]
fn kill_error_finished() {
    for msg in [
        "process already finished",
        "container not running",
        "no such process",
        "Container Not Running",
    ] {
        assert!(
            matches!(check_kill_error(msg.to_string()), ShimError::NotFound(_)),
            "{:?} should be reported as not found",
            msg
        );
    }
}

#[test]
fn kill_error_no_container() {
    match check_kill_error("container does not exist".to_string()) {
        ShimError::NotFound(msg) => assert_eq!(msg, "no such container"),
        other => panic!("expected NotFoundError, got {:?}", other.to_string()),
    }
}

#[test]
fn kill_error_unknown() {
    let err = check_kill_error("disk on fire".to_string());
    assert!(
        !matches!(err, ShimError::NotFound(_)),
        "an unknown failure must not be flattened into not-found"
    );
    assert!(err.to_string().contains("disk on fire"));
}

fn spec_with_namespaces(namespaces: Option<Vec<LinuxNamespace>>) -> RuntimeSpec {
    RuntimeSpec { linux: Some(Linux { namespaces }) }
}

fn pid_namespace(path: Option<&str>) -> LinuxNamespace {
    LinuxNamespace { typ: LinuxNamespaceType::Pid, path: path.map(|p| p.to_string()) }
}

#[test]
fn pid_ns() {
    let private = spec_with_namespaces(Some(vec![pid_namespace(None)]));
    assert!(!has_shared_pid_namespace(&private));

    let joined = spec_with_namespaces(Some(vec![pid_namespace(Some("/proc/1/ns/pid"))]));
    assert!(has_shared_pid_namespace(&joined));

    assert!(has_shared_pid_namespace(&spec_with_namespaces(Some(vec![]))));
    assert!(has_shared_pid_namespace(&spec_with_namespaces(None)));

    let no_linux = RuntimeSpec { linux: None };
    assert!(has_shared_pid_namespace(&no_linux));
}

fn exec_request_with_spec(spec: Option<&oci_spec::runtime::Process>, terminal: bool) -> ExecProcessRequest {
    let mut req = ExecProcessRequest { terminal, ..Default::default() };
    if let Some(spec) = spec {
        req.spec = Some(serde_json::to_vec(spec).expect("encode process spec"));
    }
    req
}

#[test]
fn spec_terminal_override() {
    let mut spec = oci_spec::runtime::Process::default();
    spec.set_terminal(Some(false));

    let parsed = get_spec_from_request(&exec_request_with_spec(Some(&spec), true))
        .map_err(|e| e.to_string())
        .expect("parse process spec");
    assert_eq!(
        parsed.terminal(),
        Some(true),
        "the exec request decides whether the process gets a tty"
    );
    assert_eq!(parsed.process().terminal(), Some(true));

    let parsed = get_spec_from_request(&exec_request_with_spec(Some(&spec), false))
        .map_err(|e| e.to_string())
        .expect("parse process spec");
    assert_eq!(parsed.terminal(), Some(false));
    assert_eq!(parsed.process().terminal(), Some(false));
}

#[test]
fn spec_missing() {
    let err = get_spec_from_request(&exec_request_with_spec(None, false))
        .err()
        .expect("a spec is required to exec");
    assert!(
        matches!(err, ShimError::InvalidArgument(_)),
        "expected InvalidArgument, got {:?}",
        err.to_string()
    );
}

#[test]
fn spec_undecodable() {
    let req = ExecProcessRequest { spec: Some(b"{not json".to_vec()), ..Default::default() };
    assert!(matches!(get_spec_from_request(&req), Err(ShimError::Other(_))));
}

#[test]
fn io_null() {
    let stdio = Stdio::default();
    assert!(stdio.is_null());

    let pio = create_io("id", 0, 0, &stdio);
    assert!(pio.io.is_some(), "null stdio still needs a driver");
    assert!(pio.uri.is_none());
    assert!(!pio.copy);
}

#[test]
fn io_fifo() {
    let stdio = Stdio::new("/run/in", "/run/out", "/run/err", false);
    assert!(!stdio.is_null());

    let pio = create_io("id", 0, 0, &stdio);
    assert_eq!(pio.uri.as_deref(), Some("fifo:///run/out"));
    assert!(pio.io.is_some());
    assert!(
        !pio.copy,
        "runc writes to the fifos directly, so the shim does not copy"
    );
    match pio.io {
        Some(IoDriver::Fifo(f)) => {
            assert_eq!(f.stdin.as_deref(), Some("/run/in"));
            assert_eq!(f.stdout.as_deref(), Some("/run/out"));
            assert_eq!(f.stderr.as_deref(), Some("/run/err"));
        }
        _ => panic!("expected the fifo driver"),
    }
}

#[test]
fn io_scheme() {
    let stdio = Stdio::new("", "binary:///usr/bin/log", "", false);

    let pio = create_io("id", 0, 0, &stdio);
    assert_eq!(pio.uri.as_deref(), Some("binary:///usr/bin/log"));
    assert!(pio.io.is_none());
    assert!(!pio.copy);
}

#[test]
fn error_codes() {
    assert_eq!(
        ShimError::InvalidArgument("x".to_string()).code(),
        Some(Code::InvalidArgument)
    );
    assert_eq!(ShimError::NotFound("x".to_string()).code(), Some(Code::NotFound));
    assert_eq!(
        ShimError::FailedPrecondition("x".to_string()).code(),
        Some(Code::FailedPrecondition)
    );
}

#[test]
fn unimplemented_no_code() {
    let err = ShimError::Unimplemented("pause".to_string());
    assert!(err.to_string().contains("Unimplemented method"));
    assert_eq!(err.code(), None);
}

#[test]
fn error_texts() {
    assert_eq!(ShimError::InvalidArgument("a".to_string()).to_string(), "Invalid argument: a");
    assert_eq!(ShimError::NotFound("b".to_string()).to_string(), "Not found: b");
    assert_eq!(
        ShimError::FailedPrecondition("c".to_string()).to_string(),
        "Failed pre condition: c"
    );
    assert_eq!(ShimError::Other("d".to_string()).to_string(), "Other: d");
    assert_eq!(ShimError::Other("d".to_string()).code(), None);
}

#[test]
fn io_test_io_option() {
    let opts = IOOption { open_stdin: false, open_stdout: false, open_stderr: false };
    let plan = piped_io_plan(opts);

    assert!(plan.iter().all(|p| p.stream != runc_shim::io::Stream::Stdin));
    assert!(plan.iter().all(|p| p.stream != runc_shim::io::Stream::Stdout));
    assert!(plan.iter().all(|p| p.stream != runc_shim::io::Stream::Stderr));
}
