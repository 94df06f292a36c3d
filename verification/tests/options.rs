use std::path::Path;

use runc_shim::options::{Args, CreateOpts, DeleteOpts, ExecOpts, GlobalOpts, KillOpts, LogFormat};
use runc_shim::paths::binary_path_candidates;

const ARGS_FAIL_MSG: &str = "Args.args() failed.";

/// The usual search path of a Linux system.
const SEARCH_PATH: &str = "/usr/local/sbin:/usr/local/bin:/usr/sbin:/usr/bin:/sbin:/bin";

/// Where `name` is found along the search path, as the client's caller looks it up.
fn find_binary(name: &str) -> Option<String> {
    binary_path_candidates(SEARCH_PATH, name)
        .into_iter()
        .find(|c| Path::new(c).is_file())
}

/// The current directory, resolved by the file system.
fn current_dir() -> std::path::PathBuf {
    Path::new(".").canonicalize().unwrap()
}

#[test]
fn create_opts_test() {
    assert_eq!(
        CreateOpts::new().args().expect(ARGS_FAIL_MSG),
        vec![String::new(); 0]
    );

    assert_eq!(
        CreateOpts::new().pid_file(".").args().expect(ARGS_FAIL_MSG),
        vec![
            "--pid-file".to_string(),
            current_dir()
                .to_string_lossy()
                .parse::<String>()
                .unwrap()
        ]
    );

    assert_eq!(
        CreateOpts::new()
            .console_socket("..")
            .args()
            .expect(ARGS_FAIL_MSG),
        vec![
            "--console-socket".to_string(),
            current_dir()
                .parent()
                .unwrap()
                .to_string_lossy()
                .parse::<String>()
                .unwrap()
        ]
    );

    assert_eq!(
        CreateOpts::new()
            .detach(true)
            .no_pivot(true)
            .no_new_keyring(true)
            .args()
            .expect(ARGS_FAIL_MSG),
        vec![
            "--no-pivot".to_string(),
            "--no-new-keyring".to_string(),
            "--detach".to_string(),
        ]
    );
}

#[test]
fn exec_opts_test() {
    assert_eq!(
        ExecOpts::new().args().expect(ARGS_FAIL_MSG),
        vec![String::new(); 0]
    );

    assert_eq!(
        ExecOpts::new().pid_file(".").args().expect(ARGS_FAIL_MSG),
        vec![
            "--pid-file".to_string(),
            current_dir()
                .to_string_lossy()
                .parse::<String>()
                .unwrap()
        ]
    );

    assert_eq!(
        ExecOpts::new()
            .console_socket("..")
            .args()
            .expect(ARGS_FAIL_MSG),
        vec![
            "--console-socket".to_string(),
            current_dir()
                .parent()
                .unwrap()
                .to_string_lossy()
                .parse::<String>()
                .unwrap()
        ]
    );

    assert_eq!(
        ExecOpts::new().detach(true).args().expect(ARGS_FAIL_MSG),
        vec!["--detach".to_string(),]
    );
}

#[test]
fn delete_opts_test() {
    assert_eq!(
        DeleteOpts::new().force(false).args(),
        vec![String::new(); 0]
    );

    assert_eq!(
        DeleteOpts::new().force(true).args(),
        vec!["--force".to_string()],
    );
}

#[test]
fn kill_opts_test() {
    assert_eq!(KillOpts::new().all(false).args(), vec![String::new(); 0]);

    assert_eq!(KillOpts::new().all(true).args(), vec!["--all".to_string()],);
}

#[test]
fn global_opts_test() {
    let cfg = GlobalOpts::default().command("true");
    let binary = find_binary(&cfg.command_name());
    let runc = cfg.build(binary).unwrap();
    let args = &runc.args;
    assert_eq!(args.len(), 2);
    assert!(args.contains(&"--log-format".to_string()));
    assert!(args.contains(&"text".to_string()));

    let cfg = GlobalOpts::default().command("/bin/true");
    let binary = find_binary(&cfg.command_name());
    let runc = cfg.build(binary).unwrap();
    assert_eq!(runc.args.len(), 2);

    let cfg = GlobalOpts::default()
        .command("true")
        .root("/tmp")
        .debug(true)
        .log("/tmp/runc.log")
        .log_json()
        .systemd_cgroup(true)
        .rootless(true);
    let binary = find_binary(&cfg.command_name());
    let runc = cfg.build(binary).unwrap();
    let args = &runc.args;
    assert!(args.contains(&"--root".to_string()));
    assert!(args.contains(&"--debug".to_string()));
    assert!(args.contains(&"/tmp".to_string()));
    assert!(args.contains(&"--log".to_string()));
    assert!(args.contains(&"/tmp/runc.log".to_string()));
    assert!(args.contains(&"--log-format".to_string()));
    assert!(args.contains(&"json".to_string()));
    assert!(args.contains(&"--rootless=true".to_string()));
    assert!(args.contains(&"--systemd-cgroup".to_string()));
    assert_eq!(args.len(), 9);
}

#[test]
fn global_args_in_order() {
    let cfg = GlobalOpts::new()
        .root("/run/x/../runc/./state")
        .debug(true)
        .log("//var//log/runc.log")
        .log_json()
        .systemd_cgroup(true)
        .rootless(false);
    let runc = cfg.build(Some("/usr/bin/runc".to_string())).unwrap();
    assert_eq!(runc.command, "/usr/bin/runc");
    assert_eq!(
        runc.args,
        vec![
            "--root",
            "/run/runc/state",
            "--debug",
            "--log",
            "/var/log/runc.log",
            "--log-format",
            "json",
            "--systemd-cgroup",
            "--rootless=false"
        ]
    );
}

#[test]
fn global_opts_missing_binary() {
    let cfg = GlobalOpts::new();
    assert_eq!(cfg.command_name(), "runc");
    assert!(matches!(cfg.build(None), Err(runc_shim::error::Error::NotFound)));
}

#[test]
fn global_opts_empty_root_refused() {
    let cfg = GlobalOpts::new().root("");
    assert!(matches!(
        cfg.build(Some("/bin/true".to_string())),
        Err(runc_shim::error::Error::InvalidPath(_))
    ));
}

#[test]
fn global_opts_timeout_and_rootless_auto() {
    let mut cfg = GlobalOpts::new().rootless(true).rootless_auto().set_pgid(true);
    assert_eq!(cfg.timeout_millis, 5000);
    cfg.timeout(250).debug = true;
    assert_eq!(cfg.timeout_millis, 250);
    assert!(cfg.debug);
    assert!(cfg.set_pgid);
    assert_eq!(cfg.rootless, None);
    let runc = cfg.build(Some("/bin/true".to_string())).unwrap();
    assert_eq!(runc.args, vec!["--debug", "--log-format", "text"]);
}

#[test]
fn log_format_names() {
    assert_eq!(LogFormat::Json.to_string(), "json");
    assert_eq!(LogFormat::Text.to_string(), "text");
    assert_eq!(LogFormat::default(), LogFormat::Text);
}

#[test]
fn create_opts_absolute_paths_resolved() {
    let args = CreateOpts::new()
        .pid_file("/run/a/./b/../init.pid")
        .console_socket("/tmp//console.sock")
        .no_pivot(true)
        .args()
        .unwrap();
    assert_eq!(
        args,
        vec![
            "--pid-file",
            "/run/a/init.pid",
            "--console-socket",
            "/tmp/console.sock",
            "--no-pivot"
        ]
    );
}

#[test]
fn exec_opts_empty_path_refused() {
    assert!(matches!(
        ExecOpts::new().pid_file("").args(),
        Err(runc_shim::error::Error::InvalidPath(_))
    ));
}
