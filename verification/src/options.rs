//! The options of the runc client: the global flags passed to every runc call, and the
//! flags of `create`, `run`, `exec`, `delete` and `kill`.
use vstd::prelude::*;

use crate::error::Error;
use crate::io::opt_str;
use crate::paths::{abs_result, abs_string, is_absolute, normalized_path};

verus! {

/// The format of runc's own log.
#[derive(Debug, Clone, Copy, PartialEq, Eq, Structural)]
pub enum LogFormat {
    Json,
    Text,
}

impl Default for LogFormat {
    fn default() -> (f: Self)
        ensures
            f == LogFormat::Text,
    {
        LogFormat::Text
    }
}

impl LogFormat {
    /// The name runc knows the format by.
    pub open spec fn spec_name(self) -> Seq<char> {
        match self {
            LogFormat::Json => "json"@,
            LogFormat::Text => "text"@,
        }
    }

    /// The name runc knows the format by: `json` or `text`.
    pub fn to_string(&self) -> (s: String)
        ensures
            s@ == self.spec_name(),
    {
        match self {
            LogFormat::Json => String::from_str("json"),
            LogFormat::Text => String::from_str("text"),
        }
    }
}

/// Something that turns into runc command-line arguments.
pub trait Args {
    type Output;

    fn args(&self) -> Self::Output;
}

/// The texts of a list of strings.
pub open spec fn strs(v: Seq<String>) -> Seq<Seq<char>> {
    v.map_values(|s: String| s@)
}

/// A flag with a value, present only where the value is.
pub open spec fn opt_flag(name: Seq<char>, value: Option<Seq<char>>) -> Seq<Seq<char>> {
    match value {
        Some(v) => seq![name, v],
        None => Seq::empty(),
    }
}

/// A flag present only where it is switched on.
pub open spec fn bool_flag(name: Seq<char>, on: bool) -> Seq<Seq<char>> {
    if on {
        seq![name]
    } else {
        Seq::empty()
    }
}

/// An optional path resolved lexically.
pub open spec fn opt_normalized(p: Option<Seq<char>>) -> Option<Seq<char>> {
    match p {
        Some(x) => Some(normalized_path(x)),
        None => None,
    }
}

/// Whether an optional path is absent or absolute.
pub open spec fn opt_absolute(p: Option<Seq<char>>) -> bool {
    match p {
        Some(x) => is_absolute(x),
        None => true,
    }
}

/// Whether `a` is what making the optional path `p` absolute may give.
pub open spec fn abs_opt(p: Option<Seq<char>>, a: Option<Seq<char>>) -> bool {
    match p {
        Some(x) => a matches Some(y) && abs_result(x, y),
        None => a is None,
    }
}

/// Appends one string.
pub fn push_str(v: &mut Vec<String>, s: String)
    ensures
        strs(final(v)@) == strs(old(v)@).push(s@),
{
    v.push(s);
    assert(strs(v@) =~= strs(old(v)@).push(s@));
}

/// Appends all of `w`.
pub fn append_strs(v: &mut Vec<String>, w: Vec<String>)
    ensures
        strs(final(v)@) == strs(old(v)@) + strs(w@),
{
    let n = w.len();
    let mut i: usize = 0;
    while i < n
        invariant
            n == w@.len(),
            i <= n,
            strs(v@) == strs(old(v)@) + strs(w@.take(i as int)),
        decreases n - i,
    {
        let s = w[i].clone();
        push_str(v, s);
        assert(w@.take(i + 1) =~= w@.take(i as int).push(w@[i as int]));
        assert(strs(w@.take(i + 1)) =~= strs(w@.take(i as int)).push(w@[i as int]@));
        i = i + 1;
    }
    assert(w@.take(n as int) =~= w@);
}

/// Appends `name` and `value` where the value is there.
fn push_opt_flag(v: &mut Vec<String>, name: &str, value: Option<String>)
    ensures
        strs(final(v)@) == strs(old(v)@) + opt_flag(name@, opt_str(value)),
{
    match value {
        Some(x) => {
            push_str(v, String::from_str(name));
            push_str(v, x);
            assert(strs(v@) =~= strs(old(v)@) + opt_flag(name@, opt_str(value)));
        },
        None => {
            assert(strs(v@) =~= strs(old(v)@) + opt_flag(name@, opt_str(value)));
        },
    }
}

/// Appends `name` where `on` holds.
fn push_bool_flag(v: &mut Vec<String>, name: &str, on: bool)
    ensures
        strs(final(v)@) == strs(old(v)@) + bool_flag(name@, on),
{
    if on {
        push_str(v, String::from_str(name));
    }
    assert(strs(v@) =~= strs(old(v)@) + bool_flag(name@, on));
}

/// The optional path made absolute; see [`abs_string`].
pub fn abs_opt_string(p: &Option<String>) -> (r: Result<Option<String>, Error>)
    ensures
        r matches Ok(a) ==> abs_opt(opt_str(*p), opt_str(a)),
        opt_absolute(opt_str(*p)) ==> (r matches Ok(a) && opt_str(a) == opt_normalized(opt_str(*p))),
        p matches Some(x) && x@.len() == 0 ==> r is Err,
        r matches Err(e) ==> e is InvalidPath,
{
    match p {
        Some(x) => match abs_string(x.as_str()) {
            Ok(a) => Ok(Some(a)),
            Err(e) => Err(e),
        },
        None => Ok(None),
    }
}

/// The flags of `runc delete`.
pub open spec fn delete_flags(force: bool) -> Seq<Seq<char>> {
    bool_flag("--force"@, force)
}

/// Container deletion options.
#[derive(Debug, Clone, Copy, PartialEq, Eq, Structural)]
pub struct DeleteOpts {
    /// Forcibly delete the container if it is still running.
    pub force: bool,
}

impl Default for DeleteOpts {
    fn default() -> (o: Self)
        ensures
            !o.force,
    {
        DeleteOpts { force: false }
    }
}

impl DeleteOpts {
    pub fn new() -> (o: Self)
        ensures
            !o.force,
    {
        DeleteOpts { force: false }
    }

    pub fn force(self, force: bool) -> (o: Self)
        ensures
            o.force == force,
    {
        DeleteOpts { force }
    }
}

impl Args for DeleteOpts {
    type Output = Vec<String>;

    fn args(&self) -> (v: Vec<String>)
        ensures
            strs(v@) == delete_flags(self.force),
    {
        let mut v: Vec<String> = Vec::new();
        push_bool_flag(&mut v, "--force", self.force);
        assert(strs(Seq::<String>::empty()) =~= Seq::<Seq<char>>::empty());
        v
    }
}

/// The flags of `runc kill`.
pub open spec fn kill_flags(all: bool) -> Seq<Seq<char>> {
    bool_flag("--all"@, all)
}

/// Container killing options.
#[derive(Debug, Clone, Copy, PartialEq, Eq, Structural)]
pub struct KillOpts {
    /// Send the signal to all the processes inside the container.
    pub all: bool,
}

impl Default for KillOpts {
    fn default() -> (o: Self)
        ensures
            !o.all,
    {
        KillOpts { all: false }
    }
}

impl KillOpts {
    pub fn new() -> (o: Self)
        ensures
            !o.all,
    {
        KillOpts { all: false }
    }

    pub fn all(self, all: bool) -> (o: Self)
        ensures
            o.all == all,
    {
        KillOpts { all }
    }
}

impl Args for KillOpts {
    type Output = Vec<String>;

    fn args(&self) -> (v: Vec<String>)
        ensures
            strs(v@) == kill_flags(self.all),
    {
        let mut v: Vec<String> = Vec::new();
        push_bool_flag(&mut v, "--all", self.all);
        assert(strs(Seq::<String>::empty()) =~= Seq::<Seq<char>>::empty());
        v
    }
}


/// The flags of `runc create` and `runc run`, with the paths already absolute.
pub open spec fn create_flags(
    pid_file: Option<Seq<char>>,
    console_socket: Option<Seq<char>>,
    no_pivot: bool,
    no_new_keyring: bool,
    detach: bool,
) -> Seq<Seq<char>> {
    opt_flag("--pid-file"@, pid_file) + opt_flag("--console-socket"@, console_socket) + bool_flag(
        "--no-pivot"@,
        no_pivot,
    ) + bool_flag("--no-new-keyring"@, no_new_keyring) + bool_flag("--detach"@, detach)
}

/// The mathematical value of [`CreateOpts`].
pub struct CreateOptsModel {
    pub pid_file: Option<Seq<char>>,
    pub console_socket: Option<Seq<char>>,
    pub detach: bool,
    pub no_pivot: bool,
    pub no_new_keyring: bool,
}

/// Whether `f` is what [`CreateOpts::args`] may give for `o`: its flags with its paths
/// made absolute.
pub open spec fn create_flags_of(o: CreateOptsModel, f: Seq<Seq<char>>) -> bool {
    exists|p: Option<Seq<char>>, c: Option<Seq<char>>|
        abs_opt(o.pid_file, p) && abs_opt(o.console_socket, c) && f == #[trigger] create_flags(
            p,
            c,
            o.no_pivot,
            o.no_new_keyring,
            o.detach,
        )
}

/// Container creation options. The stdio of the created process is the caller's to
/// attach.
#[derive(Debug, Clone)]
pub struct CreateOpts {
    /// Path to where a pid file should be created.
    pub pid_file: Option<String>,
    /// Path to where a console socket should be created.
    pub console_socket: Option<String>,
    /// Detach from the container's process (only available for run).
    pub detach: bool,
    /// Don't use pivot_root to jail the process inside the rootfs.
    pub no_pivot: bool,
    /// Don't create a new session keyring for the container.
    pub no_new_keyring: bool,
}

impl View for CreateOpts {
    type V = CreateOptsModel;

    open spec fn view(&self) -> CreateOptsModel {
        CreateOptsModel {
            pid_file: opt_str(self.pid_file),
            console_socket: opt_str(self.console_socket),
            detach: self.detach,
            no_pivot: self.no_pivot,
            no_new_keyring: self.no_new_keyring,
        }
    }
}

impl Default for CreateOpts {
    fn default() -> (o: Self)
        ensures
            o@ == (CreateOptsModel {
                pid_file: None,
                console_socket: None,
                detach: false,
                no_pivot: false,
                no_new_keyring: false,
            }),
    {
        CreateOpts { pid_file: None, console_socket: None, detach: false, no_pivot: false, no_new_keyring: false }
    }
}

impl CreateOpts {
    pub fn new() -> (o: Self)
        ensures
            o@ == (CreateOptsModel {
                pid_file: None,
                console_socket: None,
                detach: false,
                no_pivot: false,
                no_new_keyring: false,
            }),
    {
        CreateOpts { pid_file: None, console_socket: None, detach: false, no_pivot: false, no_new_keyring: false }
    }

    pub fn pid_file(self, pid_file: &str) -> (o: Self)
        ensures
            o@ == (CreateOptsModel { pid_file: Some(pid_file@), ..self@ }),
    {
        CreateOpts { pid_file: Some(pid_file.to_owned()), ..self }
    }

    pub fn console_socket(self, console_socket: &str) -> (o: Self)
        ensures
            o@ == (CreateOptsModel { console_socket: Some(console_socket@), ..self@ }),
    {
        CreateOpts { console_socket: Some(console_socket.to_owned()), ..self }
    }

    pub fn detach(self, detach: bool) -> (o: Self)
        ensures
            o@ == (CreateOptsModel { detach, ..self@ }),
    {
        CreateOpts { detach, ..self }
    }

    pub fn no_pivot(self, no_pivot: bool) -> (o: Self)
        ensures
            o@ == (CreateOptsModel { no_pivot, ..self@ }),
    {
        CreateOpts { no_pivot, ..self }
    }

    pub fn no_new_keyring(self, no_new_keyring: bool) -> (o: Self)
        ensures
            o@ == (CreateOptsModel { no_new_keyring, ..self@ }),
    {
        CreateOpts { no_new_keyring, ..self }
    }

    /// The flags, with `pid_file` and `console_socket` given as they are to be passed
    /// (already absolute).
    pub fn args_from(&self, pid_file: Option<String>, console_socket: Option<String>) -> (v: Vec<String>)
        ensures
            strs(v@) == create_flags(
                opt_str(pid_file),
                opt_str(console_socket),
                self.no_pivot,
                self.no_new_keyring,
                self.detach,
            ),
    {
        let mut v: Vec<String> = Vec::new();
        assert(strs(v@) =~= Seq::<Seq<char>>::empty());
        push_opt_flag(&mut v, "--pid-file", pid_file);
        push_opt_flag(&mut v, "--console-socket", console_socket);
        push_bool_flag(&mut v, "--no-pivot", self.no_pivot);
        push_bool_flag(&mut v, "--no-new-keyring", self.no_new_keyring);
        push_bool_flag(&mut v, "--detach", self.detach);
        assert(strs(v@) =~= create_flags(
            opt_str(pid_file),
            opt_str(console_socket),
            self.no_pivot,
            self.no_new_keyring,
            self.detach,
        ));
        v
    }
}

impl Args for CreateOpts {
    type Output = Result<Vec<String>, Error>;

    /// The flags: `--pid-file` and `--console-socket` with their paths made absolute,
    /// then `--no-pivot`, `--no-new-keyring` and `--detach` where they are set.
    fn args(&self) -> (r: Result<Vec<String>, Error>)
        ensures
            r matches Ok(v) ==> create_flags_of(self@, strs(v@)),
            opt_absolute(self@.pid_file) && opt_absolute(self@.console_socket) ==> (r matches Ok(v)
                && strs(v@) == create_flags(
                opt_normalized(self@.pid_file),
                opt_normalized(self@.console_socket),
                self.no_pivot,
                self.no_new_keyring,
                self.detach,
            )),
            self@.pid_file matches Some(x) && x.len() == 0 ==> r is Err,
            self@.console_socket matches Some(x) && x.len() == 0 ==> r is Err,
            r matches Err(e) ==> e is InvalidPath,
    {
        let p = match abs_opt_string(&self.pid_file) {
            Ok(p) => p,
            Err(e) => return Err(e),
        };
        let c = match abs_opt_string(&self.console_socket) {
            Ok(c) => c,
            Err(e) => return Err(e),
        };
        let ghost gp = opt_str(p);
        let ghost gc = opt_str(c);
        let v = self.args_from(p, c);
        assert(abs_opt(self@.pid_file, gp) && abs_opt(self@.console_socket, gc));
        assert(strs(v@) == create_flags(gp, gc, self@.no_pivot, self@.no_new_keyring, self@.detach));
        Ok(v)
    }
}

/// The flags of `runc exec`, with the paths already absolute.
pub open spec fn exec_flags(pid_file: Option<Seq<char>>, console_socket: Option<Seq<char>>, detach: bool) -> Seq<
    Seq<char>,
> {
    opt_flag("--pid-file"@, pid_file) + opt_flag("--console-socket"@, console_socket) + bool_flag(
        "--detach"@,
        detach,
    )
}

/// The mathematical value of [`ExecOpts`].
pub struct ExecOptsModel {
    pub pid_file: Option<Seq<char>>,
    pub console_socket: Option<Seq<char>>,
    pub detach: bool,
}

/// Whether `f` is what [`ExecOpts::args`] may give for `o`: its flags with its paths
/// made absolute.
pub open spec fn exec_flags_of(o: ExecOptsModel, f: Seq<Seq<char>>) -> bool {
    exists|p: Option<Seq<char>>, c: Option<Seq<char>>|
        abs_opt(o.pid_file, p) && abs_opt(o.console_socket, c) && f == #[trigger] exec_flags(p, c, o.detach)
}

/// Options of executing a further process in a container. The stdio of the process is
/// the caller's to attach.
#[derive(Debug, Clone)]
pub struct ExecOpts {
    /// Path to where a pid file should be created.
    pub pid_file: Option<String>,
    /// Path to where a console socket should be created.
    pub console_socket: Option<String>,
    /// Detach from the process.
    pub detach: bool,
}

impl View for ExecOpts {
    type V = ExecOptsModel;

    open spec fn view(&self) -> ExecOptsModel {
        ExecOptsModel {
            pid_file: opt_str(self.pid_file),
            console_socket: opt_str(self.console_socket),
            detach: self.detach,
        }
    }
}

impl Default for ExecOpts {
    fn default() -> (o: Self)
        ensures
            o@ == (ExecOptsModel { pid_file: None, console_socket: None, detach: false }),
    {
        ExecOpts { pid_file: None, console_socket: None, detach: false }
    }
}

impl ExecOpts {
    pub fn new() -> (o: Self)
        ensures
            o@ == (ExecOptsModel { pid_file: None, console_socket: None, detach: false }),
    {
        ExecOpts { pid_file: None, console_socket: None, detach: false }
    }

    pub fn pid_file(self, pid_file: &str) -> (o: Self)
        ensures
            o@ == (ExecOptsModel { pid_file: Some(pid_file@), ..self@ }),
    {
        ExecOpts { pid_file: Some(pid_file.to_owned()), ..self }
    }

    pub fn console_socket(self, console_socket: &str) -> (o: Self)
        ensures
            o@ == (ExecOptsModel { console_socket: Some(console_socket@), ..self@ }),
    {
        ExecOpts { console_socket: Some(console_socket.to_owned()), ..self }
    }

    pub fn detach(self, detach: bool) -> (o: Self)
        ensures
            o@ == (ExecOptsModel { detach, ..self@ }),
    {
        ExecOpts { detach, ..self }
    }

    /// The flags, with `pid_file` and `console_socket` given as they are to be passed
    /// (already absolute).
    pub fn args_from(&self, pid_file: Option<String>, console_socket: Option<String>) -> (v: Vec<String>)
        ensures
            strs(v@) == exec_flags(opt_str(pid_file), opt_str(console_socket), self.detach),
    {
        let mut v: Vec<String> = Vec::new();
        assert(strs(v@) =~= Seq::<Seq<char>>::empty());
        push_opt_flag(&mut v, "--pid-file", pid_file);
        push_opt_flag(&mut v, "--console-socket", console_socket);
        push_bool_flag(&mut v, "--detach", self.detach);
        assert(strs(v@) =~= exec_flags(opt_str(pid_file), opt_str(console_socket), self.detach));
        v
    }
}

impl Args for ExecOpts {
    type Output = Result<Vec<String>, Error>;

    /// The flags: `--pid-file` and `--console-socket` with their paths made absolute,
    /// then `--detach` where it is set.
    fn args(&self) -> (r: Result<Vec<String>, Error>)
        ensures
            r matches Ok(v) ==> exec_flags_of(self@, strs(v@)),
            opt_absolute(self@.pid_file) && opt_absolute(self@.console_socket) ==> (r matches Ok(v)
                && strs(v@) == exec_flags(
                opt_normalized(self@.pid_file),
                opt_normalized(self@.console_socket),
                self.detach,
            )),
            self@.pid_file matches Some(x) && x.len() == 0 ==> r is Err,
            self@.console_socket matches Some(x) && x.len() == 0 ==> r is Err,
            r matches Err(e) ==> e is InvalidPath,
    {
        let p = match abs_opt_string(&self.pid_file) {
            Ok(p) => p,
            Err(e) => return Err(e),
        };
        let c = match abs_opt_string(&self.console_socket) {
            Ok(c) => c,
            Err(e) => return Err(e),
        };
        let ghost gp = opt_str(p);
        let ghost gc = opt_str(c);
        let v = self.args_from(p, c);
        assert(abs_opt(self@.pid_file, gp) && abs_opt(self@.console_socket, gc));
        assert(strs(v@) == exec_flags(gp, gc, self@.detach));
        Ok(v)
    }
}


/// The `--rootless` flag: present only where the mode is not left to runc.
pub open spec fn rootless_flag(rootless: Option<bool>) -> Seq<Seq<char>> {
    match rootless {
        Some(true) => seq!["--rootless=true"@],
        Some(false) => seq!["--rootless=false"@],
        None => Seq::empty(),
    }
}

/// The global flags, in the order runc gets them, with the paths already absolute.
pub open spec fn global_flags(
    root: Option<Seq<char>>,
    debug: bool,
    log: Option<Seq<char>>,
    log_format: LogFormat,
    systemd_cgroup: bool,
    rootless: Option<bool>,
) -> Seq<Seq<char>> {
    opt_flag("--root"@, root) + bool_flag("--debug"@, debug) + opt_flag("--log"@, log) + seq![
        "--log-format"@,
        log_format.spec_name(),
    ] + bool_flag("--systemd-cgroup"@, systemd_cgroup) + rootless_flag(rootless)
}

/// Whether `f` is what [`GlobalOpts::output`] may give for `o`: its global flags with
/// its paths made absolute.
pub open spec fn global_flags_of(o: GlobalOptsModel, f: Seq<Seq<char>>) -> bool {
    exists|root: Option<Seq<char>>, log: Option<Seq<char>>|
        abs_opt(o.root, root) && abs_opt(o.log, log) && f == #[trigger] global_flags(
            root,
            o.debug,
            log,
            o.log_format,
            o.systemd_cgroup,
            o.rootless,
        )
}

/// The mathematical value of [`GlobalOpts`].
pub struct GlobalOptsModel {
    pub command: Option<Seq<char>>,
    pub debug: bool,
    pub log: Option<Seq<char>>,
    pub log_format: LogFormat,
    pub root: Option<Seq<char>>,
    pub rootless: Option<bool>,
    pub set_pgid: bool,
    pub systemd_cgroup: bool,
    pub timeout_millis: u64,
}

/// Global options of the runc binary, passed to every runc call.
#[derive(Debug, Clone)]
pub struct GlobalOpts {
    /// The name or path of the runc binary; `runc` where it is not set.
    pub command: Option<String>,
    /// Emit debug logs.
    pub debug: bool,
    /// The file runc logs to; stderr where it is not set.
    pub log: Option<String>,
    /// The format of runc's log.
    pub log_format: LogFormat,
    /// The directory where runc stores the containers' state.
    pub root: Option<String>,
    /// Rootless mode; runc decides where it is not set.
    pub rootless: Option<bool>,
    /// Set the process group ID.
    pub set_pgid: bool,
    /// Use systemd to manage cgroups.
    pub systemd_cgroup: bool,
    /// How long a call may take, in milliseconds (used by the asynchronous client).
    pub timeout_millis: u64,
}

impl View for GlobalOpts {
    type V = GlobalOptsModel;

    open spec fn view(&self) -> GlobalOptsModel {
        GlobalOptsModel {
            command: opt_str(self.command),
            debug: self.debug,
            log: opt_str(self.log),
            log_format: self.log_format,
            root: opt_str(self.root),
            rootless: self.rootless,
            set_pgid: self.set_pgid,
            systemd_cgroup: self.systemd_cgroup,
            timeout_millis: self.timeout_millis,
        }
    }
}

/// The options that [`GlobalOpts::new`] starts from: nothing set, text logs, and a
/// timeout of five seconds.
pub open spec fn default_global_opts() -> GlobalOptsModel {
    GlobalOptsModel {
        command: None,
        debug: false,
        log: None,
        log_format: LogFormat::Text,
        root: None,
        rootless: None,
        set_pgid: false,
        systemd_cgroup: false,
        timeout_millis: 5000,
    }
}

impl Default for GlobalOpts {
    fn default() -> (o: Self)
        ensures
            o@ == default_global_opts(),
    {
        GlobalOpts::new()
    }
}

impl GlobalOpts {
    /// Options with nothing set.
    pub fn new() -> (o: Self)
        ensures
            o@ == default_global_opts(),
    {
        GlobalOpts {
            command: None,
            debug: false,
            log: None,
            log_format: LogFormat::Text,
            root: None,
            rootless: None,
            set_pgid: false,
            systemd_cgroup: false,
            timeout_millis: 5000,
        }
    }

    /// Sets the name or path of the runc binary.
    pub fn command(self, command: &str) -> (o: Self)
        ensures
            o@ == (GlobalOptsModel { command: Some(command@), ..self@ }),
    {
        GlobalOpts { command: Some(command.to_owned()), ..self }
    }

    /// Sets the directory where runc stores the containers' state.
    pub fn root(self, root: &str) -> (o: Self)
        ensures
            o@ == (GlobalOptsModel { root: Some(root@), ..self@ }),
    {
        GlobalOpts { root: Some(root.to_owned()), ..self }
    }

    /// Switches debug logging.
    pub fn debug(self, debug: bool) -> (o: Self)
        ensures
            o@ == (GlobalOptsModel { debug, ..self@ }),
    {
        GlobalOpts { debug, ..self }
    }

    /// Sets the file runc logs to.
    pub fn log(self, log: &str) -> (o: Self)
        ensures
            o@ == (GlobalOptsModel { log: Some(log@), ..self@ }),
    {
        GlobalOpts { log: Some(log.to_owned()), ..self }
    }

    /// Sets the log format.
    pub fn log_format(self, log_format: LogFormat) -> (o: Self)
        ensures
            o@ == (GlobalOptsModel { log_format, ..self@ }),
    {
        GlobalOpts { log_format, ..self }
    }

    /// Sets the log format to JSON.
    pub fn log_json(self) -> (o: Self)
        ensures
            o@ == (GlobalOptsModel { log_format: LogFormat::Json, ..self@ }),
    {
        self.log_format(LogFormat::Json)
    }

    /// Sets the log format to text.
    pub fn log_text(self) -> (o: Self)
        ensures
            o@ == (GlobalOptsModel { log_format: LogFormat::Text, ..self@ }),
    {
        self.log_format(LogFormat::Text)
    }

    /// Switches systemd cgroup support.
    pub fn systemd_cgroup(self, systemd_cgroup: bool) -> (o: Self)
        ensures
            o@ == (GlobalOptsModel { systemd_cgroup, ..self@ }),
    {
        GlobalOpts { systemd_cgroup, ..self }
    }

    /// Switches rootless mode on or off.
    pub fn rootless(self, rootless: bool) -> (o: Self)
        ensures
            o@ == (GlobalOptsModel { rootless: Some(rootless), ..self@ }),
    {
        GlobalOpts { rootless: Some(rootless), ..self }
    }

    /// Leaves rootless mode to runc.
    pub fn rootless_auto(self) -> (o: Self)
        ensures
            o@ == (GlobalOptsModel { rootless: None, ..self@ }),
    {
        GlobalOpts { rootless: None, ..self }
    }

    /// Switches setting the process group ID.
    pub fn set_pgid(self, set_pgid: bool) -> (o: Self)
        ensures
            o@ == (GlobalOptsModel { set_pgid, ..self@ }),
    {
        GlobalOpts { set_pgid, ..self }
    }

    /// Sets the timeout, in milliseconds.
    pub fn timeout(&mut self, millis: u64) -> (o: &mut Self)
        ensures
            (*o)@ == (GlobalOptsModel { timeout_millis: millis, ..old(self)@ }),
            *final(self) == *final(o),
    {
        self.timeout_millis = millis;
        self
    }

    /// The name of the runc binary to look up along `PATH`.
    pub fn command_name(&self) -> (c: String)
        ensures
            c@ == match self@.command {
                Some(c) => c,
                None => "runc"@,
            },
    {
        match &self.command {
            Some(c) => c.clone(),
            None => String::from_str("runc"),
        }
    }

    /// The global flags, with `root` and `log` given as they are to be passed (already
    /// absolute).
    pub fn args_from(&self, root: Option<String>, log: Option<String>) -> (v: Vec<String>)
        ensures
            strs(v@) == global_flags(
                opt_str(root),
                self.debug,
                opt_str(log),
                self.log_format,
                self.systemd_cgroup,
                self.rootless,
            ),
    {
        let mut v: Vec<String> = Vec::new();
        assert(strs(v@) =~= Seq::<Seq<char>>::empty());
        push_opt_flag(&mut v, "--root", root);
        push_bool_flag(&mut v, "--debug", self.debug);
        push_opt_flag(&mut v, "--log", log);
        push_str(&mut v, String::from_str("--log-format"));
        push_str(&mut v, self.log_format.to_string());
        push_bool_flag(&mut v, "--systemd-cgroup", self.systemd_cgroup);
        let rootless = match self.rootless {
            Some(true) => Some(String::from_str("--rootless=true")),
            Some(false) => Some(String::from_str("--rootless=false")),
            None => None,
        };
        match rootless {
            Some(flag) => push_str(&mut v, flag),
            None => {},
        }
        assert(strs(v@) =~= global_flags(
            opt_str(root),
            self.debug,
            opt_str(log),
            self.log_format,
            self.systemd_cgroup,
            self.rootless,
        ));
        v
    }

    /// The binary and the global flags, given where [`Self::command_name`] was found
    /// (`None` where it was not): `NotFound` where it was not, else the flags with
    /// `root` and `log` made absolute.
    pub fn output(&self, binary: Option<String>) -> (r: Result<(String, Vec<String>), Error>)
        ensures
            binary is None <==> (r matches Err(e) && e is NotFound),
            r matches Ok((c, v)) ==> binary matches Some(b) && c@ == b@ && global_flags_of(self@, strs(v@)),
            binary is Some && opt_absolute(self@.root) && opt_absolute(self@.log) ==> (r matches Ok((c, v))
                && strs(v@) == global_flags(
                opt_normalized(self@.root),
                self.debug,
                opt_normalized(self@.log),
                self.log_format,
                self.systemd_cgroup,
                self.rootless,
            )),
            binary is Some && (self@.root matches Some(x) && x.len() == 0) ==> r is Err,
            binary is Some && (self@.log matches Some(x) && x.len() == 0) ==> r is Err,
            r matches Err(e) ==> e is NotFound || e is InvalidPath,
    {
        let command = match binary {
            Some(b) => b,
            None => return Err(Error::NotFound),
        };
        let root = match abs_opt_string(&self.root) {
            Ok(p) => p,
            Err(e) => return Err(e),
        };
        let log = match abs_opt_string(&self.log) {
            Ok(p) => p,
            Err(e) => return Err(e),
        };
        let ghost groot = opt_str(root);
        let ghost glog = opt_str(log);
        let v = self.args_from(root, log);
        assert(abs_opt(self@.root, groot) && abs_opt(self@.log, glog));
        assert(strs(v@) == global_flags(groot, self@.debug, glog, self@.log_format, self@.systemd_cgroup, self@.rootless));
        Ok((command, v))
    }

    /// The client, given where [`Self::command_name`] was found: see [`Self::output`].
    pub fn build(self, binary: Option<String>) -> (r: Result<crate::client::Runc, Error>)
        ensures
            binary is None <==> (r matches Err(e) && e is NotFound),
            r matches Ok(runc) ==> binary matches Some(b) && runc.command@ == b@ && global_flags_of(self@, strs(runc.args@)),
            binary is Some && opt_absolute(self@.root) && opt_absolute(self@.log) ==> (r matches Ok(runc)
                && strs(runc.args@) == global_flags(
                opt_normalized(self@.root),
                self.debug,
                opt_normalized(self@.log),
                self.log_format,
                self.systemd_cgroup,
                self.rootless,
            )),
            binary is Some && (self@.root matches Some(x) && x.len() == 0) ==> r is Err,
            binary is Some && (self@.log matches Some(x) && x.len() == 0) ==> r is Err,
            r matches Err(e) ==> e is NotFound || e is InvalidPath,
    {
        match self.output(binary) {
            Ok((command, args)) => Ok(crate::client::Runc { command, args }),
            Err(e) => Err(e),
        }
    }
}

} // verus!
