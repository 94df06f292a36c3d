//! The configuration-style runc runtime: a mutable configuration that is built into a
//! runtime whose global flags are computed on demand, with paths made absolute by
//! `path_absolutize`.
use vstd::prelude::*;

use crate::error::Error;
use crate::io::opt_str;
use crate::options::{
    abs_opt, global_flags, opt_absolute, opt_normalized, strs, Args, LogFormat,
};
use crate::paths::{is_absolute, normalized_path};

verus! {

/// Whether `a` is what `path_absolutize` may make of `path`: an absolute `path` with
/// `.` and `..` resolved lexically, or a relative one so resolved after the current
/// directory.
pub open spec fn absolutized(path: Seq<char>, a: Seq<char>) -> bool {
    &&& is_absolute(path) ==> a == normalized_path(path)
    &&& !is_absolute(path) ==> exists|dir: Seq<char>|
        is_absolute(dir) && a == #[trigger] normalized_path(dir + "/"@ + path)
}

/// Makes a path absolute through `path_absolutize::Absolutize::absolutize`, rendering
/// the result lossily as text.
///
/// Claimed, from the crate's source: the current directory is read first, and a
/// failure to read it is the error; an absolute path comes back with `.` dropped and
/// `..` removing the component before it (never the root); a relative path is so
/// resolved after the current directory, which the system reports without `.` or
/// `..`. Left unsaid: which directory that is, and whether reading it fails.
#[verifier::external_body]
fn absolutize(path: &str) -> (r: Result<String, String>)
    ensures
        r matches Ok(a) ==> absolutized(path@, a@),
{
    match path_absolutize::Absolutize::absolutize(std::path::Path::new(path)) {
        Ok(p) => Ok(p.to_string_lossy().into_owned()),
        Err(e) => Err(e.to_string()),
    }
}

/// Whether `a` is what absolutizing the optional path `p` may give.
pub open spec fn absolutized_opt(p: Option<Seq<char>>, a: Option<Seq<char>>) -> bool {
    match p {
        Some(x) => a matches Some(y) && absolutized(x, y),
        None => a is None,
    }
}

fn absolutize_opt(p: &Option<String>) -> (r: Result<Option<String>, Error>)
    ensures
        r matches Ok(a) ==> absolutized_opt(opt_str(*p), opt_str(a)),
        r matches Err(e) ==> e is InvalidPath,
        p is None ==> r matches Ok(None),
{
    match p {
        Some(x) => match absolutize(x.as_str()) {
            Ok(a) => Ok(Some(a)),
            Err(m) => Err(Error::InvalidPath(m)),
        },
        None => Ok(None),
    }
}

/// The mathematical value of [`RuncConfig`].
pub struct RuncConfigModel {
    pub command: Option<Seq<char>>,
    pub root: Option<Seq<char>>,
    pub debug: bool,
    pub log: Option<Seq<char>>,
    pub log_format: Option<LogFormat>,
    pub systemd_cgroup: bool,
    pub set_pgid: bool,
    pub rootless: Option<bool>,
    pub timeout_millis: Option<u64>,
}

/// A runc configuration, built into a [`Runc`] once set.
#[derive(Debug, Clone)]
pub struct RuncConfig {
    /// The name or path of the runc binary; `runc` where it is not set.
    command: Option<String>,
    /// The directory where runc stores the containers' state.
    root: Option<String>,
    /// Emit debug logs.
    debug: bool,
    /// The file runc logs to.
    log: Option<String>,
    /// The log format; text where it is not set.
    log_format: Option<LogFormat>,
    /// Use systemd to manage cgroups.
    systemd_cgroup: bool,
    /// Set the process group ID.
    set_pgid: bool,
    /// Rootless mode; runc decides where it is not set.
    rootless: Option<bool>,
    /// How long a call may take, in milliseconds; five seconds where it is not set.
    timeout_millis: Option<u64>,
}

impl View for RuncConfig {
    type V = RuncConfigModel;

    closed spec fn view(&self) -> RuncConfigModel {
        RuncConfigModel {
            command: opt_str(self.command),
            root: opt_str(self.root),
            debug: self.debug,
            log: opt_str(self.log),
            log_format: self.log_format,
            systemd_cgroup: self.systemd_cgroup,
            set_pgid: self.set_pgid,
            rootless: self.rootless,
            timeout_millis: self.timeout_millis,
        }
    }
}

/// A configuration with nothing set.
pub open spec fn empty_config() -> RuncConfigModel {
    RuncConfigModel {
        command: None,
        root: None,
        debug: false,
        log: None,
        log_format: None,
        systemd_cgroup: false,
        set_pgid: false,
        rootless: None,
        timeout_millis: None,
    }
}

impl Default for RuncConfig {
    fn default() -> (c: Self)
        ensures
            c@ == empty_config(),
    {
        RuncConfig {
            command: None,
            root: None,
            debug: false,
            log: None,
            log_format: None,
            systemd_cgroup: false,
            set_pgid: false,
            rootless: None,
            timeout_millis: None,
        }
    }
}

impl RuncConfig {
    pub fn command(&mut self, command: &str)
        ensures
            final(self)@ == (RuncConfigModel { command: Some(command@), ..old(self)@ }),
    {
        self.command = Some(command.to_owned());
    }

    pub fn root(&mut self, root: &str)
        ensures
            final(self)@ == (RuncConfigModel { root: Some(root@), ..old(self)@ }),
    {
        self.root = Some(root.to_owned());
    }

    pub fn debug(&mut self, debug: bool)
        ensures
            final(self)@ == (RuncConfigModel { debug, ..old(self)@ }),
    {
        self.debug = debug;
    }

    pub fn log(&mut self, log: &str)
        ensures
            final(self)@ == (RuncConfigModel { log: Some(log@), ..old(self)@ }),
    {
        self.log = Some(log.to_owned());
    }

    pub fn log_format(&mut self, log_format: LogFormat)
        ensures
            final(self)@ == (RuncConfigModel { log_format: Some(log_format), ..old(self)@ }),
    {
        self.log_format = Some(log_format);
    }

    pub fn log_format_json(&mut self)
        ensures
            final(self)@ == (RuncConfigModel { log_format: Some(LogFormat::Json), ..old(self)@ }),
    {
        self.log_format = Some(LogFormat::Json);
    }

    pub fn log_format_text(&mut self)
        ensures
            final(self)@ == (RuncConfigModel { log_format: Some(LogFormat::Text), ..old(self)@ }),
    {
        self.log_format = Some(LogFormat::Text);
    }

    pub fn systemd_cgroup(&mut self, systemd_cgroup: bool)
        ensures
            final(self)@ == (RuncConfigModel { systemd_cgroup, ..old(self)@ }),
    {
        self.systemd_cgroup = systemd_cgroup;
    }

    pub fn rootless(&mut self, rootless: bool)
        ensures
            final(self)@ == (RuncConfigModel { rootless: Some(rootless), ..old(self)@ }),
    {
        self.rootless = Some(rootless);
    }

    pub fn set_pgid(&mut self, set_pgid: bool)
        ensures
            final(self)@ == (RuncConfigModel { set_pgid, ..old(self)@ }),
    {
        self.set_pgid = set_pgid;
    }

    pub fn rootless_auto(&mut self)
        ensures
            final(self)@ == (RuncConfigModel { rootless: None, ..old(self)@ }),
    {
        self.rootless = None;
    }

    pub fn timeout(&mut self, millis: u64)
        ensures
            final(self)@ == (RuncConfigModel { timeout_millis: Some(millis), ..old(self)@ }),
    {
        self.timeout_millis = Some(millis);
    }

    /// The name of the runc binary to look up along `PATH`.
    pub fn command_name(&self) -> (c: String)
        ensures
            c@ == match self@.command {
                Some(c) => c,
                None => "runc"@,
            },
    {
        match &self.command {
            Some(c) => c.clone(),
            None => String::from_str("runc"),
        }
    }

    /// The runtime, given where [`Self::command_name`] was found (`None` where it was
    /// not, which is `NotFound`): the settings as they are, text logs and a timeout of
    /// five seconds where those are not set.
    pub fn build(&mut self, binary: Option<String>) -> (r: Result<Runc, Error>)
        ensures
            *final(self) == *old(self),
            binary is None <==> r is Err,
            r matches Err(e) ==> e is NotFound,
            r matches Ok(runc) ==> binary matches Some(b) && runc.command@ == b@ && runc@ == (RuncModel {
                root: old(self)@.root,
                debug: old(self)@.debug,
                log: old(self)@.log,
                log_format: match old(self)@.log_format {
                    Some(f) => f,
                    None => LogFormat::Text,
                },
                systemd_cgroup: old(self)@.systemd_cgroup,
                set_pgid: old(self)@.set_pgid,
                rootless: old(self)@.rootless,
                timeout_millis: match old(self)@.timeout_millis {
                    Some(t) => t,
                    None => 5000,
                },
            }),
    {
        let command = match binary {
            Some(b) => b,
            None => return Err(Error::NotFound),
        };
        let log_format = match self.log_format {
            Some(f) => f,
            None => LogFormat::Text,
        };
        let timeout_millis = match self.timeout_millis {
            Some(t) => t,
            None => 5000,
        };
        let root = match &self.root {
            Some(x) => Some(x.clone()),
            None => None,
        };
        let log = match &self.log {
            Some(x) => Some(x.clone()),
            None => None,
        };
        Ok(Runc {
            command,
            root,
            debug: self.debug,
            log,
            log_format,
            set_pgid: self.set_pgid,
            systemd_cgroup: self.systemd_cgroup,
            rootless: self.rootless,
            timeout_millis,
        })
    }
}

/// The mathematical value of [`Runc`], but for its binary.
pub struct RuncModel {
    pub root: Option<Seq<char>>,
    pub debug: bool,
    pub log: Option<Seq<char>>,
    pub log_format: LogFormat,
    pub systemd_cgroup: bool,
    pub set_pgid: bool,
    pub rootless: Option<bool>,
    pub timeout_millis: u64,
}

/// A runtime built from a [`RuncConfig`].
#[derive(Debug, Clone)]
pub struct Runc {
    pub command: String,
    pub root: Option<String>,
    pub debug: bool,
    pub log: Option<String>,
    pub log_format: LogFormat,
    pub set_pgid: bool,
    pub systemd_cgroup: bool,
    pub rootless: Option<bool>,
    pub timeout_millis: u64,
}

impl View for Runc {
    type V = RuncModel;

    open spec fn view(&self) -> RuncModel {
        RuncModel {
            root: opt_str(self.root),
            debug: self.debug,
            log: opt_str(self.log),
            log_format: self.log_format,
            systemd_cgroup: self.systemd_cgroup,
            set_pgid: self.set_pgid,
            rootless: self.rootless,
            timeout_millis: self.timeout_millis,
        }
    }
}

impl Args for Runc {
    type Output = Result<Vec<String>, Error>;

    /// The global flags, with `root` and `log` made absolute.
    fn args(&self) -> (r: Result<Vec<String>, Error>)
        ensures
            r matches Ok(v) ==> exists|root: Option<Seq<char>>, log: Option<Seq<char>>|
                absolutized_opt(self@.root, root) && absolutized_opt(self@.log, log) && strs(v@)
                    == #[trigger] global_flags(
                    root,
                    self.debug,
                    log,
                    self.log_format,
                    self.systemd_cgroup,
                    self.rootless,
                ),
            r matches Err(e) ==> e is InvalidPath,
            self.root is None && self.log is None ==> (r matches Ok(v) && strs(v@) == global_flags(
                None,
                self.debug,
                None,
                self.log_format,
                self.systemd_cgroup,
                self.rootless,
            )),
    {
        let root = match absolutize_opt(&self.root) {
            Ok(p) => p,
            Err(e) => return Err(e),
        };
        let log = match absolutize_opt(&self.log) {
            Ok(p) => p,
            Err(e) => return Err(e),
        };
        let ghost groot = opt_str(root);
        let ghost glog = opt_str(log);
        let opts = crate::options::GlobalOpts {
            command: None,
            debug: self.debug,
            log: None,
            log_format: self.log_format,
            root: None,
            rootless: self.rootless,
            set_pgid: self.set_pgid,
            systemd_cgroup: self.systemd_cgroup,
            timeout_millis: self.timeout_millis,
        };
        let v = opts.args_from(root, log);
        assert(absolutized_opt(self@.root, groot) && absolutized_opt(self@.log, glog));
        assert(strs(v@) == global_flags(groot, self.debug, glog, self.log_format, self.systemd_cgroup, self.rootless));
        Ok(v)
    }
}

/// The process monitor that waits for a command and reports its exit.
#[derive(Debug, Clone, Copy, PartialEq, Eq, Structural)]
pub struct DefaultMonitor {}

impl DefaultMonitor {
    pub fn new() -> (m: Self)
        ensures
            m == (DefaultMonitor {}),
    {
        DefaultMonitor {}
    }
}

} // verus!
