//! The runc client: the command lines of runc's subcommands, and what a finished runc
//! call is reported as. Spawning runc, and writing the files that `exec` and `update`
//! pass to it, is the caller's.
use vstd::prelude::*;

use crate::error::Error;
use crate::options::{
    append_strs, create_flags, create_flags_of, delete_flags, exec_flags, exec_flags_of, kill_flags,
    opt_absolute, opt_normalized, push_str, strs, Args, CreateOpts, CreateOptsModel, DeleteOpts,
    ExecOpts, ExecOptsModel, KillOpts,
};
use crate::paths::{abs_result, abs_string, is_absolute, normalized_path};
use crate::text::{decimal, decimal_string, trim};

verus! {

/// A runc binary together with the global flags passed to every call.
#[derive(Debug, Clone)]
pub struct Runc {
    /// The path of the runc binary.
    pub command: String,
    /// The global flags.
    pub args: Vec<String>,
}

/// What a successful runc call returns: the pid it ran as, its exit status and its
/// output.
#[derive(Debug, Clone)]
pub struct Response {
    pub pid: u32,
    pub status: i32,
    pub output: String,
}

/// The versions that `runc --version` reports.
#[derive(Debug, Clone)]
pub struct Version {
    pub runc_version: Option<String>,
    pub spec_version: Option<String>,
    pub commit: Option<String>,
}

/// What a call's output is made of.
#[derive(Debug, Clone, Copy, PartialEq, Eq, Structural)]
pub enum Output {
    /// stdout only: for output that is decoded.
    Stdout,
    /// stdout followed by stderr: for output only handed to the caller.
    Combined,
}

/// The output a finished call is reported with.
pub open spec fn reported_output(mode: Output, stdout: Seq<char>, stderr: Seq<char>) -> Seq<char> {
    match mode {
        Output::Stdout => stdout,
        Output::Combined => stdout + stderr,
    }
}

/// What a runc call that ran as `pid` and exited with `status` is reported as: a
/// response where the status is zero, else `CommandFailed` with what it printed.
pub fn finish(pid: u32, status: i32, stdout: String, stderr: String, mode: Output) -> (r: Result<Response, Error>)
    ensures
        status == 0 <==> r is Ok,
        r matches Ok(resp) ==> resp.pid == pid && resp.status == status && resp.output@ == reported_output(
            mode,
            stdout@,
            stderr@,
        ),
        r matches Err(e) ==> e matches Error::CommandFailed { status: s, stdout: o, stderr: x } && s == status
            && o@ == stdout@ && x@ == stderr@,
{
    if status != 0 {
        return Err(Error::CommandFailed { status, stdout, stderr });
    }
    let output = match mode {
        Output::Stdout => stdout,
        Output::Combined => stdout.concat(stderr.as_str()),
    };
    Ok(Response { pid, status, output })
}

/// The optional options' view.
pub open spec fn create_view(opts: Option<&CreateOpts>) -> Option<CreateOptsModel> {
    match opts {
        Some(o) => Some(o@),
        None => None,
    }
}

/// The optional options' view.
pub open spec fn exec_view(opts: Option<&ExecOpts>) -> Option<ExecOptsModel> {
    match opts {
        Some(o) => Some(o@),
        None => None,
    }
}

/// Whether `f` is what optional creation options may give: nothing without options.
pub open spec fn opt_create_flags_of(opts: Option<CreateOptsModel>, f: Seq<Seq<char>>) -> bool {
    match opts {
        Some(o) => create_flags_of(o, f),
        None => f.len() == 0,
    }
}

/// Whether `f` is what optional exec options may give: nothing without options.
pub open spec fn opt_exec_flags_of(opts: Option<ExecOptsModel>, f: Seq<Seq<char>>) -> bool {
    match opts {
        Some(o) => exec_flags_of(o, f),
        None => f.len() == 0,
    }
}

/// Whether the paths in optional creation options are all absolute.
pub open spec fn create_paths_absolute(opts: Option<CreateOptsModel>) -> bool {
    match opts {
        Some(o) => opt_absolute(o.pid_file) && opt_absolute(o.console_socket),
        None => true,
    }
}

/// The flags of optional creation options whose paths are absolute.
pub open spec fn create_flags_resolved(opts: Option<CreateOptsModel>) -> Seq<Seq<char>> {
    match opts {
        Some(o) => create_flags(
            opt_normalized(o.pid_file),
            opt_normalized(o.console_socket),
            o.no_pivot,
            o.no_new_keyring,
            o.detach,
        ),
        None => Seq::empty(),
    }
}

/// Whether the paths in optional exec options are all absolute.
pub open spec fn exec_paths_absolute(opts: Option<ExecOptsModel>) -> bool {
    match opts {
        Some(o) => opt_absolute(o.pid_file) && opt_absolute(o.console_socket),
        None => true,
    }
}

/// The flags of optional exec options whose paths are absolute.
pub open spec fn exec_flags_resolved(opts: Option<ExecOptsModel>) -> Seq<Seq<char>> {
    match opts {
        Some(o) => exec_flags(opt_normalized(o.pid_file), opt_normalized(o.console_socket), o.detach),
        None => Seq::empty(),
    }
}

/// Whether optional options set a path that is empty.
pub open spec fn create_has_empty_path(opts: Option<CreateOptsModel>) -> bool {
    match opts {
        Some(o) => (o.pid_file matches Some(p) && p.len() == 0) || (o.console_socket matches Some(p) && p.len()
            == 0),
        None => false,
    }
}

/// Whether optional options set a path that is empty.
pub open spec fn exec_has_empty_path(opts: Option<ExecOptsModel>) -> bool {
    match opts {
        Some(o) => (o.pid_file matches Some(p) && p.len() == 0) || (o.console_socket matches Some(p) && p.len()
            == 0),
        None => false,
    }
}

/// The arguments of `runc create` or `runc run`.
pub open spec fn bundle_line(subcommand: Seq<char>, bundle: Seq<char>, flags: Seq<Seq<char>>, id: Seq<char>) -> Seq<
    Seq<char>,
> {
    seq![subcommand, "--bundle"@, bundle] + flags + seq![id]
}

/// The arguments of `runc exec`.
pub open spec fn exec_line(process_file: Seq<char>, flags: Seq<Seq<char>>, id: Seq<char>) -> Seq<Seq<char>> {
    seq!["exec"@, "--process"@, process_file] + flags + seq![id]
}

/// The arguments of `runc delete`.
pub open spec fn delete_line(force: Option<bool>, id: Seq<char>) -> Seq<Seq<char>> {
    seq!["delete"@] + match force {
        Some(f) => delete_flags(f),
        None => Seq::empty(),
    } + seq![id]
}

/// The arguments of `runc kill`.
pub open spec fn kill_line(all: Option<bool>, id: Seq<char>, sig: u32) -> Seq<Seq<char>> {
    seq!["kill"@] + match all {
        Some(a) => kill_flags(a),
        None => Seq::empty(),
    } + seq![id, decimal(sig as nat)]
}

/// Builds a list of strings.
fn strings(parts: &[&str]) -> (v: Vec<String>)
    ensures
        strs(v@) == parts@.map_values(|s: &str| s@),
{
    let mut v: Vec<String> = Vec::new();
    let n = parts.len();
    let mut i: usize = 0;
    while i < n
        invariant
            n == parts@.len(),
            i <= n,
            strs(v@) == parts@.take(i as int).map_values(|s: &str| s@),
        decreases n - i,
    {
        push_str(&mut v, String::from_str(parts[i]));
        assert(parts@.take(i + 1) =~= parts@.take(i as int).push(parts@[i as int]));
        assert(parts@.take(i + 1).map_values(|s: &str| s@) =~= parts@.take(i as int).map_values(|s: &str| s@).push(
            parts@[i as int]@,
        ));
        i = i + 1;
    }
    assert(parts@.take(n as int) =~= parts@);
    v
}

/// The optional flags of creation options: none without options.
fn create_opt_args(opts: Option<&CreateOpts>) -> (r: Result<Vec<String>, Error>)
    ensures
        r matches Ok(v) ==> opt_create_flags_of(create_view(opts), strs(v@)),
        create_paths_absolute(create_view(opts)) ==> (r matches Ok(v) && strs(v@) == create_flags_resolved(
            create_view(opts),
        )),
        create_has_empty_path(create_view(opts)) ==> r is Err,
        r matches Err(e) ==> e is InvalidPath,
{
    match opts {
        Some(o) => o.args(),
        None => {
            let v: Vec<String> = Vec::new();
            assert(strs(v@) =~= Seq::<Seq<char>>::empty());
            Ok(v)
        },
    }
}

/// The optional flags of exec options: none without options.
fn exec_opt_args(opts: Option<&ExecOpts>) -> (r: Result<Vec<String>, Error>)
    ensures
        r matches Ok(v) ==> opt_exec_flags_of(exec_view(opts), strs(v@)),
        exec_paths_absolute(exec_view(opts)) ==> (r matches Ok(v) && strs(v@) == exec_flags_resolved(
            exec_view(opts),
        )),
        exec_has_empty_path(exec_view(opts)) ==> r is Err,
        r matches Err(e) ==> e is InvalidPath,
{
    match opts {
        Some(o) => o.args(),
        None => {
            let v: Vec<String> = Vec::new();
            assert(strs(v@) =~= Seq::<Seq<char>>::empty());
            Ok(v)
        },
    }
}

impl Runc {
    /// The arguments runc is started with for a subcommand: the global flags, then the
    /// subcommand's own.
    pub fn command_line(&self, sub: &Vec<String>) -> (v: Vec<String>)
        ensures
            strs(v@) == strs(self.args@) + strs(sub@),
    {
        let mut v: Vec<String> = Vec::new();
        assert(strs(v@) =~= Seq::<Seq<char>>::empty());
        append_strs(&mut v, self.args.clone());
        append_strs(&mut v, sub.clone());
        assert(strs(v@) =~= strs(self.args@) + strs(sub@));
        v
    }

    /// The arguments of `create` or `run`: the subcommand, `--bundle` with the bundle
    /// made absolute, the options' flags, and the container's id.
    fn bundle_args(subcommand: &str, id: &str, bundle: &str, opts: Option<&CreateOpts>) -> (r: Result<
        Vec<String>,
        Error,
    >)
        ensures
            r matches Ok(v) ==> exists|b: Seq<char>, f: Seq<Seq<char>>|
                abs_result(bundle@, b) && opt_create_flags_of(create_view(opts), f) && strs(v@)
                    == #[trigger] bundle_line(subcommand@, b, f, id@),
            is_absolute(bundle@) && create_paths_absolute(create_view(opts)) ==> (r matches Ok(v) && strs(v@)
                == bundle_line(subcommand@, normalized_path(bundle@), create_flags_resolved(create_view(opts)), id@)),
            bundle@.len() == 0 || create_has_empty_path(create_view(opts)) ==> r is Err,
            r matches Err(e) ==> e is InvalidPath,
    {
        let b = match abs_string(bundle) {
            Ok(b) => b,
            Err(e) => return Err(e),
        };
        let flags = match create_opt_args(opts) {
            Ok(f) => f,
            Err(e) => return Err(e),
        };
        let ghost gb = b@;
        let ghost gf = strs(flags@);
        let mut v = strings(&[subcommand, "--bundle"]);
        push_str(&mut v, b);
        append_strs(&mut v, flags);
        push_str(&mut v, String::from_str(id));
        proof {
            assert(strs(v@) =~= bundle_line(subcommand@, gb, gf, id@));
        }
        Ok(v)
    }

    /// The arguments of `runc create`.
    pub fn create_args(&self, id: &str, bundle: &str, opts: Option<&CreateOpts>) -> (r: Result<
        Vec<String>,
        Error,
    >)
        ensures
            r matches Ok(v) ==> exists|b: Seq<char>, f: Seq<Seq<char>>|
                abs_result(bundle@, b) && opt_create_flags_of(create_view(opts), f) && strs(v@)
                    == #[trigger] bundle_line("create"@, b, f, id@),
            is_absolute(bundle@) && create_paths_absolute(create_view(opts)) ==> (r matches Ok(v) && strs(v@)
                == bundle_line("create"@, normalized_path(bundle@), create_flags_resolved(create_view(opts)), id@)),
            bundle@.len() == 0 || create_has_empty_path(create_view(opts)) ==> r is Err,
            r matches Err(e) ==> e is InvalidPath,
    {
        Self::bundle_args("create", id, bundle, opts)
    }

    /// The arguments of `runc run`.
    pub fn run_args(&self, id: &str, bundle: &str, opts: Option<&CreateOpts>) -> (r: Result<
        Vec<String>,
        Error,
    >)
        ensures
            r matches Ok(v) ==> exists|b: Seq<char>, f: Seq<Seq<char>>|
                abs_result(bundle@, b) && opt_create_flags_of(create_view(opts), f) && strs(v@)
                    == #[trigger] bundle_line("run"@, b, f, id@),
            is_absolute(bundle@) && create_paths_absolute(create_view(opts)) ==> (r matches Ok(v) && strs(v@)
                == bundle_line("run"@, normalized_path(bundle@), create_flags_resolved(create_view(opts)), id@)),
            bundle@.len() == 0 || create_has_empty_path(create_view(opts)) ==> r is Err,
            r matches Err(e) ==> e is InvalidPath,
    {
        Self::bundle_args("run", id, bundle, opts)
    }

    /// The arguments of `runc exec`, given the file that holds the process's spec.
    pub fn exec_args(&self, id: &str, process_file: &str, opts: Option<&ExecOpts>) -> (r: Result<
        Vec<String>,
        Error,
    >)
        ensures
            r matches Ok(v) ==> exists|f: Seq<Seq<char>>|
                opt_exec_flags_of(exec_view(opts), f) && strs(v@) == #[trigger] exec_line(process_file@, f, id@),
            exec_paths_absolute(exec_view(opts)) ==> (r matches Ok(v) && strs(v@) == exec_line(
                process_file@,
                exec_flags_resolved(exec_view(opts)),
                id@,
            )),
            exec_has_empty_path(exec_view(opts)) ==> r is Err,
            r matches Err(e) ==> e is InvalidPath,
    {
        let flags = match exec_opt_args(opts) {
            Ok(f) => f,
            Err(e) => return Err(e),
        };
        let ghost gf = strs(flags@);
        let mut v = strings(&["exec", "--process", process_file]);
        append_strs(&mut v, flags);
        push_str(&mut v, String::from_str(id));
        proof {
            assert(strs(v@) =~= exec_line(process_file@, gf, id@));
        }
        Ok(v)
    }

    /// The arguments of `runc delete`.
    pub fn delete_args(&self, id: &str, opts: Option<&DeleteOpts>) -> (v: Vec<String>)
        ensures
            strs(v@) == delete_line(
                match opts {
                    Some(o) => Some(o.force),
                    None => None,
                },
                id@,
            ),
    {
        let mut v = strings(&["delete"]);
        match opts {
            Some(o) => append_strs(&mut v, o.args()),
            None => {},
        }
        push_str(&mut v, String::from_str(id));
        assert(strs(v@) =~= delete_line(
            match opts {
                Some(o) => Some(o.force),
                None => None,
            },
            id@,
        ));
        v
    }

    /// The arguments of `runc kill`: the options' flags, the id and the signal's number.
    pub fn kill_args(&self, id: &str, sig: u32, opts: Option<&KillOpts>) -> (v: Vec<String>)
        ensures
            strs(v@) == kill_line(
                match opts {
                    Some(o) => Some(o.all),
                    None => None,
                },
                id@,
                sig,
            ),
    {
        let mut v = strings(&["kill"]);
        match opts {
            Some(o) => append_strs(&mut v, o.args()),
            None => {},
        }
        push_str(&mut v, String::from_str(id));
        push_str(&mut v, decimal_string(sig as u64));
        assert(strs(v@) =~= kill_line(
            match opts {
                Some(o) => Some(o.all),
                None => None,
            },
            id@,
            sig,
        ));
        v
    }

    /// The arguments of `runc list`.
    pub fn list_args(&self) -> (v: Vec<String>)
        ensures
            strs(v@) == seq!["list"@, "--format=json"@],
    {
        let v = strings(&["list", "--format=json"]);
        assert(strs(v@) =~= seq!["list"@, "--format=json"@]);
        v
    }

    /// The arguments of `runc pause`.
    pub fn pause_args(&self, id: &str) -> (v: Vec<String>)
        ensures
            strs(v@) == seq!["pause"@, id@],
    {
        let v = strings(&["pause", id]);
        assert(strs(v@) =~= seq!["pause"@, id@]);
        v
    }

    /// The arguments of `runc resume`.
    pub fn resume_args(&self, id: &str) -> (v: Vec<String>)
        ensures
            strs(v@) == seq!["resume"@, id@],
    {
        let v = strings(&["resume", id]);
        assert(strs(v@) =~= seq!["resume"@, id@]);
        v
    }

    /// The arguments of `runc ps`.
    pub fn ps_args(&self, id: &str) -> (v: Vec<String>)
        ensures
            strs(v@) == seq!["ps"@, "--format=json"@, id@],
    {
        let v = strings(&["ps", "--format=json", id]);
        assert(strs(v@) =~= seq!["ps"@, "--format=json"@, id@]);
        v
    }

    /// The arguments of `runc start`.
    pub fn start_args(&self, id: &str) -> (v: Vec<String>)
        ensures
            strs(v@) == seq!["start"@, id@],
    {
        let v = strings(&["start", id]);
        assert(strs(v@) =~= seq!["start"@, id@]);
        v
    }

    /// The arguments of `runc state`.
    pub fn state_args(&self, id: &str) -> (v: Vec<String>)
        ensures
            strs(v@) == seq!["state"@, id@],
    {
        let v = strings(&["state", id]);
        assert(strs(v@) =~= seq!["state"@, id@]);
        v
    }

    /// The arguments of the statistics call, `runc events --stats`.
    pub fn stats_args(&self, id: &str) -> (v: Vec<String>)
        ensures
            strs(v@) == seq!["events"@, "--stats"@, id@],
    {
        let v = strings(&["events", "--stats", id]);
        assert(strs(v@) =~= seq!["events"@, "--stats"@, id@]);
        v
    }

    /// The arguments of `runc update`, given the file that holds the resources.
    pub fn update_args(&self, id: &str, resources_file: &str) -> (v: Vec<String>)
        ensures
            strs(v@) == seq!["update"@, "--resources"@, resources_file@, id@],
    {
        let v = strings(&["update", "--resources", resources_file, id]);
        assert(strs(v@) =~= seq!["update"@, "--resources"@, resources_file@, id@]);
        v
    }

    /// The event stream is not supported.
    pub fn events(&self, id: &str, interval_millis: u64) -> (r: Result<(), Error>)
        ensures
            r matches Err(Error::Unimplemented(m)) && m@ == "events"@,
    {
        Err(Error::Unimplemented(String::from_str("events")))
    }

    /// Checkpointing is not supported.
    pub fn checkpoint(&self) -> (r: Result<(), Error>)
        ensures
            r matches Err(Error::Unimplemented(m)) && m@ == "checkpoint"@,
    {
        Err(Error::Unimplemented(String::from_str("checkpoint")))
    }

    /// Restoring is not supported.
    pub fn restore(&self) -> (r: Result<(), Error>)
        ensures
            r matches Err(Error::Unimplemented(m)) && m@ == "restore"@,
    {
        Err(Error::Unimplemented(String::from_str("restore")))
    }
}


/// What `serde_json` decodes `text` to as an optional list of unsigned integers:
/// `None` where the text is no such JSON value, `Some(None)` for `null`.
pub uninterp spec fn json_usize_list(text: Seq<char>) -> Option<Option<Seq<usize>>>;

/// The optional list's view.
pub open spec fn opt_vec_view(v: Option<Vec<usize>>) -> Option<Seq<usize>> {
    match v {
        Some(x) => Some(x@),
        None => None,
    }
}

/// Decodes `text` as JSON through `serde_json::from_str::<Option<Vec<usize>>>`.
///
/// Claimed: the result is a function of the text alone (named `json_usize_list`),
/// with the decoder's message on failure; the text `null` decodes to `None` and the
/// text `[]` to an empty list (`deserialize_option` and `deserialize_seq` in
/// `serde_json`'s deserializer). Left unsaid: which other texts decode, and to what.
#[verifier::external_body]
fn decode_usize_list(text: &str) -> (r: Result<Option<Vec<usize>>, String>)
    ensures
        json_usize_list(text@) == match r {
            Ok(v) => Some(opt_vec_view(v)),
            Err(_) => None,
        },
        text@ == "null"@ ==> match r {
            Ok(v) => v is None,
            Err(_) => false,
        },
        text@ == "[]"@ ==> match r {
            Ok(Some(v)) => v@.len() == 0,
            _ => false,
        },

{
    match serde_json::from_str::<Option<Vec<usize>>>(text) {
        Ok(v) => Ok(v),
        Err(e) => Err(e.to_string()),
    }
}

/// The pids of a decoded `runc ps` listing: runc prints `null` for an empty list, which
/// is read as no pids; a decoding failure is `JsonDeserializationFailed`.
pub fn pids_of(decoded: Result<Option<Vec<usize>>, String>) -> (r: Result<Vec<usize>, Error>)
    ensures
        decoded is Ok <==> r is Ok,
        decoded matches Ok(Some(v)) ==> (r matches Ok(p) && p@ == v@),
        decoded matches Ok(None) ==> (r matches Ok(p) && p@.len() == 0),
        decoded matches Err(m) ==> (r matches Err(Error::JsonDeserializationFailed(x)) && x@ == m@),
{
    match decoded {
        Ok(Some(v)) => Ok(v),
        Ok(None) => Ok(Vec::new()),
        Err(m) => Err(Error::JsonDeserializationFailed(m)),
    }
}

/// The list that runc printed as JSON, with surrounding white space ignored.
pub open spec fn json_list_result(output: Seq<char>) -> Option<Seq<usize>> {
    match json_usize_list(trim(output)) {
        Some(Some(v)) => Some(v),
        Some(None) => Some(Seq::empty()),
        None => None,
    }
}

/// The pids that `runc ps --format=json` printed.
pub fn parse_json_list(output: &str) -> (r: Result<Vec<usize>, Error>)
    ensures
        r is Ok <==> json_list_result(output@) is Some,
        r matches Ok(p) ==> json_list_result(output@) == Some(p@),
        r matches Err(e) ==> e is JsonDeserializationFailed,
        (trim(output@) == "null"@ || trim(output@) == "[]"@) ==> (r matches Ok(p) && p@.len() == 0),
{
    let trimmed = crate::text::trim_str(output);
    pids_of(decode_usize_list(trimmed.as_str()))
}

} // verus!
