//! Helpers the shim shares between its init and exec processes.
use vstd::prelude::*;

use crate::error::{ErrorKind, ErrorModel, ShimError};
use crate::io::{FIFO, FifoModel, IoDriver, IoDriverModel};
use crate::text::{contains_seq, first_occurrence, trim};
use crate::shim::io::{Stdio, StdioModel};

verus! {

/// The OCI runtime spec of a process, carried through the shim unchanged.
#[verifier::external_type_specification]
#[verifier::external_body]
pub struct ExOciProcess(oci_spec::runtime::Process);

/// Whether `serde_json` rejects `bytes` as the JSON of an OCI process spec, and with
/// which message: `None` where it accepts them.
pub uninterp spec fn process_spec_parse_error(bytes: Seq<u8>) -> Option<Seq<char>>;

/// Decodes an OCI process spec from JSON with `serde_json::from_slice`.
/// Claimed: whether it succeeds, and the decoder's message where it does not, depend
/// on the bytes alone (named `process_spec_parse_error`). Left unsaid: what the
/// decoded spec holds, which is opaque here.
#[verifier::external_body]
fn parse_process_spec(bytes: &[u8]) -> (r: Result<oci_spec::runtime::Process, String>)
    ensures
        match r {
            Ok(_) => process_spec_parse_error(bytes@) is None,
            Err(m) => process_spec_parse_error(bytes@) == Some(m@),
        },
{
    match serde_json::from_slice::<oci_spec::runtime::Process>(bytes) {
        Ok(p) => Ok(p),
        Err(e) => Err(e.to_string()),
    }
}

/// A request to add an exec process to a container.
#[derive(Debug, Default)]
pub struct ExecProcessRequest {
    pub id: String,
    pub exec_id: String,
    pub terminal: bool,
    pub stdin: String,
    pub stdout: String,
    pub stderr: String,
    /// The JSON of the OCI process spec to run, if the request carries one.
    pub spec: Option<Vec<u8>>,
}

impl ExecProcessRequest {
    /// The stdio the request asks for.
    pub open spec fn stdio_model(&self) -> StdioModel {
        StdioModel {
            stdin: self.stdin@,
            stdout: self.stdout@,
            stderr: self.stderr@,
            terminal: self.terminal,
        }
    }

    /// Whether the spec of the request decodes.
    pub open spec fn spec_decodes(&self) -> bool {
        match self.spec {
            Some(b) => process_spec_parse_error(b@) is None,
            None => false,
        }
    }
}

/// The OCI process spec an exec runs, together with a model of its `terminal` field.
/// Every value is made by [`exec_spec_with_terminal`], which sets that field and
/// records it, and the spec is not changed afterwards.
pub struct ExecSpec {
    process: oci_spec::runtime::Process,
    terminal: Ghost<Option<bool>>,
}

/// Sets the `terminal` field of a decoded OCI process spec to `Some(terminal)` through
/// `Process::set_terminal`, the setter that `oci_spec` generates for the field, and
/// wraps the spec. Claimed: the field then holds `Some(terminal)`, which is recorded
/// as the spec's terminal model. Left unsaid: the other fields, opaque here, which the
/// setter leaves as decoded.
#[verifier::external_body]
fn exec_spec_with_terminal(process: oci_spec::runtime::Process, terminal: bool) -> (s: ExecSpec)
    ensures
        s.terminal_view() == Some(terminal),
{
    let mut process = process;
    process.set_terminal(Some(terminal));
    ExecSpec { process, terminal: Ghost(Some(terminal)) }
}

impl ExecSpec {
    /// The `terminal` field of the spec.
    pub closed spec fn terminal_view(&self) -> Option<bool> {
        self.terminal@
    }

    /// Reads the `terminal` field of the spec through `Process::terminal`, the getter
    /// that `oci_spec` generates for it. Claimed: it is the field's recorded model.
    #[verifier::external_body]
    fn process_terminal(&self) -> (t: Option<bool>)
        ensures
            t == self.terminal_view(),
    {
        self.process.terminal()
    }

    /// Whether the process runs on a terminal, as its spec says.
    pub fn terminal(&self) -> (t: Option<bool>)
        ensures
            t == self.terminal_view(),
    {
        self.process_terminal()
    }

    /// The spec, as it is handed to the runtime.
    pub fn process(&self) -> &oci_spec::runtime::Process {
        &self.process
    }

    /// The spec, as it is handed to the runtime.
    pub fn into_process(self) -> oci_spec::runtime::Process {
        self.process
    }
}

/// Extracts the process spec of an exec request. The request's `terminal` flag
/// overrides the spec's own: the spec handed on has its `terminal` field set to it.
pub fn get_spec_from_request(req: &ExecProcessRequest) -> (r: Result<ExecSpec, ShimError>)
    ensures
        r is Ok <==> req.spec_decodes(),
        r matches Ok(s) ==> s.terminal_view() == Some(req.terminal),
        req.spec is None ==> (r matches Err(e) && e@ == (ErrorModel {
            kind: ErrorKind::InvalidArgument,
            detail: "no spec in request"@,
        })),
        req.spec matches Some(b) ==> (r matches Err(e) ==> e@ == (ErrorModel {
            kind: ErrorKind::Other,
            detail: process_spec_parse_error(b@)->0,
        })),
{
    match &req.spec {
        Some(bytes) => {
            match parse_process_spec(bytes.as_slice()) {
                Ok(p) => Ok(exec_spec_with_terminal(p, req.terminal)),
                Err(m) => Err(ShimError::Other(m)),
            }
        },
        None => Err(ShimError::InvalidArgument(String::from_str("no spec in request"))),
    }
}

/// Rust's Unicode lowercase mapping, as `str::to_lowercase` applies it.
pub uninterp spec fn lowercase(s: Seq<char>) -> Seq<char>;

/// Lowercases a string with `str::to_lowercase`.
/// Claimed: the result depends on the text alone (named `lowercase`); the mapping
/// itself is Unicode's and is left unsaid.
#[verifier::external_body]
pub(crate) fn to_lowercase(s: &str) -> (r: String)
    ensures
        r@ == lowercase(s@),
{
    s.to_lowercase()
}

/// How the shim reports a failed kill, given the runtime's lowercased error message.
pub open spec fn kill_error(lowered: Seq<char>) -> ErrorModel {
    if contains_seq(lowered, "process already finished"@) || contains_seq(lowered, "container not running"@)
        || contains_seq(lowered, "no such process"@) {
        ErrorModel { kind: ErrorKind::NotFound, detail: "process already finished"@ }
    } else if contains_seq(lowered, "does not exist"@) {
        ErrorModel { kind: ErrorKind::NotFound, detail: "no such container"@ }
    } else {
        ErrorModel { kind: ErrorKind::Other, detail: "unknown error after kill "@ + lowered }
    }
}

/// Classifies a lowercased runtime error message from a failed kill.
pub fn classify_kill_error(lowered: &str) -> (e: ShimError)
    ensures
        e@ == kill_error(lowered@),
{
    if crate::text::str_contains(lowered, "process already finished")
        || crate::text::str_contains(lowered, "container not running")
        || crate::text::str_contains(lowered, "no such process") {
        ShimError::NotFound(String::from_str("process already finished"))
    } else if crate::text::str_contains(lowered, "does not exist") {
        ShimError::NotFound(String::from_str("no such container"))
    } else {
        ShimError::Other(String::from_str("unknown error after kill ").concat(lowered))
    }
}

/// How the shim reports a failed kill, given the runtime's error message: a process
/// that already finished, or a container that does not exist, is not found; anything
/// else is reported with its message.
pub fn check_kill_error(emsg: String) -> (e: ShimError)
    ensures
        e@ == kill_error(lowercase(emsg@)),
{
    let lowered = to_lowercase(emsg.as_str());
    classify_kill_error(lowered.as_str())
}

/// The kinds of Linux namespaces a runtime spec can ask for.
#[derive(Debug, Clone, Copy, PartialEq, Eq, Structural)]
pub enum LinuxNamespaceType {
    Cgroup,
    Ipc,
    Mount,
    Network,
    Pid,
    User,
    Uts,
    Time,
}

/// A namespace of a runtime spec: its kind, and the path of an existing namespace to
/// join, if any.
#[derive(Debug)]
pub struct LinuxNamespace {
    pub typ: LinuxNamespaceType,
    pub path: Option<String>,
}

/// The Linux section of a runtime spec, as far as the shim reads it.
#[derive(Debug)]
pub struct Linux {
    pub namespaces: Option<Vec<LinuxNamespace>>,
}

/// A container's runtime spec, as far as the shim reads it.
#[derive(Debug)]
pub struct RuntimeSpec {
    pub linux: Option<Linux>,
}

/// Whether a namespace gives the container a pid namespace of its own.
pub open spec fn private_pid_ns(ns: LinuxNamespace) -> bool {
    ns.typ == LinuxNamespaceType::Pid && ns.path is None
}

/// Whether the container shares a pid namespace rather than having one of its own.
pub open spec fn shared_pid_namespace(spec: RuntimeSpec) -> bool {
    match spec.linux {
        None => true,
        Some(linux) => match linux.namespaces {
            None => true,
            Some(ns) => !exists|i: int| 0 <= i < ns@.len() && private_pid_ns(#[trigger] ns@[i]),
        },
    }
}

/// Whether the container shares a pid namespace, so that the shim has to reap its
/// other processes itself when its init process exits.
pub fn has_shared_pid_namespace(spec: &RuntimeSpec) -> (b: bool)
    ensures
        b == shared_pid_namespace(*spec),
{
    match &spec.linux {
        None => true,
        Some(linux) => match &linux.namespaces {
            None => true,
            Some(namespaces) => {
                let n = namespaces.len();
                let mut i: usize = 0;
                while i < n
                    invariant
                        n == namespaces@.len(),
                        i <= n,
                        spec.linux == Some(*linux),
                        linux.namespaces == Some(*namespaces),
                        forall|j: int| 0 <= j < i ==> !private_pid_ns(#[trigger] namespaces@[j]),
                    decreases n - i,
                {
                    let ns = &namespaces[i];
                    if ns.typ == LinuxNamespaceType::Pid && ns.path.is_none() {
                        assert(private_pid_ns(namespaces@[i as int]));
                        assert(private_pid_ns(spec.linux->0.namespaces->0@[i as int]));
                        return false;
                    }
                    i = i + 1;
                }
                true
            },
        },
    }
}

/// What the shim wires up for a process's stdio.
#[derive(Debug, Default)]
pub struct ProcessIO {
    /// The URI the process's output goes to.
    pub uri: Option<String>,
    /// The driver given to the runtime.
    pub io: Option<IoDriver>,
    /// Whether the shim copies between the driver and the stdio paths itself.
    pub copy: bool,
}

/// The mathematical value of a [`ProcessIO`].
pub struct ProcessIOModel {
    pub uri: Option<Seq<char>>,
    pub io: Option<IoDriverModel>,
    pub copy: bool,
}

impl View for ProcessIO {
    type V = ProcessIOModel;

    open spec fn view(&self) -> ProcessIOModel {
        ProcessIOModel {
            uri: match &self.uri {
                Some(u) => Some(u@),
                None => None,
            },
            io: match &self.io {
                Some(d) => Some(d@),
                None => None,
            },
            copy: self.copy,
        }
    }
}

/// A path, or `None` where it is empty.
pub open spec fn none_if_empty(s: Seq<char>) -> Option<Seq<char>> {
    if s.len() == 0 {
        None
    } else {
        Some(s)
    }
}

/// The scheme of a stdout URI: what precedes the first `://` of the trimmed URI, or
/// `fifo` where there is none.
pub open spec fn uri_scheme(stdout: Seq<char>) -> Seq<char> {
    match first_occurrence(trim(stdout), "://"@) {
        Some(i) => trim(stdout).subrange(0, i),
        None => "fifo"@,
    }
}

/// What the shim wires up for a process with the given stdio: null stdio gets the null
/// driver; a stdout URI with no scheme, or with the `fifo` scheme, gets named pipes,
/// which the runtime writes itself; any other scheme gets no driver.
pub open spec fn spec_create_io(stdio: StdioModel) -> ProcessIOModel {
    if stdio.is_null() {
        ProcessIOModel { uri: None, io: Some(IoDriverModel::Null), copy: false }
    } else {
        let uri = match first_occurrence(trim(stdio.stdout), "://"@) {
            Some(_) => stdio.stdout,
            None => "fifo://"@ + stdio.stdout,
        };
        if uri_scheme(stdio.stdout) == "fifo"@ {
            ProcessIOModel {
                uri: Some(uri),
                io: Some(IoDriverModel::Fifo(FifoModel {
                    stdin: none_if_empty(stdio.stdin),
                    stdout: none_if_empty(stdio.stdout),
                    stderr: none_if_empty(stdio.stderr),
                })),
                copy: false,
            }
        } else {
            ProcessIOModel { uri: Some(uri), io: None, copy: false }
        }
    }
}

fn none_if_empty_exec(s: &String) -> (r: Option<String>)
    ensures
        opt_str_view(r) == none_if_empty(s@),
{
    if s.as_str().is_empty() {
        None
    } else {
        Some(s.clone())
    }
}

/// The mathematical value of an optional string.
pub open spec fn opt_str_view(s: Option<String>) -> Option<Seq<char>> {
    match s {
        Some(x) => Some(x@),
        None => None,
    }
}

/// Chooses the stdio driver for a process from the stdio containerd gave it.
pub fn create_io(id: &str, io_uid: u32, io_gid: u32, stdio: &Stdio) -> (pio: ProcessIO)
    ensures
        pio@ == spec_create_io(stdio@),
{
    if stdio.is_null() {
        return ProcessIO { uri: None, io: Some(IoDriver::Null), copy: false };
    }
    let out = crate::text::chars_of(stdio.stdout.as_str());
    let trimmed = crate::text::trim_exec(&out);
    let sep = crate::text::chars_of("://");
    proof {
        reveal_strlit("://");
    }
    let found = crate::text::find_exec(&trimmed, &sep);
    proof {
        if found is None {
            assert(first_occurrence(trim(stdio@.stdout), "://"@) is None);
        } else {
            let i = found->0 as int;
            assert(first_occurrence(trim(stdio@.stdout), "://"@) == Some(i)) by {
                assert(contains_seq(trim(stdio@.stdout), "://"@));
                let c = choose|k: int| crate::text::occurs_at(trim(stdio@.stdout), "://"@, k)
                    && forall|j: int| 0 <= j < k ==> !crate::text::occurs_at(trim(stdio@.stdout), "://"@, j);
                if c < i {
                    assert(!crate::text::occurs_at(trim(stdio@.stdout), "://"@, c));
                }
                if c > i {
                    assert(!crate::text::occurs_at(trim(stdio@.stdout), "://"@, i));
                }
            }
        }
    }
    let (uri, is_fifo) = match found {
        None => (String::from_str("fifo://").concat(stdio.stdout.as_str()), true),
        Some(i) => {
            let scheme = crate::text::string_of(&trimmed.as_slice()[0..i]);
            let fifo = String::from_str("fifo");
            proof {
                assert(trimmed@.subrange(0, i as int) =~= trim(stdio@.stdout).subrange(0, i as int));
            }
            (stdio.stdout.clone(), scheme == fifo)
        },
    };
    if is_fifo {
        let io = FIFO {
            stdin: none_if_empty_exec(&stdio.stdin),
            stdout: none_if_empty_exec(&stdio.stdout),
            stderr: none_if_empty_exec(&stdio.stderr),
        };
        ProcessIO { uri: Some(uri), io: Some(IoDriver::Fifo(io)), copy: false }
    } else {
        ProcessIO { uri: Some(uri), io: None, copy: false }
    }
}

} // verus!
