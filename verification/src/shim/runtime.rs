//! How the shim sets up and reads its runc runtime: the client it builds for a
//! bundle, the error it reports when runc failed, where the shim groups a task, and
//! what it reads from `/proc`.
use vstd::prelude::*;

use crate::client::Runc;
use crate::error::{Error, ErrorKind, ErrorModel, ShimError};
use crate::options::{default_global_opts, GlobalOpts, GlobalOptsModel, LogFormat};
use crate::paths::{is_absolute, join_path, join_path_exec, split_char, split_exec};
use crate::text::{
    chars_of, contains_exec, contains_seq, first_match, lemma_first_match_at, lemma_first_match_none,
    lines_exec, starts_with_exec, starts_with_seq, string_of, text_lines, trim, trim_exec,
};

verus! {

/// One line of runc's JSON log.
#[derive(Debug, Clone)]
pub struct Log {
    pub level: String,
    pub msg: String,
}

/// The message of the last error-level entry, trimmed; empty where there is none.
pub open spec fn last_error(logs: Seq<Log>) -> Seq<char>
    decreases logs.len(),
{
    if logs.len() == 0 {
        Seq::empty()
    } else if logs.last().level@ == "error"@ {
        trim(logs.last().msg@)
    } else {
        last_error(logs.drop_last())
    }
}

/// What could be read of runc's log file.
pub enum RuntimeLog {
    /// The file could not be opened, with the reason.
    Unreadable(String),
    /// A line could not be decoded, with the reason.
    Unparsable(String),
    /// The entries, in order.
    Entries(Vec<Log>),
}

/// The detail of the error the shim reports when runc failed doing `msg`.
pub open spec fn runtime_error_detail(msg: Seq<char>, log: RuntimeLog, cause: Seq<char>) -> Seq<char> {
    match log {
        RuntimeLog::Unreadable(e) => msg + ": unable to open OCI runtime log file)"@ + e@,
        RuntimeLog::Unparsable(e) => msg + ": unable to parse log msg: "@ + e@,
        RuntimeLog::Entries(logs) => if last_error(logs@).len() > 0 {
            msg + ": "@ + last_error(logs@)
        } else {
            msg + ": (no OCI runtime error in logfile) "@ + cause
        },
    }
}

/// The message of the last error-level entry, trimmed.
fn last_error_exec(logs: &Vec<Log>) -> (m: String)
    ensures
        m@ == last_error(logs@),
{
    let mut m = String::new();
    let n = logs.len();
    let mut i: usize = 0;
    let error = String::from_str("error");
    while i < n
        invariant
            n == logs@.len(),
            i <= n,
            error@ == "error"@,
            m@ == last_error(logs@.take(i as int)),
        decreases n - i,
    {
        let entry = &logs[i];
        proof {
            assert(logs@.take(i + 1).drop_last() =~= logs@.take(i as int));
            assert(logs@.take(i + 1).last() == logs@[i as int]);
        }
        if entry.level == error {
            m = crate::text::trim_str(entry.msg.as_str());
        }
        i = i + 1;
    }
    assert(logs@.take(n as int) =~= logs@);
    m
}

/// The error the shim reports when runc failed doing `msg` with `cause`: the last
/// error runc logged, or, where it logged none, the cause; where the log could not be
/// read, why.
pub fn runtime_error(msg: &str, log: RuntimeLog, cause: &str) -> (e: ShimError)
    ensures
        e@ == (ErrorModel { kind: ErrorKind::Other, detail: runtime_error_detail(msg@, log, cause@) }),
{
    let head = String::from_str(msg);
    let detail = match &log {
        RuntimeLog::Unreadable(e) => head.concat(": unable to open OCI runtime log file)").concat(e.as_str()),
        RuntimeLog::Unparsable(e) => head.concat(": unable to parse log msg: ").concat(e.as_str()),
        RuntimeLog::Entries(logs) => {
            let rt = last_error_exec(logs);
            if rt.unicode_len() > 0 {
                head.concat(": ").concat(rt.as_str())
            } else {
                head.concat(": (no OCI runtime error in logfile) ").concat(cause)
            }
        },
    };
    ShimError::Other(detail)
}

/// The global options of the runc client that the shim runs a bundle's containers
/// with: `runtime` (else `runc`), the state under `root` (else `/run/containerd/runc`)
/// joined with the namespace, JSON logs into the bundle's `log.json`.
pub open spec fn shim_runc_opts(
    runtime: Seq<char>,
    namespace: Seq<char>,
    bundle: Seq<char>,
    root: Seq<char>,
    systemd_cgroup: bool,
) -> GlobalOptsModel {
    GlobalOptsModel {
        command: Some(
            if runtime.len() == 0 {
                "runc"@
            } else {
                runtime
            },
        ),
        root: Some(
            join_path(
                if root.len() == 0 {
                    "/run/containerd/runc"@
                } else {
                    root
                },
                namespace,
            ),
        ),
        log: Some(join_path(bundle, "log.json"@)),
        log_format: LogFormat::Json,
        systemd_cgroup,
        ..default_global_opts()
    }
}

/// The global options the shim runs a bundle's containers with; see
/// [`shim_runc_opts`].
pub fn runc_opts(runtime: &str, namespace: &str, bundle: &str, root: &str, systemd_cgroup: bool) -> (o: GlobalOpts)
    ensures
        o@ == shim_runc_opts(runtime@, namespace@, bundle@, root@, systemd_cgroup),
{
    let command = if runtime.unicode_len() == 0 {
        String::from_str("runc")
    } else {
        runtime.to_owned()
    };
    let root_dir = if root.unicode_len() == 0 {
        chars_of("/run/containerd/runc")
    } else {
        chars_of(root)
    };
    let state = string_of(join_path_exec(&root_dir, &chars_of(namespace)).as_slice());
    let log = string_of(join_path_exec(&chars_of(bundle), &chars_of("log.json")).as_slice());
    let o = GlobalOpts::new().command(command.as_str()).root(state.as_str()).log(log.as_str()).log_json().systemd_cgroup(
        systemd_cgroup,
    );
    o
}

/// A path joined onto an absolute directory is absolute.
proof fn lemma_join_absolute(dir: Seq<char>, path: Seq<char>)
    requires
        is_absolute(dir),
    ensures
        is_absolute(join_path(dir, path)),
{
    reveal_strlit("/");
    if !is_absolute(path) {
        if dir.len() == 0 || dir.last() == '/' {
            assert((dir + path)[0] == dir[0]);
        } else {
            assert((dir + "/"@ + path)[0] == dir[0]);
        }
    }
}

/// The runc client for a bundle, given where its binary was found (`None` where it
/// was not); a failure is reported as `Other`, starting with
/// `unable to create runc instance`.
pub fn create_runc(
    runtime: &str,
    namespace: &str,
    bundle: &str,
    root: &str,
    systemd_cgroup: bool,
    binary: Option<String>,
) -> (r: Result<Runc, ShimError>)
    ensures
        binary is None ==> r is Err,
        binary is Some && (root@.len() == 0 || is_absolute(root@)) && is_absolute(bundle@) ==> r is Ok,
        r matches Ok(runc) ==> binary matches Some(b) && runc.command@ == b@
            && crate::options::global_flags_of(
            shim_runc_opts(runtime@, namespace@, bundle@, root@, systemd_cgroup),
            crate::options::strs(runc.args@),
        ),
        r matches Err(e) ==> e@.kind == ErrorKind::Other && crate::text::starts_with_seq(
            e@.detail,
            "unable to create runc instance"@,
        ),
{
    let opts = runc_opts(runtime, namespace, bundle, root, systemd_cgroup);
    proof {
        reveal_strlit("/run/containerd/runc");
        let dir = if root@.len() == 0 { "/run/containerd/runc"@ } else { root@ };
        if root@.len() == 0 || is_absolute(root@) {
            lemma_join_absolute(dir, namespace@);
        }
        if is_absolute(bundle@) {
            lemma_join_absolute(bundle@, "log.json"@);
        }
    }
    match opts.build(binary) {
        Ok(runc) => Ok(runc),
        Err(e) => {
            let head = String::from_str("unable to create runc instance");
            let detail = match e {
                Error::NotFound => head.concat(": runc binary not found"),
                Error::InvalidPath(m) => head.concat(": invalid path: ").concat(m.as_str()),
                _ => head,
            };
            proof {
                reveal_strlit("unable to create runc instance");
                assert(detail@.subrange(0, 30) =~= "unable to create runc instance"@);
            }
            Err(ShimError::Other(detail))
        },
    }
}

/// The annotations consulted, in order, for the group a shim serves.
pub open spec fn group_labels() -> Seq<Seq<char>> {
    seq!["io.containerd.runc.v2.group"@, "io.kubernetes.cri.sandbox-id"@]
}

/// The value of the first annotation with the key `key`.
pub open spec fn annotation(anns: Seq<(String, String)>, key: Seq<char>) -> Option<Seq<char>> {
    let i = first_match(anns, |a: (String, String)| a.0@ == key);
    if i >= 0 {
        Some(anns[i].1@)
    } else {
        None
    }
}

/// The group a shim serves: the value of the first group label the bundle's
/// annotations carry, else the task's own id.
pub open spec fn grouping(id: Seq<char>, anns: Seq<(String, String)>) -> Seq<char> {
    if annotation(anns, group_labels()[0]) is Some {
        annotation(anns, group_labels()[0])->Some_0
    } else if annotation(anns, group_labels()[1]) is Some {
        annotation(anns, group_labels()[1])->Some_0
    } else {
        id
    }
}

/// The value of the first annotation with the key `key`.
fn annotation_exec(anns: &Vec<(String, String)>, key: &str) -> (r: Option<String>)
    ensures
        match r {
            Some(v) => annotation(anns@, key@) == Some(v@),
            None => annotation(anns@, key@) is None,
        },
{
    let ghost p = |a: (String, String)| a.0@ == key@;
    let k = String::from_str(key);
    let n = anns.len();
    let mut i: usize = 0;
    while i < n
        invariant
            n == anns@.len(),
            i <= n,
            k@ == key@,
            p == |a: (String, String)| a.0@ == key@,
            forall|j: int| 0 <= j < i ==> !p(anns@[j]),
        decreases n - i,
    {
        if anns[i].0 == k {
            proof {
                lemma_first_match_at(anns@, p, i as int);
            }
            return Some(anns[i].1.clone());
        }
        i = i + 1;
    }
    proof {
        lemma_first_match_none(anns@, p);
    }
    None
}

/// The group a shim serves; see [`grouping`].
pub fn shim_grouping(id: &str, annotations: &Vec<(String, String)>) -> (g: String)
    ensures
        g@ == grouping(id@, annotations@),
{
    match annotation_exec(annotations, "io.containerd.runc.v2.group") {
        Some(v) => v,
        None => match annotation_exec(annotations, "io.kubernetes.cri.sandbox-id") {
            Some(v) => v,
            None => id.to_owned(),
        },
    }
}

/// Whether a process's `/proc/<pid>/status` text says it is a zombie: some line
/// starts with `State:` and holds a `Z`.
pub open spec fn zombie_status(status: Seq<char>) -> bool {
    exists|i: int|
        0 <= i < text_lines(status).len() && starts_with_seq(#[trigger] text_lines(status)[i], "State:"@)
            && text_lines(status)[i].contains('Z')
}

/// Whether a process's status text says it is a zombie; see [`zombie_status`].
pub fn is_zombie_status(status: &str) -> (b: bool)
    ensures
        b == zombie_status(status@),
{
    let lines = lines_exec(status);
    let ghost ls = text_lines(status@);
    let state = chars_of("State:");
    let n = lines.len();
    let mut i: usize = 0;
    while i < n
        invariant
            n == ls.len(),
            i <= n,
            lines@.map_values(|l: Vec<char>| l@) == ls,
            ls == text_lines(status@),
            state@ == "State:"@,
            forall|j: int| 0 <= j < i ==> !(starts_with_seq(ls[j], "State:"@) && ls[j].contains('Z')),
        decreases n - i,
    {
        let line = &lines[i];
        assert(line@ == ls[i as int]);
        if starts_with_exec(line, &state) {
            let m = line.len();
            let mut j: usize = 0;
            while j < m
                invariant
                    m == line@.len(),
                    j <= m,
                    i < n,
                    n == ls.len(),
                    ls == text_lines(status@),
                    line@ == ls[i as int],
                    starts_with_seq(ls[i as int], "State:"@),
                    forall|k: int| 0 <= k < j ==> line@[k] != 'Z',
                decreases m - j,
            {
                if line[j] == 'Z' {
                    assert(ls[i as int].contains('Z')) by {
                        assert(line@[j as int] == 'Z');
                    }
                    assert(starts_with_seq(text_lines(status@)[i as int], "State:"@) && text_lines(status@)[i as int].contains('Z'));
                    return true;
                }
                j = j + 1;
            }
            assert(!line@.contains('Z'));
        }
        i = i + 1;
    }
    false
}

/// The first line holding `needle`, if any.
fn first_line_with(lines: &Vec<Vec<char>>, needle: &Vec<char>, also: &Vec<char>) -> (r: Option<usize>)
    ensures
        match r {
            Some(i) => i < lines@.len() && contains_seq(lines@[i as int]@, needle@) && contains_seq(
                lines@[i as int]@,
                also@,
            ) && forall|j: int|
                0 <= j < i ==> !(contains_seq(lines@[j]@, needle@) && contains_seq(lines@[j]@, also@)),
            None => forall|j: int|
                0 <= j < lines@.len() ==> !(contains_seq(lines@[j]@, needle@) && contains_seq(
                    lines@[j]@,
                    also@,
                )),
        },
{
    let n = lines.len();
    let mut i: usize = 0;
    while i < n
        invariant
            n == lines@.len(),
            i <= n,
            forall|j: int|
                0 <= j < i ==> !(contains_seq(lines@[j]@, needle@) && contains_seq(lines@[j]@, also@)),
        decreases n - i,
    {
        if contains_exec(&lines[i], needle) && contains_exec(&lines[i], also) {
            return Some(i);
        }
        i = i + 1;
    }
    None
}

/// The index of the first line holding both `a` and `b`, or `-1`.
pub open spec fn first_line_holding(lines: Seq<Seq<char>>, a: Seq<char>, b: Seq<char>) -> int {
    first_match(lines, |l: Seq<char>| contains_seq(l, a) && contains_seq(l, b))
}

/// What follows the first `:memory:` in a line, if it holds one.
pub open spec fn after_memory(line: Seq<char>) -> Option<Seq<char>> {
    match crate::text::first_occurrence(line, ":memory:"@) {
        Some(i) => Some(line.subrange(i + 8, line.len() as int)),
        None => None,
    }
}

/// The memory cgroup path in a process's `/proc/<pid>/cgroup` text: what follows
/// `:memory:` in the first line that mentions `memory`.
pub open spec fn cgroup_memory_path(text: Seq<char>) -> Result<Seq<char>, Seq<char>> {
    let ls = text_lines(text);
    let i = first_line_holding(ls, "memory"@, "memory"@);
    if i < 0 {
        Err("Memory line not found"@)
    } else {
        match after_memory(ls[i]) {
            Some(p) => Ok(p),
            None => Err("Failed to parse memory line"@),
        }
    }
}

/// The memory cgroup path in a process's cgroup text; see [`cgroup_memory_path`].
pub fn path_from_cgroup(text: &str) -> (r: Result<String, ShimError>)
    ensures
        match (r, cgroup_memory_path(text@)) {
            (Ok(p), Ok(q)) => p@ == q,
            (Err(e), Err(d)) => e@ == (ErrorModel { kind: ErrorKind::Other, detail: d }),
            _ => false,
        },
{
    let lines = lines_exec(text);
    let ghost ls = text_lines(text@);
    let memory = chars_of("memory");
    let ghost p = |l: Seq<char>| contains_seq(l, "memory"@) && contains_seq(l, "memory"@);
    match first_line_with(&lines, &memory, &memory) {
        None => {
            proof {
                assert forall|j: int| 0 <= j < ls.len() implies !p(ls[j]) by {
                    assert(ls[j] == lines@[j]@);
                }
                lemma_first_match_none(ls, p);
            }
            Err(ShimError::Other(String::from_str("Memory line not found")))
        },
        Some(i) => {
            proof {
                assert forall|j: int| 0 <= j < i implies !p(ls[j]) by {
                    assert(ls[j] == lines@[j]@);
                }
                assert(ls[i as int] == lines@[i as int]@);
                lemma_first_match_at(ls, p, i as int);
            }
            let line = &lines[i];
            match crate::text::find_exec(line, &chars_of(":memory:")) {
                None => {
                    assert(crate::text::first_occurrence(line@, ":memory:"@) is None);
                    Err(ShimError::Other(String::from_str("Failed to parse memory line")))
                },
                Some(k) => {
                    proof {
                        reveal_strlit(":memory:");
                        let fo = crate::text::first_occurrence(line@, ":memory:"@);
                        assert(crate::text::contains_seq(line@, ":memory:"@));
                        let c = fo->Some_0;
                        assert(crate::text::occurs_at(line@, ":memory:"@, c));
                        if c < k {
                            assert(!crate::text::occurs_at(line@, ":memory:"@, c));
                        }
                        if c > k {
                            assert(!crate::text::occurs_at(line@, ":memory:"@, k as int));
                        }
                    }
                    let mut rest: Vec<char> = Vec::new();
                    let m = line.len();
                    assert(k + 8 <= m) by {
                        reveal_strlit(":memory:");
                    }
                    let mut j: usize = k + 8;
                    let ghost start = (k + 8) as int;
                    assert(rest@ =~= line@.subrange(start, start));
                    while j < m
                        invariant
                            m == line@.len(),
                            0 <= start <= j <= m,
                            rest@ == line@.subrange(start, j as int),
                        decreases m - j,
                    {
                        let ghost before = rest@;
                        rest.push(line[j]);
                        assert(line@.subrange(start, j + 1) =~= line@.subrange(start, j as int).push(line@[j as int]));
                        assert(rest@ =~= before.push(line@[j as int]));
                        j = j + 1;
                    }
                    Ok(string_of(rest.as_slice()))
                },
            }
        },
    }
}


/// The root and the mount point of the memory cgroup in a mount line: its fourth and
/// fifth words.
pub open spec fn memory_mountroot(line: Seq<char>) -> Result<(Seq<char>, Seq<char>), Seq<char>> {
    let w = crate::text::words(line);
    if w.len() >= 5 {
        Ok((w[3], w[4]))
    } else {
        Err("Invalid input information about mountinfo"@)
    }
}

/// The root and mount point of the memory cgroup in `/proc/self/mountinfo` text: from
/// the first line that mentions both `cgroup` and `memory`.
pub open spec fn mountinfo_memory_root(text: Seq<char>) -> Result<(Seq<char>, Seq<char>), Seq<char>> {
    let ls = text_lines(text);
    let i = first_line_holding(ls, "cgroup"@, "memory"@);
    if i < 0 {
        Err("Lines containers cgroup and memory not found in mountinfo"@)
    } else {
        memory_mountroot(ls[i])
    }
}

/// `s` with every leading repetition of `p` removed, as `str::trim_start_matches`
/// does; an empty `p` removes nothing.
pub open spec fn strip_prefixes(s: Seq<char>, p: Seq<char>) -> Seq<char>
    decreases s.len(),
{
    if p.len() > 0 && starts_with_seq(s, p) {
        strip_prefixes(s.subrange(p.len() as int, s.len() as int), p)
    } else {
        s
    }
}

/// Where a process's memory cgroup lies below the mount point: its cgroup path with
/// the mount root stripped from its front (none for the root `/`), and the mount point.
pub open spec fn existing_mem_path(pid_path: Seq<char>, mountinfo: Seq<char>) -> Result<
    (Seq<char>, Seq<char>),
    Seq<char>,
> {
    match mountinfo_memory_root(mountinfo) {
        Ok((root, point)) => Ok(
            (
                strip_prefixes(
                    pid_path,
                    if root == "/"@ {
                        Seq::empty()
                    } else {
                        root
                    },
                ),
                point,
            ),
        ),
        Err(e) => Err(e),
    }
}

/// The root and mount point of the memory cgroup in a mount line; see
/// [`memory_mountroot`].
pub fn parse_memory_mountroot(line: &Vec<char>) -> (r: Result<(String, String), ShimError>)
    ensures
        match (r, memory_mountroot(line@)) {
            (Ok((a, b)), Ok((x, y))) => a@ == x && b@ == y,
            (Err(e), Err(d)) => e@ == (ErrorModel { kind: ErrorKind::Other, detail: d }),
            _ => false,
        },
{
    let w = crate::text::words_exec(line);
    if w.len() >= 5 {
        assert(w@.map_values(|x: Vec<char>| x@)[3] == w@[3]@);
        assert(w@.map_values(|x: Vec<char>| x@)[4] == w@[4]@);
        Ok((string_of(w[3].as_slice()), string_of(w[4].as_slice())))
    } else {
        Err(ShimError::Other(String::from_str("Invalid input information about mountinfo")))
    }
}

/// The root and mount point of the memory cgroup in mountinfo text; see
/// [`mountinfo_memory_root`].
pub fn path_from_mountinfo(text: &str) -> (r: Result<(String, String), ShimError>)
    ensures
        match (r, mountinfo_memory_root(text@)) {
            (Ok((a, b)), Ok((x, y))) => a@ == x && b@ == y,
            (Err(e), Err(d)) => e@ == (ErrorModel { kind: ErrorKind::Other, detail: d }),
            _ => false,
        },
{
    let lines = lines_exec(text);
    let ghost ls = text_lines(text@);
    let cgroup = chars_of("cgroup");
    let memory = chars_of("memory");
    let ghost p = |l: Seq<char>| contains_seq(l, "cgroup"@) && contains_seq(l, "memory"@);
    match first_line_with(&lines, &cgroup, &memory) {
        None => {
            proof {
                assert forall|j: int| 0 <= j < ls.len() implies !p(ls[j]) by {
                    assert(ls[j] == lines@[j]@);
                }
                lemma_first_match_none(ls, p);
            }
            Err(ShimError::Other(String::from_str("Lines containers cgroup and memory not found in mountinfo")))
        },
        Some(i) => {
            proof {
                assert forall|j: int| 0 <= j < i implies !p(ls[j]) by {
                    assert(ls[j] == lines@[j]@);
                }
                assert(ls[i as int] == lines@[i as int]@);
                lemma_first_match_at(ls, p, i as int);
            }
            parse_memory_mountroot(&lines[i])
        },
    }
}

/// `s` with every leading repetition of `p` removed; see [`strip_prefixes`].
pub fn strip_prefixes_exec(s: &Vec<char>, p: &Vec<char>) -> (r: Vec<char>)
    ensures
        r@ == strip_prefixes(s@, p@),
{
    let n = s.len();
    let m = p.len();
    let mut i: usize = 0;
    if m == 0 {
        return s.clone();
    }
    assert(s@.subrange(0, n as int) =~= s@);
    while m <= n - i && crate::text::occurs_at_exec(s, p, i)
        invariant
            n == s@.len(),
            m == p@.len(),
            m > 0,
            i <= n,
            strip_prefixes(s@.subrange(i as int, n as int), p@) == strip_prefixes(s@, p@),
        decreases n - i,
    {
        proof {
            let t = s@.subrange(i as int, n as int);
            assert(t.subrange(0, m as int) =~= s@.subrange(i as int, i + m));
            assert(starts_with_seq(t, p@));
            assert(t.subrange(m as int, t.len() as int) =~= s@.subrange(i + m, n as int));
        }
        i = i + m;
    }
    proof {
        let t = s@.subrange(i as int, n as int);
        if starts_with_seq(t, p@) {
            assert(i + m <= n);
            assert(t.subrange(0, m as int) =~= s@.subrange(i as int, i + m));
            assert(crate::text::occurs_at(s@, p@, i as int));
        }
    }
    let mut out: Vec<char> = Vec::new();
    let mut j: usize = i;
    while j < n
        invariant
            n == s@.len(),
            i <= j <= n,
            out@ == s@.subrange(i as int, j as int),
        decreases n - j,
    {
        let ghost before = out@;
        out.push(s[j]);
        assert(s@.subrange(i as int, j + 1) =~= s@.subrange(i as int, j as int).push(s@[j as int]));
        j = j + 1;
    }
    out
}

/// Where a process's memory cgroup lies, given its cgroup path and the mountinfo text;
/// see [`existing_mem_path`].
pub fn existing_cgroup_mem_path(pid_path: &str, mountinfo: &str) -> (r: Result<(String, String), ShimError>)
    ensures
        match (r, existing_mem_path(pid_path@, mountinfo@)) {
            (Ok((a, b)), Ok((x, y))) => a@ == x && b@ == y,
            (Err(e), Err(d)) => e@ == (ErrorModel { kind: ErrorKind::Other, detail: d }),
            _ => false,
        },
{
    match path_from_mountinfo(mountinfo) {
        Ok((root, point)) => {
            let slash = String::from_str("/");
            let prefix = if root == slash {
                Vec::new()
            } else {
                chars_of(root.as_str())
            };
            proof {
                if root@ == "/"@ {
                    assert(prefix@ =~= Seq::<char>::empty());
                }
            }
            let stripped = strip_prefixes_exec(&chars_of(pid_path), &prefix);
            Ok((string_of(stripped.as_slice()), point))
        },
        Err(e) => Err(e),
    }
}

/// The outcome of one read of a copy loop.
#[derive(Debug, Clone, Copy, PartialEq, Eq, Structural)]
pub enum ReadOutcome {
    /// The reader is at its end.
    End,
    /// This many bytes were read.
    Data(usize),
    /// The read was interrupted before anything was read.
    Interrupted,
    /// The read failed otherwise.
    Failed,
}

/// What a copy loop does next.
#[derive(Debug, Clone, Copy, PartialEq, Eq, Structural)]
pub enum CopyStep {
    /// Stop: everything was copied, this many bytes in all.
    Done(u64),
    /// Write the bytes just read, having copied this many bytes in all, and read again.
    Write { len: usize, written: u64 },
    /// Read again.
    Retry,
    /// Stop with the read's error.
    Fail,
}

/// The next step of copying a reader into a writer, having copied `written` bytes,
/// after a read came back with `outcome`.
pub fn copy_step(written: u64, outcome: ReadOutcome) -> (s: CopyStep)
    requires
        outcome matches ReadOutcome::Data(n) ==> written + n <= u64::MAX,
    ensures
        s == match outcome {
            ReadOutcome::End => CopyStep::Done(written),
            ReadOutcome::Data(n) => if n == 0 {
                CopyStep::Done(written)
            } else {
                CopyStep::Write { len: n, written: (written + n) as u64 }
            },
            ReadOutcome::Interrupted => CopyStep::Retry,
            ReadOutcome::Failed => CopyStep::Fail,
        },
{
    match outcome {
        ReadOutcome::End => CopyStep::Done(written),
        ReadOutcome::Data(n) => if n == 0 {
            CopyStep::Done(written)
        } else {
            CopyStep::Write { len: n, written: written + n as u64 }
        },
        ReadOutcome::Interrupted => CopyStep::Retry,
        ReadOutcome::Failed => CopyStep::Fail,
    }
}

/// The executor the shim runs runc commands with.
#[derive(Debug, Clone, Copy, PartialEq, Eq, Structural)]
pub struct ShimExecutor {}


/// What deleting a shim reports: its task was killed (exit status 137, for `SIGKILL`)
/// at `now`.
pub fn delete_shim_response(now: crate::shim::process::Timestamp) -> (r: crate::shim::task::DeleteResponse)
    ensures
        r == (crate::shim::task::DeleteResponse { pid: 0, exit_status: 137, exited_at: Some(now) }),
{
    crate::shim::task::DeleteResponse { pid: 0, exit_status: 137, exited_at: Some(now) }
}

} // verus!
