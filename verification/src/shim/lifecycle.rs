//! What the shim decides when it creates, starts and deletes processes through runc:
//! the files and options it passes, which streams it copies, and how it reads back a
//! pid file.
use vstd::prelude::*;

use crate::error::{ErrorKind, ErrorModel, ShimError};
use crate::io::opt_str;
use crate::options::{CreateOpts, CreateOptsModel, ExecOpts, ExecOptsModel};
use crate::paths::{join_path, join_path_exec};
use crate::shim::io::{Stdio, StdioModel};
use crate::text::{chars_of, contains_seq, string_of};

verus! {

/// Where runc writes the pid of a container's init process.
pub open spec fn init_pid_file(bundle: Seq<char>) -> Seq<char> {
    join_path(bundle, "init.pid"@)
}

/// Where runc writes the pid of an exec process.
pub open spec fn exec_pid_file(bundle: Seq<char>, exec_id: Seq<char>) -> Seq<char> {
    join_path(bundle, exec_id + ".pid"@)
}

/// Where runc writes the pid of a container's init process.
pub fn init_pid_path(bundle: &str) -> (p: String)
    ensures
        p@ == init_pid_file(bundle@),
{
    string_of(join_path_exec(&chars_of(bundle), &chars_of("init.pid")).as_slice())
}

/// Where runc writes the pid of an exec process.
pub fn exec_pid_path(bundle: &str, exec_id: &str) -> (p: String)
    ensures
        p@ == exec_pid_file(bundle@, exec_id@),
{
    let name = String::from_str(exec_id).concat(".pid");
    string_of(join_path_exec(&chars_of(bundle), &chars_of(name.as_str())).as_slice())
}

/// The options a container's init process is created with: its pid file in the bundle,
/// the bundle's pivot and keyring settings, no detaching, and the console socket where
/// it has a terminal.
pub fn init_create_opts(bundle: &str, no_pivot: bool, no_new_keyring: bool, console_socket: Option<String>) -> (o:
    CreateOpts)
    ensures
        o@ == (CreateOptsModel {
            pid_file: Some(init_pid_file(bundle@)),
            console_socket: opt_str(console_socket),
            detach: false,
            no_pivot,
            no_new_keyring,
        }),
{
    let pid = init_pid_path(bundle);
    let o = CreateOpts::new().pid_file(pid.as_str()).no_pivot(no_pivot).no_new_keyring(no_new_keyring).detach(false);
    CreateOpts { console_socket, ..o }
}

/// The options an exec process is started with: its pid file in the bundle, detached,
/// and the console socket where it has a terminal.
pub fn exec_start_opts(bundle: &str, exec_id: &str, console_socket: Option<String>) -> (o: ExecOpts)
    ensures
        o@ == (ExecOptsModel {
            pid_file: Some(exec_pid_file(bundle@, exec_id@)),
            console_socket: opt_str(console_socket),
            detach: true,
        }),
{
    let pid = exec_pid_path(bundle, exec_id);
    ExecOpts { pid_file: Some(pid), console_socket, detach: true }
}

/// Where checkpoints go: the configured path, or the bundle's `work` directory where
/// none is configured.
pub fn criu_work_path(bundle: &str, criu_path: &str) -> (p: String)
    ensures
        p@ == if criu_path@.len() == 0 {
            join_path(bundle@, "work"@)
        } else {
            criu_path@
        },
{
    if criu_path.unicode_len() == 0 {
        string_of(join_path_exec(&chars_of(bundle), &chars_of("work")).as_slice())
    } else {
        criu_path.to_owned()
    }
}

/// What the shim does with a process's streams once runc started it.
#[derive(Debug, Clone, Copy, PartialEq, Eq, Structural)]
pub struct CopyPlan {
    /// Copy the stdin path into the driver's stdin.
    pub stdin: bool,
    /// Copy the driver's stdout into the stdout path.
    pub stdout: bool,
    /// Copy the driver's stderr into the stderr path.
    pub stderr: bool,
    /// Keep a reader open on the stdout path, so that the writer does not fail once
    /// the other reader is gone.
    pub hold_stdout: bool,
    /// Keep a reader open on the stderr path.
    pub hold_stderr: bool,
}

/// What the shim does with a process's streams: where it copies itself, each stream
/// that the driver offers and that has a path; where the runtime writes the paths
/// itself, readers held open on the output paths that are set, if `hold` asks for them
/// (the blocking shim holds them; the asynchronous one opens nothing).
pub open spec fn copy_plan_spec(
    copy: bool,
    hold: bool,
    has_stdin: bool,
    has_stdout: bool,
    has_stderr: bool,
    stdio: StdioModel,
) -> CopyPlan {
    if copy {
        CopyPlan {
            stdin: has_stdin && stdio.stdin.len() > 0,
            stdout: has_stdout && stdio.stdout.len() > 0,
            stderr: has_stderr && stdio.stderr.len() > 0,
            hold_stdout: false,
            hold_stderr: false,
        }
    } else {
        CopyPlan {
            stdin: false,
            stdout: false,
            stderr: false,
            hold_stdout: hold && stdio.stdout.len() > 0,
            hold_stderr: hold && stdio.stderr.len() > 0,
        }
    }
}

/// What the shim does with a process's streams; see [`copy_plan_spec`]. `has_*` say
/// which streams the driver offers.
pub fn copy_plan(copy: bool, hold: bool, has_stdin: bool, has_stdout: bool, has_stderr: bool, stdio: &Stdio) -> (p:
    CopyPlan)
    ensures
        p == copy_plan_spec(copy, hold, has_stdin, has_stdout, has_stderr, stdio@),
{
    let in_set = !stdio.stdin.as_str().is_empty();
    let out_set = !stdio.stdout.as_str().is_empty();
    let err_set = !stdio.stderr.as_str().is_empty();
    if copy {
        CopyPlan {
            stdin: has_stdin && in_set,
            stdout: has_stdout && out_set,
            stderr: has_stderr && err_set,
            hold_stdout: false,
            hold_stderr: false,
        }
    } else {
        CopyPlan { stdin: false, stdout: false, stderr: false, hold_stdout: hold && out_set, hold_stderr: hold && err_set }
    }
}

/// What the shim copies through a process's console: stdin into it where a stdin path
/// is set, and it into stdout where a stdout path is set.
pub fn console_copy_plan(stdio: &Stdio) -> (p: (bool, bool))
    ensures
        p == (stdio@.stdin.len() > 0, stdio@.stdout.len() > 0),
{
    (!stdio.stdin.as_str().is_empty(), !stdio.stdout.as_str().is_empty())
}

/// The value of a string of decimal digits.
pub open spec fn digits_value(s: Seq<char>) -> int
    decreases s.len(),
{
    if s.len() == 0 {
        0
    } else {
        digits_value(s.drop_last()) * 10 + (s.last() as int - '0' as int)
    }
}

/// Whether every character is a decimal digit.
pub open spec fn all_digits(s: Seq<char>) -> bool {
    forall|i: int| 0 <= i < s.len() ==> '0' <= #[trigger] s[i] <= '9'
}

/// The length of a leading sign.
pub open spec fn sign_len(s: Seq<char>) -> int {
    if s.len() > 0 && (s[0] == '-' || s[0] == '+') {
        1
    } else {
        0
    }
}

/// What `str::parse::<i32>` gives: an optional `+` or `-`, then one or more decimal
/// digits, whose value fits in an `i32`.
pub open spec fn parse_i32_spec(s: Seq<char>) -> Option<i32> {
    let neg = s.len() > 0 && s[0] == '-';
    let digits = s.subrange(sign_len(s), s.len() as int);
    if digits.len() == 0 || !all_digits(digits) {
        None
    } else {
        let v = if neg {
            -digits_value(digits)
        } else {
            digits_value(digits)
        };
        if i32::MIN <= v <= i32::MAX {
            Some(v as i32)
        } else {
            None
        }
    }
}

proof fn lemma_digits_value_nonneg(s: Seq<char>)
    requires
        all_digits(s),
    ensures
        digits_value(s) >= 0,
    decreases s.len(),
{
    if s.len() > 0 {
        assert(all_digits(s.drop_last())) by {
            assert forall|i: int| 0 <= i < s.drop_last().len() implies '0' <= #[trigger] s.drop_last()[i] <= '9' by {
                assert(s.drop_last()[i] == s[i]);
            }
        }
        lemma_digits_value_nonneg(s.drop_last());
        assert('0' <= s[s.len() - 1] <= '9');
    }
}

proof fn lemma_digits_value_grows(s: Seq<char>, i: int)
    requires
        all_digits(s),
        0 <= i <= s.len(),
    ensures
        digits_value(s.take(i)) <= digits_value(s),
    decreases s.len() - i,
{
    if i < s.len() {
        lemma_digits_value_grows(s, i + 1);
        assert(s.take(i + 1).drop_last() =~= s.take(i));
        assert(all_digits(s.take(i))) by {
            assert forall|k: int| 0 <= k < s.take(i).len() implies '0' <= #[trigger] s.take(i)[k] <= '9' by {
                assert(s.take(i)[k] == s[k]);
            }
        }
        lemma_digits_value_nonneg(s.take(i));
        assert('0' <= s[i] <= '9');
    } else {
        assert(s.take(i) =~= s);
    }
}

/// Reads a pid as `str::parse::<i32>` does; see [`parse_i32_spec`].
pub fn parse_i32(s: &str) -> (r: Option<i32>)
    ensures
        r == parse_i32_spec(s@),
{
    let v = chars_of(s);
    let n = v.len();
    let neg = n > 0 && v[0] == '-';
    let start: usize = if n > 0 && (v[0] == '-' || v[0] == '+') {
        1
    } else {
        0
    };
    let ghost digits = v@.subrange(start as int, n as int);
    if start == n {
        return None;
    }
    let mut acc: i64 = 0;
    let mut i: usize = start;
    while i < n
        invariant
            start <= i <= n,
            start < n,
            start as int == sign_len(s@),
            neg == (s@.len() > 0 && s@[0] == '-'),
            n == v@.len(),
            v@ == s@,
            digits == v@.subrange(start as int, n as int),
            all_digits(digits.take(i - start)),
            acc == digits_value(digits.take(i - start)),
            0 <= acc <= 2147483648,
        decreases n - i,
    {
        let c = v[i];
        assert(c == digits[i - start]);
        if !('0' <= c && c <= '9') {
            assert(!all_digits(digits));
            return None;
        }
        let d = (c as u32 - '0' as u32) as i64;
        proof {
            let k = (i - start) as int;
            assert(digits.take(k + 1).drop_last() =~= digits.take(k));
            assert(digits.take(k + 1).last() == c);
            assert(all_digits(digits.take(k + 1))) by {
                assert forall|j: int| 0 <= j < digits.take(k + 1).len() implies '0' <= #[trigger] digits.take(k + 1)[j]
                    <= '9' by {
                    if j < k {
                        assert(digits.take(k + 1)[j] == digits.take(k)[j]);
                    }
                }
            }
        }
        let next = acc * 10 + d;
        if next > 2147483648 {
            proof {
                let k = (i - start) as int;
                if all_digits(digits) {
                    lemma_digits_value_grows(digits, k + 1);
                }
            }
            return None;
        }
        acc = next;
        i = i + 1;
    }
    proof {
        assert(digits.take(n - start) =~= digits);
    }
    if neg {
        Some((0 - acc) as i32)
    } else if acc > 2147483647 {
        None
    } else {
        Some(acc as i32)
    }
}

/// The outcome of `runc delete` for the init process, given what it failed with, if it
/// failed: a container that no longer exists (in any case of the words) counts as
/// deleted.
pub fn delete_outcome(failure: Option<String>) -> (r: Result<(), ShimError>)
    ensures
        match failure {
            None => r is Ok,
            Some(m) => if contains_seq(crate::shim::common::lowercase(m@), "does not exist"@) {
                r is Ok
            } else {
                r matches Err(e) && e@ == (ErrorModel { kind: ErrorKind::Other, detail: "failed delete: "@ + m@ })
            },
        },
{
    match failure {
        None => Ok(()),
        Some(m) => {
            let lowered = crate::shim::common::to_lowercase(m.as_str());
            if crate::text::str_contains(lowered.as_str(), "does not exist") {
                Ok(())
            } else {
                Err(ShimError::Other(String::from_str("failed delete: ").concat(m.as_str())))
            }
        },
    }
}

/// What the shim reads a container's cgroup for.
#[derive(Debug, Clone, Copy, PartialEq, Eq, Structural)]
pub enum CgroupUse {
    /// Updating its resources.
    Update,
    /// Collecting its metrics.
    Stats,
}

/// The words an error about a cgroup use starts with.
pub open spec fn cgroup_use_prefix(u: CgroupUse) -> Seq<char> {
    match u {
        CgroupUse::Update => "failed to update resources because "@,
        CgroupUse::Stats => "failed to collect metrics because "@,
    }
}

/// Whether the cgroup of a container whose init process is `pid` may be used: not
/// before the process exists, nor once it is a zombie (`zombie` says whether it is).
pub open spec fn cgroup_use_check(u: CgroupUse, pid: i32, zombie: bool) -> Result<(), Seq<char>> {
    if pid <= 0 {
        Err(cgroup_use_prefix(u) + "init process is "@ + crate::text::signed_decimal(pid as int))
    } else if zombie {
        Err(cgroup_use_prefix(u) + "process "@ + crate::text::signed_decimal(pid as int) + " is a zombie"@)
    } else {
        Ok(())
    }
}

/// Whether the cgroup of a container may be used; see [`cgroup_use_check`]. Errors are
/// the shim's `Other`.
pub fn check_cgroup_use(u: CgroupUse, pid: i32, zombie: bool) -> (r: Result<(), ShimError>)
    ensures
        match (r, cgroup_use_check(u, pid, zombie)) {
            (Ok(()), Ok(())) => true,
            (Err(e), Err(d)) => e@ == (ErrorModel { kind: ErrorKind::Other, detail: d }),
            _ => false,
        },
{
    let head = match u {
        CgroupUse::Update => String::from_str("failed to update resources because "),
        CgroupUse::Stats => String::from_str("failed to collect metrics because "),
    };
    if pid <= 0 {
        let n = crate::text::signed_decimal_string(pid);
        Err(ShimError::Other(head.concat("init process is ").concat(n.as_str())))
    } else if zombie {
        let n = crate::text::signed_decimal_string(pid);
        Err(ShimError::Other(head.concat("process ").concat(n.as_str()).concat(" is a zombie")))
    } else {
        Ok(())
    }
}

} // verus!
