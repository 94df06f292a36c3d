//! The stdio paths containerd hands the shim for a process.
use vstd::prelude::*;

verus! {

/// The stdio of a process: the paths (or URIs) of its three streams and whether it
/// runs on a terminal.
#[derive(Debug)]
pub struct Stdio {
    pub stdin: String,
    pub stdout: String,
    pub stderr: String,
    pub terminal: bool,
}

/// The mathematical value of a [`Stdio`].
pub struct StdioModel {
    pub stdin: Seq<char>,
    pub stdout: Seq<char>,
    pub stderr: Seq<char>,
    pub terminal: bool,
}

impl View for Stdio {
    type V = StdioModel;

    open spec fn view(&self) -> StdioModel {
        StdioModel {
            stdin: self.stdin@,
            stdout: self.stdout@,
            stderr: self.stderr@,
            terminal: self.terminal,
        }
    }
}

impl StdioModel {
    /// A process whose three streams are all unset has null stdio.
    pub open spec fn is_null(self) -> bool {
        self.stdin.len() == 0 && self.stdout.len() == 0 && self.stderr.len() == 0
    }
}

impl Stdio {
    pub fn new(stdin: &str, stdout: &str, stderr: &str, terminal: bool) -> (s: Self)
        ensures
            s@ == (StdioModel { stdin: stdin@, stdout: stdout@, stderr: stderr@, terminal }),
    {
        Stdio {
            stdin: stdin.to_owned(),
            stdout: stdout.to_owned(),
            stderr: stderr.to_owned(),
            terminal,
        }
    }

    pub fn is_null(&self) -> (b: bool)
        ensures
            b == self@.is_null(),
    {
        self.stdin.as_str().is_empty() && self.stdout.as_str().is_empty() && self.stderr.as_str().is_empty()
    }

    /// A copy of this stdio.
    pub fn duplicate(&self) -> (s: Self)
        ensures
            s@ == self@,
    {
        Stdio {
            stdin: self.stdin.clone(),
            stdout: self.stdout.clone(),
            stderr: self.stderr.clone(),
            terminal: self.terminal,
        }
    }
}

impl Default for Stdio {
    fn default() -> (s: Self)
        ensures
            s@ == (StdioModel { stdin: Seq::empty(), stdout: Seq::empty(), stderr: Seq::empty(), terminal: false }),
    {
        Stdio { stdin: String::new(), stdout: String::new(), stderr: String::new(), terminal: false }
    }
}

} // verus!
