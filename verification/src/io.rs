//! The stdio drivers of the runc client, as plain descriptions: which streams a
//! command gets and where they go. Wiring them to a running command is the caller's.
use vstd::prelude::*;

verus! {

/// Which of the three streams a piped driver opens.
#[derive(Debug, Clone, Copy, PartialEq, Eq, Structural)]
pub struct IOOption {
    pub open_stdin: bool,
    pub open_stdout: bool,
    pub open_stderr: bool,
}

impl Default for IOOption {
    fn default() -> (o: Self)
        ensures
            o == (IOOption { open_stdin: true, open_stdout: true, open_stderr: true }),
    {
        IOOption { open_stdin: true, open_stdout: true, open_stderr: true }
    }
}

/// The driver that lets a command inherit the caller's stdout and stderr, with no stdin.
#[derive(Debug)]
pub struct InheritedStdIo {}

impl InheritedStdIo {
    pub fn new() -> (r: Result<Self, String>)
        ensures
            r is Ok,
    {
        Ok(InheritedStdIo {})
    }
}

/// The driver that captures a command's stdout and stderr through pipes, with no stdin.
#[derive(Debug)]
pub struct PipedStdIo {}

impl PipedStdIo {
    pub fn new() -> (r: Result<Self, String>)
        ensures
            r is Ok,
    {
        Ok(PipedStdIo {})
    }
}

/// The driver that connects a command's streams to named pipes: stdin read without
/// blocking, stdout and stderr written; a stream without a path is left as it is.
#[derive(Debug)]
pub struct FIFO {
    pub stdin: Option<String>,
    pub stdout: Option<String>,
    pub stderr: Option<String>,
}

/// The mathematical value of an optional string.
pub open spec fn opt_str(s: Option<String>) -> Option<Seq<char>> {
    match s {
        Some(x) => Some(x@),
        None => None,
    }
}

/// The mathematical value of a [`FIFO`].
pub struct FifoModel {
    pub stdin: Option<Seq<char>>,
    pub stdout: Option<Seq<char>>,
    pub stderr: Option<Seq<char>>,
}

impl View for FIFO {
    type V = FifoModel;

    open spec fn view(&self) -> FifoModel {
        FifoModel { stdin: opt_str(self.stdin), stdout: opt_str(self.stdout), stderr: opt_str(self.stderr) }
    }
}

/// The stdio driver a process is given.
#[derive(Debug)]
pub enum IoDriver {
    /// Stdout and stderr go to `/dev/null`.
    Null,
    /// The streams go to named pipes.
    Fifo(FIFO),
}

/// The mathematical value of an [`IoDriver`].
pub enum IoDriverModel {
    Null,
    Fifo(FifoModel),
}

impl View for IoDriver {
    type V = IoDriverModel;

    open spec fn view(&self) -> IoDriverModel {
        match self {
            IoDriver::Null => IoDriverModel::Null,
            IoDriver::Fifo(f) => IoDriverModel::Fifo(f@),
        }
    }
}

/// The spawner that runs runc commands as child processes of the caller.
#[derive(Debug)]
pub struct DefaultExecutor {}


/// One of a command's three standard streams.
#[derive(Debug, Clone, Copy, PartialEq, Eq, Structural)]
pub enum Stream {
    Stdin,
    Stdout,
    Stderr,
}

/// One end of a pipe.
#[derive(Debug, Clone, Copy, PartialEq, Eq, Structural)]
pub enum PipeEnd {
    Read,
    Write,
}

/// How one pipe of a piped driver is set up: which stream it carries, which of its
/// ends is handed to the io user and group, and which end the command gets as which of
/// its streams.
#[derive(Debug, Clone, Copy, PartialEq, Eq, Structural)]
pub struct PipeSpec {
    pub stream: Stream,
    pub chown: PipeEnd,
    pub child_end: PipeEnd,
    pub child_stream: Stream,
}

/// The pipes a piped driver opens, in order, for the streams the options ask for: the
/// end the command uses is handed to the io user; the command reads its stdin from the
/// read end of the stdin pipe and writes its stdout and stderr to the write ends of the
/// stdout and stderr pipes.
pub open spec fn piped_io_plan_spec(opts: IOOption) -> Seq<PipeSpec> {
    (if opts.open_stdin {
        seq![PipeSpec { stream: Stream::Stdin, chown: PipeEnd::Read, child_end: PipeEnd::Read, child_stream: Stream::Stdin }]
    } else {
        Seq::empty()
    }) + (if opts.open_stdout {
        seq![PipeSpec { stream: Stream::Stdout, chown: PipeEnd::Write, child_end: PipeEnd::Write, child_stream: Stream::Stdout }]
    } else {
        Seq::empty()
    }) + (if opts.open_stderr {
        seq![PipeSpec { stream: Stream::Stderr, chown: PipeEnd::Write, child_end: PipeEnd::Write, child_stream: Stream::Stderr }]
    } else {
        Seq::empty()
    })
}

fn plan_of(opts: IOOption, specs: [PipeSpec; 3]) -> (v: Vec<PipeSpec>)
    ensures
        v@ == (if opts.open_stdin { seq![specs[0]] } else { Seq::empty() }) + (if opts.open_stdout {
            seq![specs[1]]
        } else {
            Seq::empty()
        }) + (if opts.open_stderr { seq![specs[2]] } else { Seq::empty() }),
{
    let mut v: Vec<PipeSpec> = Vec::new();
    if opts.open_stdin {
        v.push(specs[0]);
    }
    if opts.open_stdout {
        v.push(specs[1]);
    }
    if opts.open_stderr {
        v.push(specs[2]);
    }
    assert(v@ =~= (if opts.open_stdin { seq![specs[0]] } else { Seq::empty() }) + (if opts.open_stdout {
        seq![specs[1]]
    } else {
        Seq::empty()
    }) + (if opts.open_stderr { seq![specs[2]] } else { Seq::empty() }));
    v
}

/// The pipes a piped driver opens, of the runc client and of the configuration-style
/// runtime alike; see [`piped_io_plan_spec`].
pub fn piped_io_plan(opts: IOOption) -> (v: Vec<PipeSpec>)
    ensures
        v@ == piped_io_plan_spec(opts),
{
    plan_of(
        opts,
        [
            PipeSpec { stream: Stream::Stdin, chown: PipeEnd::Read, child_end: PipeEnd::Read, child_stream: Stream::Stdin },
            PipeSpec { stream: Stream::Stdout, chown: PipeEnd::Write, child_end: PipeEnd::Write, child_stream: Stream::Stdout },
            PipeSpec { stream: Stream::Stderr, chown: PipeEnd::Write, child_end: PipeEnd::Write, child_stream: Stream::Stderr },
        ],
    )
}

} // verus!
