//! Errors of the runc client and of the shim, and how shim errors map onto ttrpc
//! status codes.
use vstd::prelude::*;

verus! {

/// Errors returned by the runc client.
#[derive(Debug)]
pub enum Error {
    /// The runc binary could not be found on `PATH`.
    NotFound,
    /// A path could not be made absolute, or is not valid UTF-8.
    InvalidPath(String),
    /// The command ran and exited unsuccessfully.
    CommandFailed { status: i32, stdout: String, stderr: String },
    /// The command's output could not be decoded as JSON.
    JsonDeserializationFailed(String),
    /// `runc events --stats` returned an event without statistics.
    MissingContainerStats,
    /// The operation is not supported.
    Unimplemented(String),
    /// An IO driver failed to wire the command's stdio.
    IoSet(String),
    /// A spec file for the command could not be written.
    SpecFileCreationFailed(String),
    /// The command could not be spawned.
    ProcessSpawnFailed(String),
    /// Waiting for the command failed.
    InvalidCommand(String),
    /// Any other failure.
    Other(String),
}

/// Errors returned by the shim.
#[derive(Debug)]
pub enum ShimError {
    InvalidArgument(String),
    NotFound(String),
    FailedPrecondition(String),
    Unimplemented(String),
    Other(String),
}

/// The kinds of shim errors.
#[derive(PartialEq, Eq, Structural, Clone, Copy, Debug)]
pub enum ErrorKind {
    InvalidArgument,
    NotFound,
    FailedPrecondition,
    Unimplemented,
    Other,
}

/// The mathematical value of a shim error: its kind and its detail message.
pub struct ErrorModel {
    pub kind: ErrorKind,
    pub detail: Seq<char>,
}

impl View for ShimError {
    type V = ErrorModel;

    open spec fn view(&self) -> ErrorModel {
        match self {
            ShimError::InvalidArgument(m) => ErrorModel { kind: ErrorKind::InvalidArgument, detail: m@ },
            ShimError::NotFound(m) => ErrorModel { kind: ErrorKind::NotFound, detail: m@ },
            ShimError::FailedPrecondition(m) => ErrorModel { kind: ErrorKind::FailedPrecondition, detail: m@ },
            ShimError::Unimplemented(m) => ErrorModel { kind: ErrorKind::Unimplemented, detail: m@ },
            ShimError::Other(m) => ErrorModel { kind: ErrorKind::Other, detail: m@ },
        }
    }
}

/// The ttrpc status codes that shim errors are reported with.
#[derive(PartialEq, Eq, Structural, Clone, Copy, Debug)]
pub enum Code {
    InvalidArgument,
    NotFound,
    FailedPrecondition,
}

impl ShimError {
    /// The ttrpc status code containerd receives for this error; `None` where the error
    /// reaches containerd without one.
    pub open spec fn spec_code(&self) -> Option<Code> {
        match self {
            ShimError::InvalidArgument(_) => Some(Code::InvalidArgument),
            ShimError::NotFound(_) => Some(Code::NotFound),
            ShimError::FailedPrecondition(_) => Some(Code::FailedPrecondition),
            ShimError::Unimplemented(_) => None,
            ShimError::Other(_) => None,
        }
    }

    /// The ttrpc status code of this error.
    pub fn code(&self) -> (c: Option<Code>)
        ensures
            c == self.spec_code(),
    {
        match self {
            ShimError::InvalidArgument(_) => Some(Code::InvalidArgument),
            ShimError::NotFound(_) => Some(Code::NotFound),
            ShimError::FailedPrecondition(_) => Some(Code::FailedPrecondition),
            ShimError::Unimplemented(_) => None,
            ShimError::Other(_) => None,
        }
    }

    /// The detail message the error was built with.
    pub open spec fn spec_detail(&self) -> Seq<char> {
        match self {
            ShimError::InvalidArgument(m) => m@,
            ShimError::NotFound(m) => m@,
            ShimError::FailedPrecondition(m) => m@,
            ShimError::Unimplemented(m) => m@,
            ShimError::Other(m) => m@,
        }
    }

    /// The prefix that the error's text starts with.
    pub open spec fn spec_prefix(&self) -> Seq<char> {
        match self {
            ShimError::InvalidArgument(_) => "Invalid argument: "@,
            ShimError::NotFound(_) => "Not found: "@,
            ShimError::FailedPrecondition(_) => "Failed pre condition: "@,
            ShimError::Unimplemented(_) => "Unimplemented method: "@,
            ShimError::Other(_) => "Other: "@,
        }
    }

    /// The error as text: its kind followed by its detail.
    pub fn to_string(&self) -> (s: String)
        ensures
            s@ == self.spec_prefix() + self.spec_detail(),
    {
        match self {
            ShimError::InvalidArgument(m) => String::from_str("Invalid argument: ").concat(m.as_str()),
            ShimError::NotFound(m) => String::from_str("Not found: ").concat(m.as_str()),
            ShimError::FailedPrecondition(m) => String::from_str("Failed pre condition: ").concat(m.as_str()),
            ShimError::Unimplemented(m) => String::from_str("Unimplemented method: ").concat(m.as_str()),
            ShimError::Other(m) => String::from_str("Other: ").concat(m.as_str()),
        }
    }
}

} // verus!
