use vstd::prelude::*;

verus! {

/// How the helper subprocess terminated.
#[derive(Clone, Copy, PartialEq, Eq, Structural, Debug)]
pub enum ExitKind {
    /// Normal termination with an exit code.
    Exited(u32),
    /// Termination by a signal.
    Signaled(u8),
    /// A termination status that is neither a plain exit nor a signal.
    OtherExit(i32),
    /// The status could not be determined.
    Undetermined,
}

/// Why the supplied arguments were rejected before any subprocess ran.
#[derive(Debug, PartialEq, Eq)]
pub enum ArgFault {
    /// The positional argument was present but not text; carries the
    /// reported type of the offending value.
    NotText(String),
    /// A file argument and non-empty piped text were supplied together,
    /// which is rejected rather than resolved by precedence.
    ConflictingSources,
}

/// A structured failure surfaced by the extraction pipeline.
#[derive(Debug, PartialEq, Eq)]
pub enum EnvError {
    /// Wrong argument type, or conflicting input sources.
    InvalidArgument(ArgFault),
    /// The resolved file path does not exist; carries that path.
    NotFound(String),
    /// The subprocess could not be started; carries a description.
    SpawnError(String),
    /// Writing to or reading from the subprocess pipes failed.
    IOError(String),
    /// Non-zero exit with no parseable JSON payload; carries the exit status.
    SubprocessError(ExitKind),
    /// The helper's output was malformed or did not match the expected shape.
    DecodeError,
    /// Well-formed JSON carrying an error message from the interpreter side.
    HelperReportedError(String),
}

} // verus!
