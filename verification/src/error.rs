use vstd::prelude::*;
use vstd::string::*;

verus! {

/// The kind of an input/output failure.
#[derive(Debug, Clone, Copy, PartialEq, Eq, Structural)]
pub enum IoErrorKind {
    /// The input ended before a read could be completed.
    UnexpectedEof,
    /// The requested file or resource does not exist.
    NotFound,
    /// Any other failure.
    Other,
}

/// An input/output failure with its kind and human-readable message.
#[derive(Debug, Clone)]
pub struct IoError {
    pub kind: IoErrorKind,
    pub message: String,
}

impl IoError {
    /// Build an error of the given kind with the given message.
    pub fn new(kind: IoErrorKind, message: &str) -> (r: IoError)
        ensures
            r.kind == kind,
            r.message@ == message@,
    {
        IoError { kind, message: String::from_str(message) }
    }

    /// The error that a read returns when the input is too short.
    pub fn unexpected_eof() -> (r: IoError)
        ensures
            is_eof_io_error(r),
    {
        IoError { kind: IoErrorKind::UnexpectedEof, message: String::from_str("failed to fill whole buffer") }
    }
}

/// The error that a read returns when its input ends too early.
pub open spec fn is_eof_io_error(e: IoError) -> bool {
    &&& e.kind == IoErrorKind::UnexpectedEof
    &&& e.message@ == "failed to fill whole buffer"@
}

/// Errors of the telemetry file formats.
#[derive(Debug)]
pub enum TelemetryError {
    Io(IoError),
    InvalidFormat(String),
    UnsupportedVersion(u16),
    InvalidArgument(String),
}

/// Result of a telemetry operation.
pub type TelemetryResult<T> = Result<T, TelemetryError>;

/// `e` is the error that a read gives when its input ends too early.
pub open spec fn is_eof_error(e: TelemetryError) -> bool {
    e matches TelemetryError::Io(io) && is_eof_io_error(io)
}

/// `e` is an invalid-format error with the message `msg`.
pub open spec fn is_format_error(e: TelemetryError, msg: Seq<char>) -> bool {
    e matches TelemetryError::InvalidFormat(m) && m@ == msg
}

/// `e` is an invalid-argument error with the message `msg`.
pub open spec fn is_argument_error(e: TelemetryError, msg: Seq<char>) -> bool {
    e matches TelemetryError::InvalidArgument(m) && m@ == msg
}

impl TelemetryError {
    /// The error that a read gives when its input ends too early.
    pub fn eof() -> (r: TelemetryError)
        ensures
            is_eof_error(r),
    {
        TelemetryError::Io(IoError::unexpected_eof())
    }

    /// An invalid-format error carrying `msg`.
    pub fn invalid_format(msg: &str) -> (r: TelemetryError)
        ensures
            is_format_error(r, msg@),
    {
        TelemetryError::InvalidFormat(String::from_str(msg))
    }
}

} // verus!

verus! {

/// What a failed parse reports, as a mathematical value.
pub enum ErrorDesc {
    /// The input ended too early.
    Eof,
    /// The input is not in the expected format; the message is given.
    Format(Seq<char>),
    /// The format version is not supported.
    Unsupported(u16),
    /// An argument was rejected; the message is given.
    Argument(Seq<char>),
}

/// `e` is the error that `d` describes.
pub open spec fn error_matches(e: TelemetryError, d: ErrorDesc) -> bool {
    match d {
        ErrorDesc::Eof => is_eof_error(e),
        ErrorDesc::Format(m) => is_format_error(e, m),
        ErrorDesc::Unsupported(v) => e == TelemetryError::UnsupportedVersion(v),
        ErrorDesc::Argument(m) => is_argument_error(e, m),
    }
}

/// A read that either returns the value the spec parse gives and consumes
/// the bytes it says, or fails with the error it describes.
pub open spec fn read_outcome<T>(
    r: Result<T, TelemetryError>,
    before: Seq<u8>,
    after: Seq<u8>,
    p: Result<(T, nat), ErrorDesc>,
) -> bool {
    match p {
        Ok((v, n)) => r == Ok::<T, TelemetryError>(v) && n <= before.len() && after == before.subrange(n as int, before.len() as int),
        Err(d) => r is Err && error_matches(r->Err_0, d),
    }
}

} // verus!

verus! {

/// Like [`read_outcome`], for reads that return a vector, compared by its
/// contents.
pub open spec fn read_outcome_seq<T>(
    r: Result<Vec<T>, TelemetryError>,
    before: Seq<u8>,
    after: Seq<u8>,
    p: Result<(Seq<T>, nat), ErrorDesc>,
) -> bool {
    match p {
        Ok((v, n)) => r is Ok && r->Ok_0@ == v && n <= before.len() && after == before.subrange(n as int, before.len() as int),
        Err(d) => r is Err && error_matches(r->Err_0, d),
    }
}

} // verus!
