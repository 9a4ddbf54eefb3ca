//! Errors of the framework.

use crate::path::UnixPath;
use crate::text;
use crate::text::decimal_text;
use crate::utf8;
use vstd::prelude::*;

verus! {

/// The category of an I/O error.
#[derive(Debug, Clone, Copy, PartialEq, Eq, Hash, Structural)]
#[non_exhaustive]
pub enum IoErrorKind {
    NotFound,
    PermissionDenied,
    ConnectionRefused,
    ConnectionReset,
    HostUnreachable,
    NetworkUnreachable,
    ConnectionAborted,
    NotConnected,
    AddrInUse,
    AddrNotAvailable,
    NetworkDown,
    BrokenPipe,
    AlreadyExists,
    WouldBlock,
    NotADirectory,
    IsADirectory,
    DirectoryNotEmpty,
    ReadOnlyFilesystem,
    StaleNetworkFileHandle,
    InvalidInput,
    InvalidData,
    TimedOut,
    WriteZero,
    StorageFull,
    NotSeekable,
    QuotaExceeded,
    FileTooLarge,
    ResourceBusy,
    ExecutableFileBusy,
    Deadlock,
    CrossesDevices,
    TooManyLinks,
    InvalidFilename,
    ArgumentListTooLong,
    Interrupted,
    Unsupported,
    UnexpectedEof,
    OutOfMemory,
    Other,
}

/// An I/O error: what kind it was, and what it said.
#[derive(Debug, PartialEq, Eq)]
pub struct IoError {
    pub kind: IoErrorKind,
    pub message: String,
}

impl Clone for IoError {
    fn clone(&self) -> (r: Self)
        ensures
            r == *self,
    {
        IoError { kind: self.kind, message: self.message.clone() }
    }
}

impl IoError {
    /// An error of this kind and text.
    #[must_use]
    pub fn new(kind: IoErrorKind, message: &str) -> (r: Self)
        ensures
            r.kind == kind,
            r.message@ == message@,
    {
        IoError { kind, message: message.to_owned() }
    }

    /// The category of the error.
    #[must_use]
    pub fn kind(&self) -> (r: IoErrorKind)
        ensures
            r == self.kind,
    {
        self.kind
    }
}

/// Errors produced by the IPC framework.
#[derive(Debug)]
pub enum TsunaguError {
    /// The daemon is not running at the expected PID file path.
    DaemonNotRunning {
        /// Path to the PID file that was checked.
        path: UnixPath,
    },
    /// Another daemon instance is already running.
    DaemonAlreadyRunning {
        /// PID of the running daemon.
        pid: u32,
    },
    /// An underlying I/O error.
    Io(IoError),
    /// A value could not be written as, or read from, its serialized form.
    Serialization {
        /// What the serializer said.
        reason: String,
    },
    /// A health check failed.
    HealthCheck {
        /// Human-readable failure reason.
        reason: String,
    },
    /// The PID file contained invalid content.
    InvalidPidFile {
        /// Description of why the PID file is invalid.
        reason: String,
    },
}

impl TsunaguError {
    /// What the error says.
    pub open spec fn text(&self) -> Seq<char> {
        match self {
            TsunaguError::DaemonNotRunning { path } => "daemon not running at "@ + utf8::shown(
                path@,
            ),
            TsunaguError::DaemonAlreadyRunning { pid } => "daemon already running (pid "@
                + text::decimal(*pid as nat) + ")"@,
            TsunaguError::Io(e) => "IO error: "@ + e.message@,
            TsunaguError::Serialization { reason } => "serialization error: "@ + reason@,
            TsunaguError::HealthCheck { reason } => "health check failed: "@ + reason@,
            TsunaguError::InvalidPidFile { reason } => "invalid PID file: "@ + reason@,
        }
    }

    /// Writes what the error says.
    #[must_use]
    pub fn to_string(&self) -> (r: String)
        ensures
            r@ == self.text(),
    {
        let mut out: String;
        match self {
            TsunaguError::DaemonNotRunning { path } => {
                out = "daemon not running at ".to_owned();
                out.append(path.display().as_str());
            },
            TsunaguError::DaemonAlreadyRunning { pid } => {
                out = "daemon already running (pid ".to_owned();
                out.append(decimal_text(*pid as u64).as_str());
                out.append(")");
            },
            TsunaguError::Io(e) => {
                out = "IO error: ".to_owned();
                out.append(e.message.as_str());
            },
            TsunaguError::Serialization { reason } => {
                out = "serialization error: ".to_owned();
                out.append(reason.as_str());
            },
            TsunaguError::HealthCheck { reason } => {
                out = "health check failed: ".to_owned();
                out.append(reason.as_str());
            },
            TsunaguError::InvalidPidFile { reason } => {
                out = "invalid PID file: ".to_owned();
                out.append(reason.as_str());
            },
        }
        out
    }
}

impl From<IoError> for TsunaguError {
    fn from(e: IoError) -> (r: TsunaguError) {
        TsunaguError::Io(e)
    }
}

impl vstd::std_specs::convert::FromSpecImpl<IoError> for TsunaguError {
    open spec fn obeys_from_spec() -> bool {
        true
    }

    open spec fn from_spec(e: IoError) -> TsunaguError {
        TsunaguError::Io(e)
    }
}

/// What an error says opens with its kind and goes on with what it carries: the
/// path, the pid in decimal, or the reason as it stands.
pub proof fn law_error_says_what_it_carries(e: TsunaguError)
    ensures
        match e {
            TsunaguError::DaemonNotRunning { path } => says(
                e,
                "daemon not running at "@,
                utf8::shown(path@),
            ),
            TsunaguError::DaemonAlreadyRunning { pid } => says(
                e,
                "daemon already running (pid "@,
                text::decimal(pid as nat) + ")"@,
            ),
            TsunaguError::Io(io) => says(e, "IO error: "@, io.message@),
            TsunaguError::Serialization { reason } => says(e, "serialization error: "@, reason@),
            TsunaguError::HealthCheck { reason } => says(e, "health check failed: "@, reason@),
            TsunaguError::InvalidPidFile { reason } => says(e, "invalid PID file: "@, reason@),
        },
{
    let said = e.text();
    match e {
        TsunaguError::DaemonNotRunning { path } => {
            assert(said.skip("daemon not running at "@.len() as int) =~= utf8::shown(path@));
            assert(said.take("daemon not running at "@.len() as int) =~= "daemon not running at "@);
        },
        TsunaguError::DaemonAlreadyRunning { pid } => {
            let carried = text::decimal(pid as nat) + ")"@;
            let kind = "daemon already running (pid "@;
            assert(said.skip(kind.len() as int) =~= carried);
            assert(said.take(kind.len() as int) =~= kind);
        },
        TsunaguError::Io(io) => {
            assert(said.skip("IO error: "@.len() as int) =~= io.message@);
            assert(said.take("IO error: "@.len() as int) =~= "IO error: "@);
        },
        TsunaguError::Serialization { reason } => {
            assert(said.skip("serialization error: "@.len() as int) =~= reason@);
            assert(said.take("serialization error: "@.len() as int) =~= "serialization error: "@);
        },
        TsunaguError::HealthCheck { reason } => {
            assert(said.skip("health check failed: "@.len() as int) =~= reason@);
            assert(said.take("health check failed: "@.len() as int) =~= "health check failed: "@);
        },
        TsunaguError::InvalidPidFile { reason } => {
            assert(said.skip("invalid PID file: "@.len() as int) =~= reason@);
            assert(said.take("invalid PID file: "@.len() as int) =~= "invalid PID file: "@);
        },
    }
}

/// `e` says `kind` and then `carried`, and nothing more.
pub open spec fn says(e: TsunaguError, kind: Seq<char>, carried: Seq<char>) -> bool {
    &&& e.text().take(kind.len() as int) == kind
    &&& e.text().skip(kind.len() as int) == carried
}

/// An I/O error becomes an error of the framework without losing anything.
pub proof fn law_io_error_is_carried(e: IoError, r: TsunaguError)
    requires
        call_ensures(<TsunaguError as From<IoError>>::from, (e,), r),
    ensures
        r matches TsunaguError::Io(carried) && carried == e,
{
}

} // verus!
