//! Tsunagu (繋ぐ): a service and daemon framework.
//!
//! - [`SocketPath`]: XDG-compliant Unix socket and PID file path resolution
//! - [`DaemonProcess`]: PID file management, staleness detection, and cleanup
//! - [`HealthCheck`]: standardized health, liveness and readiness responses
//! - [`exec`]: bounded subprocess execution
//! - [`shutdown`]: graceful shutdown
//!
//! This crate decides; it does not act. What was read from a file, a process or
//! the clock comes in as a value, and what is to be written, removed, killed or
//! answered goes out as one. The one thing it reads itself is where the session
//! keeps its runtime files: [`SocketPath`] and [`DaemonProcess::new`] ask the
//! environment of the process and the platform. Each function states what it returns, and
//! the `law_` functions state what holds of several of them together.

pub mod daemon;
pub mod error;
pub mod exec;
pub mod exec_laws;
pub mod health;
pub mod path;
pub mod probe;
pub mod shutdown;
pub mod socket;
pub mod text;
pub mod time;
pub mod tracing_init;
pub mod utf8;

pub use daemon::{DaemonProcess, MockProcessChecker, ProcessChecker, SystemProcessChecker};
pub use error::{IoError, IoErrorKind, TsunaguError};
pub use exec::BoundedRun;
pub use health::{
    HealthCheck, HealthCheckBuilder, HealthChecker, HealthStatus, ParseHealthStatusError,
    SimpleHealthChecker,
};
pub use path::UnixPath;
pub use socket::SocketPath;
pub use time::Duration;
