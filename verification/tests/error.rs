use std::fmt;
use tsunagu::{IoError, IoErrorKind, TsunaguError, UnixPath};

/// An error as a standard error, the way an application wraps it.
#[derive(Debug)]
struct Reported(TsunaguError);

impl fmt::Display for Reported {
    fn fmt(&self, f: &mut fmt::Formatter<'_>) -> fmt::Result {
        f.write_str(&self.0.to_string())
    }
}

impl std::error::Error for Reported {}

#[test]
fn daemon_not_running_display() {
    let err = TsunaguError::DaemonNotRunning {
        path: UnixPath::new("/run/myapp/myapp.pid"),
    };
    let msg = err.to_string();
    assert!(msg.contains("daemon not running"));
    assert!(msg.contains("/run/myapp/myapp.pid"));
}

#[test]
fn daemon_already_running_display() {
    let err = TsunaguError::DaemonAlreadyRunning { pid: 12345 };
    let msg = err.to_string();
    assert!(msg.contains("already running"));
    assert!(msg.contains("12345"));
}

#[test]
fn io_error_from_conversion() {
    let io_err = IoError::new(IoErrorKind::NotFound, "file not found");
    let err: TsunaguError = io_err.into();
    let msg = err.to_string();
    assert!(msg.contains("IO error"));
    assert!(msg.contains("file not found"));
}

#[test]
fn health_check_error_display() {
    let err = TsunaguError::HealthCheck {
        reason: "connection timeout".to_string(),
    };
    let msg = err.to_string();
    assert!(msg.contains("health check failed"));
    assert!(msg.contains("connection timeout"));
}

#[test]
fn invalid_pid_file_display() {
    let err = TsunaguError::InvalidPidFile {
        reason: "contains garbage".to_string(),
    };
    let msg = err.to_string();
    assert!(msg.contains("invalid PID file"));
    assert!(msg.contains("contains garbage"));
}

#[test]
fn error_is_debug_formattable() {
    let err = TsunaguError::DaemonAlreadyRunning { pid: 1 };
    let debug = format!("{err:?}");
    assert!(debug.contains("DaemonAlreadyRunning"));
}

#[test]
fn io_error_preserves_kind() {
    let io_err = IoError::new(IoErrorKind::PermissionDenied, "access denied");
    let err: TsunaguError = io_err.into();
    match err {
        TsunaguError::Io(ref e) => assert_eq!(e.kind(), IoErrorKind::PermissionDenied),
        other => panic!("expected Io variant, got {other:?}"),
    }
}

#[test]
fn error_implements_std_error() {
    let err: Box<dyn std::error::Error> = Box::new(Reported(TsunaguError::HealthCheck {
        reason: "test".to_string(),
    }));
    assert!(err.to_string().contains("health check failed"));
}

#[test]
fn daemon_already_running_with_pid_zero() {
    let err = TsunaguError::DaemonAlreadyRunning { pid: 0 };
    let msg = err.to_string();
    assert!(msg.contains("pid 0"));
}

#[test]
fn daemon_already_running_with_max_pid() {
    let err = TsunaguError::DaemonAlreadyRunning { pid: u32::MAX };
    let msg = err.to_string();
    assert!(msg.contains(&u32::MAX.to_string()));
}

#[test]
fn daemon_not_running_empty_path() {
    let err = TsunaguError::DaemonNotRunning {
        path: UnixPath::new(""),
    };
    let msg = err.to_string();
    assert!(msg.contains("daemon not running at"));
}

#[test]
fn error_texts_are_exact() {
    let path = UnixPath::new("/run/a.pid");
    assert_eq!(
        TsunaguError::DaemonNotRunning { path }.to_string(),
        "daemon not running at /run/a.pid"
    );
    assert_eq!(
        TsunaguError::DaemonAlreadyRunning { pid: 7 }.to_string(),
        "daemon already running (pid 7)"
    );
    assert_eq!(
        TsunaguError::from(IoError::new(IoErrorKind::Other, "gone")).to_string(),
        "IO error: gone"
    );
    assert_eq!(
        TsunaguError::Serialization { reason: "key must be a string".to_string() }.to_string(),
        "serialization error: key must be a string"
    );
    assert_eq!(
        TsunaguError::HealthCheck { reason: "late".to_string() }.to_string(),
        "health check failed: late"
    );
    assert_eq!(
        TsunaguError::InvalidPidFile { reason: "empty".to_string() }.to_string(),
        "invalid PID file: empty"
    );
}

#[test]
fn a_path_that_is_not_utf8_is_shown_with_replacements() {
    let path = UnixPath::from_bytes(vec![47, 97, 255, 98]);
    assert_eq!(
        TsunaguError::DaemonNotRunning { path }.to_string(),
        "daemon not running at /a\u{fffd}b"
    );
}
