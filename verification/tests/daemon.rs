use std::collections::HashMap;
use tsunagu::daemon::{process_alive, AliveStep};
use tsunagu::{
    DaemonProcess, MockProcessChecker, ProcessChecker, SocketPath, SystemProcessChecker,
    TsunaguError, UnixPath,
};

/// Files in memory, on which the decisions of a daemon are carried out.
#[derive(Default)]
struct Disk {
    files: HashMap<Vec<u8>, String>,
    dirs: Vec<Vec<u8>>,
}

impl Disk {
    fn read(&self, path: &UnixPath) -> Option<String> {
        self.files.get(path.as_bytes()).cloned()
    }

    fn write(&mut self, path: &UnixPath, contents: &str) {
        self.files.insert(path.as_bytes().to_vec(), contents.to_string());
    }

    fn remove(&mut self, path: &UnixPath) {
        self.files.remove(path.as_bytes());
    }

    fn holds(&self, path: &UnixPath) -> bool {
        self.files.contains_key(path.as_bytes())
    }

    fn read_pid<C>(&self, d: &DaemonProcess<C>) -> Option<u32> {
        d.read_pid(self.read(d.pid_path()).as_deref())
    }

    fn is_running<C: ProcessChecker>(&self, d: &DaemonProcess<C>) -> bool {
        d.is_running(self.read(d.pid_path()).as_deref())
    }

    fn write_pid<C>(&mut self, d: &DaemonProcess<C>) {
        let write = d.write_pid(own_pid());
        if let Some(dir) = &write.dir {
            self.dirs.push(dir.as_bytes().to_vec());
        }
        self.write(&write.path, &write.contents);
    }

    fn acquire<C: ProcessChecker>(&mut self, d: &DaemonProcess<C>) -> Result<(), TsunaguError> {
        let plan = d.acquire(self.read(d.pid_path()).as_deref(), own_pid())?;
        if plan.stale.is_some() {
            self.remove(&plan.write.path);
        }
        if let Some(dir) = &plan.write.dir {
            self.dirs.push(dir.as_bytes().to_vec());
        }
        self.write(&plan.write.path, &plan.write.contents);
        Ok(())
    }

    fn cleanup<C>(&mut self, d: &DaemonProcess<C>) {
        let (pid, socket) = d.cleanup();
        self.remove(pid);
        self.remove(socket);
    }
}

/// The id of this process.
fn own_pid() -> u32 {
    rustix::process::getpid().as_raw_nonzero().get() as u32
}

/// Asks the kernel with `kill(pid, 0)`.
fn kill_zero(pid: u32) -> bool {
    let answer = i32::try_from(pid)
        .ok()
        .and_then(rustix::process::Pid::from_raw)
        .map(rustix::process::test_kill_process);
    match answer {
        Some(Ok(())) => process_alive(0, None),
        Some(Err(e)) => process_alive(-1, Some(e.raw_os_error())),
        None => false,
    }
}

#[derive(Debug, Clone, Copy)]
struct KillZeroChecker;

impl ProcessChecker for KillZeroChecker {
    fn is_alive(&self, pid: u32) -> bool {
        kill_zero(pid)
    }
}

/// Asks the operating system by the rules of `checker`, on a machine without
/// `ps`.
fn system_says(checker: SystemProcessChecker, pid: u32) -> bool {
    let entry = checker.proc_entry(pid);
    let shown = entry.display();
    let mut step = checker.after_proc_entry(std::path::Path::new(&shown).exists());
    if step == AliveStep::AskPs {
        step = checker.after_ps(None);
    }
    step == AliveStep::Known(true)
}

fn temp_dir() -> UnixPath {
    UnixPath::new("/tmp")
}

fn in_dir(name: &str) -> UnixPath {
    UnixPath::new("/run/test").join(name)
}

fn test_daemon_with<C>(checker: C) -> DaemonProcess<C> {
    DaemonProcess::with_checker("test-app", in_dir("test.pid"), in_dir("test.sock"), checker)
}

fn test_daemon() -> DaemonProcess<MockProcessChecker> {
    test_daemon_with(MockProcessChecker { alive: false })
}

fn test_daemon_alive() -> DaemonProcess<MockProcessChecker> {
    test_daemon_with(MockProcessChecker { alive: true })
}

fn test_daemon_real() -> DaemonProcess<KillZeroChecker> {
    test_daemon_with(KillZeroChecker)
}

#[test]
fn new_uses_socket_path_defaults() {
    let d = DaemonProcess::new("tsunagu-test-new", &temp_dir());
    let expected_pid = SocketPath::pid_file("tsunagu-test-new", &temp_dir());
    let expected_sock = SocketPath::for_app("tsunagu-test-new", &temp_dir());
    assert_eq!(*d.pid_path(), expected_pid);
    assert_eq!(*d.socket_path(), expected_sock);
}

#[test]
fn with_paths_uses_custom_paths() {
    let pid = UnixPath::new("/custom/dir/app.pid");
    let sock = UnixPath::new("/custom/dir/app.sock");
    let d = DaemonProcess::with_paths("custom", pid.clone(), sock.clone());
    assert_eq!(*d.pid_path(), pid);
    assert_eq!(*d.socket_path(), sock);
    assert_eq!(d.app_name(), "custom");
}

#[test]
fn with_paths_preserves_exact_paths() {
    let pid = UnixPath::new("/tmp/special-dir/my.pid");
    let sock = UnixPath::new("/var/run/my.sock");
    let d = DaemonProcess::with_paths("exact", pid, sock);
    assert_eq!(d.pid_path().display(), "/tmp/special-dir/my.pid");
    assert_eq!(d.socket_path().display(), "/var/run/my.sock");
}

#[test]
fn process_alive_returns_true_for_current_process() {
    assert!(kill_zero(own_pid()));
}

#[test]
fn process_alive_returns_false_for_nonexistent_pid() {
    assert!(!kill_zero(99_999_999));
}

#[test]
fn process_alive_returns_false_for_pid_one_billion() {
    assert!(!kill_zero(1_000_000_000));
}

#[test]
fn system_process_checker_rejects_nonexistent_pid() {
    let checker = SystemProcessChecker::default();
    assert!(!system_says(checker, 99_999_999));
}

#[test]
fn new_daemon_not_running() {
    let disk = Disk::default();
    let d = test_daemon();
    assert!(!disk.is_running(&d));
}

#[test]
fn app_name_is_stored() {
    let d = test_daemon();
    assert_eq!(d.app_name(), "test-app");
}

#[test]
fn write_pid_creates_file() {
    let mut disk = Disk::default();
    let d = test_daemon();
    disk.write_pid(&d);
    assert!(disk.holds(d.pid_path()));
    let contents = disk.read(d.pid_path()).unwrap();
    assert_eq!(contents, own_pid().to_string());
}

#[test]
fn read_pid_returns_written_pid() {
    let mut disk = Disk::default();
    let d = test_daemon();
    disk.write_pid(&d);
    assert_eq!(disk.read_pid(&d), Some(own_pid()));
}

#[test]
fn read_pid_returns_none_when_missing() {
    let disk = Disk::default();
    let d = test_daemon();
    assert_eq!(disk.read_pid(&d), None);
}

#[test]
fn read_pid_returns_none_for_empty_file() {
    let mut disk = Disk::default();
    let d = test_daemon();
    disk.write(d.pid_path(), "");
    assert_eq!(disk.read_pid(&d), None);
}

#[test]
fn read_pid_returns_none_for_non_numeric_content() {
    let mut disk = Disk::default();
    let d = test_daemon();
    disk.write(d.pid_path(), "not-a-number");
    assert_eq!(disk.read_pid(&d), None);
}

#[test]
fn read_pid_trims_whitespace() {
    let mut disk = Disk::default();
    let d = test_daemon();
    disk.write(d.pid_path(), "  12345  \n");
    assert_eq!(disk.read_pid(&d), Some(12345));
}

#[test]
fn read_pid_returns_none_for_negative_number() {
    let mut disk = Disk::default();
    let d = test_daemon();
    disk.write(d.pid_path(), "-1");
    assert_eq!(disk.read_pid(&d), None);
}

#[test]
fn read_pid_returns_none_for_overflow() {
    let mut disk = Disk::default();
    let d = test_daemon();
    // u32::MAX + 1 overflows
    disk.write(d.pid_path(), "4294967296");
    assert_eq!(disk.read_pid(&d), None);
}

#[test]
fn read_pid_returns_some_for_zero() {
    // PID 0 is technically parseable as u32.
    // This test documents the current behavior: 0 is a valid u32 parse result.
    let mut disk = Disk::default();
    let d = test_daemon();
    disk.write(d.pid_path(), "0");
    assert_eq!(disk.read_pid(&d), Some(0));
}

#[test]
fn read_pid_handles_pid_with_trailing_newline() {
    let mut disk = Disk::default();
    let d = test_daemon();
    disk.write(d.pid_path(), "42\n");
    assert_eq!(disk.read_pid(&d), Some(42));
}

#[test]
fn read_pid_handles_pid_with_carriage_return() {
    let mut disk = Disk::default();
    let d = test_daemon();
    disk.write(d.pid_path(), "42\r\n");
    assert_eq!(disk.read_pid(&d), Some(42));
}

#[test]
fn read_pid_rejects_float() {
    let mut disk = Disk::default();
    let d = test_daemon();
    disk.write(d.pid_path(), "3.14");
    assert_eq!(disk.read_pid(&d), None);
}

#[test]
fn read_pid_rejects_multiple_numbers() {
    let mut disk = Disk::default();
    let d = test_daemon();
    disk.write(d.pid_path(), "123 456");
    assert_eq!(disk.read_pid(&d), None);
}

#[test]
fn read_pid_rejects_hex() {
    let mut disk = Disk::default();
    let d = test_daemon();
    disk.write(d.pid_path(), "0xff");
    assert_eq!(disk.read_pid(&d), None);
}

#[test]
fn read_pid_accepts_u32_max() {
    let mut disk = Disk::default();
    let d = test_daemon();
    disk.write(d.pid_path(), &u32::MAX.to_string());
    assert_eq!(disk.read_pid(&d), Some(u32::MAX));
}

#[test]
fn write_pid_creates_parent_directories() {
    let mut disk = Disk::default();
    let nested_pid = in_dir("nested/deep/test.pid");
    let d = DaemonProcess::with_checker(
        "nested-test",
        nested_pid.clone(),
        in_dir("test.sock"),
        MockProcessChecker { alive: false },
    );
    disk.write_pid(&d);
    assert!(disk.dirs.contains(&b"/run/test/nested/deep".to_vec()));
    assert!(disk.holds(&nested_pid));
    let contents = disk.read(&nested_pid).unwrap();
    assert_eq!(contents, own_pid().to_string());
}

#[test]
fn write_pid_overwrites_existing() {
    let mut disk = Disk::default();
    let d = test_daemon();
    disk.write(d.pid_path(), "old-content");
    disk.write_pid(&d);
    let contents = disk.read(d.pid_path()).unwrap();
    assert_eq!(contents, own_pid().to_string());
}

#[test]
fn write_pid_then_read_is_consistent() {
    let mut disk = Disk::default();
    let d = test_daemon();
    disk.write_pid(&d);
    let pid1 = disk.read_pid(&d);
    let pid2 = disk.read_pid(&d);
    assert_eq!(pid1, pid2);
    assert_eq!(pid1, Some(own_pid()));
}

#[test]
fn is_running_true_when_pid_exists_and_alive() {
    let mut disk = Disk::default();
    let d = test_daemon_alive();
    disk.write(d.pid_path(), "12345");
    assert!(disk.is_running(&d));
}

#[test]
fn is_running_false_when_pid_exists_but_dead() {
    let mut disk = Disk::default();
    let d = test_daemon(); // alive: false
    disk.write(d.pid_path(), "12345");
    assert!(!disk.is_running(&d));
}

#[test]
fn is_running_false_when_no_pid_file() {
    let disk = Disk::default();
    let d = test_daemon_alive();
    assert!(!disk.is_running(&d));
}

#[test]
fn is_running_false_for_empty_pid_file() {
    let mut disk = Disk::default();
    let d = test_daemon_alive();
    disk.write(d.pid_path(), "");
    assert!(!disk.is_running(&d));
}

#[test]
fn is_running_false_for_garbage_pid_file() {
    let mut disk = Disk::default();
    let d = test_daemon_alive();
    disk.write(d.pid_path(), "hello-world");
    assert!(!disk.is_running(&d));
}

#[test]
fn is_running_detects_current_process_real() {
    let mut disk = Disk::default();
    let d = test_daemon_real();
    disk.write_pid(&d);
    assert!(disk.is_running(&d));
}

#[test]
fn is_running_false_for_stale_pid_real() {
    let mut disk = Disk::default();
    let d = test_daemon_real();
    disk.write(d.pid_path(), "99999999");
    assert!(!disk.is_running(&d));
}

#[test]
fn cleanup_removes_files() {
    let mut disk = Disk::default();
    let d = test_daemon();
    disk.write_pid(&d);
    disk.write(d.socket_path(), "");
    assert!(disk.holds(d.pid_path()));
    assert!(disk.holds(d.socket_path()));
    disk.cleanup(&d);
    assert!(!disk.holds(d.pid_path()));
    assert!(!disk.holds(d.socket_path()));
}

#[test]
fn cleanup_is_idempotent() {
    let mut disk = Disk::default();
    let d = test_daemon();
    disk.write_pid(&d);
    disk.write(d.socket_path(), "");
    disk.cleanup(&d);
    disk.cleanup(&d);
    assert!(!disk.holds(d.pid_path()));
    assert!(!disk.holds(d.socket_path()));
}

#[test]
fn cleanup_when_no_files_exist() {
    let mut disk = Disk::default();
    let d = test_daemon();
    disk.cleanup(&d);
}

#[test]
fn cleanup_removes_pid_even_if_socket_missing() {
    let mut disk = Disk::default();
    let d = test_daemon();
    disk.write_pid(&d);
    assert!(disk.holds(d.pid_path()));
    disk.cleanup(&d);
    assert!(!disk.holds(d.pid_path()));
}

#[test]
fn cleanup_removes_socket_even_if_pid_missing() {
    let mut disk = Disk::default();
    let d = test_daemon();
    disk.write(d.socket_path(), "");
    assert!(disk.holds(d.socket_path()));
    disk.cleanup(&d);
    assert!(!disk.holds(d.socket_path()));
}

#[test]
fn acquire_succeeds_when_not_running() {
    let mut disk = Disk::default();
    let d = test_daemon();
    disk.acquire(&d).unwrap();
    assert!(disk.holds(d.pid_path()));
}

#[test]
fn acquire_writes_current_pid() {
    let mut disk = Disk::default();
    let d = test_daemon();
    disk.acquire(&d).unwrap();
    assert_eq!(disk.read_pid(&d), Some(own_pid()));
}

#[test]
fn acquire_removes_stale_pid() {
    let mut disk = Disk::default();
    let d = test_daemon(); // alive: false → stale
    disk.write(d.pid_path(), "99999999");
    disk.acquire(&d).unwrap();
    assert_eq!(disk.read_pid(&d), Some(own_pid()));
}

#[test]
fn acquire_replaces_stale_pid_with_current() {
    let mut disk = Disk::default();
    let d = test_daemon();
    disk.write(d.pid_path(), "88888888");
    disk.acquire(&d).unwrap();
    let stored_pid = disk.read_pid(&d).unwrap();
    assert_eq!(stored_pid, own_pid());
}

#[test]
fn acquire_fails_when_already_running() {
    let mut disk = Disk::default();
    let pid_path = in_dir("test.pid");
    disk.write(&pid_path, "42");

    let d = DaemonProcess::with_checker(
        "test-app",
        pid_path,
        in_dir("test.sock"),
        MockProcessChecker { alive: true },
    );
    let err = disk.acquire(&d).unwrap_err();
    assert!(err.to_string().contains("already running"));
}

#[test]
fn acquire_error_variant_matches_daemon_already_running() {
    let mut disk = Disk::default();
    let pid_path = in_dir("test.pid");
    disk.write(&pid_path, "54321");

    let d = DaemonProcess::with_checker(
        "test-app",
        pid_path,
        in_dir("test.sock"),
        MockProcessChecker { alive: true },
    );
    let err = disk.acquire(&d).unwrap_err();
    match err {
        TsunaguError::DaemonAlreadyRunning { pid } => {
            assert_eq!(pid, 54321);
        }
        other => panic!("expected DaemonAlreadyRunning, got {other:?}"),
    }
}

#[test]
fn daemon_already_running_error_contains_pid() {
    let err = TsunaguError::DaemonAlreadyRunning { pid: 54321 };
    let msg = err.to_string();
    assert!(msg.contains("54321"), "error should contain the PID");
    assert!(msg.contains("already running"));
}

#[test]
fn display_includes_app_name_and_pid_path() {
    let d = test_daemon();
    let s = d.to_string();
    assert!(s.contains("test-app"), "display should contain app name: {s}");
    assert!(s.contains("test.pid"), "display should contain pid path: {s}");
}

#[test]
fn multiple_daemons_different_apps_coexist() {
    let mut disk = Disk::default();
    let d1 = DaemonProcess::with_checker(
        "app-a",
        in_dir("a.pid"),
        in_dir("a.sock"),
        MockProcessChecker { alive: false },
    );
    let d2 = DaemonProcess::with_checker(
        "app-b",
        in_dir("b.pid"),
        in_dir("b.sock"),
        MockProcessChecker { alive: false },
    );
    disk.write_pid(&d1);
    disk.write_pid(&d2);
    assert!(disk.holds(d1.pid_path()));
    assert!(disk.holds(d2.pid_path()));
    assert_eq!(d1.app_name(), "app-a");
    assert_eq!(d2.app_name(), "app-b");
}

#[test]
fn full_lifecycle_acquire_check_cleanup() {
    let mut disk = Disk::default();
    let d = test_daemon_real();

    assert!(!disk.is_running(&d));
    assert_eq!(disk.read_pid(&d), None);

    disk.acquire(&d).unwrap();
    assert!(disk.is_running(&d));
    assert_eq!(disk.read_pid(&d), Some(own_pid()));
    assert!(disk.holds(d.pid_path()));

    disk.cleanup(&d);
    assert!(!disk.holds(d.pid_path()));
    assert!(!disk.is_running(&d));
}

#[test]
fn mock_checker_always_alive() {
    let mut disk = Disk::default();
    let d = DaemonProcess::with_checker(
        "mock-app",
        in_dir("m.pid"),
        in_dir("m.sock"),
        MockProcessChecker { alive: true },
    );
    disk.write(d.pid_path(), "12345");
    assert!(disk.is_running(&d));
}

#[test]
fn mock_checker_never_alive() {
    let mut disk = Disk::default();
    let d = DaemonProcess::with_checker(
        "mock-app",
        in_dir("m.pid"),
        in_dir("m.sock"),
        MockProcessChecker { alive: false },
    );
    disk.write(d.pid_path(), "12345");
    assert!(!disk.is_running(&d));
}

#[test]
fn mock_checker_acquire_blocks_when_alive() {
    let mut disk = Disk::default();
    let d = DaemonProcess::with_checker(
        "mock-app",
        in_dir("m.pid"),
        in_dir("m.sock"),
        MockProcessChecker { alive: true },
    );
    disk.write(d.pid_path(), "999");
    let err = disk.acquire(&d).unwrap_err();
    assert!(err.to_string().contains("already running"));
}

#[test]
fn mock_checker_acquire_succeeds_when_dead() {
    let mut disk = Disk::default();
    let d = DaemonProcess::with_checker(
        "mock-app",
        in_dir("m.pid"),
        in_dir("m.sock"),
        MockProcessChecker { alive: false },
    );
    disk.write(d.pid_path(), "999");
    disk.acquire(&d).unwrap();
    assert_eq!(disk.read_pid(&d), Some(own_pid()));
}

#[test]
fn mock_checker_is_running_depends_on_pid_file_parse() {
    // Even with alive=true, if the PID file has garbage, is_running returns false
    // because read_pid returns None.
    let mut disk = Disk::default();
    let d = test_daemon_alive();
    disk.write(d.pid_path(), "not-a-pid");
    assert!(!disk.is_running(&d));
}

#[test]
fn mock_checker_acquire_with_no_existing_pid_file() {
    // acquire should succeed when no PID file exists, regardless of checker
    let mut disk = Disk::default();
    let d = test_daemon_alive();
    disk.acquire(&d).unwrap();
    assert_eq!(disk.read_pid(&d), Some(own_pid()));
}

#[test]
fn kill_zero_checker_detects_self() {
    let checker = KillZeroChecker;
    assert!(checker.is_alive(own_pid()));
}

#[test]
fn kill_zero_checker_rejects_nonexistent() {
    let checker = KillZeroChecker;
    assert!(!checker.is_alive(99_999_999));
}

#[test]
fn system_process_checker_is_default_constructible() {
    let _checker = SystemProcessChecker::default();
}

#[test]
fn acquire_twice_without_cleanup_succeeds_with_dead_checker() {
    // The second acquire sees a PID file with the current PID,
    // but the mock says the process is dead, so it re-acquires.
    let mut disk = Disk::default();
    let d = test_daemon(); // alive: false
    disk.acquire(&d).unwrap();
    disk.acquire(&d).unwrap();
    assert_eq!(disk.read_pid(&d), Some(own_pid()));
}

#[test]
fn acquire_twice_without_cleanup_fails_with_alive_checker() {
    let mut disk = Disk::default();
    let d = test_daemon_alive();
    disk.acquire(&d).unwrap();
    let err = disk.acquire(&d).unwrap_err();
    assert!(err.to_string().contains("already running"));
}

#[test]
fn cleanup_then_reacquire() {
    let mut disk = Disk::default();
    let d = test_daemon();
    disk.acquire(&d).unwrap();
    disk.cleanup(&d);
    assert!(!disk.holds(d.pid_path()));
    disk.acquire(&d).unwrap();
    assert!(disk.holds(d.pid_path()));
    assert_eq!(disk.read_pid(&d), Some(own_pid()));
}

#[test]
fn write_pid_then_cleanup_then_read_returns_none() {
    let mut disk = Disk::default();
    let d = test_daemon();
    disk.write_pid(&d);
    disk.cleanup(&d);
    assert_eq!(disk.read_pid(&d), None);
}

#[test]
fn multiple_writes_last_pid_wins() {
    let mut disk = Disk::default();
    let d = test_daemon();
    disk.write_pid(&d);
    // Manually overwrite with a different PID
    disk.write(d.pid_path(), "77777");
    assert_eq!(disk.read_pid(&d), Some(77777));
}

#[test]
fn acquire_cleans_stale_pid_file_before_writing() {
    // Verify the stale file is actually removed (not just overwritten)
    let mut disk = Disk::default();
    let d = test_daemon(); // alive: false
    let stale_content = "88888888";
    disk.write(d.pid_path(), stale_content);
    disk.acquire(&d).unwrap();
    let contents = disk.read(d.pid_path()).unwrap();
    assert_ne!(contents, stale_content);
    assert_eq!(contents, own_pid().to_string());
}


#[test]
fn a_process_that_may_not_be_signalled_is_alive() {
    assert!(process_alive(-1, Some(1)));
    assert!(!process_alive(-1, Some(3)));
    assert!(!process_alive(-1, None));
    assert!(process_alive(0, Some(3)));
}

#[test]
fn the_system_is_asked_step_by_step() {
    let checker = SystemProcessChecker;
    assert_eq!(checker.proc_entry(42).as_bytes(), b"/proc/42");
    assert_eq!(checker.ps_args(42), ("-p".to_string(), "42".to_string()));
    assert_eq!(checker.after_proc_entry(true), AliveStep::Known(true));
    assert_eq!(checker.after_proc_entry(false), AliveStep::AskPs);
    assert_eq!(checker.after_ps(Some(true)), AliveStep::Known(true));
    assert_eq!(checker.after_ps(Some(false)), AliveStep::Known(false));
    assert_eq!(checker.after_ps(None), AliveStep::Known(false));
    assert!(system_says(checker, own_pid()));
}

#[test]
fn an_acquisition_names_the_stale_process_and_the_directory() {
    let d = test_daemon();
    let plan = d.acquire(Some("  88888888\n"), 7).unwrap();
    assert_eq!(plan.stale, Some(88_888_888));
    assert_eq!(plan.write.dir.unwrap().as_bytes(), b"/run/test");
    assert_eq!(plan.write.path, in_dir("test.pid"));
    assert_eq!(plan.write.contents, "7");
    let fresh = d.acquire(Some("nonsense"), 7).unwrap();
    assert_eq!(fresh.stale, None);
}

#[test]
fn a_refused_acquisition_names_the_holder() {
    let d = test_daemon();
    assert!(matches!(
        d.acquire_given(Some(3), true, 9),
        Err(TsunaguError::DaemonAlreadyRunning { pid: 3 })
    ));
    assert!(d.acquire_given(Some(3), false, 9).is_ok());
    assert!(d.acquire_given(None, true, 9).is_ok());
}

#[test]
fn cleanup_leaves_the_files_of_others() {
    let mut disk = Disk::default();
    let d = test_daemon();
    let other = in_dir("other.pid");
    disk.write(&other, "5");
    disk.write_pid(&d);
    disk.cleanup(&d);
    assert!(!disk.holds(d.pid_path()));
    assert_eq!(disk.read(&other).as_deref(), Some("5"));
}

#[test]
fn daemon_text_is_exact() {
    let d = test_daemon();
    assert_eq!(d.to_string(), "DaemonProcess(test-app, pid=/run/test/test.pid)");
}

#[test]
fn pid_files_are_read_as_std_parses_numbers() {
    let d = test_daemon();
    for contents in [
        "+7", "++7", "+", "-", "007", " 7", "7 ", "\u{a0}7\u{2003}", "\u{feff}7", "7\u{0}", "４２",
        "4294967295", "4294967296", "99999999999999999999", "1_000", "\t\n\u{b}\u{c}\r 9", "\u{85}9",
        "\u{1680}9\u{3000}", "\u{200b}9", "\u{2028}9\u{2029}", "\u{202f}9\u{205f}", "\u{180e}9",
        "000000000000000000000000000000000000042",
    ] {
        let expected = contents.trim().parse::<u32>().ok();
        assert_eq!(d.read_pid(Some(contents)), expected, "{contents:?}");
    }
}
