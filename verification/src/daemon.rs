//! The life cycle of a daemon: its PID file, and who may hold it.
//!
//! Nothing here touches the file system. What a file holds comes in as a value,
//! and what is to be written or removed goes out as one.

use crate::error::TsunaguError;
use crate::path;
use crate::path::UnixPath;
use crate::socket;
use crate::socket::SocketPath;
use crate::text;
use crate::text::{decimal_text, parse_u32, trimmed_chars};
use crate::utf8;
use vstd::prelude::*;
use vstd::utf8::*;

verus! {

/// Abstraction for checking whether a process is alive.
///
/// [`SystemProcessChecker`] holds the rules for asking the operating system;
/// [`MockProcessChecker`] gives a fixed answer.
pub trait ProcessChecker: Send + Sync {
    /// Return `true` when the process identified by `pid` is alive.
    fn is_alive(&self, pid: u32) -> bool;
}

/// How to find out whether a process is alive.
#[derive(Debug, Clone, Copy, PartialEq, Eq, Structural)]
pub enum AliveStep {
    /// Run `ps` for the process.
    AskPs,
    /// It is known.
    Known(bool),
}

/// The rules by which the operating system is asked about a process: its entry
/// under `/proc` settles the matter, and without one `ps -p` is asked.
///
/// It is no [`ProcessChecker`] itself: whoever can look and run `ps` follows the
/// steps and is one.
#[derive(Debug, Clone, Copy)]
pub struct SystemProcessChecker;

impl Default for SystemProcessChecker {
    fn default() -> (r: Self)
        ensures
            r == SystemProcessChecker,
    {
        SystemProcessChecker
    }
}

impl SystemProcessChecker {
    /// The entry to look for under `/proc`.
    #[must_use]
    pub fn proc_entry(&self, pid: u32) -> (r: UnixPath)
        ensures
            r@ == encode_utf8("/proc/"@ + text::decimal(pid as nat)),
    {
        let mut entry = "/proc/".to_owned();
        entry.append(decimal_text(pid as u64).as_str());
        UnixPath::new(entry.as_str())
    }

    /// What to do once it is known whether that entry exists.
    #[must_use]
    pub fn after_proc_entry(&self, present: bool) -> (r: AliveStep)
        ensures
            r == if present {
                AliveStep::Known(true)
            } else {
                AliveStep::AskPs
            },
    {
        if present {
            AliveStep::Known(true)
        } else {
            AliveStep::AskPs
        }
    }

    /// The arguments to run `ps` with.
    #[must_use]
    pub fn ps_args(&self, pid: u32) -> (r: (String, String))
        ensures
            r.0@ == "-p"@,
            r.1@ == text::decimal(pid as nat),
    {
        ("-p".to_owned(), decimal_text(pid as u64))
    }

    /// What to do once `ps` is done: `success` says whether it exited with
    /// success, and is `None` if it could not be run.
    #[must_use]
    pub fn after_ps(&self, success: Option<bool>) -> (r: AliveStep)
        ensures
            r == AliveStep::Known(success == Some(true)),
    {
        match success {
            Some(ok) => AliveStep::Known(ok),
            None => AliveStep::Known(false),
        }
    }
}

/// A checker that always gives the same answer.
#[derive(Debug, Clone, Copy)]
pub struct MockProcessChecker {
    pub alive: bool,
}

impl ProcessChecker for MockProcessChecker {
    fn is_alive(&self, _pid: u32) -> (r: bool)
        ensures
            r == self.alive,
    {
        self.alive
    }
}

/// The error number for an operation that is not permitted.
pub const EPERM: i32 = 1;

/// What `kill(pid, 0)` says of a process: `ret` is what the call returned, and
/// `errno` the error number that it left.
///
/// A process that may not be signalled exists all the same.
#[must_use]
pub fn process_alive(ret: i32, errno: Option<i32>) -> (r: bool)
    ensures
        r <==> ret == 0 || errno == Some(EPERM),
{
    if ret == 0 {
        return true;
    }
    match errno {
        Some(e) => e == EPERM,
        None => false,
    }
}

/// The process that a PID file names, given what the file holds; `None` stands
/// for a file that cannot be read.
pub open spec fn recorded_pid(contents: Option<Seq<char>>) -> Option<u32> {
    match contents {
        Some(c) => text::parsed_u32(text::trim(c)),
        None => None,
    }
}

/// The characters of an optional text.
pub open spec fn opt_text(s: Option<&str>) -> Option<Seq<char>> {
    match s {
        Some(s) => Some(s@),
        None => None,
    }
}

/// Daemon process lifecycle management.
///
/// Handles the content of the PID file, staleness detection, and cleanup.
///
/// Generic over [`ProcessChecker`]; defaults to [`SystemProcessChecker`].
#[derive(Debug)]
pub struct DaemonProcess<C = SystemProcessChecker> {
    app_name: String,
    pid_path: UnixPath,
    socket_path: UnixPath,
    checker: C,
}

/// A [`DaemonProcess`], but for its checker.
pub struct DaemonView {
    pub app_name: Seq<char>,
    pub pid_path: Seq<u8>,
    pub socket_path: Seq<u8>,
}

impl<C> View for DaemonProcess<C> {
    type V = DaemonView;

    closed spec fn view(&self) -> DaemonView {
        DaemonView {
            app_name: self.app_name@,
            pid_path: self.pid_path@,
            socket_path: self.socket_path@,
        }
    }
}

/// The daemon of an application whose directory stands in `shared`.
pub open spec fn default_daemon(shared: Seq<u8>, app_name: Seq<char>) -> DaemonView {
    DaemonView {
        app_name,
        pid_path: socket::app_path(shared, app_name, "pid"@),
        socket_path: socket::app_path(shared, app_name, "sock"@),
    }
}

/// A PID file to write, after the directory that it stands in was made.
#[derive(Debug)]
pub struct PidWrite {
    /// The directory to make, with its parents, if it is not there.
    pub dir: Option<UnixPath>,
    /// The file to write.
    pub path: UnixPath,
    /// What to write.
    pub contents: String,
}

/// `w` writes the PID file of `d` for the process `pid`.
pub open spec fn writes_pid(w: PidWrite, d: DaemonView, pid: u32) -> bool {
    &&& socket::opt_bytes(w.dir) == path::parent(d.pid_path)
    &&& w.path@ == d.pid_path
    &&& w.contents@ == text::decimal(pid as nat)
}

/// What taking the PID file comes to.
#[derive(Debug)]
pub struct Acquisition {
    /// The PID file names a dead process and is removed first.
    pub stale: Option<u32>,
    /// The PID file to write.
    pub write: PidWrite,
}

/// `r` is what comes of the process `own_pid` acquiring `d`, when the PID file
/// names the process `recorded` and that process is `alive`.
pub open spec fn acquires(
    r: Result<Acquisition, TsunaguError>,
    d: DaemonView,
    recorded: Option<u32>,
    alive: bool,
    own_pid: u32,
) -> bool {
    match r {
        Ok(plan) => !(recorded is Some && alive) && plan.stale == recorded && writes_pid(
            plan.write,
            d,
            own_pid,
        ),
        Err(e) => recorded is Some && alive && e == (TsunaguError::DaemonAlreadyRunning {
            pid: recorded->0,
        }),
    }
}

impl DaemonProcess {
    /// Create a new daemon process manager for the given application;
    /// `temp_dir` serves where neither the environment nor the platform names a
    /// runtime directory.
    #[must_use]
    pub fn new(app_name: &str, temp_dir: &UnixPath) -> (r: Self)
        requires
            path::absolute(temp_dir@),
        ensures
            exists|shared: Seq<u8>|
                socket::session_shared_dir(app_name, temp_dir@, shared) && r@
                    == #[trigger] default_daemon(shared, app_name@),
    {
        let dir = SocketPath::runtime_base(app_name, temp_dir);
        let r = DaemonProcess {
            app_name: app_name.to_owned(),
            pid_path: SocketPath::file_in(&dir, app_name, "pid"),
            socket_path: SocketPath::file_in(&dir, app_name, "sock"),
            checker: SystemProcessChecker,
        };
        proof {
            let shared = choose|shared: Seq<u8>|
                socket::session_shared_dir(app_name, temp_dir@, shared) && dir@
                    == #[trigger] socket::app_dir(shared, app_name@);
            assert(r@ == default_daemon(shared, app_name@));
        }
        r
    }

    /// Create a daemon process with custom paths.
    #[must_use]
    pub fn with_paths(app_name: &str, pid_path: UnixPath, socket_path: UnixPath) -> (r: Self)
        ensures
            r@ == (DaemonView {
                app_name: app_name@,
                pid_path: pid_path@,
                socket_path: socket_path@,
            }),
    {
        DaemonProcess {
            app_name: app_name.to_owned(),
            pid_path,
            socket_path,
            checker: SystemProcessChecker,
        }
    }
}

impl<C> DaemonProcess<C> {
    /// The checker that the daemon was made with.
    pub closed spec fn checker(&self) -> C {
        self.checker
    }

    /// Create a daemon process with custom paths and a custom
    /// [`ProcessChecker`].
    #[must_use]
    pub fn with_checker(
        app_name: &str,
        pid_path: UnixPath,
        socket_path: UnixPath,
        checker: C,
    ) -> (r: Self)
        ensures
            r@ == (DaemonView {
                app_name: app_name@,
                pid_path: pid_path@,
                socket_path: socket_path@,
            }),
            r.checker() == checker,
    {
        DaemonProcess { app_name: app_name.to_owned(), pid_path, socket_path, checker }
    }

    /// Read the PID from what the PID file holds, if that is valid; `None`
    /// stands for a file that cannot be read as text.
    #[must_use]
    pub fn read_pid(&self, contents: Option<&str>) -> (r: Option<u32>)
        ensures
            r == recorded_pid(opt_text(contents)),
    {
        match contents {
            Some(c) => parse_u32(&trimmed_chars(c)),
            None => None,
        }
    }

    /// The PID file to write for the process `own_pid`.
    #[must_use]
    pub fn write_pid(&self, own_pid: u32) -> (r: PidWrite)
        ensures
            writes_pid(r, self@, own_pid),
    {
        PidWrite {
            dir: self.pid_path.parent(),
            path: self.pid_path.clone(),
            contents: decimal_text(own_pid as u64),
        }
    }

    /// What comes of acquiring the daemon lock, given the process that the PID
    /// file names and whether it is alive.
    pub fn acquire_given(
        &self,
        recorded: Option<u32>,
        alive: bool,
        own_pid: u32,
    ) -> (r: Result<Acquisition, TsunaguError>)
        ensures
            acquires(r, self@, recorded, alive, own_pid),
    {
        if let Some(pid) = recorded {
            if alive {
                return Err(TsunaguError::DaemonAlreadyRunning { pid });
            }
        }
        Ok(Acquisition { stale: recorded, write: self.write_pid(own_pid) })
    }

    /// The files to remove when the daemon goes: the PID file, then the socket.
    /// One that is not there is passed over.
    #[must_use]
    pub fn cleanup(&self) -> (r: (&UnixPath, &UnixPath))
        ensures
            r.0@ == self@.pid_path,
            r.1@ == self@.socket_path,
    {
        (&self.pid_path, &self.socket_path)
    }

    /// Path to the Unix socket.
    #[must_use]
    pub fn socket_path(&self) -> (r: &UnixPath)
        ensures
            r@ == self@.socket_path,
    {
        &self.socket_path
    }

    /// Path to the PID file.
    #[must_use]
    pub fn pid_path(&self) -> (r: &UnixPath)
        ensures
            r@ == self@.pid_path,
    {
        &self.pid_path
    }

    /// Application name.
    #[must_use]
    pub fn app_name(&self) -> (r: &str)
        ensures
            r@ == self@.app_name,
    {
        self.app_name.as_str()
    }

    /// Writes the name of the application and the path of the PID file.
    #[must_use]
    pub fn to_string(&self) -> (r: String)
        ensures
            r@ == "DaemonProcess("@ + self@.app_name + ", pid="@ + utf8::shown(self@.pid_path)
                + ")"@,
    {
        let mut out = "DaemonProcess(".to_owned();
        out.append(self.app_name.as_str());
        out.append(", pid=");
        out.append(self.pid_path.display().as_str());
        out.append(")");
        out
    }
}

impl<C: ProcessChecker> DaemonProcess<C> {
    /// Check if a daemon is already running: the PID file names a process, and
    /// that is alive.
    #[must_use]
    pub fn is_running(&self, contents: Option<&str>) -> (r: bool)
        ensures
            match recorded_pid(opt_text(contents)) {
                Some(pid) => call_ensures(C::is_alive, (&self.checker(), pid), r),
                None => !r,
            },
    {
        match self.read_pid(contents) {
            Some(pid) => self.checker.is_alive(pid),
            None => false,
        }
    }

    /// Acquire the daemon lock for the process `own_pid`: write the PID file if
    /// no daemon is running.
    ///
    /// Returns `Err(DaemonAlreadyRunning)` if another instance is alive.
    pub fn acquire(
        &self,
        contents: Option<&str>,
        own_pid: u32,
    ) -> (r: Result<Acquisition, TsunaguError>)
        ensures
            match recorded_pid(opt_text(contents)) {
                Some(pid) => exists|alive: bool|
                    #[trigger] call_ensures(C::is_alive, (&self.checker(), pid), alive)
                        && acquires(r, self@, Some(pid), alive, own_pid),
                None => acquires(r, self@, None, false, own_pid),
            },
    {
        let recorded = self.read_pid(contents);
        let alive = match recorded {
            Some(pid) => self.checker.is_alive(pid),
            None => false,
        };
        self.acquire_given(recorded, alive, own_pid)
    }
}

/// What the file at `p` holds, among `files`.
pub open spec fn file_at(files: Map<Seq<u8>, Seq<char>>, p: Seq<u8>) -> Option<Seq<char>> {
    if files.contains_key(p) {
        Some(files[p])
    } else {
        None
    }
}

/// The files after a PID file was written.
pub open spec fn written(files: Map<Seq<u8>, Seq<char>>, w: PidWrite) -> Map<Seq<u8>, Seq<char>> {
    files.insert(w.path@, w.contents@)
}

/// The files after an acquisition was carried out.
pub open spec fn acquired(
    files: Map<Seq<u8>, Seq<char>>,
    plan: Acquisition,
) -> Map<Seq<u8>, Seq<char>> {
    if plan.stale is Some {
        written(files.remove(plan.write.path@), plan.write)
    } else {
        written(files, plan.write)
    }
}

/// The files after a daemon was cleaned up.
pub open spec fn cleaned(files: Map<Seq<u8>, Seq<char>>, d: DaemonView) -> Map<Seq<u8>, Seq<char>> {
    files.remove(d.pid_path).remove(d.socket_path)
}

/// Reading a PID file gives back the process that was written last, whatever
/// the file held before.
pub proof fn law_read_gives_back_what_was_written(
    files: Map<Seq<u8>, Seq<char>>,
    d: DaemonView,
    w: PidWrite,
    pid: u32,
)
    requires
        writes_pid(w, d, pid),
    ensures
        recorded_pid(file_at(written(files, w), d.pid_path)) == Some(pid),
{
    text::law_decimal_round_trip(pid);
}

/// Whoever acquires a daemon is the process that its PID file names, and no
/// other file has changed.
pub proof fn law_acquiring_records_the_holder(
    files: Map<Seq<u8>, Seq<char>>,
    d: DaemonView,
    plan: Acquisition,
    recorded: Option<u32>,
    alive: bool,
    own_pid: u32,
)
    requires
        acquires(Ok(plan), d, recorded, alive, own_pid),
    ensures
        recorded_pid(file_at(acquired(files, plan), d.pid_path)) == Some(own_pid),
        forall|p: Seq<u8>|
            p != d.pid_path ==> #[trigger] file_at(acquired(files, plan), p) == file_at(files, p),
{
    law_read_gives_back_what_was_written(files, d, plan.write, own_pid);
    law_read_gives_back_what_was_written(
        files.remove(plan.write.path@),
        d,
        plan.write,
        own_pid,
    );
}

/// There is one daemon at a time: while the holder lives, acquiring the same
/// PID file again is refused and names the holder; once it is dead, the file is
/// stale and is taken over.
pub proof fn law_only_one_daemon(
    files: Map<Seq<u8>, Seq<char>>,
    d: DaemonView,
    plan: Acquisition,
    recorded: Option<u32>,
    alive: bool,
    holder: u32,
    other: DaemonView,
    r: Result<Acquisition, TsunaguError>,
    holder_lives: bool,
    other_pid: u32,
)
    requires
        acquires(Ok(plan), d, recorded, alive, holder),
        other.pid_path == d.pid_path,
        acquires(
            r,
            other,
            recorded_pid(file_at(acquired(files, plan), other.pid_path)),
            holder_lives,
            other_pid,
        ),
    ensures
        holder_lives ==> r == Err::<Acquisition, TsunaguError>(
            TsunaguError::DaemonAlreadyRunning { pid: holder },
        ),
        !holder_lives ==> r is Ok && r->Ok_0.stale == Some(holder),
{
    law_acquiring_records_the_holder(files, d, plan, recorded, alive, holder);
}

/// After a cleanup neither file is there, so no daemon is running; every other
/// file is as it was, and cleaning up again changes nothing.
pub proof fn law_cleanup_removes_both_files(files: Map<Seq<u8>, Seq<char>>, d: DaemonView)
    ensures
        file_at(cleaned(files, d), d.pid_path) is None,
        file_at(cleaned(files, d), d.socket_path) is None,
        recorded_pid(file_at(cleaned(files, d), d.pid_path)) is None,
        forall|p: Seq<u8>|
            p != d.pid_path && p != d.socket_path ==> #[trigger] file_at(cleaned(files, d), p)
                == file_at(files, p),
        cleaned(cleaned(files, d), d) == cleaned(files, d),
{
    assert(cleaned(cleaned(files, d), d) =~= cleaned(files, d));
}

/// Acquiring a daemon and cleaning it up leaves the files as cleaning up alone
/// would have.
pub proof fn law_cleanup_undoes_acquiring(
    files: Map<Seq<u8>, Seq<char>>,
    d: DaemonView,
    plan: Acquisition,
    recorded: Option<u32>,
    alive: bool,
    own_pid: u32,
)
    requires
        acquires(Ok(plan), d, recorded, alive, own_pid),
    ensures
        cleaned(acquired(files, plan), d) == cleaned(files, d),
{
    assert(cleaned(acquired(files, plan), d) =~= cleaned(files, d));
}

/// Daemons of different applications do not share a file, so neither
/// acquiring nor cleaning up one of them changes what another one has recorded.
///
/// The one exception is a name that is itself the path, without its extension,
/// of another application's file.
pub proof fn law_daemons_of_different_apps_coexist(
    files: Map<Seq<u8>, Seq<char>>,
    shared: Seq<u8>,
    a: Seq<char>,
    b: Seq<char>,
    w: PidWrite,
    pid: u32,
)
    requires
        path::absolute(shared),
        a != b,
        encode_utf8(a) != socket::stem(shared, b),
        encode_utf8(b) != socket::stem(shared, a),
        writes_pid(w, default_daemon(shared, b), pid),
    ensures
        ({
            let mine = default_daemon(shared, a).pid_path;
            let theirs = default_daemon(shared, b);
            &&& file_at(written(files, w), mine) == file_at(files, mine)
            &&& file_at(cleaned(files, theirs), mine) == file_at(files, mine)
        }),
{
    socket::law_different_apps_get_different_paths(shared, a, b, "pid"@);
    socket::law_socket_is_no_pid_file(shared, b, shared, a);
}

/// A PID file names a process exactly if it holds that process's number: the
/// numeral, behind zeros and one `+` or none, with nothing but white space around
/// it. A file that cannot be read names none.
pub proof fn law_pid_file_holds_one_number<C>(
    d: &DaemonProcess<C>,
    contents: &str,
    found: Option<u32>,
    missing: Option<u32>,
    pid: u32,
)
    requires
        call_ensures(DaemonProcess::<C>::read_pid, (d, Some(contents)), found),
        call_ensures(DaemonProcess::<C>::read_pid, (d, None::<&str>), missing),
    ensures
        missing is None,
        found == Some(pid) <==> exists|front: Seq<char>, number: Seq<char>, back: Seq<char>|
            #[trigger] numbered(contents@, front, number, back, pid),
{
    let c = contents@;
    let number = text::trim(c);
    text::law_trim_drops_blank_ends(c);
    text::law_number_is_read_from_its_numeral(number, pid);
    if found == Some(pid) {
        let (front, back) = choose|front: Seq<char>, back: Seq<char>|
            text::blank(front) && text::blank(back) && c == #[trigger] (front + number + back);
        assert(numbered(c, front, number, back, pid));
    }
    if exists|front: Seq<char>, number: Seq<char>, back: Seq<char>|
        #[trigger] numbered(c, front, number, back, pid) {
        let (front, number, back) = choose|front: Seq<char>, number: Seq<char>, back: Seq<char>|
            #[trigger] numbered(c, front, number, back, pid);
        text::law_number_is_read_from_its_numeral(number, pid);
        lemma_number_has_no_blank_ends(number, pid);
        text::lemma_trim_of_padded(front, number, back);
    }
}

/// `contents` is `number` between white space, and `number` is the numeral of
/// `pid` behind zeros and one `+` or none.
pub open spec fn numbered(
    contents: Seq<char>,
    front: Seq<char>,
    number: Seq<char>,
    back: Seq<char>,
    pid: u32,
) -> bool {
    &&& contents == front + number + back
    &&& text::blank(front)
    &&& text::blank(back)
    &&& exists|z: Seq<char>|
        text::zeros(z) && {
            let digits = #[trigger] (z + text::decimal(pid as nat));
            number == digits || number == seq!['+'] + digits
        }
}

proof fn lemma_number_has_no_blank_ends(number: Seq<char>, pid: u32)
    requires
        exists|z: Seq<char>|
            text::zeros(z) && {
                let digits = #[trigger] (z + text::decimal(pid as nat));
                number == digits || number == seq!['+'] + digits
            },
    ensures
        number.len() > 0,
        !text::white_space(number[0]),
        !text::white_space(number.last()),
{
    let z = choose|z: Seq<char>|
        text::zeros(z) && {
            let digits = #[trigger] (z + text::decimal(pid as nat));
            number == digits || number == seq!['+'] + digits
        };
    let numeral = text::decimal(pid as nat);
    let digits = z + numeral;
    text::lemma_decimal_digits(pid as nat);
    assert(text::is_digit(numeral[0]));
    assert(text::is_digit(numeral[numeral.len() - 1]));
    assert(digits.last() == numeral.last());
    assert(number.last() == numeral.last());
    if number == digits {
        if z.len() > 0 {
            assert(number[0] == z[0]);
        } else {
            assert(number[0] == numeral[0]);
        }
    }
}

/// A PID file is written at the daemon's own path, in the directory that is the
/// parent of that path, and holds the numeral of the process and nothing else.
pub proof fn law_pid_file_is_written_so<C>(d: &DaemonProcess<C>, pid: u32, w: PidWrite)
    requires
        call_ensures(DaemonProcess::<C>::write_pid, (d, pid), w),
    ensures
        w.path@ == d@.pid_path,
        w.contents@ == text::decimal(pid as nat),
        match w.dir {
            Some(dir) => path::parent(d@.pid_path) == Some(dir@),
            None => path::parent(d@.pid_path) is None,
        },
{
}

/// Acquiring is refused exactly if the PID file names a process and that process
/// is alive, and the refusal names it. Otherwise the own process is written into
/// the PID file, and a process that the file named is noted as stale.
pub proof fn law_acquiring_by_the_holder<C>(
    d: &DaemonProcess<C>,
    recorded: Option<u32>,
    alive: bool,
    own_pid: u32,
    r: Result<Acquisition, TsunaguError>,
)
    requires
        call_ensures(DaemonProcess::<C>::acquire_given, (d, recorded, alive, own_pid), r),
    ensures
        r is Err <==> recorded is Some && alive,
        match r {
            Ok(plan) => plan.stale == recorded && plan.write.path@ == d@.pid_path
                && plan.write.contents@ == text::decimal(own_pid as nat),
            Err(TsunaguError::DaemonAlreadyRunning { pid }) => recorded == Some(pid),
            Err(_) => false,
        },
{
}

/// The daemon of an application keeps its PID file and its socket at the paths
/// that an application has for them.
pub proof fn law_default_daemon_uses_the_app_paths(shared: Seq<u8>, app_name: Seq<char>)
    ensures
        default_daemon(shared, app_name).app_name == app_name,
        default_daemon(shared, app_name).pid_path == socket::app_path(shared, app_name, "pid"@),
        default_daemon(shared, app_name).socket_path == socket::app_path(
            shared,
            app_name,
            "sock"@,
        ),
{
}

} // verus!
