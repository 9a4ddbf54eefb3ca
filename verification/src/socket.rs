//! Where the socket and the PID file of an application live.
//!
//! The directory comes from `$XDG_RUNTIME_DIR` when that is set and absolute,
//! else from the platform, else it is the temporary directory. It is always
//! absolute: two processes of one application that were started from different
//! working directories must find each other.

use crate::path;
use crate::path::UnixPath;
use crate::text::same_text;
use vstd::prelude::*;
use vstd::utf8::*;

verus! {

/// The variable that names the runtime directory of a session.
pub const RUNTIME_DIR_VARIABLE: &'static str = "XDG_RUNTIME_DIR";

/// The value of the first variable called `name`.
pub open spec fn lookup(vars: Seq<(Seq<char>, Seq<char>)>, name: Seq<char>) -> Option<Seq<char>>
    decreases vars.len(),
{
    if vars.len() == 0 {
        None
    } else if vars[0].0 == name {
        Some(vars[0].1)
    } else {
        lookup(vars.drop_first(), name)
    }
}

/// Environment variables, given rather than read from the process; the view
/// holds names and values.
#[derive(Debug)]
pub struct Environment {
    vars: Vec<(String, String)>,
}

impl View for Environment {
    type V = Seq<(Seq<char>, Seq<char>)>;

    closed spec fn view(&self) -> Seq<(Seq<char>, Seq<char>)> {
        Seq::new(self.vars@.len(), |i: int| (self.vars@[i].0@, self.vars@[i].1@))
    }
}

impl Environment {
    /// No variables.
    #[must_use]
    pub fn empty() -> (r: Self)
        ensures
            r@ == Seq::<(Seq<char>, Seq<char>)>::empty(),
    {
        let r = Environment { vars: Vec::new() };
        assert(r@ =~= Seq::<(Seq<char>, Seq<char>)>::empty());
        r
    }

    /// These variables and one more. An earlier variable of that name hides it.
    #[must_use]
    pub fn with(self, name: &str, value: &str) -> (r: Self)
        ensures
            r@ == self@.push((name@, value@)),
    {
        let mut env = self;
        env.vars.push((name.to_owned(), value.to_owned()));
        assert(env@ =~= self@.push((name@, value@)));
        env
    }

    /// The value of the variable called `name`, if there is one.
    #[must_use]
    pub fn get(&self, name: &str) -> (r: Option<String>)
        ensures
            match r {
                Some(value) => lookup(self@, name@) == Some(value@),
                None => lookup(self@, name@) is None,
            },
    {
        let mut i: usize = 0;
        assert(self@.skip(0) =~= self@);
        while i < self.vars.len()
            invariant
                i <= self.vars@.len() == self@.len(),
                lookup(self@, name@) == lookup(self@.skip(i as int), name@),
            decreases self.vars@.len() - i,
        {
            let ghost rest = self@.skip(i as int);
            assert(rest[0] == (self.vars@[i as int].0@, self.vars@[i as int].1@));
            if same_text(self.vars[i].0.as_str(), name) {
                return Some(self.vars[i].1.clone());
            }
            assert(rest.drop_first() =~= self@.skip(i as int + 1));
            i += 1;
        }
        None
    }
}

/// The bytes of an optional path.
pub open spec fn opt_bytes(p: Option<UnixPath>) -> Option<Seq<u8>> {
    match p {
        Some(p) => Some(p@),
        None => None,
    }
}

/// The runtime directory that the variables name: a value that is not an
/// absolute path counts as none.
pub open spec fn override_in(vars: Seq<(Seq<char>, Seq<char>)>) -> Option<Seq<u8>> {
    match lookup(vars, RUNTIME_DIR_VARIABLE@) {
        Some(value) => if path::absolute(encode_utf8(value)) {
            Some(encode_utf8(value))
        } else {
            None
        },
        None => None,
    }
}

/// Calls `okiba::Okiba::from_env` with the variables of `env`, and then `base`
/// of the result for the runtime tier.
///
/// Claimed of the two: an absolute value of `XDG_RUNTIME_DIR` is the base, as it
/// stands; without one there is no base, since the tier has no default.
#[verifier::external_body]
fn named_override(env: &Environment, app_name: &str) -> (r: Option<UnixPath>)
    ensures
        opt_bytes(r) == override_in(env@),
{
    okiba::Okiba::from_env(app_name, |name| env.get(name))
        .base(okiba::Tier::Runtime)
        .ok()
        .map(|dir| UnixPath::from_bytes(dir.as_os_str().as_encoded_bytes().to_vec()))
}

/// Calls `okiba::Okiba::for_app`, and then `base` of the result for the runtime
/// tier.
///
/// Claimed of the two: a base is absolute. Which one it is, if any, is up to the
/// environment of the process.
#[verifier::external_body]
fn process_override(app_name: &str) -> (r: Option<UnixPath>)
    ensures
        r matches Some(dir) ==> path::absolute(dir@),
{
    okiba::Okiba::for_app(app_name)
        .base(okiba::Tier::Runtime)
        .ok()
        .map(|dir| UnixPath::from_bytes(dir.as_os_str().as_encoded_bytes().to_vec()))
}

/// Calls `dirs::runtime_dir`.
///
/// Claimed of it: a directory that it names is absolute. Which one it is, if
/// any, is up to the platform and the environment of the process.
#[verifier::external_body]
fn platform_runtime_dir() -> (r: Option<UnixPath>)
    ensures
        r matches Some(dir) ==> path::absolute(dir@),
{
    dirs::runtime_dir()
        .map(|dir| UnixPath::from_bytes(dir.as_os_str().as_encoded_bytes().to_vec()))
}

/// `dir` is what the environment of the process says for this application.
pub closed spec fn named_by_process(app_name: &str, dir: Option<UnixPath>) -> bool {
    call_ensures(process_override, (app_name,), dir)
}

/// `dir` is what the platform says.
pub closed spec fn named_by_platform(dir: Option<UnixPath>) -> bool {
    call_ensures(platform_runtime_dir, (), dir)
}

/// `shared` is the directory of this session that holds the directories of the
/// applications, `temp` being the temporary one.
pub open spec fn session_shared_dir(app_name: &str, temp: Seq<u8>, shared: Seq<u8>) -> bool {
    exists|over: Option<UnixPath>, platform: Option<UnixPath>|
        named_by_process(app_name, over) && (over is None ==> named_by_platform(platform))
            && #[trigger] shared_dir(opt_bytes(over), opt_bytes(platform), temp) == shared
            && path::absolute(shared)
}

/// The directory that holds the directories of the applications.
pub open spec fn shared_dir(
    over: Option<Seq<u8>>,
    platform: Option<Seq<u8>>,
    temp: Seq<u8>,
) -> Seq<u8> {
    match over {
        Some(dir) => dir,
        None => match platform {
            Some(dir) => dir,
            None => temp,
        },
    }
}

/// The directory of an application under the shared directory.
pub open spec fn app_dir(shared: Seq<u8>, app_name: Seq<char>) -> Seq<u8> {
    path::joined(shared, encode_utf8(app_name))
}

/// The file of an application with this extension, in the directory `dir`.
pub open spec fn file_in(dir: Seq<u8>, app_name: Seq<char>, ext: Seq<char>) -> Seq<u8> {
    path::joined(dir, encode_utf8(app_name + "."@ + ext))
}

/// The file of an application with this extension, under the shared directory.
pub open spec fn app_path(shared: Seq<u8>, app_name: Seq<char>, ext: Seq<char>) -> Seq<u8> {
    file_in(app_dir(shared, app_name), app_name, ext)
}

/// XDG-compliant socket and PID file path resolution.
///
/// Sockets are placed in `$XDG_RUNTIME_DIR/{app}/`, or in `{app}/` under the
/// platform's runtime directory or the temporary directory.
#[derive(Debug, Clone, Copy)]
pub struct SocketPath;

impl SocketPath {
    /// Resolve the socket path for an application.
    ///
    /// Returns `{runtime_dir}/{app_name}/{app_name}.sock`
    #[must_use]
    pub fn for_app(app_name: &str, temp_dir: &UnixPath) -> (r: UnixPath)
        requires
            path::absolute(temp_dir@),
        ensures
            exists|shared: Seq<u8>|
                session_shared_dir(app_name, temp_dir@, shared) && r@ == #[trigger] app_path(
                    shared,
                    app_name@,
                    "sock"@,
                ),
    {
        Self::app_file(app_name, "sock", temp_dir)
    }

    /// Resolve the PID file path for an application daemon.
    ///
    /// Returns `{runtime_dir}/{app_name}/{app_name}.pid`
    #[must_use]
    pub fn pid_file(app_name: &str, temp_dir: &UnixPath) -> (r: UnixPath)
        requires
            path::absolute(temp_dir@),
        ensures
            exists|shared: Seq<u8>|
                session_shared_dir(app_name, temp_dir@, shared) && r@ == #[trigger] app_path(
                    shared,
                    app_name@,
                    "pid"@,
                ),
    {
        Self::app_file(app_name, "pid", temp_dir)
    }

    /// The runtime directory of this session, from the environment of the
    /// process or from the platform.
    #[must_use]
    pub fn session_dir(app_name: &str) -> (r: Option<UnixPath>)
        ensures
            r matches Some(dir) ==> path::absolute(dir@),
            (r is Some && named_by_process(app_name, r)) || (named_by_process(app_name, None)
                && named_by_platform(r)),
    {
        let (over, platform) = Self::named_dirs(app_name);
        match over {
            Some(dir) => Some(dir),
            None => platform,
        }
    }

    /// What the environment of the process names, and what the platform names
    /// where that is nothing.
    fn named_dirs(app_name: &str) -> (r: (Option<UnixPath>, Option<UnixPath>))
        ensures
            named_by_process(app_name, r.0),
            r.0 is None ==> named_by_platform(r.1),
            r.0 matches Some(dir) ==> path::absolute(dir@),
            r.1 matches Some(dir) ==> path::absolute(dir@),
    {
        match process_override(app_name) {
            Some(dir) => (Some(dir), None),
            None => (None, platform_runtime_dir()),
        }
    }

    /// Resolve the base runtime directory for an application, or `None` where
    /// only `temp_dir` is left to serve and that is relative.
    #[must_use]
    pub fn try_runtime_base(app_name: &str, temp_dir: &UnixPath) -> (r: Option<UnixPath>)
        ensures
            match r {
                Some(dir) => path::absolute(dir@) && exists|shared: Seq<u8>|
                    session_shared_dir(app_name, temp_dir@, shared) && dir@ == #[trigger] app_dir(
                        shared,
                        app_name@,
                    ),
                None => !path::absolute(temp_dir@) && named_by_process(app_name, None)
                    && named_by_platform(None),
            },
    {
        let (over, platform) = Self::named_dirs(app_name);
        if over.is_none() && platform.is_none() && !temp_dir.is_absolute() {
            return None;
        }
        let ghost shared = shared_dir(opt_bytes(over), opt_bytes(platform), temp_dir@);
        assert(session_shared_dir(app_name, temp_dir@, shared));
        Some(Self::runtime_base_in(over, platform, temp_dir, app_name))
    }

    /// Resolve the base runtime directory for an application.
    ///
    /// `$XDG_RUNTIME_DIR` when it is set and absolute, else the platform
    /// runtime dir, else `temp_dir`. The result is always absolute. With a
    /// `temp_dir` that may be relative, see
    /// [`try_runtime_base`](Self::try_runtime_base).
    #[must_use]
    pub fn runtime_base(app_name: &str, temp_dir: &UnixPath) -> (r: UnixPath)
        requires
            path::absolute(temp_dir@),
        ensures
            path::absolute(r@),
            exists|shared: Seq<u8>|
                session_shared_dir(app_name, temp_dir@, shared) && r@ == #[trigger] app_dir(
                    shared,
                    app_name@,
                ),
    {
        let (over, platform) = Self::named_dirs(app_name);
        let ghost shared = shared_dir(opt_bytes(over), opt_bytes(platform), temp_dir@);
        assert(session_shared_dir(app_name, temp_dir@, shared));
        Self::runtime_base_in(over, platform, temp_dir, app_name)
    }

    /// The resolution itself, in an environment that is given: `platform` is
    /// the runtime directory of the platform, if it has one.
    #[must_use]
    pub fn runtime_base_from(
        env: &Environment,
        platform: Option<UnixPath>,
        temp_dir: &UnixPath,
        app_name: &str,
    ) -> (r: UnixPath)
        requires
            override_in(env@) is None ==> path::absolute(
                shared_dir(None, opt_bytes(platform), temp_dir@),
            ),
        ensures
            r@ == app_dir(
                shared_dir(override_in(env@), opt_bytes(platform), temp_dir@),
                app_name@,
            ),
            path::absolute(r@),
    {
        let over = named_override(env, app_name);
        Self::runtime_base_in(over, platform, temp_dir, app_name)
    }

    /// The directory of an application, given what the environment and the
    /// platform say.
    #[must_use]
    pub fn runtime_base_in(
        over: Option<UnixPath>,
        platform: Option<UnixPath>,
        temp_dir: &UnixPath,
        app_name: &str,
    ) -> (r: UnixPath)
        requires
            path::absolute(shared_dir(opt_bytes(over), opt_bytes(platform), temp_dir@)),
        ensures
            r@ == app_dir(
                shared_dir(opt_bytes(over), opt_bytes(platform), temp_dir@),
                app_name@,
            ),
            path::absolute(r@),
    {
        proof {
            law_app_dir_is_absolute(
                shared_dir(opt_bytes(over), opt_bytes(platform), temp_dir@),
                app_name@,
            );
        }
        match over {
            Some(dir) => dir.join(app_name),
            None => match platform {
                Some(dir) => dir.join(app_name),
                None => temp_dir.join(app_name),
            },
        }
    }

    /// `{app_name}.{ext}` in the directory `dir`.
    #[must_use]
    pub fn file_in(dir: &UnixPath, app_name: &str, ext: &str) -> (r: UnixPath)
        ensures
            r@ == file_in(dir@, app_name@, ext@),
    {
        let mut name = app_name.to_owned();
        name.append(".");
        name.append(ext);
        dir.join(name.as_str())
    }

    /// `{app_name}.{ext}` in the runtime directory of the application.
    fn app_file(app_name: &str, ext: &str, temp_dir: &UnixPath) -> (r: UnixPath)
        requires
            path::absolute(temp_dir@),
        ensures
            exists|shared: Seq<u8>|
                session_shared_dir(app_name, temp_dir@, shared) && r@ == #[trigger] app_path(
                    shared,
                    app_name@,
                    ext@,
                ),
    {
        let dir = Self::runtime_base(app_name, temp_dir);
        let r = Self::file_in(&dir, app_name, ext);
        proof {
            let shared = choose|shared: Seq<u8>|
                session_shared_dir(app_name, temp_dir@, shared) && dir@ == #[trigger] app_dir(
                    shared,
                    app_name@,
                );
            assert(r@ == app_path(shared, app_name@, ext@));
        }
        r
    }
}

proof fn lemma_encode_concat(a: Seq<char>, b: Seq<char>)
    ensures
        encode_utf8(a + b) == encode_utf8(a) + encode_utf8(b),
    decreases a.len(),
{
    if a.len() == 0 {
        assert(a + b =~= b);
        assert(encode_utf8(a) =~= Seq::empty());
        assert(encode_utf8(a) + encode_utf8(b) =~= encode_utf8(b));
    } else {
        lemma_encode_concat(a.drop_first(), b);
        assert((a + b).drop_first() =~= a.drop_first() + b);
        assert(encode_utf8(a + b) =~= encode_utf8(a) + encode_utf8(b));
    }
}

/// The directory of an application is absolute if the shared directory is.
pub proof fn law_app_dir_is_absolute(shared: Seq<u8>, app_name: Seq<char>)
    requires
        path::absolute(shared),
    ensures
        path::absolute(app_dir(shared, app_name)),
{
}

/// So are its files.
pub proof fn law_app_path_is_absolute(shared: Seq<u8>, app_name: Seq<char>, ext: Seq<char>)
    requires
        path::absolute(shared),
    ensures
        path::absolute(app_path(shared, app_name, ext)),
{
}

/// The directory is absolute in every environment, as long as the platform's
/// directory and the temporary one are.
pub proof fn law_absolute_in_every_environment(
    vars: Seq<(Seq<char>, Seq<char>)>,
    platform: Option<Seq<u8>>,
    temp: Seq<u8>,
    app_name: Seq<char>,
)
    requires
        platform matches Some(dir) ==> path::absolute(dir),
        path::absolute(temp),
    ensures
        path::absolute(app_dir(shared_dir(override_in(vars), platform, temp), app_name)),
{
}

/// An absolute override is used as it stands; a set variable that is empty or
/// relative counts no more than one that is not set.
pub proof fn law_only_an_absolute_override_counts(
    vars: Seq<(Seq<char>, Seq<char>)>,
    value: Seq<char>,
    platform: Option<Seq<u8>>,
    temp: Seq<u8>,
)
    requires
        lookup(vars, RUNTIME_DIR_VARIABLE@) == Some(value),
    ensures
        path::absolute(encode_utf8(value)) ==> shared_dir(override_in(vars), platform, temp)
            == encode_utf8(value),
        !path::absolute(encode_utf8(value)) ==> shared_dir(override_in(vars), platform, temp)
            == shared_dir(None, platform, temp),
{
}

/// A path to a file of an application without its extension.
pub open spec fn stem(shared: Seq<u8>, app_name: Seq<char>) -> Seq<u8> {
    path::joined(app_dir(shared, app_name), encode_utf8(app_name))
}

proof fn lemma_app_path(shared: Seq<u8>, app_name: Seq<char>, ext: Seq<char>)
    ensures
        app_path(shared, app_name, ext) == stem(shared, app_name) + encode_utf8("."@ + ext),
{
    let name = encode_utf8(app_name);
    let suffix = encode_utf8("."@ + ext);
    assert(app_name + "."@ + ext =~= app_name + ("."@ + ext));
    lemma_encode_concat(app_name, "."@ + ext);
    reveal_strlit(".");
    lemma_encode_concat("."@, ext);
    is_ascii_chars_encode_utf8("."@);
    assert(suffix[0] == path::DOT);
    assert(path::absolute(name + suffix) == path::absolute(name));
    assert(app_path(shared, app_name, ext) =~= stem(shared, app_name) + suffix);
}

/// Different applications get different sockets and different PID files.
///
/// The one exception is a name that is itself the path, without its extension,
/// of another application's file.
pub proof fn law_different_apps_get_different_paths(
    shared: Seq<u8>,
    a: Seq<char>,
    b: Seq<char>,
    ext: Seq<char>,
)
    requires
        path::absolute(shared),
        a != b,
        encode_utf8(a) != stem(shared, b),
        encode_utf8(b) != stem(shared, a),
    ensures
        app_path(shared, a, ext) != app_path(shared, b, ext),
{
    lemma_app_path(shared, a, ext);
    lemma_app_path(shared, b, ext);
    let suffix = encode_utf8("."@ + ext);
    let sa = stem(shared, a);
    let sb = stem(shared, b);
    if sa + suffix == sb + suffix {
        assert((sa + suffix).len() == (sb + suffix).len());
        assert(sa =~= (sa + suffix).take(sa.len() as int));
        assert(sb =~= (sb + suffix).take(sa.len() as int));
        lemma_stem_determines_name(shared, a, b);
    }
}

proof fn lemma_stem_determines_name(shared: Seq<u8>, a: Seq<char>, b: Seq<char>)
    requires
        path::absolute(shared),
        stem(shared, a) == stem(shared, b),
        encode_utf8(a) != stem(shared, b),
        encode_utf8(b) != stem(shared, a),
    ensures
        a == b,
{
    let na = encode_utf8(a);
    let nb = encode_utf8(b);
    let stems = stem(shared, a);
    if !path::absolute(na) && !path::absolute(nb) {
        let root = if shared.last() == path::SLASH {
            shared
        } else {
            shared.push(path::SLASH)
        };
        lemma_stem(shared, root, a);
        lemma_stem(shared, root, b);
        let k = root.len() as int;
        assert(na.len() == nb.len());
        assert(na =~= stems.subrange(k, k + na.len()));
        assert(nb =~= stems.subrange(k, k + nb.len()));
    }
    encode_utf8_decode_utf8(a);
    encode_utf8_decode_utf8(b);
}

/// A relative name stands twice in the stem, with one separator in between
/// unless the name brings its own.
proof fn lemma_stem(shared: Seq<u8>, root: Seq<u8>, app_name: Seq<char>)
    requires
        path::absolute(shared),
        root == if shared.last() == path::SLASH {
            shared
        } else {
            shared.push(path::SLASH)
        },
        !path::absolute(encode_utf8(app_name)),
    ensures
        ({
            let name = encode_utf8(app_name);
            let bare = name.len() == 0 || name.last() == path::SLASH;
            &&& bare ==> stem(shared, app_name) == root + name + name
            &&& !bare ==> stem(shared, app_name) == root + name + seq![path::SLASH] + name
            &&& stem(shared, app_name).len() == root.len() + 2 * name.len() + if bare {
                0int
            } else {
                1
            }
        }),
{
    let name = encode_utf8(app_name);
    assert(app_dir(shared, app_name) == root + name);
    if name.len() > 0 {
        assert((root + name).last() == name.last());
    }
    assert((root + name).push(path::SLASH) =~= root + name + seq![path::SLASH]);
}

/// A socket is never mistaken for a PID file, of the same application or of
/// another one.
pub proof fn law_socket_is_no_pid_file(
    shared: Seq<u8>,
    a: Seq<char>,
    other: Seq<u8>,
    b: Seq<char>,
)
    ensures
        app_path(shared, a, "sock"@) != app_path(other, b, "pid"@),
{
    lemma_app_path(shared, a, "sock"@);
    lemma_app_path(other, b, "pid"@);
    reveal_strlit(".");
    reveal_strlit("sock");
    reveal_strlit("pid");
    is_ascii_chars_encode_utf8("."@ + "sock"@);
    is_ascii_chars_encode_utf8("."@ + "pid"@);
    assert(app_path(shared, a, "sock"@).last() == 'k' as u8);
    assert(app_path(other, b, "pid"@).last() == 'd' as u8);
}

proof fn lemma_suffixes()
    ensures
        forall|ext: Seq<char>|
            (ext == "sock"@ || ext == "pid"@) ==> {
                let suffix = #[trigger] encode_utf8("."@ + ext);
                &&& suffix.len() > 0
                &&& suffix.last() != path::DOT
                &&& forall|i: int| 0 <= i < suffix.len() ==> suffix[i] != path::SLASH
            },
{
    reveal_strlit(".");
    reveal_strlit("sock");
    reveal_strlit("pid");
    is_ascii_chars_encode_utf8("."@ + "sock"@);
    is_ascii_chars_encode_utf8("."@ + "pid"@);
}

/// The socket and the PID file of an application share a directory.
pub proof fn law_socket_and_pid_share_directory(shared: Seq<u8>, app_name: Seq<char>)
    requires
        path::absolute(shared),
    ensures
        path::parent(app_path(shared, app_name, "sock"@)) is Some,
        path::parent(app_path(shared, app_name, "sock"@)) == path::parent(
            app_path(shared, app_name, "pid"@),
        ),
{
    lemma_app_path(shared, app_name, "sock"@);
    lemma_app_path(shared, app_name, "pid"@);
    lemma_suffixes();
    path::lemma_parent_of_extended(stem(shared, app_name), encode_utf8("."@ + "sock"@));
    path::lemma_parent_of_extended(stem(shared, app_name), encode_utf8("."@ + "pid"@));
}

/// That directory is the runtime base of the application, for a name that is a
/// single path component.
pub proof fn law_runtime_base_is_the_parent(shared: Seq<u8>, app_name: Seq<char>, ext: Seq<char>)
    requires
        path::absolute(shared),
        ext == "sock"@ || ext == "pid"@,
        encode_utf8(app_name).len() > 0,
        encode_utf8(app_name) != seq![path::DOT],
        forall|i: int|
            0 <= i < encode_utf8(app_name).len() ==> encode_utf8(app_name)[i] != path::SLASH,
    ensures
        path::parent(app_path(shared, app_name, ext)) == Some(app_dir(shared, app_name)),
{
    let name = encode_utf8(app_name);
    let dir = app_dir(shared, app_name);
    let x = stem(shared, app_name);
    let n = dir.len() as int;
    let root = if shared.last() == path::SLASH {
        shared
    } else {
        shared.push(path::SLASH)
    };
    lemma_stem(shared, root, app_name);
    lemma_app_path(shared, app_name, ext);
    lemma_suffixes();
    path::lemma_parent_of_extended(x, encode_utf8("."@ + ext));
    assert(dir =~= root + name);
    assert(x =~= dir + seq![path::SLASH] + name);
    assert(x[n] == path::SLASH);
    assert forall|i: int| n + 1 <= i < x.len() implies x[i] != path::SLASH by {
        assert(x[i] == name[i - n - 1]);
    }
    path::lemma_component(x, n + 1, x.len() as int);
    assert(x[n - 1] == name[name.len() - 1]);
    if name.len() == 1 {
        assert(name[0] != path::DOT) by {
            if name[0] == path::DOT {
                assert(name =~= seq![path::DOT]);
            }
        }
    } else {
        assert(x[n - 2] == name[name.len() - 2]);
    }
    reveal_with_fuel(path::body_end, 2);
    assert(x.take(n) =~= dir);
}

/// A variable has the value that it was given first, and no value if it was
/// never given one.
pub proof fn law_variable_has_its_first_value(
    vars: Seq<(Seq<char>, Seq<char>)>,
    name: Seq<char>,
    other: Seq<char>,
    value: Seq<char>,
)
    ensures
        lookup(Seq::empty(), name) is None,
        lookup(vars, name) is Some ==> lookup(vars.push((other, value)), name) == lookup(
            vars,
            name,
        ),
        lookup(vars, name) is None ==> lookup(vars.push((other, value)), name) == if other == name {
            Some(value)
        } else {
            None
        },
    decreases vars.len(),
{
    let more = vars.push((other, value));
    if vars.len() == 0 {
        assert(more[0] == (other, value));
        assert(more.drop_first() =~= Seq::empty());
        reveal_with_fuel(lookup, 2);
    } else {
        assert(more[0] == vars[0]);
        assert(more.drop_first() =~= vars.drop_first().push((other, value)));
        law_variable_has_its_first_value(vars.drop_first(), name, other, value);
    }
}

/// The variables name a directory exactly if `XDG_RUNTIME_DIR` is set to a path
/// that starts at the root, and then it is that path.
pub proof fn law_override_is_an_absolute_value(vars: Seq<(Seq<char>, Seq<char>)>)
    ensures
        match lookup(vars, "XDG_RUNTIME_DIR"@) {
            Some(value) => {
                let bytes = encode_utf8(value);
                &&& bytes.len() > 0 && bytes[0] == '/' as u8 ==> override_in(vars) == Some(bytes)
                &&& bytes.len() == 0 || bytes[0] != '/' as u8 ==> override_in(vars) is None
            },
            None => override_in(vars) is None,
        },
{
}

/// The override comes first, then the platform, and the temporary directory only
/// where neither names one.
pub proof fn law_first_named_directory_is_shared(
    over: Seq<u8>,
    platform: Option<Seq<u8>>,
    named: Seq<u8>,
    temp: Seq<u8>,
)
    ensures
        shared_dir(Some(over), platform, temp) == over,
        shared_dir(None, Some(named), temp) == named,
        shared_dir(None, None, temp) == temp,
{
}

/// An application has a directory of its name in the shared one, and in that its
/// files, called by its name and an extension.
pub proof fn law_app_path_reads_so(shared: Seq<u8>, app_name: Seq<char>, ext: Seq<char>)
    ensures
        app_dir(shared, app_name) == path::joined(shared, encode_utf8(app_name)),
        app_path(shared, app_name, ext) == path::joined(
            app_dir(shared, app_name),
            encode_utf8(app_name) + seq!['.' as u8] + encode_utf8(ext),
        ),
        ({
            let name = encode_utf8(app_name);
            let slash = '/' as u8;
            shared.len() > 0 && shared.last() != slash && name.len() > 0 && name[0] != slash
                && name.last() != slash ==> app_path(shared, app_name, ext) == shared + seq![slash]
                + name + seq![slash] + name + seq!['.' as u8] + encode_utf8(ext)
        }),
{
    let name = encode_utf8(app_name);
    let file = name + seq!['.' as u8] + encode_utf8(ext);
    lemma_encode_concat(app_name + "."@, ext);
    lemma_encode_concat(app_name, "."@);
    reveal_strlit(".");
    is_ascii_chars_encode_utf8("."@);
    assert(encode_utf8("."@) =~= seq!['.' as u8]);
    assert(encode_utf8(app_name + "."@ + ext) == file);
    let slash = '/' as u8;
    if shared.len() > 0 && shared.last() != slash && name.len() > 0 && name[0] != slash
        && name.last() != slash {
        let dir = shared + seq![slash] + name;
        assert(app_dir(shared, app_name) =~= dir);
        assert(dir.last() == name.last());
        assert(file[0] == name[0]);
        assert(app_path(shared, app_name, ext) =~= shared + seq![slash] + name + seq![slash] + name
            + seq!['.' as u8] + encode_utf8(ext));
    }
}

/// The shared directory of a session is absolute, and it is what the environment
/// names; or, where that names none, what the platform names; or, where neither
/// does, the temporary directory.
pub proof fn law_shared_directory_is_the_session_s(app_name: &str, temp: Seq<u8>, shared: Seq<u8>)
    requires
        session_shared_dir(app_name, temp, shared),
    ensures
        shared.len() > 0 && shared[0] == '/' as u8,
        ({
            ||| exists|dir: UnixPath|
                #[trigger] named_by_process(app_name, Some(dir)) && dir@ == shared
            ||| named_by_process(app_name, None) && exists|dir: UnixPath|
                #[trigger] named_by_platform(Some(dir)) && dir@ == shared
            ||| named_by_process(app_name, None) && named_by_platform(None) && shared == temp
        }),
{
    let (over, platform) = choose|over: Option<UnixPath>, platform: Option<UnixPath>|
        named_by_process(app_name, over) && (over is None ==> named_by_platform(platform))
            && #[trigger] shared_dir(opt_bytes(over), opt_bytes(platform), temp) == shared
            && path::absolute(shared);
    match over {
        Some(dir) => {
            assert(named_by_process(app_name, Some(dir)));
        },
        None => match platform {
            Some(dir) => {
                assert(named_by_platform(Some(dir)));
            },
            None => {},
        },
    }
}

/// A directory is taken to be named by the process or the platform only as the
/// two calls give it.
proof fn lemma_names_come_from_the_calls(app_name: &str, dir: Option<UnixPath>)
    ensures
        named_by_process(app_name, dir) == call_ensures(process_override, (app_name,), dir),
        named_by_platform(dir) == call_ensures(platform_runtime_dir, (), dir),
{
}

} // verus!
