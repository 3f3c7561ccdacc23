//! The credentials of the HTTP layer, and where they come from.

use vstd::prelude::*;
use vstd::string::*;

use crate::envfile;
use crate::error::{glued, AppError, ErrorView};
use crate::host_path;
use crate::host_path::Host;
use crate::text;

verus! {

/// Resolved authentication configuration for the HTTP layer.
#[derive(Debug, Clone, PartialEq, Eq)]
pub struct AuthConfig {
    /// HTTP Basic auth username.
    pub basic_user: String,
    /// HTTP Basic auth password.
    pub basic_password: String,
}

/// The variables of the process environment that matter here.
#[derive(Debug)]
pub struct AuthEnv {
    /// `OPENCODE_SERVER_USERNAME`.
    pub username: Option<String>,
    /// `OPENCODE_SERVER_PASSWORD`.
    pub password: Option<String>,
    /// `SB_COOKIE_NAME`.
    pub cookie_name: Option<String>,
    /// `OC_SERVE_AUTH_ENV`.
    pub auth_env: Option<String>,
}

/// What reading the auth-env file gave.
#[derive(Debug)]
pub enum AuthFile {
    /// It is not a file.
    Absent,
    /// It could not be read, for this reason.
    Unreadable(String),
    /// Its contents.
    Contents(String),
}

pub open spec fn opt_view(s: Option<String>) -> Option<Seq<char>> {
    match s {
        Some(t) => Some(t@),
        None => None,
    }
}

/// The value that a list of pairs gives to a key first.
pub open spec fn first_assigned(ps: Seq<(Seq<char>, Seq<char>)>, key: Seq<char>) -> Option<
    Seq<char>,
>
    decreases ps.len(),
{
    if ps.len() == 0 {
        None
    } else if ps[0].0 == key {
        Some(ps[0].1)
    } else {
        first_assigned(ps.skip(1), key)
    }
}

/// The pairs in the auth-env file.
pub open spec fn file_pairs(file: AuthFile) -> Seq<(Seq<char>, Seq<char>)> {
    match file {
        AuthFile::Contents(c) => envfile::contents_pairs(c@),
        _ => Seq::<(Seq<char>, Seq<char>)>::empty(),
    }
}

/// A variable of the environment, or else what the file assigns to it first.
pub open spec fn env_or_file(env: Option<String>, file: AuthFile, key: Seq<char>) -> Option<
    Seq<char>,
> {
    match env {
        Some(v) => Some(v@),
        None => first_assigned(file_pairs(file), key),
    }
}

fn lookup_first(ps: &Vec<(String, String)>, key: &str) -> (r: Option<String>)
    ensures
        opt_view(r) == first_assigned(envfile::pair_views(ps@), key@),
{
    let ghost vs = envfile::pair_views(ps@);
    let mut i: usize = 0;
    assert(vs.skip(0) =~= vs);
    while i < ps.len()
        invariant
            i <= ps@.len(),
            vs == envfile::pair_views(ps@),
            first_assigned(vs, key@) == first_assigned(vs.skip(i as int), key@),
        decreases ps@.len() - i,
    {
        assert(vs.skip(i as int)[0] == (ps@[i as int].0@, ps@[i as int].1@));
        assert(vs.skip(i as int).skip(1) =~= vs.skip(i + 1));
        if text::same(ps[i].0.as_str(), key) {
            return Some(ps[i].1.clone());
        }
        i = i + 1;
    }
    None
}

fn file_kv(file: &AuthFile) -> (r: Vec<(String, String)>)
    ensures
        envfile::pair_views(r@) == file_pairs(*file),
{
    match file {
        AuthFile::Contents(c) => envfile::read_env_kv(Some(c.as_str())),
        _ => {
            let r: Vec<(String, String)> = Vec::new();
            assert(envfile::pair_views(r@) =~= Seq::<(Seq<char>, Seq<char>)>::empty());
            r
        },
    }
}

fn env_first(env: &Option<String>, ps: &Vec<(String, String)>, key: &str) -> (r: Option<String>)
    ensures
        opt_view(r) == (match *env {
            Some(v) => Some(v@),
            None => first_assigned(envfile::pair_views(ps@), key@),
        }),
{
    match env {
        Some(v) => Some(v.clone()),
        None => lookup_first(ps, key),
    }
}

/// The error of an auth-env file that is needed and cannot be read.
pub open spec fn unreadable(path: Seq<char>, e: Seq<char>) -> ErrorView {
    ErrorView::Internal(
        "OPENCODE_SERVER_PASSWORD not set; could not read "@ + path + ": "@ + e,
    )
}

fn unreadable_error(path: &str, e: &str) -> (r: AppError)
    ensures
        r@ == unreadable(path@, e@),
{
    let mut m: String = glued("OPENCODE_SERVER_PASSWORD not set; could not read ", path);
    m.append(": ");
    m.append(e);
    AppError::Internal(m)
}

/// The list of candidate paths in the error of a missing password.
pub open spec fn candidate_lines(candidates: Seq<Seq<char>>) -> Seq<char>
    decreases candidates.len(),
{
    if candidates.len() == 0 {
        Seq::<char>::empty()
    } else {
        candidate_lines(candidates.drop_last()) + "  - "@ + candidates.last() + "\n"@
    }
}

/// The text of the error of a missing password.
pub open spec fn missing_password(candidates: Seq<Seq<char>>) -> Seq<char> {
    text::drop_while_end(
        "OPENCODE_SERVER_PASSWORD not set; set $OPENCODE_SERVER_PASSWORD in env, or create one of these files with OPENCODE_SERVER_USERNAME=... and OPENCODE_SERVER_PASSWORD=...:\n"@
            + candidate_lines(candidates),
        |c: char| text::is_white(c),
    )
}

/// Credentials that are required, with the cookie name that goes with them.
#[derive(Debug)]
pub struct RequiredAuth {
    /// The credentials.
    pub auth: AuthConfig,
    /// The session cookie to look for, if cookie sessions are used.
    pub sb_cookie_name: Option<String>,
}

impl AuthConfig {
    /// The auth-env file that the environment asks for, or the default one.
    #[must_use]
    pub fn auth_env_path(env: &AuthEnv) -> (r: String)
        ensures
            r@ == (match env.auth_env {
                Some(p) => p@,
                None => ".oc-serve-auth.env"@,
            }),
    {
        match &env.auth_env {
            Some(p) => p.clone(),
            None => ".oc-serve-auth.env".to_owned(),
        }
    }

    /// Resolve credentials from the environment, and from the auth-env file for
    /// what is missing there. What is missing in both stays empty.
    ///
    /// # Errors
    /// Returns [`AppError::Internal`] if something is missing and the file
    /// exists but cannot be read.
    pub fn from_env(env: &AuthEnv, file: &AuthFile) -> (r: Result<Self, AppError>)
        ensures
            is_resolved(
                *env,
                match env.auth_env {
                    Some(p) => p@,
                    None => ".oc-serve-auth.env"@,
                },
                *file,
                r,
            ),
    {
        let path: String = AuthConfig::auth_env_path(env);
        AuthConfig::from_env_with_file(env, path.as_str(), file)
    }

    /// Like [`AuthConfig::from_env`], with an explicit path of the auth-env
    /// file.
    ///
    /// # Errors
    /// Returns [`AppError::Internal`] if something is missing and the file
    /// exists but cannot be read.
    pub fn from_env_with_file(env: &AuthEnv, auth_env: &str, file: &AuthFile) -> (r: Result<
        Self,
        AppError,
    >)
        ensures
            is_resolved(*env, auth_env@, *file, r),
    {
        if env.username.is_none() || env.password.is_none() {
            if let AuthFile::Unreadable(e) = file {
                return Err(unreadable_error(auth_env, e.as_str()));
            }
        }
        let ps: Vec<(String, String)> = file_kv(file);
        let user: String = match env_first(&env.username, &ps, "OPENCODE_SERVER_USERNAME") {
            Some(u) => u,
            None => String::new(),
        };
        let password: String = match env_first(&env.password, &ps, "OPENCODE_SERVER_PASSWORD") {
            Some(p) => p,
            None => String::new(),
        };
        Ok(AuthConfig { basic_user: user, basic_password: password })
    }

    /// Resolve credentials of which the password is required: the username
    /// defaults to `opencode`, the cookie name is optional.
    ///
    /// # Errors
    /// Returns [`AppError::Internal`] if the file is needed and cannot be read,
    /// and if no password is found; the latter lists the paths that were looked
    /// at.
    pub fn from_env_with_file_reporting(
        env: &AuthEnv,
        resolved: &str,
        file: &AuthFile,
        candidates: &Vec<String>,
    ) -> (r: Result<RequiredAuth, AppError>)
        ensures
            match r {
                Ok(a) => {
                    &&& !reads_unreadable(*env, *file)
                    &&& a.auth.basic_user@ == (match env_or_file(
                        env.username,
                        *file,
                        "OPENCODE_SERVER_USERNAME"@,
                    ) {
                        Some(u) => u,
                        None => "opencode"@,
                    })
                    &&& env_or_file(env.password, *file, "OPENCODE_SERVER_PASSWORD"@) == Some(
                        a.auth.basic_password@,
                    )
                    &&& opt_view(a.sb_cookie_name) == env_or_file(
                        env.cookie_name,
                        *file,
                        "SB_COOKIE_NAME"@,
                    )
                },
                Err(e) => if reads_unreadable(*env, *file) {
                    file matches AuthFile::Unreadable(m) && e@ == unreadable(resolved@, m@)
                } else {
                    &&& env_or_file(env.password, *file, "OPENCODE_SERVER_PASSWORD"@) is None
                    &&& e@ == ErrorView::Internal(missing_password(text::views(candidates@)))
                },
            },
    {
        if env.username.is_none() || env.password.is_none() || env.cookie_name.is_none() {
            if let AuthFile::Unreadable(e) = file {
                return Err(unreadable_error(resolved, e.as_str()));
            }
        }
        let ps: Vec<(String, String)> = file_kv(file);
        let user: String = match env_first(&env.username, &ps, "OPENCODE_SERVER_USERNAME") {
            Some(u) => u,
            None => "opencode".to_owned(),
        };
        let cookie: Option<String> = env_first(&env.cookie_name, &ps, "SB_COOKIE_NAME");
        match env_first(&env.password, &ps, "OPENCODE_SERVER_PASSWORD") {
            Some(password) => Ok(
                RequiredAuth {
                    auth: AuthConfig { basic_user: user, basic_password: password },
                    sb_cookie_name: cookie,
                },
            ),
            None => Err(AppError::Internal(missing_password_text(candidates))),
        }
    }

    /// Configured when both the username and the password are non-empty.
    #[must_use]
    pub fn is_configured(&self) -> (r: bool)
        ensures
            r == (self.basic_user@.len() > 0 && self.basic_password@.len() > 0),
    {
        !self.basic_user.as_str().is_empty() && !self.basic_password.as_str().is_empty()
    }

    /// The contents of an auth-env file that holds nothing but credentials.
    ///
    /// It replaces the whole file; updating the two keys in place keeps what
    /// else is in it.
    #[must_use]
    pub fn write_env_file(username: &str, password: &str) -> (r: String)
        ensures
            r@ == credentials_file(
                "# Generated by `mini-oc-gui-serve` first-run setup"@,
                username@,
                password@,
            ),
    {
        credentials_text(
            "# Generated by `mini-oc-gui-serve` first-run setup",
            username,
            password,
        )
    }
}

/// The contents of a file that holds a note and a pair of credentials.
pub open spec fn credentials_file(note: Seq<char>, user: Seq<char>, password: Seq<char>) -> Seq<
    char,
> {
    note + "\nOPENCODE_SERVER_USERNAME="@ + user + "\nOPENCODE_SERVER_PASSWORD="@ + password
        + "\n"@
}

/// The contents of a file that holds a note and a pair of credentials.
pub(crate) fn credentials_text(note: &str, user: &str, password: &str) -> (r: String)
    ensures
        r@ == credentials_file(note@, user@, password@),
{
    let mut r: String = glued(note, "\nOPENCODE_SERVER_USERNAME=");
    r.append(user);
    r.append("\nOPENCODE_SERVER_PASSWORD=");
    r.append(password);
    r.append("\n");
    r
}

/// Whether resolving all three values needs a file that cannot be read.
pub open spec fn reads_unreadable(env: AuthEnv, file: AuthFile) -> bool {
    file is Unreadable && (env.username is None || env.password is None || env.cookie_name is None)
}

/// Whether `r` is what resolving the credentials comes to.
pub open spec fn is_resolved(
    env: AuthEnv,
    path: Seq<char>,
    file: AuthFile,
    r: Result<AuthConfig, AppError>,
) -> bool {
    if file is Unreadable && (env.username is None || env.password is None) {
        r matches Err(e) && file matches AuthFile::Unreadable(m) && e@ == unreadable(path, m@)
    } else {
        r matches Ok(a) && a.basic_user@ == (match env_or_file(
            env.username,
            file,
            "OPENCODE_SERVER_USERNAME"@,
        ) {
            Some(u) => u,
            None => Seq::empty(),
        }) && a.basic_password@ == (match env_or_file(
            env.password,
            file,
            "OPENCODE_SERVER_PASSWORD"@,
        ) {
            Some(p) => p,
            None => Seq::empty(),
        })
    }
}

fn missing_password_text(candidates: &Vec<String>) -> (r: String)
    ensures
        r@ == missing_password(text::views(candidates@)),
{
    let ghost vs = text::views(candidates@);
    let mut list: String = String::new();
    let mut i: usize = 0;
    while i < candidates.len()
        invariant
            i <= candidates@.len(),
            vs == text::views(candidates@),
            list@ == candidate_lines(vs.take(i as int)),
        decreases candidates@.len() - i,
    {
        assert(vs.take(i + 1).drop_last() =~= vs.take(i as int));
        assert(vs.take(i + 1).last() == candidates@[i as int]@);
        list.append("  - ");
        list.append(candidates[i].as_str());
        list.append("\n");
        i = i + 1;
    }
    assert(vs.take(i as int) =~= vs);
    let whole: String = glued(
        "OPENCODE_SERVER_PASSWORD not set; set $OPENCODE_SERVER_PASSWORD in env, or create one of these files with OPENCODE_SERVER_USERNAME=... and OPENCODE_SERVER_PASSWORD=...:\n",
        list.as_str(),
    );
    text::trim_end(whole.as_str())
}

/// A place where the auth-env file may be, and whether it is there.
#[derive(Debug)]
pub struct AuthCandidate {
    /// The path.
    pub path: String,
    /// Whether it is a file.
    pub is_file: bool,
}

/// The auth-env file that is used: the first that is there of the explicit one,
/// the one next to the executable, and the one in the working directory. Where
/// there is none, it is the place next to the executable, or in the working
/// directory where that is not known.
pub open spec fn auth_env_location(
    explicit: Option<AuthCandidate>,
    beside_exe: Option<AuthCandidate>,
    in_cwd: AuthCandidate,
) -> Seq<char> {
    match (explicit, beside_exe) {
        (Some(c), _) if c.is_file => c.path@,
        (_, Some(c)) if c.is_file || !in_cwd.is_file => c.path@,
        _ => in_cwd.path@,
    }
}

/// The paths that are looked at for the auth-env file, up to the first that is
/// there.
pub open spec fn looked_at(
    explicit: Option<AuthCandidate>,
    beside_exe: Option<AuthCandidate>,
    in_cwd: AuthCandidate,
) -> Seq<Seq<char>> {
    let rest = match beside_exe {
        Some(c) => if c.is_file {
            seq![c.path@]
        } else {
            seq![c.path@, in_cwd.path@]
        },
        None => seq![in_cwd.path@],
    };
    match explicit {
        Some(c) => if c.is_file {
            seq![c.path@]
        } else {
            seq![c.path@] + rest
        },
        None => rest,
    }
}

/// Resolves the auth-env file: the first that is there wins, and otherwise the
/// place next to the executable is given, so that an error points somewhere
/// predictable. Every path that was looked at is listed.
pub fn resolve_default_auth_env_path(
    explicit: Option<AuthCandidate>,
    beside_exe: Option<AuthCandidate>,
    in_cwd: AuthCandidate,
) -> (r: (String, Vec<String>))
    ensures
        r.0@ == auth_env_location(explicit, beside_exe, in_cwd),
        text::views(r.1@) == looked_at(explicit, beside_exe, in_cwd),
{
    let mut seen: Vec<String> = Vec::new();
    if let Some(c) = explicit {
        seen.push(c.path.clone());
        if c.is_file {
            assert(text::views(seen@) =~= looked_at(explicit, beside_exe, in_cwd));
            return (c.path, seen);
        }
    }
    if let Some(c) = beside_exe {
        seen.push(c.path.clone());
        if c.is_file {
            assert(text::views(seen@) =~= looked_at(explicit, beside_exe, in_cwd));
            return (c.path, seen);
        }
        seen.push(in_cwd.path.clone());
        assert(text::views(seen@) =~= looked_at(explicit, beside_exe, in_cwd));
        return if in_cwd.is_file {
            (in_cwd.path, seen)
        } else {
            (c.path, seen)
        };
    }
    seen.push(in_cwd.path.clone());
    assert(text::views(seen@) =~= looked_at(explicit, beside_exe, in_cwd));
    (in_cwd.path, seen)
}

/// The path of the auth-env file next to an executable.
#[must_use]
pub fn auth_env_beside(host: Host, exe_dir: &str) -> (r: String)
    ensures
        r@ == host_path::host_joined(exe_dir@, ".oc-serve-auth.env"@, host.separator()),
{
    host_path::join(host, exe_dir, ".oc-serve-auth.env")
}

/// Credentials that were written to a file are read from it, trimmed and
/// unquoted, wherever the environment does not set them.
pub proof fn law_written_credentials_read_back(
    note: Seq<char>,
    user: Seq<char>,
    password: Seq<char>,
    file: AuthFile,
)
    requires
        envfile::is_comment(note),
        text::has_no(user, '\n'),
        text::has_no(password, '\n'),
        file matches AuthFile::Contents(c) && c@ == credentials_file(note, user, password),
    ensures
        env_or_file(None, file, "OPENCODE_SERVER_USERNAME"@) == Some(
            envfile::unquoted(text::trimmed(user)),
        ),
        env_or_file(None, file, "OPENCODE_SERVER_PASSWORD"@) == Some(
            envfile::unquoted(text::trimmed(password)),
        ),
{
    reveal_strlit("OPENCODE_SERVER_USERNAME");
    reveal_strlit("OPENCODE_SERVER_PASSWORD");
    reveal_strlit("\nOPENCODE_SERVER_USERNAME=");
    reveal_strlit("\nOPENCODE_SERVER_PASSWORD=");
    reveal_strlit("\n");
    let ku = "OPENCODE_SERVER_USERNAME"@;
    let kp = "OPENCODE_SERVER_PASSWORD"@;
    text::lemma_trimmed_fixed(ku);
    text::lemma_trimmed_fixed(kp);
    assert(ku[16] != kp[16]);
    let lu = envfile::assigning_line(ku, user);
    let lp = envfile::assigning_line(kp, password);
    let lines = seq![note, lu, lp];
    assert("\nOPENCODE_SERVER_USERNAME="@ =~= seq!['\n'] + ku + seq!['=']);
    assert("\nOPENCODE_SERVER_PASSWORD="@ =~= seq!['\n'] + kp + seq!['=']);
    assert(lines.drop_last() =~= seq![note, lu]);
    assert(lines.drop_last().drop_last() =~= seq![note]);
    assert(seq![note].drop_last() =~= Seq::<Seq<char>>::empty());
    reveal_with_fuel(text::joined, 3);
    assert(envfile::body(lines) =~= credentials_file(note, user, password));
    assert forall|i: int| 0 <= i < lines.len() implies text::has_no(#[trigger] lines[i], '\n') by {
        if i == 1 {
            assert(lines[i] == lu);
        } else if i == 2 {
            assert(lines[i] == lp);
        }
    }
    envfile::law_written_lines_read_back(lines);
    envfile::lemma_quiet_lines(note);
    envfile::lemma_assigning_line(ku, user);
    envfile::lemma_assigning_line(kp, password);
    reveal_with_fuel(envfile::pairs, 4);
    let pu = (ku, envfile::unquoted(text::trimmed(user)));
    let pp = (kp, envfile::unquoted(text::trimmed(password)));
    assert(envfile::pairs(lines) =~= seq![pu, pp]);
    reveal_with_fuel(first_assigned, 3);
    assert(seq![pu, pp].skip(1) =~= seq![pp]);
}

/// The first pair of a key gives its value.
pub proof fn law_first_assignment_counts(ps: Seq<(Seq<char>, Seq<char>)>, key: Seq<char>, i: int)
    ensures
        0 <= i < ps.len() && ps[i].0 == key && (forall|j: int|
            0 <= j < i ==> (#[trigger] ps[j]).0 != key) ==> first_assigned(ps, key) == Some(
            ps[i].1,
        ),
        (forall|j: int| 0 <= j < ps.len() ==> (#[trigger] ps[j]).0 != key) ==> first_assigned(
            ps,
            key,
        ) is None,
    decreases ps.len(),
{
    if ps.len() > 0 && ps[0].0 != key {
        let rest = ps.skip(1);
        law_first_assignment_counts(rest, key, i - 1);
        assert forall|j: int| 0 <= j < rest.len() implies rest[j] == ps[j + 1] by {}
        if 0 < i < ps.len() && ps[i].0 == key && (forall|j: int|
            0 <= j < i ==> (#[trigger] ps[j]).0 != key) {
            assert forall|j: int| 0 <= j < i - 1 implies (#[trigger] rest[j]).0 != key by {
                assert(rest[j] == ps[j + 1]);
            }
        }
        if forall|j: int| 0 <= j < ps.len() ==> (#[trigger] ps[j]).0 != key {
            assert forall|j: int| 0 <= j < rest.len() implies (#[trigger] rest[j]).0 != key by {
                assert(rest[j] == ps[j + 1]);
            }
        }
    }
}

/// The environment comes before the file.
pub proof fn law_environment_comes_first(value: String, file: AuthFile, key: Seq<char>)
    ensures
        env_or_file(Some(value), file, key) == Some(value@),
        file is Absent || file is Unreadable ==> env_or_file(None, file, key) is None,
        file matches AuthFile::Contents(c) ==> env_or_file(None, file, key) == first_assigned(
            envfile::contents_pairs(c@),
            key,
        ),
{
}

/// Credentials are resolved from their two variables, in the environment or else in
/// the file; it is an error only to need a file that cannot be read.
pub proof fn law_credentials_are_resolved(
    env: AuthEnv,
    path: Seq<char>,
    file: AuthFile,
    r: Result<AuthConfig, AppError>,
)
    requires
        is_resolved(env, path, file, r),
    ensures
        env.username is Some && env.password is Some ==> r is Ok && (r->Ok_0).basic_user@ == (
        env.username->0)@ && (r->Ok_0).basic_password@ == (env.password->0)@,
        r is Err <==> file is Unreadable && (env.username is None || env.password is None),
        r is Ok && env.username is None && first_assigned(
            file_pairs(file),
            "OPENCODE_SERVER_USERNAME"@,
        ) is Some ==> (r->Ok_0).basic_user@ == first_assigned(
            file_pairs(file),
            "OPENCODE_SERVER_USERNAME"@,
        )->0,
        r is Ok && env.password is None && first_assigned(
            file_pairs(file),
            "OPENCODE_SERVER_PASSWORD"@,
        ) is Some ==> (r->Ok_0).basic_password@ == first_assigned(
            file_pairs(file),
            "OPENCODE_SERVER_PASSWORD"@,
        )->0,
        file is Absent && env.username is None ==> r is Ok && (r->Ok_0).basic_user@.len() == 0,
        file is Absent && env.password is None ==> r is Ok && (r->Ok_0).basic_password@.len() == 0,
{
}

/// The first place where the file is there is used: the explicit one, the one beside
/// the executable, the one in the working directory. Where it is in none, the place
/// beside the executable is.
pub proof fn law_auth_file_is_the_first_there(
    explicit: Option<AuthCandidate>,
    beside_exe: Option<AuthCandidate>,
    in_cwd: AuthCandidate,
)
    ensures
        ({
            let used = auth_env_location(explicit, beside_exe, in_cwd);
            let first = explicit is Some && (explicit->0).is_file;
            let second = beside_exe is Some && (beside_exe->0).is_file;
            &&& first ==> used == (explicit->0).path@
            &&& !first && second ==> used == (beside_exe->0).path@
            &&& !first && !second && in_cwd.is_file ==> used == in_cwd.path@
            &&& !first && !second && !in_cwd.is_file && beside_exe is Some ==> used == (
            beside_exe->0).path@
            &&& !first && !second && !in_cwd.is_file && beside_exe is None ==> used
                == in_cwd.path@
        }),
{
}

/// Where the file is found, the search ended there; where it is not, every place was
/// looked at. The place that is used is always one of those.
pub proof fn law_search_ends_where_found(
    explicit: Option<AuthCandidate>,
    beside_exe: Option<AuthCandidate>,
    in_cwd: AuthCandidate,
)
    ensures
        ({
            let seen = looked_at(explicit, beside_exe, in_cwd);
            let used = auth_env_location(explicit, beside_exe, in_cwd);
            let first = explicit is Some && (explicit->0).is_file;
            let second = beside_exe is Some && (beside_exe->0).is_file;
            &&& seen.contains(used)
            &&& first || second || in_cwd.is_file ==> seen.last() == used
            &&& explicit is Some ==> seen[0] == (explicit->0).path@
            &&& !first && beside_exe is Some ==> seen.contains((beside_exe->0).path@)
            &&& !first && !second ==> seen.contains(in_cwd.path@)
        }),
{
    let seen = looked_at(explicit, beside_exe, in_cwd);
    if seen.len() > 0 {
        assert(seen.contains(seen[0]));
    }
    if seen.len() > 1 {
        assert(seen.contains(seen[1]));
    }
    if seen.len() > 2 {
        assert(seen.contains(seen[2]));
    }
}

proof fn lemma_candidate_lines(candidates: Seq<Seq<char>>, i: int)
    requires
        0 <= i < candidates.len(),
    ensures
        text::contains(candidate_lines(candidates), "  - "@ + candidates[i] + "\n"@),
    decreases candidates.len(),
{
    let front = candidates.drop_last();
    let all = candidate_lines(candidates);
    let line = "  - "@ + candidates[i] + "\n"@;
    if i == candidates.len() - 1 {
        let n = candidate_lines(front).len() as int;
        assert(all.subrange(n, n + line.len()) =~= line);
        assert(text::occurs_at(all, line, n));
    } else {
        lemma_candidate_lines(front, i);
        let before = candidate_lines(front);
        let n = choose|n: int| #[trigger] text::occurs_at(before, line, n);
        assert(all.subrange(n, n + line.len()) =~= before.subrange(n, n + line.len()));
        assert(text::occurs_at(all, line, n));
    }
}

/// The error of a missing password lists every place that was looked at, each on a
/// line of its own.
pub proof fn law_missing_password_lists_the_places(candidates: Seq<Seq<char>>, i: int)
    requires
        0 <= i < candidates.len(),
    ensures
        text::contains(candidate_lines(candidates), "  - "@ + candidates[i] + "\n"@),
        candidates.last().len() > 0 && !text::is_white(candidates.last().last())
            ==> text::ends_with(
            missing_password(candidates) + "\n"@,
            candidate_lines(candidates),
        ),
{
    lemma_candidate_lines(candidates, i);
    if candidates.last().len() > 0 && !text::is_white(candidates.last().last()) {
        reveal_strlit("\n");
        text::law_white_space('\n');
        let white = |c: char| text::is_white(c);
        let lines = candidate_lines(candidates);
        let all =
            "OPENCODE_SERVER_PASSWORD not set; set $OPENCODE_SERVER_PASSWORD in env, or create one of these files with OPENCODE_SERVER_USERNAME=... and OPENCODE_SERVER_PASSWORD=...:\n"@
            + lines;
        let cut = all.drop_last();
        assert(all.last() == '\n');
        assert(cut.last() == candidates.last().last());
        assert(text::drop_while_end(all, white) == text::drop_while_end(cut, white));
        assert(text::drop_while_end(cut, white) == cut);
        assert(missing_password(candidates) == cut);
        assert(cut + "\n"@ =~= all);
        assert(all.skip(all.len() - lines.len()) =~= lines);
    }
}

/// A file that cannot be read matters just where it is needed: where the environment
/// lacks one of the three values.
pub proof fn law_unread_file_matters_where_needed(env: AuthEnv, file: AuthFile)
    ensures
        env.username is Some && env.password is Some && env.cookie_name is Some
            ==> !reads_unreadable(env, file),
        file is Absent || file is Contents ==> !reads_unreadable(env, file),
        file is Unreadable && env.username is None ==> reads_unreadable(env, file),
        file is Unreadable && env.password is None ==> reads_unreadable(env, file),
        file is Unreadable && env.cookie_name is None ==> reads_unreadable(env, file),
{
}

} // verus!
