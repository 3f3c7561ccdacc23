//! `PathEntry`, a single record in `path-list.md`, and `PathValidator`, which
//! decides which local paths may be recorded.

use vstd::prelude::*;
use vstd::string::*;

use crate::domain::session;
use crate::domain::session::{clone_sessions, Session, SessionView};
use crate::error::{AppError, ErrorView};
use crate::host_path;
use crate::host_path::Host;
use crate::text;
use crate::time::Timestamp;

verus! {

/// A single indexed path entry.
#[derive(Debug, PartialEq, Eq)]
pub struct PathEntry {
    /// The normalized absolute path.
    pub path: String,
    /// Sessions attached to this path.
    pub sections: Vec<Session>,
    /// Creation time (immutable).
    pub created_at: Option<Timestamp>,
    /// Last-opened time (mutable).
    pub last_opened_at: Option<Timestamp>,
}

/// What a [`PathEntry`] holds.
#[verifier::ext_equal]
pub struct EntryView {
    pub path: Seq<char>,
    pub sections: Seq<SessionView>,
    pub created_at: Option<Timestamp>,
    pub last_opened_at: Option<Timestamp>,
}

impl View for PathEntry {
    type V = EntryView;

    open spec fn view(&self) -> EntryView {
        EntryView {
            path: self.path@,
            sections: session::session_views(self.sections@),
            created_at: self.created_at,
            last_opened_at: self.last_opened_at,
        }
    }
}

/// What a list of entries holds.
pub open spec fn entry_views(v: Seq<PathEntry>) -> Seq<EntryView> {
    v.map_values(|e: PathEntry| e@)
}

impl Clone for PathEntry {
    fn clone(&self) -> (r: Self)
        ensures
            r@ == self@,
    {
        PathEntry {
            path: self.path.clone(),
            sections: clone_sessions(&self.sections),
            created_at: self.created_at,
            last_opened_at: self.last_opened_at,
        }
    }
}

/// A copy of a list of entries.
pub fn clone_entries(v: &Vec<PathEntry>) -> (r: Vec<PathEntry>)
    ensures
        entry_views(r@) == entry_views(v@),
{
    let mut r: Vec<PathEntry> = Vec::new();
    let mut i: usize = 0;
    while i < v.len()
        invariant
            i <= v@.len(),
            r@.len() == i,
            forall|j: int| 0 <= j < i ==> (#[trigger] r@[j])@ == v@[j]@,
        decreases v@.len() - i,
    {
        r.push(v[i].clone());
        i = i + 1;
    }
    assert(entry_views(r@) =~= entry_views(v@));
    r
}

impl PathEntry {
    /// Construct a new entry with the given path and empty sections.
    #[must_use]
    pub fn new(path: &str) -> (r: Self)
        ensures
            r@ == (EntryView {
                path: path@,
                sections: Seq::empty(),
                created_at: None,
                last_opened_at: None,
            }),
    {
        let r = PathEntry {
            path: path.to_owned(),
            sections: Vec::new(),
            created_at: None,
            last_opened_at: None,
        };
        assert(r@.sections =~= Seq::empty());
        r
    }
}

/// The characters that a shell gives a meaning to.
pub open spec fn is_shell_meta(c: char) -> bool {
    ||| c == '$'
    ||| c == '`'
    ||| c == ';'
    ||| c == '&'
    ||| c == '|'
    ||| c == '<'
    ||| c == '>'
    ||| c == '('
    ||| c == ')'
    ||| c == '{'
    ||| c == '}'
    ||| c == '\''
    ||| c == '"'
}

fn shell_meta(c: char) -> (r: bool)
    ensures
        r == is_shell_meta(c),
{
    c == '$' || c == '`' || c == ';' || c == '&' || c == '|' || c == '<' || c == '>' || c == '('
        || c == ')' || c == '{' || c == '}' || c == '\'' || c == '"'
}

pub open spec fn is_ascii_letter(c: char) -> bool {
    ('a' <= c && c <= 'z') || ('A' <= c && c <= 'Z')
}

/// Whether a text is an absolute path on a Windows drive: a letter, `:/`, and
/// at least one more character.
pub open spec fn has_drive_prefix(s: Seq<char>) -> bool {
    s.len() >= 4 && is_ascii_letter(s[0]) && s[1] == ':' && s[2] == '/'
}

/// The form of an accepted path.
pub enum PathForm {
    /// Below the home directory: what follows `~/`.
    Home(String),
    /// Absolute: rooted at `/` or at a Windows drive.
    Absolute(String),
    /// Relative to the working directory.
    Relative(String),
}

/// What a [`PathForm`] holds.
pub enum FormView {
    Home(Seq<char>),
    Absolute(Seq<char>),
    Relative(Seq<char>),
}

impl View for PathForm {
    type V = FormView;

    open spec fn view(&self) -> FormView {
        match self {
            PathForm::Home(s) => FormView::Home(s@),
            PathForm::Absolute(s) => FormView::Absolute(s@),
            PathForm::Relative(s) => FormView::Relative(s@),
        }
    }
}

/// The machine and the directories that a path is expanded against.
#[derive(Debug)]
pub struct HostDirs {
    /// The machine whose path syntax is used.
    pub host: Host,
    /// The home directory, where it is known.
    pub home: Option<String>,
    /// The working directory, or why it is not known.
    pub cwd: Result<String, String>,
}

/// What is decided of an input path before it is expanded: its form, or why it
/// is refused. The first rule that applies decides.
pub open spec fn classified(input: Seq<char>) -> Result<FormView, ErrorView> {
    let s = text::replaced(input, '\\', '/');
    if text::contains(input, "://"@) {
        Err(ErrorView::PathValidation("path contains protocol scheme \"://\""@))
    } else if exists|i: int| 0 <= i < s.len() && is_shell_meta(#[trigger] s[i]) {
        Err(ErrorView::PathValidation("path contains shell metacharacters"@))
    } else if exists|i: int| 0 <= i < s.len() && text::is_control(#[trigger] s[i]) {
        Err(ErrorView::PathValidation("path contains control characters"@))
    } else if s == "~"@ {
        Err(
            ErrorView::PathValidation(
                "bare \"~\" refers to $HOME itself; use ~/Projects/MyApp or leave empty for default"@,
            ),
        )
    } else if text::starts_with(s, "~/"@) {
        Ok(FormView::Home(s.skip(2)))
    } else if has_drive_prefix(s) || text::starts_with(s, "/"@) {
        Ok(FormView::Absolute(s))
    } else if text::starts_with(s, "./"@) || text::starts_with(s, "../"@) {
        Ok(FormView::Relative(s))
    } else {
        Err(
            ErrorView::PathValidation(
                "path must start with /, ./, ../, ~/ or a Windows drive letter (e.g. C:/Users/foo)"@,
            ),
        )
    }
}

/// The path that a form stands for, before it is cleaned.
pub open spec fn expanded(form: FormView, dirs: HostDirs) -> Result<Seq<char>, ErrorView> {
    match form {
        FormView::Home(rest) => match dirs.home {
            Some(home) => Ok(host_path::host_joined(home@, rest, dirs.host.separator())),
            None => Err(
                ErrorView::PathValidation("cannot determine home directory for ~ expansion"@),
            ),
        },
        FormView::Absolute(s) => Ok(s),
        FormView::Relative(s) => match dirs.cwd {
            Ok(cwd) => Ok(host_path::host_joined(cwd@, s, dirs.host.separator())),
            Err(e) => Err(
                ErrorView::PathValidation("cannot determine current working directory: "@ + e@),
            ),
        },
    }
}

/// The normalized form of a cleaned path: forward slashes only.
pub open spec fn normalized(cleaned: Seq<char>) -> Seq<char> {
    text::replaced(cleaned, '\\', '/')
}

/// The path that an input stands for, before it is cleaned, or why it is
/// refused.
pub open spec fn resolved(input: Seq<char>, dirs: HostDirs) -> Result<Seq<char>, ErrorView> {
    match classified(input) {
        Ok(form) => expanded(form, dirs),
        Err(e) => Err(e),
    }
}

/// The validated form of an input: what it resolves to, cleaned as the host
/// cleans paths, in forward slashes; or why it is refused.
pub open spec fn validated(input: Seq<char>, dirs: HostDirs) -> Result<Seq<char>, ErrorView> {
    match resolved(input, dirs) {
        Ok(raw) => Ok(normalized(host_path::host_cleaned(raw, dirs.host.separator()))),
        Err(e) => Err(e),
    }
}

/// Returns true if `input` looks like an absolute path on a Windows drive, i.e.
/// a letter, `:`, `/` and at least one more character, so that a bare `C:`
/// (which is ambiguous between "current dir on C:" and "drive root") does not
/// count.
pub fn is_windows_drive_prefix(input: &str) -> (r: bool)
    ensures
        r == has_drive_prefix(input@),
{
    let cs: Vec<char> = text::chars_of(input);
    cs.len() >= 4 && (('a' <= cs[0] && cs[0] <= 'z') || ('A' <= cs[0] && cs[0] <= 'Z')) && cs[1]
        == ':' && cs[2] == '/'
}

/// Whether some character of `s` is a shell metacharacter.
fn any_shell_meta(s: &str) -> (r: bool)
    ensures
        r == exists|i: int| 0 <= i < s@.len() && is_shell_meta(#[trigger] s@[i]),
{
    let cs: Vec<char> = text::chars_of(s);
    let mut i: usize = 0;
    while i < cs.len()
        invariant
            i <= cs@.len(),
            cs@ == s@,
            forall|j: int| 0 <= j < i ==> !is_shell_meta(#[trigger] cs@[j]),
        decreases cs@.len() - i,
    {
        if shell_meta(cs[i]) {
            assert(is_shell_meta(s@[i as int]));
            return true;
        }
        i = i + 1;
    }
    false
}

/// Whether some character of `s` is a control character.
fn any_control(s: &str) -> (r: bool)
    ensures
        r == exists|i: int| 0 <= i < s@.len() && text::is_control(#[trigger] s@[i]),
{
    let cs: Vec<char> = text::chars_of(s);
    let mut i: usize = 0;
    while i < cs.len()
        invariant
            i <= cs@.len(),
            cs@ == s@,
            forall|j: int| 0 <= j < i ==> !text::is_control(#[trigger] cs@[j]),
        decreases cs@.len() - i,
    {
        if text::control(cs[i]) {
            assert(text::is_control(s@[i as int]));
            return true;
        }
        i = i + 1;
    }
    false
}

fn refused(message: &str) -> (r: AppError)
    ensures
        r@ == ErrorView::PathValidation(message@),
{
    AppError::PathValidation(message.to_owned())
}

/// Validates and normalizes user-supplied local paths.
///
/// Windows-style paths (`C:\Users\foo`) are accepted and normalized to POSIX
/// form (`C:/Users/foo`), so the output is always in forward slashes.
#[derive(Debug)]
pub struct PathValidator;

impl PathValidator {
    /// Decides the form of `input`, or why it is refused.
    pub fn classify(input: &str) -> (r: Result<PathForm, AppError>)
        ensures
            match r {
                Ok(f) => classified(input@) == Ok::<FormView, ErrorView>(f@),
                Err(e) => classified(input@) == Err::<FormView, ErrorView>(e@),
            },
    {
        // Protocol scheme (e.g. http://, file://): never a local path.
        if text::has(input, "://") {
            return Err(refused("path contains protocol scheme \"://\""));
        }
        let s: String = text::replace_char(input, '\\', '/');
        let input: &str = s.as_str();
        if any_shell_meta(input) {
            return Err(refused("path contains shell metacharacters"));
        }
        if any_control(input) {
            return Err(refused("path contains control characters"));
        }
        // A bare `~` would record the home directory itself.
        if text::same(input, "~") {
            return Err(
                refused(
                    "bare \"~\" refers to $HOME itself; use ~/Projects/MyApp or leave empty for default",
                ),
            );
        }
        proof {
            reveal_strlit("~/");
        }
        if let Some(rest) = text::after_prefix(input, "~/") {
            return Ok(PathForm::Home(rest));
        }
        if is_windows_drive_prefix(input) || text::has_prefix(input, "/") {
            return Ok(PathForm::Absolute(s));
        }
        if text::has_prefix(input, "./") || text::has_prefix(input, "../") {
            return Ok(PathForm::Relative(s));
        }
        Err(
            refused(
                "path must start with /, ./, ../, ~/ or a Windows drive letter (e.g. C:/Users/foo)",
            ),
        )
    }

    /// Expands a form against the host's directories.
    pub fn expand(form: PathForm, dirs: &HostDirs) -> (r: Result<String, AppError>)
        ensures
            match r {
                Ok(p) => expanded(form@, *dirs) == Ok::<Seq<char>, ErrorView>(p@),
                Err(e) => expanded(form@, *dirs) == Err::<Seq<char>, ErrorView>(e@),
            },
    {
        match form {
            PathForm::Home(rest) => match &dirs.home {
                Some(home) => Ok(host_path::join(dirs.host, home.as_str(), rest.as_str())),
                None => Err(refused("cannot determine home directory for ~ expansion")),
            },
            PathForm::Absolute(s) => Ok(s),
            PathForm::Relative(s) => match &dirs.cwd {
                Ok(cwd) => Ok(host_path::join(dirs.host, cwd.as_str(), s.as_str())),
                Err(e) => {
                    let mut m: String = "cannot determine current working directory: ".to_owned();
                    m.append(e.as_str());
                    Err(AppError::PathValidation(m))
                },
            },
        }
    }

    /// The normalized form of a cleaned path.
    pub fn normalize(cleaned: &str) -> (r: String)
        ensures
            r@ == normalized(cleaned@),
            forall|i: int| 0 <= i < r@.len() ==> r@[i] != '\\',
    {
        text::replace_char(cleaned, '\\', '/')
    }

    /// Validate `input` and return its normalized absolute form.
    ///
    /// Windows-style backslashes in `input` are converted to forward slashes;
    /// the output is always POSIX. Bare `~` is rejected; `~/<subpath>` is
    /// expanded to the home directory. Paths starting with `./` or `../` are
    /// resolved against the working directory. The result is lexically cleaned.
    ///
    /// # Errors
    /// Returns [`AppError::PathValidation`] if the path fails a rejection rule,
    /// or if the directory that it is relative to is not known.
    pub fn validate(input: &str, dirs: &HostDirs) -> (r: Result<String, AppError>)
        ensures
            match r {
                Ok(p) => {
                    &&& validated(input@, *dirs) == Ok::<Seq<char>, ErrorView>(p@)
                    &&& forall|i: int| 0 <= i < p@.len() ==> p@[i] != '\\'
                },
                Err(e) => validated(input@, *dirs) == Err::<Seq<char>, ErrorView>(e@),
            },
    {
        let form: PathForm = match PathValidator::classify(input) {
            Ok(f) => f,
            Err(e) => {
                return Err(e);
            },
        };
        let raw: String = match PathValidator::expand(form, dirs) {
            Ok(p) => p,
            Err(e) => {
                return Err(e);
            },
        };
        assert(resolved(input@, *dirs) == Ok::<Seq<char>, ErrorView>(raw@));
        let cleaned: String = host_path::clean(dirs.host, raw.as_str());
        Ok(PathValidator::normalize(cleaned.as_str()))
    }
}

/// On a host that separates paths with `/`, validating a validated path gives it
/// back: where it is accepted as an absolute path, and cleaning left no
/// backslash of a directory's own name in it.
pub proof fn law_validating_again_changes_nothing(input: Seq<char>, dirs: HostDirs)
    requires
        dirs.host.separator() == '/',
        validated(input, dirs) is Ok,
        classified(validated(input, dirs)->Ok_0) is Ok,
        classified(validated(input, dirs)->Ok_0)->Ok_0 is Absolute,
        text::has_no(host_path::posix_cleaned(resolved(input, dirs)->Ok_0), '\\'),
    ensures
        validated(validated(input, dirs)->Ok_0, dirs) == validated(input, dirs),
{
    let raw = resolved(input, dirs)->Ok_0;
    let cleaned = host_path::posix_cleaned(raw);
    assert(normalized(cleaned) =~= cleaned);
    host_path::law_cleaning_twice_is_cleaning_once(raw);
}

/// The characters that a path may not hold are the ones that a shell gives a
/// meaning to, and no others: letters, digits, blanks and the like are fine.
pub proof fn law_shell_characters(c: char)
    ensures
        is_shell_meta(c) <==> "$`;&|<>(){}'\""@.contains(c),
{
    reveal_strlit("$`;&|<>(){}'\"");
    let meta = "$`;&|<>(){}'\""@;
    assert(meta[0] == '$' && meta[1] == '`' && meta[2] == ';' && meta[3] == '&' && meta[4] == '|');
    assert(meta[5] == '<' && meta[6] == '>' && meta[7] == '(' && meta[8] == ')' && meta[9] == '{');
    assert(meta[10] == '}' && meta[11] == '\'' && meta[12] == '"');
    assert(meta.len() == 13);
}

/// An absolute path is accepted whenever it holds no `://`, no control character
/// and none of the shell's characters; so is one that starts with `./` or
/// `../`, and one behind `~/`.
pub proof fn law_ordinary_paths_are_accepted(input: Seq<char>, dirs: HostDirs)
    requires
        forall|i: int|
            0 <= i < input.len() ==> !"$`;&|<>(){}'\""@.contains(#[trigger] input[i]) && !((
            input[i] as u32) < 0x20 || 0x7f <= input[i] as u32 <= 0x9f),
        forall|i: int|
            0 <= i < input.len() - 2 ==> !((#[trigger] input[i]) == ':' && input[i + 1] == '/'
                && input[i + 2] == '/'),
    ensures
        input.len() > 0 && input[0] == '/' ==> validated(input, dirs) is Ok,
        input.len() > 3 && ('a' <= input[0] <= 'z' || 'A' <= input[0] <= 'Z') && input[1] == ':'
            && (input[2] == '/' || input[2] == '\\') ==> validated(input, dirs) is Ok,
        input.len() > 1 && input[0] == '.' && input[1] == '/' && dirs.cwd is Ok ==> validated(
            input,
            dirs,
        ) is Ok,
        input.len() > 2 && input[0] == '.' && input[1] == '.' && input[2] == '/' && dirs.cwd is Ok
            ==> validated(input, dirs) is Ok,
        input.len() > 1 && input[0] == '~' && input[1] == '/' && dirs.home is Some ==> validated(
            input,
            dirs,
        ) is Ok,
{
    reveal_strlit("://");
    reveal_strlit("~");
    reveal_strlit("~/");
    reveal_strlit("/");
    reveal_strlit("./");
    reveal_strlit("../");
    let s = text::replaced(input, '\\', '/');
    assert(!text::contains(input, "://"@)) by {
        if text::contains(input, "://"@) {
            let i = choose|i: int| #[trigger] text::occurs_at(input, "://"@, i);
            let sub = input.subrange(i, i + 3);
            assert(sub[0] == input[i] && sub[1] == input[i + 1] && sub[2] == input[i + 2]);
            assert(input[i] == ':');
        }
    }
    assert forall|i: int| 0 <= i < s.len() implies !is_shell_meta(#[trigger] s[i])
        && !text::is_control(s[i]) by {
        let c = input[i];
        law_shell_characters(c);
        assert(s[i] == c || s[i] == '/');
    }
    assert(s == "~"@ ==> s[0] == '~');
    assert(text::starts_with(s, "~/"@) ==> s[0] == '~') by {
        if text::starts_with(s, "~/"@) {
            assert(s.take(2)[0] == s[0]);
        }
    }
    if input.len() > 0 && input[0] == '/' {
        assert(s.take(1) =~= "/"@);
    }
    if input.len() > 1 && input[0] == '.' && input[1] == '/' {
        assert(s.take(2) =~= "./"@);
    }
    if input.len() > 2 && input[0] == '.' && input[1] == '.' && input[2] == '/' {
        assert(s.take(3) =~= "../"@);
    }
    if input.len() > 1 && input[0] == '~' && input[1] == '/' {
        assert(s.take(2) =~= "~/"@);
        assert(s.len() != "~"@.len());
    }
    if input.len() > 3 && input[1] == ':' {
        assert(s[0] == input[0] || input[0] == '\\');
    }
}

/// A path is refused if it holds `://`, a control character or one of the
/// shell's characters, if it is empty or a bare `~`, and if it starts with
/// neither a slash, nor a drive, nor a dot, nor `~`.
pub proof fn law_other_paths_are_refused(input: Seq<char>, dirs: HostDirs, i: int)
    ensures
        0 <= i < input.len() - 2 && input[i] == ':' && input[i + 1] == '/' && input[i + 2] == '/'
            ==> validated(input, dirs) is Err && validated(input, dirs)->Err_0 is PathValidation,
        0 <= i < input.len() && "$`;&|<>(){}'\""@.contains(input[i]) ==> validated(
            input,
            dirs,
        ) is Err && validated(input, dirs)->Err_0 is PathValidation,
        0 <= i < input.len() && text::is_control(input[i]) ==> validated(input, dirs) is Err
            && validated(input, dirs)->Err_0 is PathValidation,
        input.len() == 0 || input == seq!['~'] ==> validated(input, dirs) is Err && validated(
            input,
            dirs,
        )->Err_0 is PathValidation,
        input.len() > 0 && !(input[0] == '/' || input[0] == '\\' || input[0] == '.' || input[0]
            == '~') && !(input.len() > 3 && input[1] == ':') ==> validated(input, dirs) is Err
            && validated(input, dirs)->Err_0 is PathValidation,
        input.len() > 1 && (input[0] == '.' || input[0] == '~') && input[1] != '/' && input[1]
            != '\\' && input[1] != '.' ==> validated(input, dirs) is Err && validated(
            input,
            dirs,
        )->Err_0 is PathValidation,
{
    reveal_strlit("://");
    reveal_strlit("~");
    reveal_strlit("~/");
    reveal_strlit("/");
    reveal_strlit("./");
    reveal_strlit("../");
    let s = text::replaced(input, '\\', '/');
    if 0 <= i < input.len() - 2 && input[i] == ':' && input[i + 1] == '/' && input[i + 2] == '/' {
        assert(input.subrange(i, i + 3) =~= "://"@);
        assert(text::occurs_at(input, "://"@, i));
    }
    if 0 <= i < input.len() {
        law_shell_characters(input[i]);
        assert(input[i] != '\\' ==> s[i] == input[i]);
        assert(is_shell_meta(input[i]) ==> is_shell_meta(s[i]));
        assert(text::is_control(input[i]) ==> text::is_control(s[i]));
    }
    if input == seq!['~'] {
        assert(s =~= "~"@);
    }
    if s.len() > 0 {
        assert(text::starts_with(s, "/"@) ==> s.take(1)[0] == '/');
        assert(text::starts_with(s, "~/"@) ==> s.take(2)[0] == '~' && s.take(2)[1] == '/');
        assert(text::starts_with(s, "./"@) ==> s.take(2)[0] == '.' && s.take(2)[1] == '/');
        assert(text::starts_with(s, "../"@) ==> s.take(3)[0] == '.' && s.take(3)[1] == '.');
    }
}

/// What is typed behind `~/` is taken from the home directory: it is the path
/// that stands for the home directory, a slash and the rest.
pub proof fn law_home_is_expanded(rest: Seq<char>, dirs: HostDirs)
    requires
        dirs.host.separator() == '/',
        dirs.home is Some,
        dirs.home->0@.len() > 1,
        dirs.home->0@[0] == '/',
        dirs.home->0@.last() != '/',
        text::has_no(dirs.home->0@, '\\'),
        rest.len() > 0 ==> rest[0] != '/' && rest[0] != '\\',
        validated("~/"@ + rest, dirs) is Ok,
        validated(dirs.home->0@ + "/"@ + rest, dirs) is Ok,
    ensures
        validated("~/"@ + rest, dirs) == validated(dirs.home->0@ + "/"@ + rest, dirs),
{
    reveal_strlit("~");
    reveal_strlit("~/");
    reveal_strlit("/");
    let h = dirs.home->0@;
    let short = "~/"@ + rest;
    let long = h + "/"@ + rest;
    let s = text::replaced(short, '\\', '/');
    let l = text::replaced(long, '\\', '/');
    assert(s.take(2) =~= "~/"@);
    assert(s.len() != "~"@.len());
    assert(l.take(1) =~= "/"@);
    assert(l[0] == '/');
    assert(!text::starts_with(l, "~/"@)) by {
        assert(l.take(2)[0] == '/');
    }
    assert(s.skip(2).len() > 0 ==> s.skip(2)[0] == rest[0]);
    assert(h + seq!['/'] + s.skip(2) =~= l);
}

/// A path that starts with a dot is taken from the working directory: it is the
/// path that stands for that directory, a slash and the path as it was typed.
pub proof fn law_relative_paths_are_expanded(input: Seq<char>, dirs: HostDirs)
    requires
        dirs.host.separator() == '/',
        dirs.cwd is Ok,
        dirs.cwd->Ok_0@.len() > 1,
        dirs.cwd->Ok_0@[0] == '/',
        dirs.cwd->Ok_0@.last() != '/',
        text::has_no(dirs.cwd->Ok_0@, '\\'),
        input.len() > 0,
        input[0] == '.',
        validated(input, dirs) is Ok,
        validated(dirs.cwd->Ok_0@ + "/"@ + input, dirs) is Ok,
    ensures
        validated(input, dirs) == validated(dirs.cwd->Ok_0@ + "/"@ + input, dirs),
{
    reveal_strlit("~");
    reveal_strlit("~/");
    reveal_strlit("/");
    let h = dirs.cwd->Ok_0@;
    let long = h + "/"@ + input;
    let s = text::replaced(input, '\\', '/');
    let l = text::replaced(long, '\\', '/');
    assert(s[0] == '.');
    assert(!text::starts_with(s, "~/"@)) by {
        if s.len() >= 2 {
            assert(s.take(2)[0] == '.');
        }
    }
    assert(!text::starts_with(s, "/"@)) by {
        assert(s.take(1)[0] == '.');
    }
    assert(l.take(1) =~= "/"@);
    assert(l[0] == '/');
    assert(!text::starts_with(l, "~/"@)) by {
        assert(l.take(2)[0] == '/');
    }
    assert(h + seq!['/'] + s =~= l);
}

/// Slashes and backslashes in a typed path are alike.
pub proof fn law_backslashes_are_slashes(input: Seq<char>, dirs: HostDirs)
    requires
        validated(input, dirs) is Ok,
        validated(text::replaced(input, '\\', '/'), dirs) is Ok,
    ensures
        validated(text::replaced(input, '\\', '/'), dirs) == validated(input, dirs),
{
    let s = text::replaced(input, '\\', '/');
    assert(text::replaced(s, '\\', '/') =~= s);
}

/// The validated form of an absolute path on a host that separates paths with
/// `/` is what is left of it once it is cleaned, in forward slashes; it starts at
/// the root and holds no backslash.
pub proof fn law_validated_paths_are_absolute(input: Seq<char>, dirs: HostDirs)
    requires
        dirs.host.separator() == '/',
        input.len() > 0,
        input[0] == '/' || input[0] == '\\',
        validated(input, dirs) is Ok,
    ensures
        validated(input, dirs)->Ok_0.len() > 0,
        validated(input, dirs)->Ok_0[0] == '/',
        forall|i: int|
            0 <= i < validated(input, dirs)->Ok_0.len() ==> #[trigger] validated(
                input,
                dirs,
            )->Ok_0[i] != '\\',
{
    reveal_strlit("~/");
    reveal_strlit("/");
    reveal_strlit("./");
    reveal_strlit("../");
    let s = text::replaced(input, '\\', '/');
    assert(s[0] == '/');
    assert(s.take(1) =~= "/"@);
    assert(!text::starts_with(s, "~/"@)) by {
        if s.len() >= 2 {
            assert(s.take(2)[0] == '/');
        }
    }
    host_path::law_cleaning_twice_is_cleaning_once(s);
}

/// A letter, a colon, a slash and something more are a path on a drive; nothing else
/// is.
pub proof fn law_drive_paths_start_with_a_letter(letter: char, rest: Seq<char>, s: Seq<char>)
    ensures
        rest.len() > 0 && (0x41 <= letter as u32 <= 0x5a || 0x61 <= letter as u32 <= 0x7a)
            ==> has_drive_prefix(seq![letter, ':', '/'] + rest),
        !(0x41 <= letter as u32 <= 0x5a || 0x61 <= letter as u32 <= 0x7a) ==> !has_drive_prefix(
            seq![letter, ':', '/'] + rest,
        ),
        !has_drive_prefix(seq![letter, ':', '/']),
        s.len() >= 2 && s[1] != ':' ==> !has_drive_prefix(s),
        s.len() >= 3 && s[2] != '/' ==> !has_drive_prefix(s),
        s.len() < 4 ==> !has_drive_prefix(s),
{
}

} // verus!
