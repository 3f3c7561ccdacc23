//! `GET /session` and `POST /api/session`: session listing and creation.

use vstd::prelude::*;
use vstd::string::*;

use crate::domain::path_entry;
use crate::domain::path_entry::{EntryView, PathEntry};
use crate::domain::session;
use crate::domain::session::{clone_sessions, CreateSessionRequest, Session, SessionView};
use crate::error::{glued, AppError, ErrorView};
use crate::storage::merge;
use crate::storage::sync;
use crate::text;
use crate::time::Timestamp;

verus! {

/// `GET /session?directory=<path>` query params.
#[derive(Debug)]
pub struct SessionQuery {
    /// Absolute path of the project directory.
    pub directory: String,
}

/// The first entry of a directory.
pub open spec fn entry_of(entries: Seq<EntryView>, directory: Seq<char>) -> Option<EntryView>
    decreases entries.len(),
{
    if entries.len() == 0 {
        None
    } else if entries[0].path == directory {
        Some(entries[0])
    } else {
        entry_of(entries.skip(1), directory)
    }
}

/// The sessions attached to a project directory.
///
/// # Errors
/// Returns [`AppError::NotFound`] when the directory is not listed.
pub fn list_sessions(entries: &Vec<PathEntry>, query: &SessionQuery) -> (r: Result<
    Vec<Session>,
    AppError,
>)
    ensures
        match entry_of(path_entry::entry_views(entries@), query.directory@) {
            Some(e) => r matches Ok(v) && session::session_views(v@) == e.sections,
            None => r matches Err(f) && f@ == ErrorView::NotFound,
        },
{
    let ghost vs = path_entry::entry_views(entries@);
    let mut i: usize = 0;
    assert(vs.skip(0) =~= vs);
    while i < entries.len()
        invariant
            i <= entries@.len(),
            vs == path_entry::entry_views(entries@),
            entry_of(vs, query.directory@) == entry_of(vs.skip(i as int), query.directory@),
        decreases entries@.len() - i,
    {
        assert(vs.skip(i as int)[0] == entries@[i as int]@);
        assert(vs.skip(i as int).skip(1) =~= vs.skip(i + 1));
        if text::same(entries[i].path.as_str(), query.directory.as_str()) {
            return Ok(clone_sessions(&entries[i].sections));
        }
        i = i + 1;
    }
    Err(AppError::NotFound)
}

pub open spec fn is_lower_hex(c: char) -> bool {
    text::is_digit(c) || ('a' <= c && c <= 'f')
}

/// `uuid::Uuid::new_v4` in its simple form: 32 lower-case hexadecimal digits.
/// Which ones is left to chance.
#[verifier::external_body]
fn random_uuid() -> (r: String)
    ensures
        r@.len() == 32,
        forall|i: int| 0 <= i < r@.len() ==> is_lower_hex(#[trigger] r@[i]),
{
    uuid::Uuid::new_v4().simple().to_string()
}

/// A new session id: `ses_` and 32 hexadecimal digits.
#[must_use]
pub fn new_session_id() -> (r: String)
    ensures
        r@.len() == 36,
        text::starts_with(r@, "ses_"@),
        forall|i: int| 4 <= i < r@.len() ==> is_lower_hex(#[trigger] r@[i]),
{
    proof {
        reveal_strlit("ses_");
    }
    let u: String = random_uuid();
    let r: String = glued("ses_", u.as_str());
    assert(r@.take(4) =~= "ses_"@);
    assert forall|i: int| 4 <= i < r@.len() implies is_lower_hex(#[trigger] r@[i]) by {
        assert(r@[i] == u@[i - 4]);
    }
    r
}

/// The title of a session that was created without one.
pub open spec fn default_title(now_secs: int) -> Seq<char> {
    "TUI-Launched-"@ + text::signed_decimal(now_secs)
}

/// The title of a session that was created without one, at a time in Unix
/// seconds.
#[must_use]
pub fn launched_title(now_secs: i64) -> (r: String)
    ensures
        r@ == default_title(now_secs as int),
{
    let n: String = text::to_signed_decimal(now_secs);
    glued("TUI-Launched-", n.as_str())
}

/// The session of an id that is created now, with the title and in the directory
/// that were asked for, if any.
pub open spec fn session_made(
    title: Option<Seq<char>>,
    directory: Option<Seq<char>>,
    default_dir: Seq<char>,
    id: Seq<char>,
    now: Timestamp,
) -> SessionView {
    SessionView {
        id,
        title: match title {
            Some(t) => t,
            None => default_title(now.secs as int),
        },
        directory: match directory {
            Some(d) => d,
            None => default_dir,
        },
        created_at: now,
        updated_at: now,
    }
}

/// The session that a request creates: in the directory that it names or else
/// the default one, with its title or else a generated one, created and updated
/// now.
#[must_use]
pub fn create_session(
    req: &CreateSessionRequest,
    default_dir: &str,
    session_id: &str,
    now: Timestamp,
) -> (r: Session)
    ensures
        r@ == session_made(
            match req.title {
                Some(t) => Some(t@),
                None => None,
            },
            match req.location {
                Some(l) => Some(l.directory@),
                None => None,
            },
            default_dir@,
            session_id@,
            now,
        ),
{
    let dir: String = match &req.location {
        Some(l) => l.directory.clone(),
        None => default_dir.to_owned(),
    };
    let title: String = match &req.title {
        Some(t) => t.clone(),
        None => launched_title(now.secs),
    };
    Session::new(session_id, title.as_str(), dir.as_str(), now)
}

proof fn lemma_entry_of(entries: Seq<EntryView>, directory: Seq<char>, i: int)
    requires
        0 <= i < entries.len(),
        entries[i].path == directory,
        forall|j: int| 0 <= j < i ==> (#[trigger] entries[j]).path != directory,
    ensures
        entry_of(entries, directory) == Some(entries[i]),
    decreases i,
{
    if i > 0 {
        let rest = entries.skip(1);
        assert(entries[0].path != directory);
        assert(rest[i - 1] == entries[i]);
        assert forall|j: int| 0 <= j < i - 1 implies (#[trigger] rest[j]).path != directory by {
            assert(rest[j] == entries[j + 1]);
        }
        lemma_entry_of(rest, directory, i - 1);
    }
}

proof fn lemma_entry_of_member(entries: Seq<EntryView>, directory: Seq<char>)
    requires
        entry_of(entries, directory) is Some,
    ensures
        merge::has_path(entries, directory),
    decreases entries.len(),
{
    if entries[0].path != directory {
        let rest = entries.skip(1);
        lemma_entry_of_member(rest, directory);
        let i = choose|i: int| 0 <= i < rest.len() && (#[trigger] rest[i]).path == directory;
        assert(entries[i + 1].path == directory);
    }
}

/// A session that was appended to a directory is listed for it: the list has a
/// session of its id that is no older, and every id that it had before.
pub proof fn law_appended_session_is_listed(
    entries: Seq<EntryView>,
    directory: Seq<char>,
    new: SessionView,
    now: Timestamp,
)
    ensures
        entry_of(sync::synced(entries, directory, seq![new], now), directory) matches Some(e)
            && merge::covers(e.sections, new) && forall|id: Seq<char>|
            entry_of(entries, directory) is Some && #[trigger] merge::has_id(
                entry_of(entries, directory)->0.sections,
                id,
            ) ==> merge::has_id(e.sections, id),
{
    let after = sync::synced(entries, directory, seq![new], now);
    sync::lemma_path_at(entries, directory);
    match sync::path_at(entries, directory) {
        Some(i) => {
            lemma_entry_of(entries, directory, i);
            assert forall|j: int| 0 <= j < i implies (#[trigger] after[j]).path != directory by {
                assert(after[j] == entries[j]);
            }
            lemma_entry_of(after, directory, i);
            assert(seq![new].drop_last() =~= Seq::<SessionView>::empty());
            reveal_with_fuel(merge::with_sections, 2);
            assert(after[i].sections == merge::with_section(entries[i].sections, new));
            merge::lemma_with_section_keeps(entries[i].sections, new);
        },
        None => {
            assert forall|j: int| 0 <= j < entries.len() implies (#[trigger] after[j]).path
                != directory by {
                assert(after[j] == entries[j]);
            }
            lemma_entry_of(after, directory, entries.len() as int);
            assert(seq![new].drop_last() =~= Seq::<SessionView>::empty());
            reveal_with_fuel(merge::with_sections, 2);
            merge::lemma_with_section_keeps(Seq::<SessionView>::empty(), new);
            if entry_of(entries, directory) is Some {
                lemma_entry_of_member(entries, directory);
            }
        },
    }
}

/// The first entry of a directory is the one that is listed; a directory that no
/// entry has is not found.
pub proof fn law_first_entry_of_a_directory(
    entries: Seq<EntryView>,
    directory: Seq<char>,
    i: int,
)
    ensures
        0 <= i < entries.len() && entries[i].path == directory && (forall|j: int|
            0 <= j < i ==> (#[trigger] entries[j]).path != directory) ==> entry_of(
            entries,
            directory,
        ) == Some(entries[i]),
        (forall|j: int| 0 <= j < entries.len() ==> (#[trigger] entries[j]).path != directory)
            ==> entry_of(entries, directory) is None,
{
    if 0 <= i < entries.len() && entries[i].path == directory && (forall|j: int|
        0 <= j < i ==> (#[trigger] entries[j]).path != directory) {
        lemma_entry_of(entries, directory, i);
    }
    if forall|j: int| 0 <= j < entries.len() ==> (#[trigger] entries[j]).path != directory {
        if entry_of(entries, directory) is Some {
            lemma_entry_of_member(entries, directory);
        }
    }
}

/// A generated title tells the time: two of one title were made in the same second.
pub proof fn law_default_title_tells_the_time(now: i32)
    ensures
        text::starts_with(default_title(now as int), "TUI-Launched-"@),
        text::parsed_i32(default_title(now as int).skip("TUI-Launched-"@.len() as int)) == Some(
            now as int,
        ),
{
    let t = default_title(now as int);
    let head = "TUI-Launched-"@;
    text::law_signed_decimal_reads_back(now);
    assert(t.take(head.len() as int) =~= head);
    assert(t.skip(head.len() as int) =~= text::signed_decimal(now as int));
}

/// A session has the title and the directory that were asked for, and else a title
/// that tells the time and the default directory; it was created and updated when it
/// was made.
pub proof fn law_session_is_made_as_asked_for(
    title: Seq<char>,
    directory: Seq<char>,
    default_dir: Seq<char>,
    id: Seq<char>,
    now: Timestamp,
)
    ensures
        ({
            let asked = session_made(Some(title), Some(directory), default_dir, id, now);
            let bare = session_made(None, None, default_dir, id, now);
            &&& asked.title == title && asked.directory == directory && asked.id == id
            &&& bare.directory == default_dir && bare.id == id
            &&& text::ends_with(bare.title, text::signed_decimal(now.secs as int))
            &&& asked.created_at == now && asked.updated_at == now
            &&& bare.created_at == now && bare.updated_at == now
        }),
{
    let d = text::signed_decimal(now.secs as int);
    let t = default_title(now.secs as int);
    assert(t.skip(t.len() - d.len()) =~= d);
}

} // verus!
