//! Session domain types: stored as elements in `PathEntry.sections` and
//! returned by the `GET /session` HTTP endpoint.

use vstd::prelude::*;

use crate::time::Timestamp;

verus! {

/// A single opencode session (or section attached to a path).
#[derive(Debug, PartialEq, Eq)]
pub struct Session {
    /// Unique session id (e.g. `ses_<22 base62 chars>`).
    pub id: String,
    /// Human-readable session title.
    pub title: String,
    /// Absolute path to the session's working directory.
    pub directory: String,
    /// When the session was created.
    pub created_at: Timestamp,
    /// When the session was last updated.
    pub updated_at: Timestamp,
}

/// What a [`Session`] holds.
#[verifier::ext_equal]
pub struct SessionView {
    pub id: Seq<char>,
    pub title: Seq<char>,
    pub directory: Seq<char>,
    pub created_at: Timestamp,
    pub updated_at: Timestamp,
}

impl View for Session {
    type V = SessionView;

    open spec fn view(&self) -> SessionView {
        SessionView {
            id: self.id@,
            title: self.title@,
            directory: self.directory@,
            created_at: self.created_at,
            updated_at: self.updated_at,
        }
    }
}

/// What a list of sessions holds.
pub open spec fn session_views(v: Seq<Session>) -> Seq<SessionView> {
    v.map_values(|s: Session| s@)
}

impl Clone for Session {
    fn clone(&self) -> (r: Self)
        ensures
            r@ == self@,
    {
        Session {
            id: self.id.clone(),
            title: self.title.clone(),
            directory: self.directory.clone(),
            created_at: self.created_at,
            updated_at: self.updated_at,
        }
    }
}

/// A copy of a list of sessions.
pub fn clone_sessions(v: &Vec<Session>) -> (r: Vec<Session>)
    ensures
        session_views(r@) == session_views(v@),
{
    let mut r: Vec<Session> = Vec::new();
    let mut i: usize = 0;
    while i < v.len()
        invariant
            i <= v@.len(),
            r@.len() == i,
            forall|j: int| 0 <= j < i ==> (#[trigger] r@[j])@ == v@[j]@,
        decreases v@.len() - i,
    {
        r.push(v[i].clone());
        i = i + 1;
    }
    assert(session_views(r@) =~= session_views(v@));
    r
}

impl Session {
    /// Build a new session with both timestamps set to `now`.
    #[must_use]
    pub fn new(id: &str, title: &str, directory: &str, now: Timestamp) -> (r: Self)
        ensures
            r@ == (SessionView {
                id: id@,
                title: title@,
                directory: directory@,
                created_at: now,
                updated_at: now,
            }),
    {
        Session {
            id: id.to_owned(),
            title: title.to_owned(),
            directory: directory.to_owned(),
            created_at: now,
            updated_at: now,
        }
    }
}

/// Request body for `POST /api/session`.
#[derive(Debug)]
pub struct CreateSessionRequest {
    /// Optional session title; the server generates one if omitted.
    pub title: Option<String>,
    /// Optional location override; the server falls back to the configured
    /// default directory if omitted.
    pub location: Option<Location>,
}

/// Spatial location of a session.
#[derive(Debug)]
pub struct Location {
    /// Absolute path to the session's working directory.
    pub directory: String,
}

/// Response body for `POST /api/session` in its short form.
#[derive(Debug)]
pub struct CreateSessionResponse {
    /// The created session descriptor.
    pub data: SessionData,
}

/// Minimal session descriptor returned to clients after creation.
#[derive(Debug)]
pub struct SessionData {
    /// The newly created session id.
    pub id: String,
    /// Resolved session title.
    pub title: String,
    /// Resolved working directory.
    pub directory: String,
}

impl CreateSessionResponse {
    /// The short descriptor of a created session.
    #[must_use]
    pub fn of(session: &Session) -> (r: Self)
        ensures
            r.data.id@ == session@.id,
            r.data.title@ == session@.title,
            r.data.directory@ == session@.directory,
    {
        CreateSessionResponse {
            data: SessionData {
                id: session.id.clone(),
                title: session.title.clone(),
                directory: session.directory.clone(),
            },
        }
    }
}

} // verus!
