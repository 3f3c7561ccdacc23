//! `Project` domain type: the shape of `GET /project`.

use vstd::prelude::*;

use crate::domain::path_entry::{EntryView, PathEntry};
use crate::domain::session;
use crate::domain::session::Session;
use crate::host_path;
use crate::host_path::Host;

verus! {

/// A project known to opencode serve, made from a [`PathEntry`].
#[derive(Debug)]
pub struct Project {
    /// Stable project id (uses the absolute path as the unique key).
    pub id: String,
    /// Absolute path to the project directory.
    pub path: String,
    /// Human-readable project name (basename of the path).
    pub name: String,
    /// Sessions belonging to this project.
    pub sessions: Vec<Session>,
}

/// The name of the project at a path: its base name, or the whole path where
/// it has none.
pub open spec fn project_name(path: Seq<char>, sep: char) -> Seq<char> {
    match host_path::host_base_name(path, sep) {
        Some(n) => n,
        None => path,
    }
}

/// Whether `p` is the project of an entry: known by its path, with the entry's
/// sessions.
pub open spec fn is_project_of(p: Project, entry: EntryView, sep: char) -> bool {
    &&& p.id@ == entry.path
    &&& p.path@ == entry.path
    &&& p.name@ == project_name(entry.path, sep)
    &&& session::session_views(p.sessions@) == entry.sections
}

impl Project {
    /// The project of a path entry.
    #[must_use]
    pub fn from_entry(host: Host, entry: PathEntry) -> (r: Self)
        ensures
            is_project_of(r, entry@, host.separator()),
    {
        let name: String = match host_path::base_name(host, entry.path.as_str()) {
            Some(n) => n,
            None => entry.path.clone(),
        };
        Project { id: entry.path.clone(), path: entry.path, name, sessions: entry.sections }
    }
}

/// The projects of a path list, in its order, with their sessions.
#[must_use]
pub fn projects_of(host: Host, entries: &Vec<PathEntry>) -> (r: Vec<Project>)
    ensures
        r@.len() == entries@.len(),
        forall|i: int|
            0 <= i < r@.len() ==> is_project_of(
                #[trigger] r@[i],
                entries@[i]@,
                host.separator(),
            ),
{
    let mut r: Vec<Project> = Vec::new();
    let mut i: usize = 0;
    while i < entries.len()
        invariant
            i <= entries@.len(),
            r@.len() == i,
            forall|j: int|
                0 <= j < i ==> is_project_of(#[trigger] r@[j], entries@[j]@, host.separator()),
        decreases entries@.len() - i,
    {
        r.push(Project::from_entry(host, entries[i].clone()));
        i = i + 1;
    }
    r
}

/// A project is known by the path of its entry and holds its sessions; on a host
/// that separates paths with `/` it is called by what stands behind the last
/// slash.
pub proof fn law_project_stands_for_its_entry(
    p: Project,
    entry: EntryView,
    dir: Seq<char>,
    name: Seq<char>,
)
    requires
        is_project_of(p, entry, '/'),
    ensures
        p.id@ == entry.path,
        p.path@ == entry.path,
        p.sessions@.len() == entry.sections.len(),
        forall|i: int| 0 <= i < p.sessions@.len() ==> (#[trigger] p.sessions@[i])@
            == entry.sections[i],
        entry.path == dir + seq!['/'] + name && name.len() > 0 && name != seq!['.'] && name
            != seq!['.', '.'] && (forall|i: int| 0 <= i < name.len() ==> name[i] != '/')
            ==> p.name@ == name,
{
    assert(session::session_views(p.sessions@).len() == p.sessions@.len());
    assert forall|i: int| 0 <= i < p.sessions@.len() implies (#[trigger] p.sessions@[i])@
        == entry.sections[i] by {
        assert(session::session_views(p.sessions@)[i] == p.sessions@[i]@);
    }
    if entry.path == dir + seq!['/'] + name && name.len() > 0 && name != seq!['.'] && name
        != seq!['.', '.'] && forall|i: int| 0 <= i < name.len() ==> name[i] != '/' {
        host_path::law_base_name_stands_behind_the_last_slash(dir, name);
    }
}

} // verus!
