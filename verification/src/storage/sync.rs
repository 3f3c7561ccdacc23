//! Combined local and remote store for the path list.
//!
//! How a refresh brings the two sides together:
//! - **A** remote non-empty, local empty: seed local from remote
//! - **C** remote empty, local non-empty: seed remote from local
//! - **B** both non-empty: merge by path and push the result
//! - network failure or error status: fall back to the local cache
//!
//! Files and requests are handled elsewhere. Here stand the store's state and
//! every decision on it.

use vstd::prelude::*;
use vstd::string::*;

use crate::domain::path_entry;
use crate::domain::path_entry::{clone_entries, EntryView, HostDirs, PathEntry, PathValidator};
use crate::domain::session;
use crate::domain::session::{Session, SessionView};
use crate::error::{AppError, ErrorView};
use crate::platform::Platform;
use crate::storage::cache::FileCache;
use crate::storage::merge;
use crate::storage::merge::{merge_sections, sort_desc};
use crate::storage::paths;
use crate::storage::paths::{PathsView, RemotePaths};
use crate::storage::remote;
use crate::storage::remote::{ClientView, RemoteClient};
use crate::text;
use crate::time;
use crate::time::Timestamp;

pub use crate::storage::merge::merge_entries;

verus! {

/// Remote path of the path list before it was kept per machine. Read once, to be
/// merged; never written.
pub const LEGACY_REMOTE_PATH: &'static str = "/serv/opencode/path-list.md";

/// What `serde_json` reads in a text that holds a JSON array: the text of each
/// element. Nothing where the text is not JSON, or not an array.
pub uninterp spec fn json_array_items(body: Seq<char>) -> Option<Seq<Seq<char>>>;

/// `serde_json::from_str` into a value, and the text of each element where that
/// is an array: named [`json_array_items`].
#[verifier::external_body]
fn json_items(body: &str) -> (r: Option<Vec<String>>)
    ensures
        match r {
            Some(v) => json_array_items(body@) == Some(text::views(v@)),
            None => json_array_items(body@) is None,
        },
{
    let value: serde_json::Value = serde_json::from_str(body).ok()?;
    let items = value.as_array()?;
    Some(items.iter().map(|item| item.to_string()).collect())
}

/// The elements of a remote path list, each as JSON text; nothing where the
/// body is not a JSON array.
pub fn remote_items(body: &str) -> (r: Option<Vec<String>>)
    ensures
        match r {
            Some(v) => json_array_items(body@) == Some(text::views(v@)),
            None => json_array_items(body@) is None,
        },
{
    json_items(body)
}

/// A store of path entries: the in-memory list, where it is cached, and the
/// remote it is synced with.
#[derive(Debug)]
pub struct PathListStore {
    /// The local cache file.
    pub cache: FileCache,
    /// The remote, where one is attached.
    pub remote: Option<RemoteClient>,
    /// The in-memory list.
    pub entries: Vec<PathEntry>,
    /// Whether the legacy path has been looked at in this process.
    pub migration_done: bool,
}

/// What a [`PathListStore`] holds.
pub struct StoreView {
    pub remote: Option<ClientView>,
    pub entries: Seq<EntryView>,
    pub migration_done: bool,
}

impl View for PathListStore {
    type V = StoreView;

    open spec fn view(&self) -> StoreView {
        StoreView {
            remote: match self.remote {
                Some(r) => Some(r@),
                None => None,
            },
            entries: path_entry::entry_views(self.entries@),
            migration_done: self.migration_done,
        }
    }
}

/// An element of a remote path list: an entry, or nothing where it is
/// malformed.
pub open spec fn item_views(items: Seq<Option<PathEntry>>) -> Seq<Option<EntryView>> {
    items.map_values(
        |x: Option<PathEntry>|
            match x {
                Some(e) => Some(e@),
                None => None,
            },
    )
}

/// The well-formed elements, in order.
pub open spec fn valid_items(items: Seq<Option<EntryView>>) -> Seq<EntryView>
    decreases items.len(),
{
    if items.len() == 0 {
        Seq::<EntryView>::empty()
    } else {
        match items.last() {
            Some(e) => valid_items(items.drop_last()).push(e),
            None => valid_items(items.drop_last()),
        }
    }
}

/// Skips the malformed elements.
pub fn valid_entries(items: &Vec<Option<PathEntry>>) -> (r: Vec<PathEntry>)
    ensures
        path_entry::entry_views(r@) == valid_items(item_views(items@)),
{
    let ghost vs = item_views(items@);
    let mut r: Vec<PathEntry> = Vec::new();
    let mut i: usize = 0;
    assert(path_entry::entry_views(r@) =~= valid_items(vs.take(0)));
    while i < items.len()
        invariant
            i <= items@.len(),
            vs == item_views(items@),
            path_entry::entry_views(r@) == valid_items(vs.take(i as int)),
        decreases items@.len() - i,
    {
        assert(vs.take(i + 1).drop_last() =~= vs.take(i as int));
        assert(vs.take(i + 1).last() == vs[i as int]);
        match &items[i] {
            Some(e) => {
                let copy: PathEntry = e.clone();
                assert(path_entry::entry_views(r@.push(copy)) =~= path_entry::entry_views(r@).push(
                    copy@,
                ));
                r.push(copy);
            },
            None => {},
        }
        i = i + 1;
    }
    assert(vs.take(i as int) =~= vs);
    r
}

/// What a [`PathListStore`] refresh did.
#[derive(Debug, Clone, Copy, PartialEq, Eq, Structural)]
pub struct RefreshReport {
    /// Entries sourced from the remote on this refresh.
    pub from_remote: usize,
    /// Entries sourced from local cache on this refresh.
    pub from_local: usize,
    /// Total entries in the in-memory snapshot after refresh.
    pub merged: usize,
    /// `true` when local entries were pushed to a previously-empty remote.
    pub seeded_remote: bool,
}

impl Default for RefreshReport {
    fn default() -> (r: Self)
        ensures
            r == (RefreshReport { from_remote: 0, from_local: 0, merged: 0, seeded_remote: false }),
    {
        RefreshReport { from_remote: 0, from_local: 0, merged: 0, seeded_remote: false }
    }
}

/// Outcome of the legacy-path migration.
#[derive(Debug, Clone, Copy, PartialEq, Eq, Structural)]
pub struct MigrationReport {
    /// Number of entries in the in-memory snapshot after migration; `0` when
    /// nothing was migrated.
    pub migrated_entries: usize,
}

impl Default for MigrationReport {
    fn default() -> (r: Self)
        ensures
            r == (MigrationReport { migrated_entries: 0 }),
    {
        MigrationReport { migrated_entries: 0 }
    }
}

/// What the remote answered to a refresh.
#[derive(Debug)]
pub enum RemoteReply {
    /// There is no remote to ask.
    NoRemote,
    /// The remote path is not known (no device is selected).
    NoPath,
    /// The request failed.
    Errored,
    /// The remote answered: its status (`0` for a network failure), and the
    /// elements of the array in the body, if it holds one.
    Got { status: u16, items: Option<Vec<Option<PathEntry>>> },
}

/// What a refresh decides.
#[derive(Debug)]
pub struct RefreshDecision {
    /// The new in-memory list.
    pub entries: Vec<PathEntry>,
    /// Whether the list is to be written to the cache first.
    pub write: bool,
    /// Whether the list is to be pushed to the remote afterwards.
    pub push: bool,
    /// The report.
    pub report: RefreshReport,
}

/// Whether the local list stands in for what the remote answered: on a network
/// failure and on every status but success, except that a file which is not
/// there (404) counts as an empty list.
pub open spec fn falls_back(reply: RemoteReply) -> bool {
    match reply {
        RemoteReply::NoRemote => false,
        RemoteReply::NoPath | RemoteReply::Errored => true,
        RemoteReply::Got { status, .. } => !(200 <= status < 300 || status == 404),
    }
}

/// Whether the remote refuses the session.
pub open spec fn auth_broken(reply: RemoteReply) -> bool {
    match reply {
        RemoteReply::Got { status, .. } => status == 401 || status == 403,
        _ => false,
    }
}

/// The elements that the remote holds.
pub open spec fn reply_items(reply: RemoteReply) -> Seq<Option<EntryView>> {
    match reply {
        RemoteReply::Got { items: Some(v), .. } => item_views(v@),
        _ => Seq::<Option<EntryView>>::empty(),
    }
}

/// Whether `d` is what a refresh comes to.
pub open spec fn is_refresh(
    local: Seq<EntryView>,
    reply: RemoteReply,
    d: RefreshDecision,
) -> bool {
    let items = reply_items(reply);
    let out = path_entry::entry_views(d.entries@);
    let n = local.len();
    if falls_back(reply) {
        // The local list as it is.
        &&& out == local
        &&& !d.write && !d.push
        &&& d.report.from_remote == 0 && d.report.from_local == n && d.report.merged == n
        &&& !d.report.seeded_remote
    } else if items.len() > 0 && n == 0 {
        // Seed local from remote.
        &&& merge::is_sorted_form(out, valid_items(items))
        &&& d.write && !d.push
        &&& d.report.from_remote == out.len() && d.report.from_local == 0 && d.report.merged
            == out.len()
        &&& !d.report.seeded_remote
    } else if items.len() == 0 && n > 0 {
        // Seed remote from local, if there is a remote.
        &&& merge::is_sorted_form(out, local)
        &&& d.write && d.push == !(reply is NoRemote)
        &&& d.report.from_remote == 0 && d.report.from_local == out.len() && d.report.merged
            == out.len()
        &&& d.report.seeded_remote == !(reply is NoRemote)
    } else if items.len() == 0 && n == 0 {
        &&& out.len() == 0
        &&& !d.write && !d.push
        &&& d.report.from_remote == 0 && d.report.from_local == 0 && d.report.merged == 0
        &&& !d.report.seeded_remote
    } else {
        // Merge.
        &&& merge::is_merge(out, valid_items(items) + local)
        &&& d.write && d.push
        &&& d.report.from_remote == items.len() && d.report.from_local == n && d.report.merged
            == out.len()
        &&& !d.report.seeded_remote
    }
}

/// Where a refresh asks the remote.
#[derive(Debug)]
pub enum RefreshPlan {
    /// There is no remote.
    NoRemote,
    /// The remote path cannot be derived, for this reason.
    NoPath(AppError),
    /// Get this path.
    Get(String),
}

/// Whether `r` is where a refresh asks: the current path of the remote, or the
/// error of a remote whose path is not known.
pub open spec fn is_plan(client: Option<ClientView>, r: RefreshPlan) -> bool {
    match client {
        None => r is NoRemote,
        Some(c) => if remote::has_plan(c) {
            r matches RefreshPlan::Get(path) && exists|p: Platform, username: Seq<char>|
                (#[trigger] remote::planned(c, p, username)) is Ok && path@ == "/"@
                    + remote::planned(c, p, username)->Ok_0.path_list()
        } else {
            r matches RefreshPlan::NoPath(e) && forall|p: Platform, username: Seq<char>|
                #[trigger] remote::planned(c, p, username) == Err::<PathsView, ErrorView>(e@)
        },
    }
}

fn local_only(local: Vec<PathEntry>) -> (d: RefreshDecision)
    ensures
        path_entry::entry_views(d.entries@) == path_entry::entry_views(local@),
        !d.write,
        !d.push,
        d.report == (RefreshReport {
            from_remote: 0,
            from_local: local@.len() as usize,
            merged: local@.len() as usize,
            seeded_remote: false,
        }),
        d.report.merged == local@.len(),
{
    let n: usize = local.len();
    RefreshDecision {
        entries: local,
        write: false,
        push: false,
        report: RefreshReport { from_remote: 0, from_local: n, merged: n, seeded_remote: false },
    }
}

/// Decides a refresh from the local list and the remote's answer.
///
/// # Errors
/// Returns [`AppError::Internal`] if the remote refuses the session and the
/// local list is empty (there is nothing to fall back to).
pub fn decide_refresh(local: Vec<PathEntry>, reply: RemoteReply) -> (r: Result<
    RefreshDecision,
    AppError,
>)
    ensures
        match r {
            Ok(d) => is_refresh(path_entry::entry_views(local@), reply, d) && !(auth_broken(reply)
                && local@.len() == 0),
            Err(e) => auth_broken(reply) && local@.len() == 0 && e@ == ErrorView::Internal(
                "remote refused the session and the local cache is empty"@,
            ),
        },
{
    let n: usize = local.len();
    let mut remote: bool = true;
    let items: Vec<Option<PathEntry>> = match reply {
        RemoteReply::NoRemote => {
            remote = false;
            Vec::new()
        },
        RemoteReply::NoPath | RemoteReply::Errored => {
            return Ok(local_only(local));
        },
        RemoteReply::Got { status, items } => {
            if (status == 401 || status == 403) && n == 0 {
                return Err(
                    AppError::Internal(
                        "remote refused the session and the local cache is empty".to_owned(),
                    ),
                );
            }
            if !((200 <= status && status < 300) || status == 404) {
                return Ok(local_only(local));
            }
            match items {
                Some(v) => v,
                None => Vec::new(),
            }
        },
    };
    assert(item_views(items@) =~= reply_items(reply));
    let count: usize = items.len();
    if count > 0 && n == 0 {
        let from_remote: Vec<PathEntry> = valid_entries(&items);
        let sorted: Vec<PathEntry> = sort_desc(from_remote);
        let m: usize = sorted.len();
        return Ok(
            RefreshDecision {
                entries: sorted,
                write: true,
                push: false,
                report: RefreshReport {
                    from_remote: m,
                    from_local: 0,
                    merged: m,
                    seeded_remote: false,
                },
            },
        );
    }
    if count == 0 && n > 0 {
        let sorted: Vec<PathEntry> = sort_desc(local);
        let m: usize = sorted.len();
        return Ok(
            RefreshDecision {
                entries: sorted,
                write: true,
                push: remote,
                report: RefreshReport {
                    from_remote: 0,
                    from_local: m,
                    merged: m,
                    seeded_remote: remote,
                },
            },
        );
    }
    if count == 0 && n == 0 {
        return Ok(
            RefreshDecision {
                entries: Vec::new(),
                write: false,
                push: false,
                report: RefreshReport::default(),
            },
        );
    }
    let remote_entries: Vec<PathEntry> = valid_entries(&items);
    let merged: Vec<PathEntry> = merge_entries(remote_entries, local);
    let m: usize = merged.len();
    Ok(
        RefreshDecision {
            entries: merged,
            write: true,
            push: true,
            report: RefreshReport {
                from_remote: count,
                from_local: n,
                merged: m,
                seeded_remote: false,
            },
        },
    )
}

// --- Changes to the list ---------------------------------------------------
/// The index of the first entry of a path.
pub open spec fn path_at(s: Seq<EntryView>, path: Seq<char>) -> Option<int>
    decreases s.len(),
{
    if s.len() == 0 {
        None
    } else {
        match path_at(s.drop_last(), path) {
            Some(i) => Some(i),
            None => if s.last().path == path {
                Some(s.len() - 1)
            } else {
                None
            },
        }
    }
}

/// A new entry, opened now.
pub open spec fn fresh(path: Seq<char>, sections: Seq<SessionView>, now: Timestamp) -> EntryView {
    EntryView { path, sections, created_at: Some(now), last_opened_at: Some(now) }
}

/// The list with a path added, unless it is there.
pub open spec fn upserted(s: Seq<EntryView>, path: Seq<char>, now: Timestamp) -> Seq<EntryView> {
    if merge::has_path(s, path) {
        s
    } else {
        s.push(fresh(path, Seq::<SessionView>::empty(), now))
    }
}

/// The list with sessions merged into a path, which is opened now. A path that
/// is new is added, and starts without sessions.
pub open spec fn synced(
    s: Seq<EntryView>,
    path: Seq<char>,
    sessions: Seq<SessionView>,
    now: Timestamp,
) -> Seq<EntryView> {
    match path_at(s, path) {
        Some(i) => s.update(
            i,
            EntryView {
                sections: merge::with_sections(s[i].sections, sessions),
                last_opened_at: Some(now),
                ..s[i]
            },
        ),
        None => s.push(
            fresh(path, merge::with_sections(Seq::<SessionView>::empty(), sessions), now),
        ),
    }
}

/// An entry opened now.
pub open spec fn touched_entry(e: EntryView, now: Timestamp) -> EntryView {
    EntryView {
        last_opened_at: Some(now),
        created_at: match e.created_at {
            Some(t) => Some(t),
            None => Some(now),
        },
        ..e
    }
}

/// The list with every entry of a path opened now.
pub open spec fn touched(s: Seq<EntryView>, path: Seq<char>, now: Timestamp) -> Seq<EntryView> {
    s.map_values(
        |e: EntryView|
            if e.path == path {
                touched_entry(e, now)
            } else {
                e
            },
    )
}

/// The list without the entries of a path.
pub open spec fn without_path(s: Seq<EntryView>, path: Seq<char>) -> Seq<EntryView>
    decreases s.len(),
{
    if s.len() == 0 {
        s
    } else if s.last().path == path {
        without_path(s.drop_last(), path)
    } else {
        without_path(s.drop_last(), path).push(s.last())
    }
}

/// The sections without those of an id.
pub open spec fn without_id(s: Seq<SessionView>, id: Seq<char>) -> Seq<SessionView>
    decreases s.len(),
{
    if s.len() == 0 {
        s
    } else if s.last().id == id {
        without_id(s.drop_last(), id)
    } else {
        without_id(s.drop_last(), id).push(s.last())
    }
}

/// The list with a session dropped from the first entry of a path.
pub open spec fn without_session(s: Seq<EntryView>, path: Seq<char>, id: Seq<char>) -> Seq<
    EntryView,
> {
    match path_at(s, path) {
        Some(i) => s.update(i, EntryView { sections: without_id(s[i].sections, id), ..s[i] }),
        None => s,
    }
}

pub(crate) proof fn lemma_path_at(s: Seq<EntryView>, path: Seq<char>)
    ensures
        match path_at(s, path) {
            Some(i) => 0 <= i < s.len() && s[i].path == path && forall|j: int|
                0 <= j < i ==> (#[trigger] s[j]).path != path,
            None => forall|j: int| 0 <= j < s.len() ==> (#[trigger] s[j]).path != path,
        },
        path_at(s, path) is Some <==> merge::has_path(s, path),
    decreases s.len(),
{
    if s.len() > 0 {
        let init = s.drop_last();
        lemma_path_at(init, path);
        assert forall|j: int| 0 <= j < init.len() implies #[trigger] s[j] == init[j] by {}
        if let Some(i) = path_at(s, path) {
            assert(s[i].path == path);
        }
    }
}

/// The index of the first entry of a path.
fn find_path(entries: &Vec<PathEntry>, path: &str) -> (r: Option<usize>)
    ensures
        match r {
            Some(i) => i < entries@.len() && path_at(path_entry::entry_views(entries@), path@)
                == Some(i as int),
            None => path_at(path_entry::entry_views(entries@), path@) is None,
        },
{
    let ghost vs = path_entry::entry_views(entries@);
    proof {
        lemma_path_at(vs, path@);
    }
    let mut i: usize = 0;
    while i < entries.len()
        invariant
            i <= entries@.len(),
            vs == path_entry::entry_views(entries@),
            forall|j: int| 0 <= j < i ==> (#[trigger] vs[j]).path != path@,
        decreases entries@.len() - i,
    {
        assert(vs[i as int] == entries@[i as int]@);
        if text::same(entries[i].path.as_str(), path) {
            proof {
                lemma_path_at(vs, path@);
            }
            return Some(i);
        }
        i = i + 1;
    }
    None
}

/// What a change to the list comes to: the new list, and whether the caller
/// waits for the remote to take it.
///
/// A deletion waits: a remote that still holds the entry would bring it back on
/// the next refresh. Other changes are pushed in the background.
#[derive(Debug)]
pub struct Change {
    /// The list after the change.
    pub snapshot: Vec<PathEntry>,
    /// Whether the push to the remote is awaited.
    pub awaited: bool,
}

/// Whether `r` is the result of a change to the path that `target` stands for,
/// where `change` tells the new list from the old one and the validated path.
pub open spec fn is_change(
    before: StoreView,
    after: StoreView,
    target: Seq<char>,
    dirs: HostDirs,
    r: Result<Change, AppError>,
    awaited: bool,
    change: spec_fn(Seq<EntryView>, Seq<char>) -> Seq<EntryView>,
) -> bool {
    &&& after.remote == before.remote
    &&& after.migration_done == before.migration_done
    &&& match r {
        Ok(c) => {
            &&& c.awaited == awaited
            &&& path_entry::entry_views(c.snapshot@) == after.entries
            &&& path_entry::validated(target, dirs) is Ok
            &&& after.entries == change(
                before.entries,
                path_entry::validated(target, dirs)->Ok_0,
            )
        },
        Err(e) => {
            &&& after.entries == before.entries
            &&& path_entry::validated(target, dirs) == Err::<Seq<char>, ErrorView>(e@)
        },
    }
}

impl PathListStore {
    /// Create a new store backed by `cache`, without a remote.
    #[must_use]
    pub fn new(cache: FileCache) -> (r: Self)
        ensures
            r@ == (StoreView { remote: None, entries: Seq::empty(), migration_done: false }),
            r.cache == cache,
    {
        let r = PathListStore { cache, remote: None, entries: Vec::new(), migration_done: false };
        assert(r@.entries =~= Seq::empty());
        r
    }

    /// Create a store with a cache at `cache_path` and a remote.
    #[must_use]
    pub fn with_remote_sync(cache_path: &str, remote: RemoteClient) -> (r: Self)
        ensures
            r@ == (StoreView {
                remote: Some(remote@),
                entries: Seq::empty(),
                migration_done: false,
            }),
            r.cache.file() == cache_path@,
    {
        let mut s = PathListStore::new(FileCache::new(cache_path));
        s.remote = Some(remote);
        s
    }

    /// Attach a remote.
    pub fn with_remote(&mut self, remote: RemoteClient)
        ensures
            final(self)@ == (StoreView { remote: Some(remote@), ..old(self)@ }),
            final(self).cache == old(self).cache,
    {
        self.remote = Some(remote);
    }

    /// A copy of the attached remote, if any.
    #[must_use]
    pub fn remote_client(&self) -> (r: Option<RemoteClient>)
        ensures
            match r {
                Some(c) => self@.remote == Some(c@),
                None => self@.remote is None,
            },
    {
        match &self.remote {
            Some(c) => Some(c.clone()),
            None => None,
        }
    }

    /// The path plan that the store currently syncs to: that of the remote, or
    /// an empty one where there is none.
    ///
    /// # Errors
    /// Returns the remote's [`AppError::Internal`] when it has a user id but no
    /// device.
    pub fn build_remote_paths(&self) -> (r: Result<RemotePaths, AppError>)
        ensures
            match self@.remote {
                Some(c) => {
                    &&& r is Ok <==> remote::has_plan(c)
                    &&& match r {
                        Ok(v) => exists|p: Platform, username: Seq<char>|
                            #[trigger] remote::planned(c, p, username) == Ok::<
                                PathsView,
                                ErrorView,
                            >(v@),
                        Err(e) => forall|p: Platform, username: Seq<char>|
                            #[trigger] remote::planned(c, p, username) == Err::<
                                PathsView,
                                ErrorView,
                            >(e@),
                    }
                },
                None => r matches Ok(v) && exists|p: Platform|
                    v@ == #[trigger] paths::device_identity(Seq::empty(), Seq::empty(), p),
            },
    {
        match &self.remote {
            Some(c) => c.remote_paths(),
            None => {
                proof {
                    reveal_strlit("");
                    assert(""@ =~= Seq::<char>::empty());
                }
                Ok(RemotePaths::with_user_info("", ""))
            },
        }
    }

    /// The in-memory snapshot of entries.
    #[must_use]
    pub fn list(&self) -> (r: Vec<PathEntry>)
        ensures
            path_entry::entry_views(r@) == self@.entries,
    {
        clone_entries(&self.entries)
    }

    /// Where a refresh asks the remote.
    pub fn refresh_plan(&self) -> (r: RefreshPlan)
        ensures
            is_plan(self@.remote, r),
    {
        match &self.remote {
            None => RefreshPlan::NoRemote,
            Some(c) => match c.remote_paths() {
                Ok(rp) => RefreshPlan::Get(rp.path_list_with_slash()),
                Err(e) => RefreshPlan::NoPath(e),
            },
        }
    }

    /// Takes over the list that a refresh decided on.
    pub fn refresh(&mut self, decision: &RefreshDecision)
        ensures
            final(self)@ == (StoreView {
                entries: path_entry::entry_views(decision.entries@),
                ..old(self)@
            }),
            final(self).cache == old(self).cache,
    {
        self.entries = clone_entries(&decision.entries);
    }

    /// Adds a validated path if it is absent.
    pub fn upsert_entry(&mut self, path: &str, now: Timestamp)
        ensures
            final(self)@ == (StoreView {
                entries: upserted(old(self)@.entries, path@, now),
                ..old(self)@
            }),
            final(self).cache == old(self).cache,
    {
        let ghost before = self@.entries;
        proof {
            lemma_path_at(before, path@);
        }
        if find_path(&self.entries, path).is_none() {
            let e = PathEntry {
                path: path.to_owned(),
                sections: Vec::new(),
                created_at: Some(now),
                last_opened_at: Some(now),
            };
            assert(e@.sections =~= Seq::<SessionView>::empty());
            self.entries.push(e);
            assert(self@.entries =~= before.push(
                fresh(path@, Seq::<SessionView>::empty(), now),
            ));
        }
    }

    /// Insert a new path if absent, or leave an existing one untouched.
    ///
    /// # Errors
    /// Returns [`AppError::PathValidation`] if `target` fails validation.
    pub fn upsert_path(&mut self, target: &str, dirs: &HostDirs, now: Timestamp) -> (r: Result<
        Change,
        AppError,
    >)
        ensures
            is_change(
                old(self)@,
                final(self)@,
                target@,
                *dirs,
                r,
                false,
                |s: Seq<EntryView>, path: Seq<char>| upserted(s, path, now),
            ),
            final(self).cache == old(self).cache,
    {
        match PathValidator::validate(target, dirs) {
            Ok(path) => {
                self.upsert_entry(path.as_str(), now);
                Ok(Change { snapshot: clone_entries(&self.entries), awaited: false })
            },
            Err(e) => Err(e),
        }
    }

    /// Makes sure that a path stands in the list with its own entry, to be
    /// pushed at once: the caller learns whether the remote took it. Calling it
    /// again changes nothing.
    ///
    /// # Errors
    /// Returns [`AppError::PathValidation`] if `target` fails validation.
    pub fn create_remote_path(&mut self, target: &str, dirs: &HostDirs, now: Timestamp) -> (r: Result<
        Change,
        AppError,
    >)
        ensures
            is_change(
                old(self)@,
                final(self)@,
                target@,
                *dirs,
                r,
                true,
                |s: Seq<EntryView>, path: Seq<char>| upserted(s, path, now),
            ),
            final(self).cache == old(self).cache,
    {
        match PathValidator::validate(target, dirs) {
            Ok(path) => {
                self.upsert_entry(path.as_str(), now);
                Ok(Change { snapshot: clone_entries(&self.entries), awaited: true })
            },
            Err(e) => Err(e),
        }
    }

    /// Merges sessions into a validated path.
    pub fn sync_entry(&mut self, path: &str, sessions: &Vec<Session>, now: Timestamp)
        ensures
            final(self)@ == (StoreView {
                entries: synced(
                    old(self)@.entries,
                    path@,
                    session::session_views(sessions@),
                    now,
                ),
                ..old(self)@
            }),
            final(self).cache == old(self).cache,
    {
        let ghost before = self@.entries;
        let ghost news = session::session_views(sessions@);
        match find_path(&self.entries, path) {
            Some(i) => {
                let mut e: PathEntry = self.entries[i].clone();
                assert(e@ == before[i as int]);
                merge_sections(&mut e.sections, sessions);
                e.last_opened_at = Some(now);
                self.entries.set(i, e);
                assert(self@.entries =~= synced(before, path@, news, now));
            },
            None => {
                let mut sections: Vec<Session> = Vec::new();
                assert(session::session_views(sections@) =~= Seq::<SessionView>::empty());
                merge_sections(&mut sections, sessions);
                let e = PathEntry {
                    path: path.to_owned(),
                    sections,
                    created_at: Some(now),
                    last_opened_at: Some(now),
                };
                self.entries.push(e);
                assert(self@.entries =~= synced(before, path@, news, now));
            },
        }
    }

    /// Merges the sessions of a project into its path, all at once: sessions are
    /// told apart by id, the later update wins, and a missing path is created.
    ///
    /// # Errors
    /// Returns [`AppError::PathValidation`] if `target` fails validation.
    pub fn sync_project_sessions(
        &mut self,
        target: &str,
        sessions: &Vec<Session>,
        dirs: &HostDirs,
        now: Timestamp,
    ) -> (r: Result<Change, AppError>)
        ensures
            is_change(
                old(self)@,
                final(self)@,
                target@,
                *dirs,
                r,
                false,
                |s: Seq<EntryView>, path: Seq<char>|
                    synced(s, path, session::session_views(sessions@), now),
            ),
            final(self).cache == old(self).cache,
    {
        match PathValidator::validate(target, dirs) {
            Ok(path) => {
                self.sync_entry(path.as_str(), sessions, now);
                Ok(Change { snapshot: clone_entries(&self.entries), awaited: false })
            },
            Err(e) => Err(e),
        }
    }

    /// Append (or upsert) a session in a path's sections.
    ///
    /// A section with the same id is replaced only when the session was updated
    /// strictly later. A missing path is created with this session as its only
    /// section. The path counts as opened now.
    ///
    /// # Errors
    /// Returns [`AppError::PathValidation`] if `target` fails validation.
    pub fn append_session(
        &mut self,
        target: &str,
        session: &Session,
        dirs: &HostDirs,
        now: Timestamp,
    ) -> (r: Result<Change, AppError>)
        ensures
            is_change(
                old(self)@,
                final(self)@,
                target@,
                *dirs,
                r,
                false,
                |s: Seq<EntryView>, path: Seq<char>| synced(s, path, seq![session@], now),
            ),
            final(self).cache == old(self).cache,
    {
        match PathValidator::validate(target, dirs) {
            Ok(path) => {
                let mut one: Vec<Session> = Vec::new();
                one.push(session.clone());
                assert(session::session_views(one@) =~= seq![session@]);
                self.sync_entry(path.as_str(), &one, now);
                Ok(Change { snapshot: clone_entries(&self.entries), awaited: false })
            },
            Err(e) => Err(e),
        }
    }

    /// Marks every entry of a validated path as opened now.
    pub fn touch_entry(&mut self, path: &str, now: Timestamp)
        ensures
            final(self)@ == (StoreView {
                entries: touched(old(self)@.entries, path@, now),
                ..old(self)@
            }),
            final(self).cache == old(self).cache,
    {
        let ghost before = self@.entries;
        let mut i: usize = 0;
        while i < self.entries.len()
            invariant
                i <= self.entries@.len(),
                before == old(self)@.entries,
                self.entries@.len() == before.len(),
                self.cache == old(self).cache,
                self@.remote == old(self)@.remote,
                self@.migration_done == old(self)@.migration_done,
                forall|j: int|
                    0 <= j < i ==> (#[trigger] self.entries@[j])@ == touched(before, path@, now)[j],
                forall|j: int|
                    i <= j < before.len() ==> (#[trigger] self.entries@[j])@ == before[j],
            decreases self.entries@.len() - i,
        {
            assert(self.entries@[i as int]@ == before[i as int]);
            if text::same(self.entries[i].path.as_str(), path) {
                let mut e: PathEntry = self.entries[i].clone();
                e.last_opened_at = Some(now);
                if e.created_at.is_none() {
                    e.created_at = Some(now);
                }
                assert(e@ == touched_entry(before[i as int], now));
                self.entries.set(i, e);
            }
            i = i + 1;
        }
        assert(self@.entries =~= touched(before, path@, now));
    }

    /// Refresh the opening time of an existing path (no-op if missing).
    ///
    /// # Errors
    /// Returns [`AppError::PathValidation`] if `target` fails validation.
    pub fn touch_path(&mut self, target: &str, dirs: &HostDirs, now: Timestamp) -> (r: Result<
        Change,
        AppError,
    >)
        ensures
            is_change(
                old(self)@,
                final(self)@,
                target@,
                *dirs,
                r,
                false,
                |s: Seq<EntryView>, path: Seq<char>| touched(s, path, now),
            ),
            final(self).cache == old(self).cache,
    {
        match PathValidator::validate(target, dirs) {
            Ok(path) => {
                self.touch_entry(path.as_str(), now);
                Ok(Change { snapshot: clone_entries(&self.entries), awaited: false })
            },
            Err(e) => Err(e),
        }
    }

    /// Drops every entry of a validated path.
    pub fn remove_entry(&mut self, path: &str)
        ensures
            final(self)@ == (StoreView {
                entries: without_path(old(self)@.entries, path@),
                ..old(self)@
            }),
            final(self).cache == old(self).cache,
    {
        let ghost vs = self@.entries;
        let mut kept: Vec<PathEntry> = Vec::new();
        let mut i: usize = 0;
        assert(path_entry::entry_views(kept@) =~= without_path(vs.take(0), path@));
        while i < self.entries.len()
            invariant
                i <= self.entries@.len(),
                vs == self@.entries,
                *self == *old(self),
                path_entry::entry_views(kept@) == without_path(vs.take(i as int), path@),
            decreases self.entries@.len() - i,
        {
            assert(vs.take(i + 1).drop_last() =~= vs.take(i as int));
            assert(vs.take(i + 1).last() == self.entries@[i as int]@);
            if !text::same(self.entries[i].path.as_str(), path) {
                let e: PathEntry = self.entries[i].clone();
                assert(path_entry::entry_views(kept@.push(e)) =~= path_entry::entry_views(
                    kept@,
                ).push(e@));
                kept.push(e);
            }
            i = i + 1;
        }
        assert(vs.take(i as int) =~= vs);
        self.entries = kept;
    }

    /// Remove a path entry. No-op if absent. The push to the remote is awaited.
    ///
    /// # Errors
    /// Returns [`AppError::PathValidation`] if `target` fails validation.
    pub fn remove_path(&mut self, target: &str, dirs: &HostDirs) -> (r: Result<Change, AppError>)
        ensures
            is_change(
                old(self)@,
                final(self)@,
                target@,
                *dirs,
                r,
                true,
                |s: Seq<EntryView>, path: Seq<char>| without_path(s, path),
            ),
            final(self).cache == old(self).cache,
    {
        match PathValidator::validate(target, dirs) {
            Ok(path) => {
                self.remove_entry(path.as_str());
                Ok(Change { snapshot: clone_entries(&self.entries), awaited: true })
            },
            Err(e) => Err(e),
        }
    }

    /// Drops a session from the first entry of a validated path.
    pub fn remove_section(&mut self, path: &str, sid: &str)
        ensures
            final(self)@ == (StoreView {
                entries: without_session(old(self)@.entries, path@, sid@),
                ..old(self)@
            }),
            final(self).cache == old(self).cache,
    {
        let ghost before = self@.entries;
        match find_path(&self.entries, path) {
            Some(i) => {
                let mut e: PathEntry = self.entries[i].clone();
                assert(e@ == before[i as int]);
                let kept: Vec<Session> = drop_session(&e.sections, sid);
                e.sections = kept;
                self.entries.set(i, e);
                assert(self@.entries =~= without_session(before, path@, sid@));
            },
            None => {},
        }
    }

    /// Remove a single session id from a path's sections.
    ///
    /// No-op if the path or session id does not exist. The entry is kept even
    /// when it has no sections left. The push to the remote is awaited.
    ///
    /// # Errors
    /// Returns [`AppError::PathValidation`] if `target` fails validation.
    pub fn remove_session(&mut self, target: &str, sid: &str, dirs: &HostDirs) -> (r: Result<
        Change,
        AppError,
    >)
        ensures
            is_change(
                old(self)@,
                final(self)@,
                target@,
                *dirs,
                r,
                true,
                |s: Seq<EntryView>, path: Seq<char>| without_session(s, path, sid@),
            ),
            final(self).cache == old(self).cache,
    {
        match PathValidator::validate(target, dirs) {
            Ok(path) => {
                self.remove_section(path.as_str(), sid);
                Ok(Change { snapshot: clone_entries(&self.entries), awaited: true })
            },
            Err(e) => Err(e),
        }
    }
}

/// The sections without those of an id.
fn drop_session(secs: &Vec<Session>, sid: &str) -> (r: Vec<Session>)
    ensures
        session::session_views(r@) == without_id(session::session_views(secs@), sid@),
{
    let ghost vs = session::session_views(secs@);
    let mut kept: Vec<Session> = Vec::new();
    let mut i: usize = 0;
    assert(session::session_views(kept@) =~= without_id(vs.take(0), sid@));
    while i < secs.len()
        invariant
            i <= secs@.len(),
            vs == session::session_views(secs@),
            session::session_views(kept@) == without_id(vs.take(i as int), sid@),
        decreases secs@.len() - i,
    {
        assert(vs.take(i + 1).drop_last() =~= vs.take(i as int));
        assert(vs.take(i + 1).last() == secs@[i as int]@);
        if !text::same(secs[i].id.as_str(), sid) {
            let s: Session = secs[i].clone();
            assert(session::session_views(kept@.push(s)) =~= session::session_views(kept@).push(
                s@,
            ));
            kept.push(s);
        }
        i = i + 1;
    }
    assert(vs.take(i as int) =~= vs);
    kept
}

// --- Migration -------------------------------------------------------------
/// What the remote answered to a request during the migration.
#[derive(Debug)]
pub enum LegacyReply {
    /// The request failed.
    Errored,
    /// The remote answered: its status, and the elements of the array in the
    /// body, if it holds one.
    Got { status: u16, items: Option<Vec<Option<PathEntry>>> },
}

/// The well-formed entries in a reply; none where it is no success or no array.
pub open spec fn legacy_entries(reply: LegacyReply) -> Seq<EntryView> {
    match reply {
        LegacyReply::Got { status, items: Some(v) } => if status == 200 {
            valid_items(item_views(v@))
        } else {
            Seq::<EntryView>::empty()
        },
        _ => Seq::<EntryView>::empty(),
    }
}

/// Decides the migration from the reply for the legacy path and the local list:
/// the merged list, or nothing where there is nothing to migrate.
pub fn decide_migration(reply: &LegacyReply, local: Vec<PathEntry>) -> (r: Option<Vec<PathEntry>>)
    ensures
        match r {
            Some(m) => legacy_entries(*reply).len() > 0 && merge::is_merge(
                path_entry::entry_views(m@),
                legacy_entries(*reply) + path_entry::entry_views(local@),
            ),
            None => legacy_entries(*reply).len() == 0,
        },
{
    match reply {
        LegacyReply::Got { status, items: Some(v) } => {
            if *status != 200 {
                return None;
            }
            let legacy: Vec<PathEntry> = valid_entries(v);
            assert(path_entry::entry_views(legacy@).len() == legacy@.len());
            if legacy.len() == 0 {
                return None;
            }
            Some(merge_entries(legacy, local))
        },
        _ => None,
    }
}

/// Whether the current path is to be seeded: unless the remote shows a
/// non-empty list there.
pub fn needs_seeding(reply: &LegacyReply) -> (r: bool)
    ensures
        r == !(reply matches LegacyReply::Got { status, items: Some(v) } && *status == 200
            && v@.len() > 0),
{
    match reply {
        LegacyReply::Got { status, items: Some(v) } => !(*status == 200 && v.len() > 0),
        _ => true,
    }
}

impl PathListStore {
    /// Starts the migration: the path to read, or nothing where it has been
    /// done already in this process or there is no remote. After this call it
    /// counts as done, whatever comes of it.
    pub fn begin_migration(&mut self) -> (r: Option<&'static str>)
        ensures
            final(self)@ == (StoreView { migration_done: true, ..old(self)@ }),
            final(self).cache == old(self).cache,
            match r {
                Some(path) => path@ == LEGACY_REMOTE_PATH@ && !old(self)@.migration_done
                    && old(self)@.remote is Some,
                None => old(self)@.migration_done || old(self)@.remote is None,
            },
    {
        if self.migration_done {
            return None;
        }
        self.migration_done = true;
        match &self.remote {
            Some(_) => Some(LEGACY_REMOTE_PATH),
            None => None,
        }
    }

    /// Takes over the migrated list, and gives the report and where to look
    /// whether the remote has a list at its current path.
    ///
    /// The list is taken over even when the current path is not known.
    pub fn migrate_from_legacy_remote(&mut self, merged: &Vec<PathEntry>) -> (r: (
        MigrationReport,
        RefreshPlan,
    ))
        ensures
            final(self)@ == (StoreView {
                entries: path_entry::entry_views(merged@),
                ..old(self)@
            }),
            final(self).cache == old(self).cache,
            r.0.migrated_entries == merged@.len(),
            is_plan(old(self)@.remote, r.1),
    {
        self.entries = clone_entries(merged);
        let plan: RefreshPlan = self.refresh_plan();
        (MigrationReport { migrated_entries: merged.len() }, plan)
    }
}

// --- Laws ------------------------------------------------------------------
proof fn lemma_without_path(s: Seq<EntryView>, path: Seq<char>)
    ensures
        !merge::has_path(without_path(s, path), path),
        forall|i: int|
            0 <= i < without_path(s, path).len() ==> s.contains(#[trigger] without_path(s, path)[i]),
        forall|other: Seq<char>|
            other != path ==> #[trigger] merge::of_path(without_path(s, path), other)
                == merge::of_path(s, other),
        merge::distinct_paths(s) ==> merge::distinct_paths(without_path(s, path)),
    decreases s.len(),
{
    if s.len() > 0 {
        let init = s.drop_last();
        let r0 = without_path(init, path);
        let r = without_path(s, path);
        lemma_without_path(init, path);
        assert forall|i: int| 0 <= i < r.len() implies s.contains(#[trigger] r[i]) by {
            if i < r0.len() {
                assert(r[i] == r0[i]);
                assert(init.contains(r0[i]));
                let k = choose|k: int| 0 <= k < init.len() && init[k] == r0[i];
                assert(s[k] == r[i]);
            } else {
                assert(s[s.len() - 1] == r[i]);
            }
        }
        if s.last().path != path {
            if merge::has_path(r, path) {
                let i = choose|i: int| 0 <= i < r.len() && (#[trigger] r[i]).path == path;
                assert(r0[i].path == path);
            }
            assert forall|other: Seq<char>| other != path implies #[trigger] merge::of_path(
                r,
                other,
            ) == merge::of_path(s, other) by {
                assert(r.drop_last() =~= r0);
                assert(merge::of_path(r0, other) == merge::of_path(init, other));
            }
            if merge::distinct_paths(s) {
                assert(merge::distinct_paths(init)) by {
                    assert forall|a: int, b: int| 0 <= a < b < init.len() implies (
                    #[trigger] init[a]).path != (#[trigger] init[b]).path by {
                        assert(init[a] == s[a] && init[b] == s[b]);
                    }
                }
                assert forall|a: int, b: int| 0 <= a < b < r.len() implies (#[trigger] r[a]).path
                    != (#[trigger] r[b]).path by {
                    assert(r[a] == r0[a]);
                    if b < r0.len() {
                        assert(r[b] == r0[b]);
                    } else {
                        let k = choose|k: int| 0 <= k < init.len() && init[k] == r0[a];
                        assert(s[k] == r0[a]);
                        assert(s[k].path != s[s.len() - 1].path);
                    }
                }
            }
        } else {
            assert forall|other: Seq<char>| other != path implies #[trigger] merge::of_path(
                r,
                other,
            ) == merge::of_path(s, other) by {
                assert(merge::of_path(r0, other) == merge::of_path(init, other));
            }
            if merge::distinct_paths(s) {
                assert(merge::distinct_paths(init)) by {
                    assert forall|a: int, b: int| 0 <= a < b < init.len() implies (
                    #[trigger] init[a]).path != (#[trigger] init[b]).path by {
                        assert(init[a] == s[a] && init[b] == s[b]);
                    }
                }
            }
        }
    }
}

/// Removing a path leaves no entry of it, and the entries of every other path
/// as they are.
pub proof fn law_remove_path_is_complete(s: Seq<EntryView>, path: Seq<char>)
    ensures
        !merge::has_path(without_path(s, path), path),
        forall|other: Seq<char>|
            other != path ==> #[trigger] merge::of_path(without_path(s, path), other)
                == merge::of_path(s, other),
        !merge::has_path(s, path) ==> without_path(s, path) == s,
{
    lemma_without_path(s, path);
    if !merge::has_path(s, path) {
        lemma_without_path_absent(s, path);
    }
}

proof fn lemma_without_path_absent(s: Seq<EntryView>, path: Seq<char>)
    requires
        !merge::has_path(s, path),
    ensures
        without_path(s, path) == s,
    decreases s.len(),
{
    if s.len() > 0 {
        let init = s.drop_last();
        assert(s[s.len() - 1].path != path);
        assert(!merge::has_path(init, path)) by {
            if merge::has_path(init, path) {
                let i = choose|i: int| 0 <= i < init.len() && (#[trigger] init[i]).path == path;
                assert(s[i].path == path);
            }
        }
        lemma_without_path_absent(init, path);
        assert(init.push(s.last()) =~= s);
    }
}

/// No change makes a second entry of a path: a list with one entry per path
/// stays one, whatever is added, merged, opened or removed.
pub proof fn law_changes_keep_paths_distinct(
    s: Seq<EntryView>,
    path: Seq<char>,
    sessions: Seq<SessionView>,
    id: Seq<char>,
    now: Timestamp,
)
    requires
        merge::distinct_paths(s),
    ensures
        merge::distinct_paths(upserted(s, path, now)),
        merge::distinct_paths(synced(s, path, sessions, now)),
        merge::distinct_paths(touched(s, path, now)),
        merge::distinct_paths(without_path(s, path)),
        merge::distinct_paths(without_session(s, path, id)),
{
    lemma_path_at(s, path);
    lemma_without_path(s, path);
    let u = upserted(s, path, now);
    if !merge::has_path(s, path) {
        assert forall|i: int, j: int| 0 <= i < j < u.len() implies (#[trigger] u[i]).path != (
        #[trigger] u[j]).path by {
            assert(u[i] == s[i]);
            if j < s.len() {
                assert(u[j] == s[j]);
            }
        }
    }
    let y = synced(s, path, sessions, now);
    assert forall|i: int, j: int| 0 <= i < j < y.len() implies (#[trigger] y[i]).path != (
    #[trigger] y[j]).path by {
        assert(y[i].path == s[i].path);
        if j < s.len() {
            assert(y[j].path == s[j].path);
        }
    }
    let t = touched(s, path, now);
    assert forall|i: int, j: int| 0 <= i < j < t.len() implies (#[trigger] t[i]).path != (
    #[trigger] t[j]).path by {
        assert(t[i].path == s[i].path && t[j].path == s[j].path);
    }
    let w = without_session(s, path, id);
    assert forall|i: int, j: int| 0 <= i < j < w.len() implies (#[trigger] w[i]).path != (
    #[trigger] w[j]).path by {
        assert(w[i].path == s[i].path && w[j].path == s[j].path);
    }
}

/// Sessions are told apart by id wherever they are merged into a path, be it
/// listed or new: a list without two sessions of one id under a path stays one,
/// and the path has a session for each one merged in that is no older.
pub proof fn law_sync_tells_sessions_apart(
    s: Seq<EntryView>,
    path: Seq<char>,
    sessions: Seq<SessionView>,
    now: Timestamp,
)
    requires
        forall|i: int| 0 <= i < s.len() ==> merge::distinct_ids((#[trigger] s[i]).sections),
    ensures
        forall|i: int|
            0 <= i < synced(s, path, sessions, now).len() ==> merge::distinct_ids(
                (#[trigger] synced(s, path, sessions, now)[i]).sections,
            ),
        exists|i: int|
            0 <= i < synced(s, path, sessions, now).len() && (#[trigger] synced(
                s,
                path,
                sessions,
                now,
            )[i]).path == path && forall|k: int|
                0 <= k < sessions.len() ==> merge::covers(
                    synced(s, path, sessions, now)[i].sections,
                    #[trigger] sessions[k],
                ),
{
    let y = synced(s, path, sessions, now);
    lemma_path_at(s, path);
    let (at, before) = match path_at(s, path) {
        Some(i) => (i, s[i].sections),
        None => (s.len() as int, Seq::<SessionView>::empty()),
    };
    assert(merge::distinct_ids(before));
    merge::law_sections_unite(before, sessions);
    assert(y[at].path == path);
    assert(y[at].sections == merge::with_sections(before, sessions));
    assert forall|i: int| 0 <= i < y.len() implies merge::distinct_ids(
        (#[trigger] y[i]).sections,
    ) by {
        if i != at {
            assert(y[i] == s[i]);
        }
    }
}

/// Adding a path twice is adding it once, and the path is there afterwards; an
/// entry that was there is untouched.
pub proof fn law_upsert_is_idempotent(
    s: Seq<EntryView>,
    path: Seq<char>,
    now: Timestamp,
    later: Timestamp,
)
    ensures
        upserted(upserted(s, path, now), path, later) == upserted(s, path, now),
        merge::has_path(upserted(s, path, now), path),
        upserted(s, path, now).take(s.len() as int) == s,
{
    let u = upserted(s, path, now);
    if !merge::has_path(s, path) {
        assert(u[s.len() as int].path == path);
    }
    assert(u.take(s.len() as int) =~= s);
}

/// Opening a path changes nothing but the times of its entries: it was opened
/// now, and keeps its creation time where it had one.
pub proof fn law_touch_changes_only_times(s: Seq<EntryView>, path: Seq<char>, now: Timestamp)
    ensures
        touched(s, path, now).len() == s.len(),
        forall|i: int|
            0 <= i < s.len() ==> (#[trigger] touched(s, path, now)[i]).path == s[i].path
                && touched(s, path, now)[i].sections == s[i].sections && (s[i].path != path
                ==> touched(s, path, now)[i] == s[i]) && (s[i].path == path ==> touched(
                s,
                path,
                now,
            )[i].last_opened_at == Some(now) && touched(s, path, now)[i].created_at is Some && (
            s[i].created_at is Some ==> touched(s, path, now)[i].created_at == s[i].created_at)),
{
}

proof fn lemma_without_id(s: Seq<SessionView>, id: Seq<char>)
    ensures
        !merge::has_id(without_id(s, id), id),
        forall|x: SessionView|
            x.id != id ==> (#[trigger] without_id(s, id).contains(x) <==> s.contains(x)),
    decreases s.len(),
{
    if s.len() > 0 {
        let init = s.drop_last();
        let r0 = without_id(init, id);
        let r = without_id(s, id);
        lemma_without_id(init, id);
        if merge::has_id(r, id) {
            let i = choose|i: int| 0 <= i < r.len() && (#[trigger] r[i]).id == id;
            assert(r0[i].id == id);
        }
        assert forall|x: SessionView| x.id != id implies (#[trigger] r.contains(x)
            <==> s.contains(x)) by {
            assert(r0.contains(x) <==> init.contains(x));
            if r.contains(x) {
                let i = choose|i: int| 0 <= i < r.len() && r[i] == x;
                if i < r0.len() {
                    assert(r0[i] == x);
                    let k = choose|k: int| 0 <= k < init.len() && init[k] == x;
                    assert(s[k] == x);
                } else {
                    assert(s[s.len() - 1] == x);
                }
            }
            if s.contains(x) {
                let i = choose|i: int| 0 <= i < s.len() && s[i] == x;
                if i < init.len() {
                    assert(init[i] == x);
                    let k = choose|k: int| 0 <= k < r0.len() && r0[k] == x;
                    assert(r[k] == x);
                } else {
                    assert(r[r.len() - 1] == x);
                }
            }
        }
    }
}

/// Removing a session leaves none of that id in the path's entry, keeps the
/// entry and its other sections, and keeps every other entry.
pub proof fn law_remove_session_is_exact(s: Seq<EntryView>, path: Seq<char>, id: Seq<char>)
    requires
        merge::distinct_paths(s),
    ensures
        without_session(s, path, id).len() == s.len(),
        forall|i: int|
            0 <= i < s.len() ==> (#[trigger] without_session(s, path, id)[i]).path == s[i].path && (
            if s[i].path == path {
                !merge::has_id(without_session(s, path, id)[i].sections, id) && forall|
                    x: SessionView,
                |
                    x.id != id ==> (
                    #[trigger] without_session(s, path, id)[i].sections.contains(x)
                        <==> s[i].sections.contains(x))
            } else {
                without_session(s, path, id)[i] == s[i]
            }),
{
    lemma_path_at(s, path);
    let w = without_session(s, path, id);
    if let Some(at) = path_at(s, path) {
        lemma_without_id(s[at].sections, id);
        assert forall|i: int| 0 <= i < s.len() && (#[trigger] w[i]).path == path implies i == at by {
            assert(w[i].path == s[i].path);
            if i < at {
                assert(s[i].path != s[at].path);
            }
            if at < i {
                assert(s[at].path != s[i].path);
            }
        }
    }
}

/// A refresh that finds entries on both sides gives one entry per path, and a
/// path exactly where either side has it.
pub proof fn law_refresh_unites_both_sides(
    local: Seq<EntryView>,
    reply: RemoteReply,
    d: RefreshDecision,
)
    requires
        is_refresh(local, reply, d),
        !falls_back(reply),
        reply_items(reply).len() > 0,
        local.len() > 0,
    ensures
        merge::distinct_paths(path_entry::entry_views(d.entries@)),
        forall|path: Seq<char>|
            #[trigger] merge::has_path(path_entry::entry_views(d.entries@), path)
                <==> merge::has_path(valid_items(reply_items(reply)), path) || merge::has_path(
                local,
                path,
            ),
{
    let out = path_entry::entry_views(d.entries@);
    let there = valid_items(reply_items(reply));
    let all = there + local;
    merge::law_merge_unites_paths(out, all);
    assert forall|path: Seq<char>| #[trigger] merge::has_path(out, path) <==> merge::has_path(
        there,
        path,
    ) || merge::has_path(local, path) by {
        if merge::has_path(all, path) {
            let i = choose|i: int| 0 <= i < all.len() && (#[trigger] all[i]).path == path;
            if i < there.len() {
                assert(there[i].path == path);
            } else {
                assert(local[i - there.len()].path == path);
            }
        }
        if merge::has_path(there, path) {
            let i = choose|i: int| 0 <= i < there.len() && (#[trigger] there[i]).path == path;
            assert(all[i].path == path);
        }
        if merge::has_path(local, path) {
            let i = choose|i: int| 0 <= i < local.len() && (#[trigger] local[i]).path == path;
            assert(all[i + there.len()].path == path);
        }
    }
}

/// A refresh loses nothing: every local path stays, and so does every path of a
/// remote list that was read; no other path appears. Where the remote cannot be
/// used, the local list stays as it is.
pub proof fn law_refresh_loses_no_path(
    local: Seq<EntryView>,
    reply: RemoteReply,
    d: RefreshDecision,
    path: Seq<char>,
)
    requires
        is_refresh(local, reply, d),
    ensures
        falls_back(reply) ==> path_entry::entry_views(d.entries@) == local,
        !falls_back(reply) ==> (merge::has_path(path_entry::entry_views(d.entries@), path)
            <==> merge::has_path(valid_items(reply_items(reply)), path) || merge::has_path(
            local,
            path,
        )),
{
    let out = path_entry::entry_views(d.entries@);
    let items = reply_items(reply);
    let there = valid_items(items);
    if !falls_back(reply) {
        if items.len() > 0 && local.len() > 0 {
            law_refresh_unites_both_sides(local, reply, d);
            assert(merge::has_path(out, path) <==> merge::has_path(there, path)
                || merge::has_path(local, path));
        } else if items.len() > 0 {
            lemma_sorted_paths(out, there, path);
        } else if local.len() > 0 {
            lemma_sorted_paths(out, local, path);
        }
    }
}

proof fn lemma_sorted_paths(r: Seq<EntryView>, s: Seq<EntryView>, path: Seq<char>)
    requires
        merge::is_sorted_form(r, s),
    ensures
        merge::has_path(r, path) <==> merge::has_path(s, path),
{
    merge::law_sorting_keeps_entries(r, s);
    if merge::has_path(r, path) {
        let i = choose|i: int| 0 <= i < r.len() && (#[trigger] r[i]).path == path;
        let j = choose|j: int| 0 <= j < s.len() && s[j] == r[i];
        assert(s[j].path == path);
    }
    if merge::has_path(s, path) {
        let i = choose|i: int| 0 <= i < s.len() && (#[trigger] s[i]).path == path;
        let j = choose|j: int| 0 <= j < r.len() && r[j] == s[i];
        assert(r[j].path == path);
    }
}

proof fn lemma_path_at_is(s: Seq<EntryView>, path: Seq<char>, at: int)
    requires
        0 <= at < s.len(),
        s[at].path == path,
        forall|j: int| 0 <= j < at ==> (#[trigger] s[j]).path != path,
    ensures
        path_at(s, path) == Some(at),
{
    lemma_path_at(s, path);
    if let Some(i) = path_at(s, path) {
        if i < at {
            assert(s[i].path != path);
        }
        if at < i {
            assert(s[at].path != path);
        }
    } else {
        assert(s[at].path != path);
    }
}

/// Merging sessions into a listed path opens it now and keeps its creation
/// time; every other entry stays as it is, and so does every session id that it
/// had.
pub proof fn law_sync_opens_the_path_and_nothing_else(
    s: Seq<EntryView>,
    path: Seq<char>,
    sessions: Seq<SessionView>,
    now: Timestamp,
    at: int,
)
    requires
        0 <= at < s.len(),
        s[at].path == path,
        forall|j: int| 0 <= j < at ==> (#[trigger] s[j]).path != path,
    ensures
        synced(s, path, sessions, now).len() == s.len(),
        synced(s, path, sessions, now)[at].path == path,
        synced(s, path, sessions, now)[at].last_opened_at == Some(now),
        synced(s, path, sessions, now)[at].created_at == s[at].created_at,
        forall|i: int|
            0 <= i < s.len() && i != at ==> #[trigger] synced(s, path, sessions, now)[i] == s[i],
        synced(s, path, sessions, now)[at].sections.len() >= s[at].sections.len(),
        forall|k: int|
            0 <= k < s[at].sections.len() ==> (#[trigger] synced(
                s,
                path,
                sessions,
                now,
            )[at].sections[k]).id == s[at].sections[k].id,
        forall|k: int|
            0 <= k < synced(s, path, sessions, now)[at].sections.len() ==> s[at].sections.contains(
                #[trigger] synced(s, path, sessions, now)[at].sections[k],
            ) || sessions.contains(synced(s, path, sessions, now)[at].sections[k]),
{
    lemma_path_at_is(s, path, at);
    merge::law_merged_sessions_are_verbatim(s[at].sections, sessions);
}

/// Merging sessions into a path that is not listed adds it at the end, created
/// and opened now, with those sessions and no others; the entries that were
/// there stay.
pub proof fn law_sync_adds_a_missing_path(
    s: Seq<EntryView>,
    path: Seq<char>,
    sessions: Seq<SessionView>,
    now: Timestamp,
)
    requires
        forall|j: int| 0 <= j < s.len() ==> (#[trigger] s[j]).path != path,
    ensures
        synced(s, path, sessions, now).len() == s.len() + 1,
        synced(s, path, sessions, now).take(s.len() as int) == s,
        synced(s, path, sessions, now).last().path == path,
        synced(s, path, sessions, now).last().created_at == Some(now),
        synced(s, path, sessions, now).last().last_opened_at == Some(now),
        forall|k: int|
            0 <= k < synced(s, path, sessions, now).last().sections.len() ==> sessions.contains(
                #[trigger] synced(s, path, sessions, now).last().sections[k],
            ),
        forall|k: int|
            0 <= k < sessions.len() ==> exists|m: int|
                0 <= m < synced(s, path, sessions, now).last().sections.len() && (
                #[trigger] synced(s, path, sessions, now).last().sections[m]).id == (
                #[trigger] sessions[k]).id,
{
    lemma_path_at(s, path);
    if let Some(i) = path_at(s, path) {
        assert(s[i].path == path);
    }
    let none = Seq::<SessionView>::empty();
    let y = synced(s, path, sessions, now);
    merge::law_merged_sessions_are_verbatim(none, sessions);
    merge::law_sections_unite(none, sessions);
    assert(y.take(s.len() as int) =~= s);
    assert forall|k: int| 0 <= k < sessions.len() implies exists|m: int|
        0 <= m < y.last().sections.len() && (#[trigger] y.last().sections[m]).id == (
        #[trigger] sessions[k]).id by {
        assert(merge::covers(y.last().sections, sessions[k]));
    }
}

/// Adding a path that is not listed puts an entry without sessions at the end,
/// created and opened now; adding one that is listed changes nothing.
pub proof fn law_upsert_adds_a_fresh_entry(s: Seq<EntryView>, path: Seq<char>, now: Timestamp)
    ensures
        (exists|i: int| 0 <= i < s.len() && (#[trigger] s[i]).path == path) ==> upserted(
            s,
            path,
            now,
        ) == s,
        (forall|i: int| 0 <= i < s.len() ==> (#[trigger] s[i]).path != path) ==> upserted(
            s,
            path,
            now,
        ) == s.push(
            EntryView {
                path,
                sections: Seq::empty(),
                created_at: Some(now),
                last_opened_at: Some(now),
            },
        ),
{
}

/// Opening a path leaves the list as it is but for the entries of the path:
/// those were opened now, and were created now where no time was known.
pub proof fn law_touch_opens_every_entry_of_the_path(
    s: Seq<EntryView>,
    path: Seq<char>,
    now: Timestamp,
    i: int,
)
    requires
        0 <= i < s.len(),
    ensures
        touched(s, path, now).len() == s.len(),
        s[i].path != path ==> touched(s, path, now)[i] == s[i],
        s[i].path == path && s[i].created_at is Some ==> touched(s, path, now)[i] == (EntryView {
            last_opened_at: Some(now),
            ..s[i]
        }),
        s[i].path == path && s[i].created_at is None ==> touched(s, path, now)[i] == (EntryView {
            last_opened_at: Some(now),
            created_at: Some(now),
            ..s[i]
        }),
{
}

/// Removing a path drops its entries and keeps all others, in their order.
pub proof fn law_remove_path_keeps_the_others(s: Seq<EntryView>, path: Seq<char>)
    ensures
        without_path(s, path) == s.filter(|e: EntryView| e.path != path),
    decreases s.len(),
{
    reveal(Seq::filter);
    if s.len() > 0 {
        law_remove_path_keeps_the_others(s.drop_last(), path);
    }
}

proof fn lemma_without_id_is_filter(s: Seq<SessionView>, id: Seq<char>)
    ensures
        without_id(s, id) == s.filter(|x: SessionView| x.id != id),
    decreases s.len(),
{
    reveal(Seq::filter);
    if s.len() > 0 {
        lemma_without_id_is_filter(s.drop_last(), id);
    }
}

/// Removing a session drops it from the first entry of its path and keeps the
/// others there, in their order; times and other entries stay as they are.
pub proof fn law_remove_session_keeps_the_others(
    s: Seq<EntryView>,
    path: Seq<char>,
    id: Seq<char>,
    at: int,
)
    ensures
        0 <= at < s.len() && s[at].path == path && (forall|j: int|
            0 <= j < at ==> (#[trigger] s[j]).path != path) ==> without_session(s, path, id)
            == s.update(
            at,
            EntryView { sections: s[at].sections.filter(|x: SessionView| x.id != id), ..s[at] },
        ),
        (forall|j: int| 0 <= j < s.len() ==> (#[trigger] s[j]).path != path) ==> without_session(
            s,
            path,
            id,
        ) == s,
{
    lemma_path_at(s, path);
    if 0 <= at < s.len() && s[at].path == path && forall|j: int|
        0 <= j < at ==> (#[trigger] s[j]).path != path {
        lemma_path_at_is(s, path, at);
        lemma_without_id_is_filter(s[at].sections, id);
    }
    if forall|j: int| 0 <= j < s.len() ==> (#[trigger] s[j]).path != path {
        if let Some(i) = path_at(s, path) {
            assert(s[i].path == path);
        }
    }
}

/// The elements of a remote list that can be read are kept, in order; the others
/// are passed over.
pub proof fn law_malformed_items_are_passed_over(items: Seq<Option<EntryView>>)
    ensures
        valid_items(items) == items.filter(|x: Option<EntryView>| x is Some).map_values(
            |x: Option<EntryView>| x->0,
        ),
    decreases items.len(),
{
    reveal(Seq::filter);
    let p = |x: Option<EntryView>| x is Some;
    let f = |x: Option<EntryView>| x->0;
    if items.len() > 0 {
        let init = items.drop_last();
        law_malformed_items_are_passed_over(init);
        if items.last() is Some {
            assert(init.filter(p).push(items.last()).map_values(f) =~= init.filter(p).map_values(
                f,
            ).push(items.last()->0));
        }
    } else {
        assert(valid_items(items) =~= items.filter(p).map_values(f));
    }
}

/// What a refresh does by the status of the remote: with a success or a missing
/// file the two sides are brought together, and where only one side has
/// something the other is given it; any other status leaves the local list as it
/// is, and nothing is written or pushed.
pub proof fn law_refresh_follows_the_status(
    local: Seq<EntryView>,
    status: u16,
    items: Option<Vec<Option<PathEntry>>>,
    d: RefreshDecision,
)
    requires
        is_refresh(local, RemoteReply::Got { status, items }, d),
    ensures
        !(200 <= status <= 299) && status != 404 ==> path_entry::entry_views(d.entries@) == local
            && !d.write && !d.push,
        (200 <= status <= 299 || status == 404) && items is Some && items->0@.len() > 0
            && local.len() == 0 ==> d.write && !d.push && !d.report.seeded_remote
            && d.report.from_local == 0 && d.report.from_remote == d.entries@.len(),
        (200 <= status <= 299 || status == 404) && (items is None || items->0@.len() == 0)
            && local.len() > 0 ==> d.write && d.push && d.report.seeded_remote
            && path_entry::entry_views(d.entries@).to_multiset() == local.to_multiset(),
        (200 <= status <= 299 || status == 404) && items is Some && items->0@.len() > 0
            && local.len() > 0 ==> d.write && d.push && !d.report.seeded_remote
            && d.report.from_remote == items->0@.len() && d.report.from_local == local.len()
            && d.report.merged == d.entries@.len(),
        (200 <= status <= 299 || status == 404) && (items is None || items->0@.len() == 0)
            && local.len() == 0 ==> d.entries@.len() == 0 && !d.write && !d.push,
        auth_broken(RemoteReply::Got { status, items }) <==> status == 401 || status == 403,
{
    let out = path_entry::entry_views(d.entries@);
    assert(out.len() == d.entries@.len());
    if let Some(v) = items {
        assert(item_views(v@).len() == v@.len());
    }
    if (200 <= status <= 299 || status == 404) && (items is None || items->0@.len() == 0)
        && local.len() > 0 {
        merge::law_sorted_list_is_last_opened_first(out, local, Seq::empty());
    }
}

/// A refresh without a remote sorts the local list and keeps it; one that cannot
/// tell the remote path, or whose request failed, leaves it as it is.
pub proof fn law_refresh_without_an_answer(
    local: Seq<EntryView>,
    reply: RemoteReply,
    d: RefreshDecision,
)
    requires
        is_refresh(local, reply, d),
        !(reply is Got),
    ensures
        !d.push,
        !d.report.seeded_remote,
        d.report.from_remote == 0,
        d.entries@.len() == local.len(),
        path_entry::entry_views(d.entries@).to_multiset() == local.to_multiset(),
        !(reply is NoRemote) ==> path_entry::entry_views(d.entries@) == local && !d.write,
        reply is NoRemote ==> d.write == (local.len() > 0),
        !auth_broken(reply),
{
    let out = path_entry::entry_views(d.entries@);
    assert(out.len() == d.entries@.len());
    if reply is NoRemote && local.len() > 0 {
        merge::law_sorted_list_is_last_opened_first(out, local, Seq::empty());
        local.to_multiset_ensures();
        out.to_multiset_ensures();
    } else if local.len() == 0 {
        assert(out =~= local);
    }
}

/// Whenever a refresh brings lists together, the result shows what was opened
/// last first.
pub proof fn law_refreshed_list_is_last_opened_first(
    local: Seq<EntryView>,
    reply: RemoteReply,
    d: RefreshDecision,
    i: int,
    j: int,
)
    requires
        is_refresh(local, reply, d),
        d.write,
        0 <= i < j < d.entries@.len(),
    ensures
        !text::less(
            time::formatted(d.entries@[i].last_opened_at),
            time::formatted(d.entries@[j].last_opened_at),
        ),
{
    let out = path_entry::entry_views(d.entries@);
    let there = valid_items(reply_items(reply));
    assert(out[i] == d.entries@[i]@ && out[j] == d.entries@[j]@);
    if reply_items(reply).len() > 0 && local.len() > 0 {
        merge::law_merge_is_last_opened_first(out, there + local, i, j);
    } else if local.len() > 0 {
        merge::law_sorted_list_is_last_opened_first(out, local, Seq::empty());
    } else {
        merge::law_sorted_list_is_last_opened_first(out, there, Seq::empty());
    }
}

/// Only a list that the remote answers with plain success is migrated.
pub proof fn law_migration_reads_a_plain_success(reply: LegacyReply)
    ensures
        match reply {
            LegacyReply::Errored => legacy_entries(reply).len() == 0,
            LegacyReply::Got { status, items } => {
                &&& status != 200 || items is None ==> legacy_entries(reply).len() == 0
                &&& status == 200 ==> match items {
                    Some(v) => forall|k: int|
                        0 <= k < v@.len() ==> ((#[trigger] v@[k]) matches Some(e)
                            ==> legacy_entries(reply).contains(e@)),
                    None => true,
                }
            },
        },
{
    if let LegacyReply::Got { status, items: Some(v) } = reply {
        if status == 200 {
            let vs = item_views(v@);
            assert forall|k: int| 0 <= k < v@.len() implies ((#[trigger] v@[k]) matches Some(e)
                ==> legacy_entries(reply).contains(e@)) by {
                if let Some(e) = v@[k] {
                    assert(vs[k] == Some(e@));
                    lemma_valid_items_has(vs, k);
                }
            }
        }
    }
}

proof fn lemma_valid_items_has(items: Seq<Option<EntryView>>, k: int)
    requires
        0 <= k < items.len(),
        items[k] is Some,
    ensures
        valid_items(items).contains(items[k]->0),
    decreases items.len(),
{
    let init = items.drop_last();
    let r = valid_items(items);
    if k == items.len() - 1 {
        assert(r[r.len() - 1] == items[k]->0);
    } else {
        assert(init[k] == items[k]);
        lemma_valid_items_has(init, k);
        let before = valid_items(init);
        let m = choose|m: int| 0 <= m < before.len() && before[m] == items[k]->0;
        assert(r[m] == items[k]->0);
    }
}

/// A change is made just where its path is accepted: the list that is handed out is
/// the one that is kept. A path that is refused changes nothing, and the remote stays
/// attached either way.
pub proof fn law_refused_paths_change_nothing(
    before: StoreView,
    after: StoreView,
    target: Seq<char>,
    dirs: HostDirs,
    r: Result<Change, AppError>,
    awaited: bool,
    change: spec_fn(Seq<EntryView>, Seq<char>) -> Seq<EntryView>,
)
    requires
        is_change(before, after, target, dirs, r, awaited, change),
    ensures
        r is Ok <==> path_entry::validated(target, dirs) is Ok,
        r is Err ==> after.entries == before.entries,
        r is Ok ==> path_entry::entry_views(r->Ok_0.snapshot@) == after.entries && r->Ok_0.awaited
            == awaited,
        r is Ok ==> after.entries == change(
            before.entries,
            path_entry::validated(target, dirs)->Ok_0,
        ),
        after.remote == before.remote,
{
}

/// A refresh asks for the path that the remote keeps its list at, with a slash before
/// it; it asks nothing without a remote, or of one that has no place for a list.
pub proof fn law_refresh_asks_where_the_list_is_kept(client: Option<ClientView>, r: RefreshPlan)
    requires
        is_plan(client, r),
    ensures
        r is NoRemote <==> client is None,
        r is Get <==> client is Some && remote::has_plan(client->0),
        r is NoPath <==> client is Some && !remote::has_plan(client->0),
        r matches RefreshPlan::Get(path) ==> path@.len() > 0 && path@[0] == '/',
{
    reveal_strlit("/");
}

} // verus!
