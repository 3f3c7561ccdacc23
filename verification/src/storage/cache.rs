//! The local file that holds the path list as a JSON array: where it and its
//! backup are, and what reading it comes to.

use vstd::prelude::*;
use vstd::string::*;

use crate::domain::path_entry::PathEntry;
use crate::error::{glued, AppError, ErrorView};
use crate::host_path;
use crate::host_path::Host;
use crate::text;

pub use crate::time::{format_dt, now_iso8601, parse_dt};

verus! {

/// A file-backed cache that stores a JSON array of entries.
#[derive(Debug)]
pub struct FileCache {
    /// Path to the JSON file.
    path: String,
    /// Backup path used for crash recovery.
    backup: String,
    /// The machine whose paths these are.
    host: Host,
}

/// The file name of a cache path; a cache without one is called
/// `path-list.md`.
pub open spec fn cache_name(path: Seq<char>, sep: char) -> Seq<char> {
    match host_path::host_base_name(path, sep) {
        Some(n) => n,
        None => "path-list.md"@,
    }
}

/// `path` with its file name followed by `suffix`.
pub open spec fn sibling_of(path: Seq<char>, suffix: Seq<char>, sep: char) -> Seq<char> {
    host_path::host_renamed(path, cache_name(path, sep) + suffix, sep)
}

fn sibling(host: Host, path: &str, suffix: &str) -> (r: String)
    ensures
        r@ == sibling_of(path@, suffix@, host.separator()),
{
    let mut name: String = match host_path::base_name(host, path) {
        Some(n) => n,
        None => "path-list.md".to_owned(),
    };
    name.append(suffix);
    host_path::with_file_name(host, path, name.as_str())
}

/// On a host that separates paths with `/`, the sibling of a path that is a
/// file name, or a directory, one slash and a file name, is the path followed by
/// the suffix.
pub proof fn law_sibling_is_the_path_and_the_suffix(path: Seq<char>, suffix: Seq<char>)
    requires
        host_path::base_name_of(path) is Some,
        path.len() >= host_path::base_name_of(path)->0.len(),
        path.skip(path.len() - host_path::base_name_of(path)->0.len())
            == host_path::base_name_of(path)->0,
        host_path::is_plain_parent(path, path.len() - host_path::base_name_of(path)->0.len()),
        text::has_no(suffix, '/'),
    ensures
        sibling_of(path, suffix, '/') == path + suffix,
{
    let file = host_path::base_name_of(path)->0;
    let n = path.len() - file.len();
    host_path::lemma_base_name(path);
    assert(path =~= path.take(n) + path.skip(n));
    assert(path.take(n) + (file + suffix) =~= path + suffix);
}

/// What a read of the cache file, and then of its backup, gave.
pub enum CacheRead {
    /// The file does not exist.
    Missing,
    /// The file could not be read.
    Failed(String),
    /// The file held an array of entries.
    Entries(Vec<PathEntry>),
    /// The file did not hold one, for the first reason, and the backup could
    /// not be read, for the second.
    NoBackup(String, String),
    /// Neither the file nor the backup held one; the reason is the backup's.
    BothCorrupt(String),
    /// The backup held an array of entries.
    Restored(Vec<PathEntry>),
}

/// The error that a read of the cache comes to.
pub open spec fn read_error(got: CacheRead) -> Option<ErrorView> {
    match got {
        CacheRead::Missing | CacheRead::Entries(_) | CacheRead::Restored(_) => None,
        CacheRead::Failed(e) => Some(ErrorView::Io(e@)),
        CacheRead::NoBackup(parse, io) => Some(
            ErrorView::Internal(
                "path-list.md corrupt ("@ + parse@ + ") and .bak unreadable: "@ + io@,
            ),
        ),
        CacheRead::BothCorrupt(e) => Some(
            ErrorView::Internal("path-list.md and .bak both corrupt: "@ + e@),
        ),
    }
}

/// The entries that a read of the cache comes to.
pub open spec fn read_entries(got: CacheRead) -> Seq<PathEntry> {
    match got {
        CacheRead::Entries(v) | CacheRead::Restored(v) => v@,
        _ => Seq::<PathEntry>::empty(),
    }
}

impl FileCache {
    /// The path of the file.
    pub closed spec fn file(&self) -> Seq<char> {
        self.path@
    }

    /// The path of the backup.
    pub closed spec fn backup_file(&self) -> Seq<char> {
        self.backup@
    }

    /// The separator of the machine that the cache was made on.
    pub closed spec fn separator(&self) -> char {
        self.host.separator()
    }

    /// Create a cache rooted at `path`. The backup path is derived by appending
    /// `.bak` to the file name.
    #[must_use]
    pub fn new(path: &str) -> (r: Self)
        ensures
            r.file() == path@,
            r.backup_file() == sibling_of(path@, ".bak"@, r.separator()),
    {
        let host: Host = Host::current();
        FileCache { path: path.to_owned(), backup: sibling(host, path, ".bak"), host }
    }

    /// The path this cache reads and writes.
    #[must_use]
    pub fn path(&self) -> (r: &str)
        ensures
            r@ == self.file(),
    {
        self.path.as_str()
    }

    /// The path of the backup.
    #[must_use]
    pub fn backup(&self) -> (r: &str)
        ensures
            r@ == self.backup_file(),
    {
        self.backup.as_str()
    }

    /// The temporary file that process `pid` writes before it renames it to the
    /// cache file: a sibling named `{name}.{pid}.tmp`.
    #[must_use]
    pub fn tmp_path(&self, pid: u32) -> (r: String)
        ensures
            r@ == sibling_of(
                self.file(),
                "."@ + text::decimal(pid as nat) + ".tmp"@,
                self.separator(),
            ),
    {
        let n: String = text::to_decimal(pid as u64);
        let mut suffix: String = glued(".", n.as_str());
        suffix.append(".tmp");
        sibling(self.host, self.path.as_str(), suffix.as_str())
    }

    /// Decides a read of the cache. A missing file is an empty list; a file that
    /// does not parse is restored from the backup.
    ///
    /// # Errors
    /// Returns [`AppError::Io`] if the file cannot be read, and
    /// [`AppError::Internal`] if it is corrupt and the backup is unreadable or
    /// corrupt too.
    pub fn read(got: CacheRead) -> (r: Result<Vec<PathEntry>, AppError>)
        ensures
            match r {
                Ok(v) => read_error(got) is None && v@ =~= read_entries(got),
                Err(e) => read_error(got) == Some(e@),
            },
    {
        match got {
            CacheRead::Missing => Ok(Vec::new()),
            CacheRead::Failed(e) => Err(AppError::Io(e)),
            CacheRead::Entries(v) => Ok(v),
            CacheRead::NoBackup(parse, io) => {
                let mut m: String = glued("path-list.md corrupt (", parse.as_str());
                m.append(") and .bak unreadable: ");
                m.append(io.as_str());
                Err(AppError::Internal(m))
            },
            CacheRead::BothCorrupt(e) => Err(
                AppError::Internal(glued("path-list.md and .bak both corrupt: ", e.as_str())),
            ),
            CacheRead::Restored(v) => Ok(v),
        }
    }
}

/// The location of the path list: `data/path-list.md` next to the executable
/// where its directory is known, else relative to the working directory.
pub open spec fn path_list_location(exe_dir: Option<Seq<char>>, sep: char) -> Seq<char> {
    let data = match exe_dir {
        Some(d) => host_path::host_joined(d, "data"@, sep),
        None => "data"@,
    };
    host_path::host_joined(data, "path-list.md"@, sep)
}

/// Resolve the location of the path list cache.
#[must_use]
pub fn default_path_list_path(host: Host, exe_dir: Option<&str>) -> (r: String)
    ensures
        r@ == path_list_location(
            match exe_dir {
                Some(d) => Some(d@),
                None => None,
            },
            host.separator(),
        ),
{
    let data: String = match exe_dir {
        Some(d) => host_path::join(host, d, "data"),
        None => "data".to_owned(),
    };
    host_path::join(host, data.as_str(), "path-list.md")
}

/// Whether `m` is the least non-empty text among `values`.
pub open spec fn is_least(values: Seq<Seq<char>>, m: Seq<char>) -> bool {
    &&& m.len() > 0
    &&& values.contains(m)
    &&& forall|i: int|
        0 <= i < values.len() && (#[trigger] values[i]).len() > 0 ==> !text::less(values[i], m)
}

/// Whether `m` is the greatest non-empty text among `values`.
pub open spec fn is_greatest(values: Seq<Seq<char>>, m: Seq<char>) -> bool {
    &&& m.len() > 0
    &&& values.contains(m)
    &&& forall|i: int|
        0 <= i < values.len() && (#[trigger] values[i]).len() > 0 ==> !text::less(m, values[i])
}

pub open spec fn all_blank(values: Seq<Seq<char>>) -> bool {
    forall|i: int| 0 <= i < values.len() ==> (#[trigger] values[i]).len() == 0
}

pub open spec fn str_views(values: Seq<&str>) -> Seq<Seq<char>> {
    values.map_values(|s: &str| s@)
}

/// The lexicographic minimum of a list of texts, ignoring empty ones.
#[must_use]
pub fn min_non_empty<'a>(values: &[&'a str]) -> (r: Option<&'a str>)
    ensures
        match r {
            Some(m) => is_least(str_views(values@), m@),
            None => all_blank(str_views(values@)),
        },
{
    let ghost vs = str_views(values@);
    let mut best: Option<&'a str> = None;
    let mut i: usize = 0;
    while i < values.len()
        invariant
            i <= values@.len(),
            vs == str_views(values@),
            match best {
                Some(m) => is_least(vs.take(i as int), m@),
                None => all_blank(vs.take(i as int)),
            },
        decreases values@.len() - i,
    {
        let v: &'a str = values[i];
        let ghost t = vs.take(i as int);
        let ghost t2 = vs.take(i + 1);
        assert(t2 =~= t.push(v@));
        if !v.is_empty() {
            let better: bool = match best {
                Some(m) => text::before(v, m),
                None => true,
            };
            if better {
                proof {
                    assert(t2[i as int] == v@);
                    text::lemma_less_irreflexive(v@);
                    assert forall|j: int|
                        0 <= j < t2.len() && (#[trigger] t2[j]).len() > 0 implies !text::less(
                        t2[j],
                        v@,
                    ) by {
                        if j < t.len() {
                            assert(t[j] == t2[j]);
                            if text::less(t2[j], v@) {
                                if let Some(m) = best {
                                    text::lemma_less_transitive(t2[j], v@, m@);
                                }
                            }
                        }
                    }
                }
                best = Some(v);
            } else {
                proof {
                    if let Some(m) = best {
                        let k = choose|k: int| 0 <= k < t.len() && t[k] == m@;
                        assert(t2[k] == m@);
                        assert forall|j: int|
                            0 <= j < t2.len() && (#[trigger] t2[j]).len() > 0 implies !text::less(
                            t2[j],
                            m@,
                        ) by {
                            if j < t.len() {
                                assert(t[j] == t2[j]);
                            }
                        }
                    }
                }
            }
        } else {
            proof {
                if let Some(m) = best {
                    let k = choose|k: int| 0 <= k < t.len() && t[k] == m@;
                    assert(t2[k] == m@);
                    assert forall|j: int|
                        0 <= j < t2.len() && (#[trigger] t2[j]).len() > 0 implies !text::less(
                        t2[j],
                        m@,
                    ) by {
                        assert(t[j] == t2[j]);
                    }
                } else {
                    assert forall|j: int| 0 <= j < t2.len() implies (#[trigger] t2[j]).len()
                        == 0 by {
                        if j < t.len() {
                            assert(t[j] == t2[j]);
                        }
                    }
                }
            }
        }
        i = i + 1;
    }
    assert(vs.take(i as int) =~= vs);
    best
}

/// The lexicographic maximum of a list of texts, ignoring empty ones.
#[must_use]
pub fn max_non_empty<'a>(values: &[&'a str]) -> (r: Option<&'a str>)
    ensures
        match r {
            Some(m) => is_greatest(str_views(values@), m@),
            None => all_blank(str_views(values@)),
        },
{
    let ghost vs = str_views(values@);
    let mut best: Option<&'a str> = None;
    let mut i: usize = 0;
    while i < values.len()
        invariant
            i <= values@.len(),
            vs == str_views(values@),
            match best {
                Some(m) => is_greatest(vs.take(i as int), m@),
                None => all_blank(vs.take(i as int)),
            },
        decreases values@.len() - i,
    {
        let v: &'a str = values[i];
        let ghost t = vs.take(i as int);
        let ghost t2 = vs.take(i + 1);
        assert(t2 =~= t.push(v@));
        if !v.is_empty() {
            let better: bool = match best {
                Some(m) => text::before(m, v),
                None => true,
            };
            if better {
                proof {
                    assert(t2[i as int] == v@);
                    text::lemma_less_irreflexive(v@);
                    assert forall|j: int|
                        0 <= j < t2.len() && (#[trigger] t2[j]).len() > 0 implies !text::less(
                        v@,
                        t2[j],
                    ) by {
                        if j < t.len() {
                            assert(t[j] == t2[j]);
                            if text::less(v@, t2[j]) {
                                if let Some(m) = best {
                                    text::lemma_less_transitive(m@, v@, t2[j]);
                                }
                            }
                        }
                    }
                }
                best = Some(v);
            } else {
                proof {
                    if let Some(m) = best {
                        let k = choose|k: int| 0 <= k < t.len() && t[k] == m@;
                        assert(t2[k] == m@);
                        assert forall|j: int|
                            0 <= j < t2.len() && (#[trigger] t2[j]).len() > 0 implies !text::less(
                            m@,
                            t2[j],
                        ) by {
                            if j < t.len() {
                                assert(t[j] == t2[j]);
                            }
                        }
                    }
                }
            }
        } else {
            proof {
                if let Some(m) = best {
                    let k = choose|k: int| 0 <= k < t.len() && t[k] == m@;
                    assert(t2[k] == m@);
                    assert forall|j: int|
                        0 <= j < t2.len() && (#[trigger] t2[j]).len() > 0 implies !text::less(
                        m@,
                        t2[j],
                    ) by {
                        assert(t[j] == t2[j]);
                    }
                } else {
                    assert forall|j: int| 0 <= j < t2.len() implies (#[trigger] t2[j]).len()
                        == 0 by {
                        if j < t.len() {
                            assert(t[j] == t2[j]);
                        }
                    }
                }
            }
        }
        i = i + 1;
    }
    assert(vs.take(i as int) =~= vs);
    best
}

/// A missing file reads as no entries, a file or else its backup as the entries that
/// it holds; every other reading is an error, one of input and output just where the
/// file could not be read.
pub proof fn law_readings_of_the_cache(got: CacheRead)
    ensures
        read_error(got) is None <==> got is Missing || got is Entries || got is Restored,
        got is Missing ==> read_entries(got).len() == 0,
        got matches CacheRead::Entries(v) ==> read_entries(got) == v@,
        got matches CacheRead::Restored(v) ==> read_entries(got) == v@,
        (read_error(got) is Some && read_error(got)->0 is Io) <==> got is Failed,
        got matches CacheRead::Failed(e) ==> read_error(got) == Some(ErrorView::Io(e@)),
        got is NoBackup || got is BothCorrupt ==> read_error(got)->0 is Internal,
{
}

/// The path list stands below `data` beside the executable, or in the working
/// directory where the executable's is not known.
pub proof fn law_path_list_stands_below_data(exe_dir: Seq<char>)
    requires
        exe_dir.len() > 0,
        exe_dir.last() != '/',
    ensures
        path_list_location(Some(exe_dir), '/') == exe_dir + "/data/path-list.md"@,
        path_list_location(None, '/') == "data/path-list.md"@,
{
    reveal_strlit("data");
    reveal_strlit("path-list.md");
    reveal_strlit("/data/path-list.md");
    reveal_strlit("data/path-list.md");
    let data = exe_dir + seq!['/'] + "data"@;
    host_path::law_joined_path_stands_below(exe_dir, "data"@);
    host_path::law_joined_path_stands_below(data, "path-list.md"@);
    host_path::law_joined_path_stands_below("data"@, "path-list.md"@);
    assert(data + seq!['/'] + "path-list.md"@ =~= exe_dir + "/data/path-list.md"@);
    assert("data"@ + seq!['/'] + "path-list.md"@ =~= "data/path-list.md"@);
}

/// The backup and the temporary file of a cache stand beside it, under its name and
/// a suffix, and are files of their own.
pub proof fn law_siblings_stand_beside_the_file(dir: Seq<char>, name: Seq<char>, suffix: Seq<char>)
    requires
        name.len() > 0,
        name != seq!['.'],
        name != seq!['.', '.'],
        forall|i: int| 0 <= i < name.len() ==> name[i] != '/',
    ensures
        cache_name(dir + seq!['/'] + name, '/') == name,
        sibling_of(dir + seq!['/'] + name, suffix, '/') == host_path::host_renamed(
            dir + seq!['/'] + name,
            name + suffix,
            '/',
        ),
{
    host_path::law_base_name_stands_behind_the_last_slash(dir, name);
}

/// A cache whose path has no last component goes by the name of the path list.
pub proof fn law_unnamed_cache_is_the_path_list(path: Seq<char>, sep: char)
    ensures
        host_path::host_base_name(path, sep) is None ==> cache_name(path, sep) == "path-list.md"@,
        host_path::host_base_name(path, sep) is Some ==> Some(cache_name(path, sep))
            == host_path::host_base_name(path, sep),
{
}

/// The least and the greatest of texts are among them and not empty; of two texts that
/// are not empty they are the one that comes first and the other one, and an empty text
/// beside another is passed over.
pub proof fn law_least_and_greatest_of_texts(a: Seq<char>, b: Seq<char>, m: Seq<char>)
    requires
        a.len() > 0,
    ensures
        b.len() > 0 && text::less(a, b) && is_least(seq![a, b], m) ==> m == a,
        b.len() > 0 && text::less(a, b) && is_least(seq![b, a], m) ==> m == a,
        b.len() > 0 && text::less(a, b) && is_greatest(seq![a, b], m) ==> m == b,
        b.len() > 0 && text::less(a, b) && is_greatest(seq![b, a], m) ==> m == b,
        b.len() == 0 && is_least(seq![a, b], m) ==> m == a,
        b.len() == 0 && is_least(seq![b, a], m) ==> m == a,
        b.len() == 0 && is_greatest(seq![a, b], m) ==> m == a,
        b.len() == 0 && is_greatest(seq![b, a], m) ==> m == a,
        !all_blank(seq![a, b]),
        !all_blank(seq![b, a]),
{
    let ab = seq![a, b];
    let ba = seq![b, a];
    assert(ab[0] == a && ab[1] == b && ba[0] == b && ba[1] == a);
}

/// There is a least and a greatest of texts just where one of them is not empty: a
/// single one is both.
pub proof fn law_single_text_is_least_and_greatest(v: Seq<char>)
    ensures
        v.len() > 0 ==> is_least(seq![v], v) && is_greatest(seq![v], v),
        all_blank(seq![v]) <==> v.len() == 0,
        all_blank(Seq::<Seq<char>>::empty()),
        !is_least(seq![Seq::<char>::empty()], v),
        !is_greatest(seq![Seq::<char>::empty()], v),
{
    let one = seq![v];
    text::lemma_less_irreflexive(v);
    assert(one[0] == v);
    assert(one.contains(v));
    if all_blank(one) {
        assert(one[0].len() == 0);
    }
}

} // verus!
