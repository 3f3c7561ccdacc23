//! What the command-line programs print, write and choose.

use vstd::prelude::*;
use vstd::string::*;

use crate::auth::config;
use crate::domain::path_entry;
use crate::domain::path_entry::{EntryView, PathEntry};
use crate::envfile;
use crate::host_path;
use crate::host_path::Host;
use crate::text;

verus! {

/// The blanks that a text lacks to be `width` characters long.
pub open spec fn padding(s: Seq<char>, width: nat) -> Seq<char> {
    if s.len() < width {
        text::repeated(' ', (width - s.len()) as nat)
    } else {
        Seq::empty()
    }
}

fn pad(s: &str, width: usize) -> (r: String)
    ensures
        r@ == padding(s@, width as nat),
{
    let n: usize = text::chars_of(s).len();
    if n < width {
        text::repeat(' ', width - n)
    } else {
        String::new()
    }
}

/// A line of the table: the path to the left, the count to the right, and the
/// session ids.
pub open spec fn table_line(
    path: Seq<char>,
    count: Seq<char>,
    ids: Seq<char>,
    w_path: nat,
    w_secs: nat,
) -> Seq<char> {
    path + padding(path, w_path) + "  "@ + padding(count, w_secs) + count + "  "@ + ids
}

fn line(path: &str, count: &str, ids: &str, w_path: usize, w_secs: usize) -> (r: String)
    ensures
        r@ == table_line(path@, count@, ids@, w_path as nat, w_secs as nat),
{
    let mut r: String = path.to_owned();
    let gap: String = pad(path, w_path);
    r.append(gap.as_str());
    r.append("  ");
    let lead: String = pad(count, w_secs);
    r.append(lead.as_str());
    r.append(count);
    r.append("  ");
    r.append(ids);
    r
}

/// The ids of the sections of an entry, the first three at most.
pub open spec fn first_ids(e: EntryView) -> Seq<Seq<char>> {
    Seq::new(
        if e.sections.len() < 3 {
            e.sections.len()
        } else {
            3
        },
        |i: int| e.sections[i].id,
    )
}

/// What the table says of the sections of an entry.
pub open spec fn ids_text(e: EntryView) -> Seq<char> {
    let t = text::joined(first_ids(e), ", "@);
    if t.len() == 0 {
        "(empty)"@
    } else {
        t
    }
}

fn ids_of(e: &PathEntry) -> (r: String)
    ensures
        r@ == ids_text(e@),
{
    let mut ids: Vec<String> = Vec::new();
    let n: usize = e.sections.len();
    let ghost ss = e@.sections;
    assert(ss.len() == n);
    let mut i: usize = 0;
    while i < n && i < 3
        invariant
            i <= n,
            i <= 3,
            n == e.sections@.len(),
            ss == e@.sections,
            ids@.len() == i,
            forall|j: int| 0 <= j < i ==> (#[trigger] ids@[j])@ == ss[j].id,
        decreases n - i,
    {
        assert(ss[i as int] == e.sections@[i as int]@);
        ids.push(e.sections[i].id.clone());
        i = i + 1;
    }
    assert(text::views(ids@) =~= first_ids(e@));
    let t: String = text::join(&ids, ", ");
    if t.as_str().is_empty() {
        "(empty)".to_owned()
    } else {
        t
    }
}

/// The larger of two numbers.
pub open spec fn larger(a: usize, b: usize) -> usize {
    if a < b {
        b
    } else {
        a
    }
}

/// The width of the path column: the longest path in bytes, at least 4.
pub open spec fn path_width(entries: Seq<EntryView>) -> usize
    decreases entries.len(),
{
    if entries.len() == 0 {
        4
    } else {
        larger(path_width(entries.drop_last()), text::byte_len(entries.last().path))
    }
}

/// The width of the count column: the longest count, at least 8.
pub open spec fn count_width(entries: Seq<EntryView>) -> usize
    decreases entries.len(),
{
    if entries.len() == 0 {
        8
    } else {
        larger(
            count_width(entries.drop_last()),
            text::byte_len(text::decimal(entries.last().sections.len())),
        )
    }
}

/// Where an entry goes among entries sorted by path: behind those whose path is
/// not greater.
pub open spec fn place(sorted: Seq<EntryView>, e: EntryView) -> int
    decreases sorted.len(),
{
    if sorted.len() > 0 && text::less(e.path, sorted.last().path) {
        place(sorted.drop_last(), e)
    } else {
        sorted.len() as int
    }
}

/// Entries in ascending order of their paths; equal paths keep their order.
pub open spec fn by_path(entries: Seq<EntryView>) -> Seq<EntryView>
    decreases entries.len(),
{
    if entries.len() == 0 {
        entries
    } else {
        let sorted = by_path(entries.drop_last());
        sorted.insert(place(sorted, entries.last()), entries.last())
    }
}

/// The lines of the table of a path list.
pub open spec fn table(entries: Seq<EntryView>) -> Seq<Seq<char>> {
    if entries.len() == 0 {
        seq!["(empty)"@]
    } else {
        let wp = path_width(entries) as nat;
        let ws = count_width(entries) as nat;
        seq![
            table_line("path"@, "sections"@, "first 3 section ids"@, wp, ws),
            table_line(text::repeated('-', wp), text::repeated('-', ws), text::repeated('-', 20), wp, ws),
        ] + by_path(entries).map_values(
            |e: EntryView|
                table_line(e.path, text::decimal(e.sections.len()), ids_text(e), wp, ws),
        )
    }
}

proof fn lemma_place(sorted: Seq<EntryView>, e: EntryView, k: int)
    requires
        0 <= k <= sorted.len(),
        forall|j: int| k <= j < sorted.len() ==> text::less(e.path, (#[trigger] sorted[j]).path),
        k > 0 ==> !text::less(e.path, sorted[k - 1].path),
    ensures
        place(sorted, e) == k,
    decreases sorted.len(),
{
    if k < sorted.len() {
        lemma_place(sorted.drop_last(), e, k);
    }
}

/// The order in which the entries are listed: their indices.
fn listing(entries: &[PathEntry]) -> (r: Vec<usize>)
    ensures
        r@.len() == entries@.len(),
        forall|i: int| 0 <= i < r@.len() ==> #[trigger] r@[i] < entries@.len(),
        by_path(path_entry::entry_views(entries@)) == r@.map_values(|k: usize| entries@[k as int]@),
{
    let ghost vs = path_entry::entry_views(entries@);
    let ghost at = |k: usize| entries@[k as int]@;
    let mut r: Vec<usize> = Vec::new();
    let n: usize = entries.len();
    let mut i: usize = 0;
    assert(by_path(vs.take(0)) =~= r@.map_values(at));
    while i < n
        invariant
            i <= n,
            n == entries@.len(),
            vs == path_entry::entry_views(entries@),
            at == (|k: usize| entries@[k as int]@),
            r@.len() == i,
            forall|j: int| 0 <= j < r@.len() ==> #[trigger] r@[j] < i,
            by_path(vs.take(i as int)) == r@.map_values(at),
        decreases n - i,
    {
        let ghost sorted = r@.map_values(at);
        let ghost e = vs[i as int];
        let mut k: usize = r.len();
        while k > 0 && text::before(entries[i].path.as_str(), entries[r[k - 1]].path.as_str())
            invariant
                i < n,
                n == entries@.len(),
                k <= r@.len(),
                vs == path_entry::entry_views(entries@),
                at == (|k: usize| entries@[k as int]@),
                sorted == r@.map_values(at),
                e == vs[i as int],
                forall|j: int| 0 <= j < r@.len() ==> #[trigger] r@[j] < i,
                forall|j: int|
                    k <= j < sorted.len() ==> text::less(e.path, (#[trigger] sorted[j]).path),
            decreases k,
        {
            k = k - 1;
        }
        proof {
            lemma_place(sorted, e, k as int);
            assert(vs.take(i + 1).drop_last() =~= vs.take(i as int));
            assert(vs.take(i + 1).last() == e);
        }
        r.insert(k, i);
        assert(r@.map_values(at) =~= sorted.insert(k as int, e));
        i = i + 1;
    }
    assert(vs.take(n as int) =~= vs);
    r
}

/// The lines of the table of a path list: the entries in the order of their
/// paths, each with its number of sections and the first three of their ids.
#[must_use]
pub fn print_table(entries: &[PathEntry]) -> (r: Vec<String>)
    ensures
        text::views(r@) == table(path_entry::entry_views(entries@)),
{
    let ghost vs = path_entry::entry_views(entries@);
    let mut out: Vec<String> = Vec::new();
    let n: usize = entries.len();
    if n == 0 {
        out.push("(empty)".to_owned());
        assert(text::views(out@) =~= seq!["(empty)"@]);
        return out;
    }
    let mut wp: usize = 4;
    let mut ws: usize = 8;
    let mut i: usize = 0;
    while i < n
        invariant
            i <= n,
            n == entries@.len(),
            vs == path_entry::entry_views(entries@),
            wp == path_width(vs.take(i as int)),
            ws == count_width(vs.take(i as int)),
        decreases n - i,
    {
        assert(vs.take(i + 1).drop_last() =~= vs.take(i as int));
        assert(vs.take(i + 1).last() == entries@[i as int]@);
        let a: usize = entries[i].path.as_str().len();
        if wp < a {
            wp = a;
        }
        let d: String = text::to_decimal(entries[i].sections.len() as u64);
        let b: usize = d.as_str().len();
        if ws < b {
            ws = b;
        }
        i = i + 1;
    }
    assert(vs.take(n as int) =~= vs);
    out.push(line("path", "sections", "first 3 section ids", wp, ws));
    let da: String = text::repeat('-', wp);
    let db: String = text::repeat('-', ws);
    let dc: String = text::repeat('-', 20);
    out.push(line(da.as_str(), db.as_str(), dc.as_str(), wp, ws));
    let ghost head = text::views(out@);
    let order: Vec<usize> = listing(entries);
    let ghost row = |e: EntryView|
        table_line(e.path, text::decimal(e.sections.len()), ids_text(e), wp as nat, ws as nat);
    let ghost sorted = by_path(vs);
    let mut k: usize = 0;
    assert(text::views(out@) =~= head + sorted.take(0).map_values(row));
    while k < order.len()
        invariant
            k <= order@.len(),
            vs == path_entry::entry_views(entries@),
            sorted == order@.map_values(|k: usize| entries@[k as int]@),
            forall|i: int| 0 <= i < order@.len() ==> #[trigger] order@[i] < entries@.len(),
            row == (|e: EntryView|
                table_line(
                    e.path,
                    text::decimal(e.sections.len()),
                    ids_text(e),
                    wp as nat,
                    ws as nat,
                )),
            text::views(out@) == head + sorted.take(k as int).map_values(row),
        decreases order@.len() - k,
    {
        let e: &PathEntry = &entries[order[k]];
        assert(sorted[k as int] == e@);
        let d: String = text::to_decimal(e.sections.len() as u64);
        let ids: String = ids_of(e);
        let l: String = line(e.path.as_str(), d.as_str(), ids.as_str(), wp, ws);
        assert(l@ == row(e@));
        let ghost before = out@;
        out.push(l);
        assert(text::views(out@) =~= text::views(before).push(l@));
        assert(sorted.take(k + 1).map_values(row) =~= sorted.take(k as int).map_values(row).push(
            row(e@),
        ));
        assert(text::views(out@) =~= head + sorted.take(k + 1).map_values(row));
        k = k + 1;
    }
    assert(sorted.take(k as int) =~= sorted);
    assert(head =~= seq![
        table_line("path"@, "sections"@, "first 3 section ids"@, wp as nat, ws as nat),
        table_line(
            text::repeated('-', wp as nat),
            text::repeated('-', ws as nat),
            text::repeated('-', 20),
            wp as nat,
            ws as nat,
        ),
    ]);
    assert(text::views(out@) =~= table(vs));
    out
}

/// `rand`'s `Alphanumeric` distribution, sampled once: an ASCII letter or digit.
/// Which one is left to chance.
#[verifier::external_body]
fn random_alphanumeric() -> (r: char)
    ensures
        text::is_ascii_alphanumeric(r),
{
    let mut source = rand::thread_rng();
    char::from(rand::Rng::sample(&mut source, rand::distributions::Alphanumeric))
}

/// The environment file of a pair of generated credentials.
pub open spec fn auth_file_of(user: Seq<char>, password: Seq<char>) -> Seq<char> {
    config::credentials_file(
        "# Generated by `mini-oc-gui-serve --generate-auth`"@,
        user,
        password,
    )
}

/// The environment file of a pair of generated credentials.
#[must_use]
pub fn auth_file(user: &str, password: &str) -> (r: String)
    ensures
        r@ == auth_file_of(user@, password@),
{
    config::credentials_text("# Generated by `mini-oc-gui-serve --generate-auth`", user, password)
}

/// A random password: 20 ASCII letters and digits. Which ones is left to chance.
#[must_use]
pub fn generate_password() -> (r: String)
    ensures
        r@.len() == 20,
        forall|i: int| 0 <= i < 20 ==> text::is_ascii_alphanumeric(#[trigger] r@[i]),
{
    let mut r: String = String::new();
    let mut i: usize = 0;
    while i < 20
        invariant
            i <= 20,
            r@.len() == i,
            forall|j: int| 0 <= j < i ==> text::is_ascii_alphanumeric(#[trigger] r@[j]),
        decreases 20 - i,
    {
        let c: char = random_alphanumeric();
        r.push(c);
        i = i + 1;
    }
    r
}

/// New credentials: the user (`OPENCODE_SERVER_USERNAME`, or `opencode`), a
/// random password, and the environment file that holds them.
#[must_use]
pub fn generate_auth(user: Option<&str>) -> (r: (String, String, String))
    ensures
        r.0@ == (match user {
            Some(u) => u@,
            None => "opencode"@,
        }),
        r.1@.len() == 20,
        forall|i: int| 0 <= i < 20 ==> text::is_ascii_alphanumeric(#[trigger] r.1@[i]),
        r.2@ == auth_file_of(r.0@, r.1@),
{
    let u: String = match user {
        Some(u) => u.to_owned(),
        None => "opencode".to_owned(),
    };
    let p: String = generate_password();
    let body: String = auth_file(u.as_str(), p.as_str());
    (u, p, body)
}

/// The file of the working directory that takes the place of a missing
/// environment file: `.env`, else `.oc-serve-auth.env`. Nothing does where the
/// location was given explicitly.
#[must_use]
pub fn legacy_env_file(
    explicit: bool,
    unified_exists: bool,
    env_exists: bool,
    auth_env_exists: bool,
) -> (r: Option<&'static str>)
    ensures
        match r {
            Some(f) => !explicit && !unified_exists && (if env_exists {
                f@ == ".env"@
            } else {
                auth_env_exists && f@ == ".oc-serve-auth.env"@
            }),
            None => explicit || unified_exists || (!env_exists && !auth_env_exists),
        },
{
    if explicit || unified_exists {
        None
    } else if env_exists {
        Some(".env")
    } else if auth_env_exists {
        Some(".oc-serve-auth.env")
    } else {
        None
    }
}

/// The default directory: `OC_DEFAULT_DIR`, else `.config/opencode` in the home
/// directory.
pub open spec fn fallback_dir(
    explicit: Option<Seq<char>>,
    home: Option<Seq<char>>,
    sep: char,
) -> Seq<char> {
    match (explicit, home) {
        (Some(d), _) => d,
        (None, Some(h)) => host_path::host_joined(h, ".config/opencode"@, sep),
        (None, None) => "/Users/samuel/.config/opencode"@,
    }
}

/// The directory of sessions that name none.
#[must_use]
pub fn default_dir(host: Host, explicit: Option<&str>, home: Option<&str>) -> (r: String)
    ensures
        r@ == fallback_dir(envfile::text_of(explicit), envfile::text_of(home), host.separator()),
{
    match explicit {
        Some(d) => d.to_owned(),
        None => match home {
            Some(h) => host_path::join(host, h, ".config/opencode"),
            None => "/Users/samuel/.config/opencode".to_owned(),
        },
    }
}

/// Where the path list was kept before it moved beside the executable: below
/// `data`, two directories up.
pub open spec fn legacy_location(exe_dir: Seq<char>, sep: char) -> Seq<char> {
    let up = host_path::host_joined(exe_dir, ".."@, sep);
    let top = host_path::host_joined(up, ".."@, sep);
    let data = host_path::host_joined(top, "data"@, sep);
    host_path::host_joined(data, "path-list.md"@, sep)
}

/// Where the path list was kept before it moved beside the executable.
#[must_use]
pub fn legacy_path_list(host: Host, exe_dir: &str) -> (r: String)
    ensures
        r@ == legacy_location(exe_dir@, host.separator()),
{
    let up: String = host_path::join(host, exe_dir, "..");
    let top: String = host_path::join(host, up.as_str(), "..");
    let data: String = host_path::join(host, top.as_str(), "data");
    host_path::join(host, data.as_str(), "path-list.md")
}

/// Why a run without the terminal interface may not start: there is no one to
/// ask for the account, or for the credentials.
#[must_use]
pub fn headless_refusal(no_tui: bool, account: bool, credentials: bool) -> (r: Option<&'static str>)
    ensures
        match r {
            Some(m) => no_tui && (if !account {
                m@
                    == "未配置账户登录信息。\n--no-tui 模式无法交互填写，请先运行 TUI 模式完成首次配置。"@
            } else {
                !credentials && m@
                    == "未配置认证凭据（OPENCODE_SERVER_USERNAME/PASSWORD）。--no-tui 模式无法交互填写，请先运行 TUI 模式完成首次配置，或用 --generate-auth 生成凭据。"@
            }),
            None => !no_tui || (account && credentials),
        },
{
    if !no_tui {
        None
    } else if !account {
        Some("未配置账户登录信息。\n--no-tui 模式无法交互填写，请先运行 TUI 模式完成首次配置。")
    } else if !credentials {
        Some(
            "未配置认证凭据（OPENCODE_SERVER_USERNAME/PASSWORD）。--no-tui 模式无法交互填写，请先运行 TUI 模式完成首次配置，或用 --generate-auth 生成凭据。",
        )
    } else {
        None
    }
}

proof fn lemma_place_range(sorted: Seq<EntryView>, e: EntryView)
    ensures
        0 <= place(sorted, e) <= sorted.len(),
        forall|j: int|
            place(sorted, e) <= j < sorted.len() ==> text::less(
                e.path,
                (#[trigger] sorted[j]).path,
            ),
        place(sorted, e) > 0 ==> !text::less(e.path, sorted[place(sorted, e) - 1].path),
    decreases sorted.len(),
{
    if sorted.len() > 0 && text::less(e.path, sorted.last().path) {
        let front = sorted.drop_last();
        lemma_place_range(front, e);
        assert forall|j: int| place(sorted, e) <= j < sorted.len() implies text::less(
            e.path,
            (#[trigger] sorted[j]).path,
        ) by {
            if j < front.len() {
                assert(front[j] == sorted[j]);
            }
        }
    }
}

/// The table lists every entry once, in ascending order of the paths.
pub proof fn law_table_is_sorted_and_complete(entries: Seq<EntryView>)
    ensures
        by_path(entries).to_multiset() == entries.to_multiset(),
        forall|i: int, j: int|
            0 <= i < j < by_path(entries).len() ==> !text::less(
                (#[trigger] by_path(entries)[j]).path,
                (#[trigger] by_path(entries)[i]).path,
            ),
    decreases entries.len(),
{
    if entries.len() > 0 {
        let front = entries.drop_last();
        let e = entries.last();
        let sorted = by_path(front);
        let k = place(sorted, e);
        law_table_is_sorted_and_complete(front);
        lemma_place_range(sorted, e);
        vstd::seq_lib::to_multiset_insert(sorted, k, e);
        vstd::seq_lib::to_multiset_build(front, e);
        assert(front.push(e) =~= entries);
        let all = by_path(entries);
        assert forall|i: int, j: int| 0 <= i < j < all.len() implies !text::less(
            (#[trigger] all[j]).path,
            (#[trigger] all[i]).path,
        ) by {
            let a = all[i];
            let b = all[j];
            if j == k {
                if i < k - 1 {
                    if text::less(e.path, a.path) {
                        assert(!text::less(sorted[k - 1].path, sorted[i].path));
                        text::lemma_less_total(a.path, sorted[k - 1].path);
                        if a.path != sorted[k - 1].path {
                            text::lemma_less_transitive(e.path, a.path, sorted[k - 1].path);
                        }
                    }
                }
            } else if i == k {
                assert(b == sorted[j - 1]);
                if text::less(b.path, e.path) {
                    text::lemma_less_transitive(b.path, e.path, b.path);
                    text::lemma_less_irreflexive(b.path);
                }
            } else {
                let p = if i < k {
                    i
                } else {
                    i - 1
                };
                let q = if j < k {
                    j
                } else {
                    j - 1
                };
                assert(a == sorted[p] && b == sorted[q]);
            }
        }
    }
}

/// Padding fills a text up to a width with blanks, and leaves a longer one alone.
pub proof fn law_padding_fills_up(s: Seq<char>, width: nat, i: int)
    ensures
        s.len() <= width ==> (s + padding(s, width)).len() == width,
        s.len() >= width ==> padding(s, width).len() == 0,
        0 <= i < padding(s, width).len() ==> padding(s, width)[i] == ' ',
{
}

proof fn lemma_path_width(entries: Seq<EntryView>, i: int)
    requires
        0 <= i < entries.len(),
    ensures
        path_width(entries) >= text::byte_len(entries[i].path),
        path_width(entries) >= 4,
    decreases entries.len(),
{
    if entries.len() > 1 {
        if i < entries.len() - 1 {
            lemma_path_width(entries.drop_last(), i);
            assert(entries.drop_last()[i] == entries[i]);
        } else {
            lemma_path_width(entries.drop_last(), 0);
        }
    } else {
        assert(entries.drop_last().len() == 0);
        assert(path_width(entries.drop_last()) == 4);
    }
}

/// The path column is as wide as the longest path.
pub proof fn law_path_column_takes_every_path(entries: Seq<EntryView>, i: int)
    requires
        0 <= i < entries.len(),
    ensures
        path_width(entries) >= text::byte_len(entries[i].path),
        path_width(entries) >= 4,
        path_width(entries) == 4 || exists|j: int|
            0 <= j < entries.len() && path_width(entries) == text::byte_len(
                (#[trigger] entries[j]).path,
            ),
    decreases entries.len(),
{
    lemma_path_width(entries, i);
    let front = entries.drop_last();
    if path_width(entries) == text::byte_len(entries.last().path) {
        assert(entries.last() == entries[entries.len() - 1]);
    } else if front.len() > 0 {
        law_path_column_takes_every_path(front, 0);
        if path_width(front) != 4 {
            let j = choose|j: int|
                0 <= j < front.len() && path_width(front) == text::byte_len(
                    (#[trigger] front[j]).path,
                );
            assert(front[j] == entries[j]);
        }
    }
}

/// The table has a line for each entry, behind two lines of heading: it begins with
/// the path, ends with the ids, and tells the number of sections between.
pub proof fn law_each_entry_has_its_line(entries: Seq<EntryView>, i: int)
    requires
        0 <= i < entries.len(),
    ensures
        table(entries).len() == entries.len() + 2,
        ({
            let e = by_path(entries)[i];
            let line = table(entries)[i + 2];
            &&& text::starts_with(line, e.path)
            &&& text::ends_with(line, text::decimal(e.sections.len()) + "  "@ + ids_text(e))
        }),
        text::starts_with(table(entries)[0], "path"@),
{
    law_table_is_sorted_and_complete(entries);
    by_path(entries).to_multiset_ensures();
    entries.to_multiset_ensures();
    let e = by_path(entries)[i];
    let line = table(entries)[i + 2];
    let count = text::decimal(e.sections.len());
    let tail = count + "  "@ + ids_text(e);
    assert(line.take(e.path.len() as int) =~= e.path);
    assert(line.skip(line.len() - tail.len()) =~= tail);
    let first = table(entries)[0];
    assert(first.take("path"@.len() as int) =~= "path"@);
}

/// The ids of at most three sections are shown, in their order, parted by commas;
/// an entry without any is shown as empty.
pub proof fn law_first_three_ids_are_shown(e: EntryView)
    ensures
        e.sections.len() == 0 ==> ids_text(e) == "(empty)"@,
        e.sections.len() == 1 && e.sections[0].id.len() > 0 ==> ids_text(e) == e.sections[0].id,
        e.sections.len() == 2 ==> ids_text(e) == e.sections[0].id + ", "@ + e.sections[1].id,
        e.sections.len() >= 3 ==> ids_text(e) == e.sections[0].id + ", "@ + e.sections[1].id
            + ", "@ + e.sections[2].id,
{
    reveal_strlit(", ");
    reveal_with_fuel(text::joined, 4);
    let ids = first_ids(e);
    if e.sections.len() >= 1 {
        assert(ids[0] == e.sections[0].id);
    }
    if e.sections.len() >= 2 {
        assert(ids[1] == e.sections[1].id);
    }
    if e.sections.len() >= 3 {
        assert(ids[2] == e.sections[2].id);
        assert(ids =~= seq![e.sections[0].id, e.sections[1].id, e.sections[2].id]);
    }
}

/// The directory that was named comes first, then one below the home directory.
pub proof fn law_default_directory_in_order(
    explicit: Option<Seq<char>>,
    home: Option<Seq<char>>,
    sep: char,
)
    ensures
        explicit is Some ==> fallback_dir(explicit, home, sep) == explicit->0,
        explicit is None && home is Some && (home->0).len() > 0 && (home->0).last() != '/' && sep
            == '/' ==> fallback_dir(explicit, home, sep) == home->0 + "/.config/opencode"@,
{
    if explicit is None && home is Some {
        reveal_strlit(".config/opencode");
        reveal_strlit("/.config/opencode");
        host_path::law_joined_path_stands_below(home->0, ".config/opencode"@);
        assert(home->0 + seq!['/'] + ".config/opencode"@ =~= home->0 + "/.config/opencode"@);
    }
}

/// The former path list stands two directories above the executable's, below
/// `data`.
pub proof fn law_former_list_is_two_directories_up(exe_dir: Seq<char>)
    requires
        exe_dir.len() > 0,
        exe_dir.last() != '/',
    ensures
        legacy_location(exe_dir, '/') == exe_dir + "/../../data/path-list.md"@,
{
    reveal_strlit("..");
    reveal_strlit("data");
    reveal_strlit("path-list.md");
    reveal_strlit("/../../data/path-list.md");
    let up = exe_dir + seq!['/'] + ".."@;
    let top = up + seq!['/'] + ".."@;
    let data = top + seq!['/'] + "data"@;
    host_path::law_joined_path_stands_below(exe_dir, ".."@);
    host_path::law_joined_path_stands_below(up, ".."@);
    host_path::law_joined_path_stands_below(top, "data"@);
    host_path::law_joined_path_stands_below(data, "path-list.md"@);
    assert(data + seq!['/'] + "path-list.md"@ =~= exe_dir + "/../../data/path-list.md"@);
}

/// A generated file of credentials gives them back: each is on a line of its own
/// behind its key.
pub proof fn law_generated_file_holds_the_credentials(user: Seq<char>, password: Seq<char>)
    ensures
        text::contains(auth_file_of(user, password), "\nOPENCODE_SERVER_USERNAME="@ + user + "\n"@),
        text::ends_with(
            auth_file_of(user, password),
            "\nOPENCODE_SERVER_PASSWORD="@ + password + "\n"@,
        ),
        text::starts_with(auth_file_of(user, password), "#"@),
{
    reveal_strlit("# Generated by `mini-oc-gui-serve --generate-auth`");
    reveal_strlit("#");
    reveal_strlit("\n");
    reveal_strlit("\nOPENCODE_SERVER_PASSWORD=");
    let f = auth_file_of(user, password);
    let note = "# Generated by `mini-oc-gui-serve --generate-auth`"@;
    let part = "\nOPENCODE_SERVER_USERNAME="@ + user + "\n"@;
    let tail = "\nOPENCODE_SERVER_PASSWORD="@ + password + "\n"@;
    assert(f.subrange(note.len() as int, note.len() as int + part.len()) =~= part);
    assert(text::occurs_at(f, part, note.len() as int));
    assert(f.skip(f.len() - tail.len()) =~= tail);
    assert(f.take(1) =~= "#"@);
}

} // verus!
