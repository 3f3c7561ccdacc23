//! `/.fs/*`: the path list as a file of the store.

use vstd::prelude::*;

use crate::domain::path_entry;
use crate::domain::path_entry::{EntryView, PathEntry};
use crate::platform::Platform;
use crate::storage::merge;
use crate::storage::paths;
use crate::storage::sync;
use crate::text;

verus! {

/// Whether the segments of a path name a path list:
/// `serv/opencode/<user>/<macos|windows>/<machine>/path-list.md`.
pub open spec fn names_path_list(segs: Seq<Seq<char>>) -> bool {
    &&& segs.len() == 6
    &&& segs[0] == "serv"@
    &&& segs[1] == "opencode"@
    &&& (segs[3] == "macos"@ || segs[3] == "windows"@)
    &&& segs[5] == "path-list.md"@
    &&& segs[2].len() > 0
    &&& segs[4].len() > 0
}

/// Accept only the layout
/// `serv/opencode/<user>/<macos|windows>/<machine>/path-list.md`, with or
/// without slashes before it.
pub fn is_path_list_path(path: &str) -> (r: bool)
    ensures
        r == names_path_list(text::split(text::without_leading(path@, '/'), '/')),
{
    let rel: String = text::trim_start_char(path, '/');
    let segs: Vec<String> = text::split_char(rel.as_str(), '/');
    let ghost vs = text::views(segs@);
    assert(vs.len() == segs@.len());
    if segs.len() != 6 {
        return false;
    }
    assert(vs[0] == segs@[0]@ && vs[1] == segs@[1]@ && vs[2] == segs@[2]@ && vs[3] == segs@[3]@
        && vs[4] == segs@[4]@ && vs[5] == segs@[5]@);
    text::same(segs[0].as_str(), "serv") && text::same(segs[1].as_str(), "opencode") && (text::same(
        segs[3].as_str(),
        "macos",
    ) || text::same(segs[3].as_str(), "windows")) && text::same(segs[5].as_str(), "path-list.md")
        && !segs[2].as_str().is_empty() && !segs[4].as_str().is_empty()
}

/// The paths of a list that another list does not have, in order.
pub open spec fn missing_paths(current: Seq<EntryView>, new: Seq<EntryView>) -> Seq<Seq<char>>
    decreases current.len(),
{
    if current.len() == 0 {
        Seq::<Seq<char>>::empty()
    } else {
        let before = missing_paths(current.drop_last(), new);
        if merge::has_path(new, current.last().path) {
            before
        } else {
            before.push(current.last().path)
        }
    }
}

fn lists_path(entries: &Vec<PathEntry>, path: &str) -> (r: bool)
    ensures
        r == merge::has_path(path_entry::entry_views(entries@), path@),
{
    let ghost vs = path_entry::entry_views(entries@);
    let mut i: usize = 0;
    while i < entries.len()
        invariant
            i <= entries@.len(),
            vs == path_entry::entry_views(entries@),
            forall|j: int| 0 <= j < i ==> (#[trigger] vs[j]).path != path@,
        decreases entries@.len() - i,
    {
        assert(vs[i as int] == entries@[i as int]@);
        if text::same(entries[i].path.as_str(), path) {
            assert(vs[i as int].path == path@);
            return true;
        }
        i = i + 1;
    }
    false
}

/// The paths that are removed when a PUT replaces the list by `new`: those that
/// it no longer has.
#[must_use]
pub fn paths_to_remove(current: &Vec<PathEntry>, new: &Vec<PathEntry>) -> (r: Vec<String>)
    ensures
        text::views(r@) == missing_paths(
            path_entry::entry_views(current@),
            path_entry::entry_views(new@),
        ),
{
    let ghost cs = path_entry::entry_views(current@);
    let ghost ns = path_entry::entry_views(new@);
    let mut r: Vec<String> = Vec::new();
    let mut i: usize = 0;
    assert(text::views(r@) =~= missing_paths(cs.take(0), ns));
    while i < current.len()
        invariant
            i <= current@.len(),
            cs == path_entry::entry_views(current@),
            ns == path_entry::entry_views(new@),
            text::views(r@) == missing_paths(cs.take(i as int), ns),
        decreases current@.len() - i,
    {
        assert(cs.take(i + 1).drop_last() =~= cs.take(i as int));
        assert(cs.take(i + 1).last() == current@[i as int]@);
        if !lists_path(new, current[i].path.as_str()) {
            let p: String = current[i].path.clone();
            assert(text::views(r@.push(p)) =~= text::views(r@).push(p@));
            r.push(p);
        }
        i = i + 1;
    }
    assert(cs.take(i as int) =~= cs);
    r
}

/// A list without the entries of some paths.
pub open spec fn without_paths(s: Seq<EntryView>, gone: Seq<Seq<char>>) -> Seq<EntryView>
    decreases gone.len(),
{
    if gone.len() == 0 {
        s
    } else {
        sync::without_path(without_paths(s, gone.drop_last()), gone.last())
    }
}

proof fn lemma_missing_paths(current: Seq<EntryView>, new: Seq<EntryView>, path: Seq<char>)
    ensures
        missing_paths(current, new).contains(path) <==> merge::has_path(current, path)
            && !merge::has_path(new, path),
    decreases current.len(),
{
    let r = missing_paths(current, new);
    if current.len() > 0 {
        let init = current.drop_last();
        let before = missing_paths(init, new);
        lemma_missing_paths(init, new, path);
        assert(merge::has_path(current, path) <==> merge::has_path(init, path)
            || current.last().path == path) by {
            if merge::has_path(init, path) {
                let i = choose|i: int| 0 <= i < init.len() && (#[trigger] init[i]).path == path;
                assert(current[i].path == path);
            }
            if current.last().path == path {
                assert(current[current.len() - 1].path == path);
            }
            if merge::has_path(current, path) && current.last().path != path {
                let i = choose|i: int|
                    0 <= i < current.len() && (#[trigger] current[i]).path == path;
                assert(init[i].path == path);
            }
        }
        if !merge::has_path(new, current.last().path) {
            assert(r[before.len() as int] == current.last().path);
            if before.contains(path) {
                let k = choose|k: int| 0 <= k < before.len() && before[k] == path;
                assert(r[k] == path);
            }
            if r.contains(path) && current.last().path != path {
                let k = choose|k: int| 0 <= k < r.len() && r[k] == path;
                assert(before[k] == path);
            }
        }
    }
}

proof fn lemma_without_paths(s: Seq<EntryView>, gone: Seq<Seq<char>>, path: Seq<char>)
    ensures
        merge::has_path(without_paths(s, gone), path) <==> merge::has_path(s, path)
            && !gone.contains(path),
        !gone.contains(path) ==> merge::of_path(without_paths(s, gone), path) == merge::of_path(
            s,
            path,
        ),
    decreases gone.len(),
{
    if gone.len() > 0 {
        let init = gone.drop_last();
        let before = without_paths(s, init);
        let r = without_paths(s, gone);
        lemma_without_paths(s, init, path);
        sync::law_remove_path_is_complete(before, gone.last());
        if gone.last() == path {
            assert(gone[gone.len() - 1] == path);
        } else {
            assert(merge::of_path(r, path) == merge::of_path(before, path));
            merge::lemma_of_path_empty(r, path);
            merge::lemma_of_path_empty(before, path);
            assert(gone.contains(path) <==> init.contains(path)) by {
                if init.contains(path) {
                    let k = choose|k: int| 0 <= k < init.len() && init[k] == path;
                    assert(gone[k] == path);
                }
                if gone.contains(path) {
                    let k = choose|k: int| 0 <= k < gone.len() && gone[k] == path;
                    assert(init[k] == path);
                }
            }
        }
    }
}

/// A PUT leaves exactly the paths of its body: once the list has all of them,
/// removing what is to be removed leaves these and no others, with their
/// entries as they are.
pub proof fn law_put_leaves_the_paths_of_its_body(
    current: Seq<EntryView>,
    new: Seq<EntryView>,
    path: Seq<char>,
)
    requires
        forall|i: int| 0 <= i < new.len() ==> merge::has_path(current, (#[trigger] new[i]).path),
    ensures
        ({
            let after = without_paths(current, missing_paths(current, new));
            &&& merge::has_path(after, path) <==> merge::has_path(new, path)
            &&& merge::has_path(new, path) ==> merge::of_path(after, path) == merge::of_path(
                current,
                path,
            )
        }),
{
    lemma_missing_paths(current, new, path);
    lemma_without_paths(current, missing_paths(current, new), path);
    if merge::has_path(new, path) {
        let i = choose|i: int| 0 <= i < new.len() && (#[trigger] new[i]).path == path;
        assert(merge::has_path(current, new[i].path));
    }
}

/// The path list that a client keeps on a platform that the program ships for
/// is one that this endpoint serves, with and without the leading slash.
pub proof fn law_stored_paths_are_served(owner: Seq<char>, p: Platform, machine: Seq<char>)
    requires
        p is MacOs || p is Windows,
        owner.len() > 0,
        machine.len() > 0,
        text::has_no(owner, '/'),
        text::has_no(machine, '/'),
    ensures
        ({
            let path = paths::stored_at(owner, p.path_tag(), machine, "path-list.md"@);
            &&& names_path_list(text::split(text::without_leading(path, '/'), '/'))
            &&& names_path_list(text::split(text::without_leading("/"@ + path, '/'), '/'))
        }),
{
    reveal_strlit("serv/opencode/");
    reveal_strlit("serv");
    reveal_strlit("opencode");
    reveal_strlit("/");
    reveal_strlit("path-list.md");
    reveal_strlit("macos");
    reveal_strlit("windows");
    let slash = seq!['/'];
    let tag = p.path_tag();
    let file = "path-list.md"@;
    let path = paths::stored_at(owner, tag, machine, file);
    assert("/"@ =~= slash);
    assert("serv/opencode/"@ =~= "serv"@ + slash + ("opencode"@ + slash));
    let r4 = machine + slash + file;
    let r3 = tag + slash + r4;
    let r2 = owner + slash + r3;
    let r1 = "opencode"@ + slash + r2;
    let r0 = "serv"@ + slash + r1;
    assert(path =~= r0);
    text::lemma_split_cons("serv"@, '/', r1);
    text::lemma_split_cons("opencode"@, '/', r2);
    text::lemma_split_cons(owner, '/', r3);
    text::lemma_split_cons(tag, '/', r4);
    text::lemma_split_cons(machine, '/', file);
    text::lemma_find_none(file, '/');
    assert(text::split(path, '/') =~= seq!["serv"@, "opencode"@, owner, tag, machine, file]);
    assert(path[0] == 's');
    text::lemma_drop_while_at(path, text::equal_to('/'), 0);
    assert(path.skip(0) =~= path);
    let slashed = "/"@ + path;
    assert(slashed[0] == '/');
    assert(slashed[1] == path[0]);
    text::lemma_drop_while_at(slashed, text::equal_to('/'), 1);
    assert(slashed.skip(1) =~= path);
}

/// A path that is served has six segments: the fixed ones, a user and a machine that
/// are not empty, and one of the two platforms.
pub proof fn law_served_paths_have_the_layout(
    owner: Seq<char>,
    platform: Seq<char>,
    machine: Seq<char>,
    file: Seq<char>,
    segs: Seq<Seq<char>>,
)
    ensures
        names_path_list(seq!["serv"@, "opencode"@, owner, platform, machine, file])
            <==> owner.len() > 0 && machine.len() > 0 && (platform == "macos"@ || platform
            == "windows"@) && file == "path-list.md"@,
        segs.len() != 6 ==> !names_path_list(segs),
        segs.len() == 6 && (segs[0] != "serv"@ || segs[1] != "opencode"@) ==> !names_path_list(
            segs,
        ),
{
}

/// What is missing is what the one list has and the other has not.
pub proof fn law_missing_paths_are_those_not_listed(
    current: Seq<EntryView>,
    new: Seq<EntryView>,
    path: Seq<char>,
)
    ensures
        missing_paths(current, new).contains(path) <==> (exists|i: int|
            0 <= i < current.len() && (#[trigger] current[i]).path == path) && !(exists|i: int|
            0 <= i < new.len() && (#[trigger] new[i]).path == path),
        missing_paths(current, current).len() == 0,
        new.len() == 0 ==> missing_paths(current, new) == current.map_values(
            |e: EntryView| e.path,
        ),
{
    lemma_missing_paths(current, new, path);
    if missing_paths(current, current).len() > 0 {
        let p = missing_paths(current, current)[0];
        lemma_missing_paths(current, current, p);
    }
    if new.len() == 0 {
        lemma_all_missing(current, new);
    }
}

proof fn lemma_all_missing(current: Seq<EntryView>, new: Seq<EntryView>)
    requires
        new.len() == 0,
    ensures
        missing_paths(current, new) == current.map_values(|e: EntryView| e.path),
    decreases current.len(),
{
    let all = current.map_values(|e: EntryView| e.path);
    if current.len() > 0 {
        lemma_all_missing(current.drop_last(), new);
        assert(all =~= current.drop_last().map_values(|e: EntryView| e.path).push(
            current.last().path,
        ));
    } else {
        assert(missing_paths(current, new) =~= all);
    }
}

} // verus!
