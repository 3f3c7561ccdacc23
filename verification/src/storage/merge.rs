//! Merging and ordering path lists.
//!
//! Two lists are merged by path. The sections of a path are united by session
//! id, where the later update wins; the earlier creation time and the later
//! opening time are kept.

use vstd::prelude::*;

use crate::domain::path_entry;
use crate::domain::path_entry::{EntryView, PathEntry};
use crate::domain::session;
use crate::domain::session::{Session, SessionView};
use crate::storage::cache;
use crate::storage::cache::{max_non_empty, min_non_empty};
use crate::text;
use crate::time;
use crate::time::{format_dt, parse_dt, Timestamp};

verus! {

/// The text that entries are ordered by.
pub open spec fn sort_key(e: EntryView) -> Seq<char> {
    time::formatted(e.last_opened_at)
}

/// Last opened first.
pub open spec fn ordered(s: Seq<EntryView>) -> bool {
    forall|i: int, j: int|
        0 <= i < j < s.len() ==> !text::less(sort_key(#[trigger] s[i]), sort_key(#[trigger] s[j]))
}

/// The entries with a given sort key, in order.
pub open spec fn of_key(s: Seq<EntryView>, k: Seq<char>) -> Seq<EntryView>
    decreases s.len(),
{
    if s.len() == 0 {
        s
    } else if sort_key(s.last()) == k {
        of_key(s.drop_last(), k).push(s.last())
    } else {
        of_key(s.drop_last(), k)
    }
}

/// Whether `r` is `s` sorted, last opened first: it is ordered, and for every
/// key it has the same entries in the same order as `s`.
pub open spec fn is_sorted_form(r: Seq<EntryView>, s: Seq<EntryView>) -> bool {
    &&& ordered(r)
    &&& forall|k: Seq<char>| #[trigger] of_key(r, k) == of_key(s, k)
}

proof fn lemma_of_key_add(a: Seq<EntryView>, b: Seq<EntryView>, k: Seq<char>)
    ensures
        of_key(a + b, k) == of_key(a, k) + of_key(b, k),
    decreases b.len(),
{
    if b.len() == 0 {
        assert(a + b =~= a);
        assert(of_key(a, k) + of_key(b, k) =~= of_key(a, k));
    } else {
        lemma_of_key_add(a, b.drop_last(), k);
        assert((a + b).drop_last() =~= a + b.drop_last());
        assert((a + b).last() == b.last());
        if sort_key(b.last()) == k {
            assert(of_key(a + b, k) =~= of_key(a, k) + of_key(b, k));
        }
    }
}

proof fn lemma_of_key_none(s: Seq<EntryView>, k: Seq<char>)
    requires
        forall|i: int| 0 <= i < s.len() ==> sort_key(#[trigger] s[i]) != k,
    ensures
        of_key(s, k).len() == 0,
    decreases s.len(),
{
    if s.len() > 0 {
        assert(sort_key(s[s.len() - 1]) != k);
        assert forall|i: int| 0 <= i < s.drop_last().len() implies sort_key(
            #[trigger] s.drop_last()[i],
        ) != k by {
            assert(s.drop_last()[i] == s[i]);
        }
        lemma_of_key_none(s.drop_last(), k);
    }
}

/// Inserting an entry before everything that does not come before it.
proof fn lemma_insert(out: Seq<EntryView>, x: EntryView, pos: int)
    requires
        ordered(out),
        0 <= pos <= out.len(),
        forall|i: int| 0 <= i < pos ==> text::less(sort_key(x), sort_key(#[trigger] out[i])),
        pos < out.len() ==> !text::less(sort_key(x), sort_key(out[pos])),
    ensures
        ordered(out.insert(pos, x)),
        forall|k: Seq<char>|
            #[trigger] of_key(out.insert(pos, x), k) == of_key(seq![x] + out, k),
{
    let r = out.insert(pos, x);
    let kx = sort_key(x);
    assert forall|i: int, j: int| 0 <= i < j < r.len() implies !text::less(
        sort_key(#[trigger] r[i]),
        sort_key(#[trigger] r[j]),
    ) by {
        if i < pos {
            assert(r[i] == out[i]);
            assert(text::less(kx, sort_key(out[i])));
            if j == pos {
                if text::less(sort_key(out[i]), kx) {
                    text::lemma_less_transitive(kx, sort_key(out[i]), kx);
                    text::lemma_less_irreflexive(kx);
                }
            } else if j < pos {
                assert(r[j] == out[j]);
            } else {
                assert(r[j] == out[j - 1]);
            }
        } else if i == pos {
            assert(r[j] == out[j - 1]);
            if j - 1 > pos {
                // out[j - 1] does not come before out[pos], which does not come before x.
                assert(!text::less(sort_key(out[pos]), sort_key(out[j - 1])));
                if text::less(kx, sort_key(out[j - 1])) {
                    text::lemma_less_total(sort_key(out[pos]), sort_key(out[j - 1]));
                    text::lemma_less_total(sort_key(out[pos]), kx);
                    if text::less(sort_key(out[j - 1]), sort_key(out[pos])) {
                        text::lemma_less_transitive(
                            kx,
                            sort_key(out[j - 1]),
                            sort_key(out[pos]),
                        );
                    }
                }
            }
        } else {
            assert(r[i] == out[i - 1]);
            assert(r[j] == out[j - 1]);
        }
    }
    let a = out.take(pos);
    let b = out.skip(pos);
    assert(r =~= a + (seq![x] + b));
    assert(out =~= a + b);
    assert forall|k: Seq<char>| #[trigger] of_key(r, k) == of_key(seq![x] + out, k) by {
        lemma_of_key_add(a, seq![x] + b, k);
        lemma_of_key_add(seq![x], b, k);
        lemma_of_key_add(seq![x], out, k);
        lemma_of_key_add(a, b, k);
        if k == kx {
            assert forall|i: int| 0 <= i < a.len() implies sort_key(#[trigger] a[i]) != k by {
                assert(a[i] == out[i]);
                text::lemma_less_irreflexive(kx);
            }
            lemma_of_key_none(a, k);
            assert(of_key(a, k) =~= Seq::<EntryView>::empty());
            assert(of_key(r, k) =~= of_key(seq![x] + out, k));
        } else {
            assert forall|i: int| 0 <= i < seq![x].len() implies sort_key(#[trigger] seq![x][i])
                != k by {}
            lemma_of_key_none(seq![x], k);
            assert(of_key(seq![x], k) =~= Seq::<EntryView>::empty());
            assert(of_key(r, k) =~= of_key(seq![x] + out, k));
        }
    }
}

/// Sorts entries, last opened first. Entries that were opened at the same time
/// keep their order.
pub fn sort_desc(v: Vec<PathEntry>) -> (r: Vec<PathEntry>)
    ensures
        is_sorted_form(path_entry::entry_views(r@), path_entry::entry_views(v@)),
{
    let ghost s = path_entry::entry_views(v@);
    let mut rest: Vec<PathEntry> = v;
    let mut out: Vec<PathEntry> = Vec::new();
    let mut keys: Vec<String> = Vec::new();
    assert(s.skip(s.len() as int) =~= path_entry::entry_views(out@));
    while rest.len() > 0
        invariant
            rest@.len() <= s.len(),
            path_entry::entry_views(rest@) == s.take(rest@.len() as int),
            keys@.len() == out@.len(),
            forall|i: int| 0 <= i < out@.len() ==> (#[trigger] keys@[i])@ == sort_key(out@[i]@),
            ordered(path_entry::entry_views(out@)),
            forall|k: Seq<char>|
                #[trigger] of_key(path_entry::entry_views(out@), k) == of_key(
                    s.skip(rest@.len() as int),
                    k,
                ),
        decreases rest@.len(),
    {
        let ghost n = rest@.len() as int;
        let ghost ov = path_entry::entry_views(out@);
        let ghost rv = path_entry::entry_views(rest@);
        let x: PathEntry = rest.pop().unwrap();
        assert(x@ == rv[n - 1]);
        assert(rv[n - 1] == s[n - 1]);
        assert(path_entry::entry_views(rest@) =~= s.take(n - 1));
        let key: String = format_dt(x.last_opened_at);
        let mut pos: usize = 0;
        while pos < keys.len() && text::before(key.as_str(), keys[pos].as_str())
            invariant
                pos <= keys@.len(),
                keys@.len() == out@.len(),
                key@ == sort_key(x@),
                ov == path_entry::entry_views(out@),
                forall|i: int| 0 <= i < out@.len() ==> (#[trigger] keys@[i])@ == sort_key(out@[i]@),
                forall|i: int|
                    0 <= i < pos ==> text::less(sort_key(x@), sort_key(#[trigger] ov[i])),
            decreases keys@.len() - pos,
        {
            assert(keys@[pos as int]@ == sort_key(out@[pos as int]@));
            assert(ov[pos as int] == out@[pos as int]@);
            pos = pos + 1;
        }
        proof {
            if pos < keys@.len() {
                assert(keys@[pos as int]@ == sort_key(out@[pos as int]@));
                assert(ov[pos as int] == out@[pos as int]@);
            }
            lemma_insert(ov, x@, pos as int);
            assert(path_entry::entry_views(out@.insert(pos as int, x)) =~= ov.insert(
                pos as int,
                x@,
            ));
            assert(s.skip(n - 1) =~= seq![x@] + s.skip(n));
            assert forall|k: Seq<char>|
                #[trigger] of_key(ov.insert(pos as int, x@), k) == of_key(s.skip(n - 1), k) by {
                lemma_of_key_add(seq![x@], ov, k);
                lemma_of_key_add(seq![x@], s.skip(n), k);
                assert(of_key(ov, k) == of_key(s.skip(n), k));
            }
        }
        out.insert(pos, x);
        keys.insert(pos, key);
    }
    assert(s.skip(0) =~= s);
    out
}

// --- Merging ---------------------------------------------------------------
/// The index of the first section with an id.
pub open spec fn section_at(secs: Seq<SessionView>, id: Seq<char>) -> Option<int>
    decreases secs.len(),
{
    if secs.len() == 0 {
        None
    } else {
        match section_at(secs.drop_last(), id) {
            Some(i) => Some(i),
            None => if secs.last().id == id {
                Some(secs.len() - 1)
            } else {
                None
            },
        }
    }
}

/// `secs` with a session merged in: it is added where its id is new, and
/// replaces the session of that id where it was updated later.
pub open spec fn with_section(secs: Seq<SessionView>, new: SessionView) -> Seq<SessionView> {
    match section_at(secs, new.id) {
        Some(i) => if time::later(new.updated_at, secs[i].updated_at) {
            secs.update(i, new)
        } else {
            secs
        },
        None => secs.push(new),
    }
}

/// `secs` with a list of sessions merged in, one after the other.
pub open spec fn with_sections(secs: Seq<SessionView>, news: Seq<SessionView>) -> Seq<SessionView>
    decreases news.len(),
{
    if news.len() == 0 {
        secs
    } else {
        with_section(with_sections(secs, news.drop_last()), news.last())
    }
}

/// The lesser of two texts, where an empty one does not count.
pub open spec fn lesser(a: Seq<char>, b: Seq<char>) -> Seq<char> {
    if a.len() == 0 || (b.len() > 0 && text::less(b, a)) {
        b
    } else {
        a
    }
}

/// The greater of two texts, where an empty one does not count.
pub open spec fn greater(a: Seq<char>, b: Seq<char>) -> Seq<char> {
    if a.len() == 0 || (b.len() > 0 && text::less(a, b)) {
        b
    } else {
        a
    }
}

/// The earlier of two times, by their text form.
pub open spec fn earliest(a: Option<Timestamp>, b: Option<Timestamp>) -> Option<Timestamp> {
    let m = lesser(time::formatted(a), time::formatted(b));
    if m.len() == 0 {
        a
    } else {
        time::parsed(m)
    }
}

/// The later of two times, by their text form.
pub open spec fn latest(a: Option<Timestamp>, b: Option<Timestamp>) -> Option<Timestamp> {
    let m = greater(time::formatted(a), time::formatted(b));
    if m.len() == 0 {
        a
    } else {
        time::parsed(m)
    }
}

/// Two entries of one path, merged.
pub open spec fn merged_pair(a: EntryView, b: EntryView) -> EntryView {
    EntryView {
        path: a.path,
        sections: with_sections(a.sections, b.sections),
        created_at: earliest(a.created_at, b.created_at),
        last_opened_at: latest(a.last_opened_at, b.last_opened_at),
    }
}

/// The entries of a path, in order.
pub open spec fn of_path(s: Seq<EntryView>, path: Seq<char>) -> Seq<EntryView>
    decreases s.len(),
{
    if s.len() == 0 {
        s
    } else if s.last().path == path {
        of_path(s.drop_last(), path).push(s.last())
    } else {
        of_path(s.drop_last(), path)
    }
}

/// An entry with one section for each session id: the latest update, the first
/// of several.
pub open spec fn deduped(e: EntryView) -> EntryView {
    EntryView { sections: with_sections(Seq::<SessionView>::empty(), e.sections), ..e }
}

/// A non-empty list of entries of one path, merged from first to last.
pub open spec fn combined(s: Seq<EntryView>) -> EntryView
    decreases s.len(),
{
    if s.len() <= 1 {
        deduped(s[0])
    } else {
        merged_pair(combined(s.drop_last()), s.last())
    }
}

/// Whether `r` is the merge of `all`: one entry per path, which combines all
/// entries of that path, ordered by opening time (last first) and then by path.
pub open spec fn is_merge(r: Seq<EntryView>, all: Seq<EntryView>) -> bool {
    &&& forall|i: int|
        0 <= i < r.len() ==> of_path(all, (#[trigger] r[i]).path).len() > 0 && r[i] == combined(
            of_path(all, r[i].path),
        )
    &&& forall|i: int| 0 <= i < all.len() ==> has_path(r, (#[trigger] all[i]).path)
    &&& forall|i: int, j: int|
        0 <= i < j < r.len() ==> comes_first(#[trigger] r[i], #[trigger] r[j])
}

/// Whether `a` was opened later than `b`, or at the same time and its path is
/// the lesser.
pub open spec fn comes_first(a: EntryView, b: EntryView) -> bool {
    text::less(sort_key(b), sort_key(a)) || (sort_key(a) == sort_key(b) && text::less(
        a.path,
        b.path,
    ))
}

pub open spec fn has_path(s: Seq<EntryView>, path: Seq<char>) -> bool {
    exists|i: int| 0 <= i < s.len() && (#[trigger] s[i]).path == path
}

proof fn lemma_section_at(secs: Seq<SessionView>, id: Seq<char>)
    ensures
        match section_at(secs, id) {
            Some(i) => 0 <= i < secs.len() && secs[i].id == id && forall|j: int|
                0 <= j < i ==> (#[trigger] secs[j]).id != id,
            None => forall|j: int| 0 <= j < secs.len() ==> (#[trigger] secs[j]).id != id,
        },
    decreases secs.len(),
{
    if secs.len() > 0 {
        let init = secs.drop_last();
        lemma_section_at(init, id);
        assert forall|j: int| 0 <= j < init.len() implies #[trigger] secs[j] == init[j] by {}
    }
}

proof fn lemma_section_at_is(secs: Seq<SessionView>, id: Seq<char>, i: int)
    requires
        0 <= i < secs.len(),
        secs[i].id == id,
        forall|j: int| 0 <= j < i ==> (#[trigger] secs[j]).id != id,
    ensures
        section_at(secs, id) == Some(i),
{
    lemma_section_at(secs, id);
    if let Some(k) = section_at(secs, id) {
        if k < i {
            assert(secs[k].id != id);
        }
        if i < k {
            assert(secs[i].id != id);
        }
    }
}

/// Merges a session into a list of sections.
pub fn merge_section(secs: &mut Vec<Session>, new: &Session)
    ensures
        session::session_views(final(secs)@) == with_section(
            session::session_views(old(secs)@),
            new@,
        ),
{
    let ghost vs = session::session_views(secs@);
    let mut i: usize = 0;
    while i < secs.len()
        invariant
            i <= secs@.len(),
            vs == session::session_views(secs@),
            vs == session::session_views(old(secs)@),
            forall|j: int| 0 <= j < i ==> (#[trigger] vs[j]).id != new@.id,
        decreases secs@.len() - i,
    {
        assert(vs[i as int] == secs@[i as int]@);
        if text::same(secs[i].id.as_str(), new.id.as_str()) {
            proof {
                lemma_section_at_is(vs, new@.id, i as int);
            }
            if new.updated_at.is_later_than(&secs[i].updated_at) {
                let copy: Session = new.clone();
                secs.set(i, copy);
                assert(session::session_views(secs@) =~= vs.update(i as int, new@));
            }
            return ;
        }
        i = i + 1;
    }
    proof {
        lemma_section_at(vs, new@.id);
    }
    let copy: Session = new.clone();
    secs.push(copy);
    assert(session::session_views(secs@) =~= vs.push(new@));
}

/// Merges a list of sessions into a list of sections.
pub fn merge_sections(secs: &mut Vec<Session>, news: &Vec<Session>)
    ensures
        session::session_views(final(secs)@) == with_sections(
            session::session_views(old(secs)@),
            session::session_views(news@),
        ),
{
    let ghost start = session::session_views(secs@);
    let ghost ns = session::session_views(news@);
    let mut i: usize = 0;
    while i < news.len()
        invariant
            i <= news@.len(),
            ns == session::session_views(news@),
            session::session_views(secs@) == with_sections(start, ns.take(i as int)),
        decreases news@.len() - i,
    {
        assert(ns.take(i + 1).drop_last() =~= ns.take(i as int));
        assert(ns.take(i + 1).last() == news@[i as int]@);
        merge_section(secs, &news[i]);
        i = i + 1;
    }
    assert(ns.take(i as int) =~= ns);
}

fn earlier_time(a: Option<Timestamp>, b: Option<Timestamp>) -> (r: Option<Timestamp>)
    ensures
        r == earliest(a, b),
{
    let x: String = format_dt(a);
    let y: String = format_dt(b);
    let both: [&str; 2] = [x.as_str(), y.as_str()];
    let ghost vs = cache::str_views(both@);
    assert(vs =~= seq![x@, y@]);
    match min_non_empty(both.as_slice()) {
        Some(m) => {
            proof {
                assert(vs[0] == x@ && vs[1] == y@);
                text::lemma_less_irreflexive(m@);
                text::lemma_less_total(x@, y@);
            }
            parse_dt(m)
        },
        None => {
            assert(vs[0] == x@ && vs[1] == y@);
            a
        },
    }
}

fn later_time(a: Option<Timestamp>, b: Option<Timestamp>) -> (r: Option<Timestamp>)
    ensures
        r == latest(a, b),
{
    let x: String = format_dt(a);
    let y: String = format_dt(b);
    let both: [&str; 2] = [x.as_str(), y.as_str()];
    let ghost vs = cache::str_views(both@);
    assert(vs =~= seq![x@, y@]);
    match max_non_empty(both.as_slice()) {
        Some(m) => {
            proof {
                assert(vs[0] == x@ && vs[1] == y@);
                text::lemma_less_irreflexive(m@);
                text::lemma_less_total(x@, y@);
            }
            parse_dt(m)
        },
        None => {
            assert(vs[0] == x@ && vs[1] == y@);
            a
        },
    }
}

/// Strictly ascending by path.
spec fn path_ascending(s: Seq<EntryView>) -> bool {
    forall|i: int, j: int|
        0 <= i < j < s.len() ==> text::less((#[trigger] s[i]).path, (#[trigger] s[j]).path)
}

proof fn lemma_of_path_push(s: Seq<EntryView>, e: EntryView, path: Seq<char>)
    ensures
        of_path(s.push(e), path) == (if e.path == path {
            of_path(s, path).push(e)
        } else {
            of_path(s, path)
        }),
{
    assert(s.push(e).drop_last() =~= s);
}

pub(crate) proof fn lemma_of_path_empty(s: Seq<EntryView>, path: Seq<char>)
    ensures
        of_path(s, path).len() > 0 <==> has_path(s, path),
    decreases s.len(),
{
    if s.len() > 0 {
        let init = s.drop_last();
        lemma_of_path_empty(init, path);
        if has_path(init, path) {
            let i = choose|i: int| 0 <= i < init.len() && (#[trigger] init[i]).path == path;
            assert(s[i].path == path);
        }
        if s.last().path == path {
            assert(s[s.len() - 1].path == path);
        } else if has_path(s, path) {
            let i = choose|i: int| 0 <= i < s.len() && (#[trigger] s[i]).path == path;
            assert(init[i].path == path);
        }
    }
}

/// What holds of the list that is built up path by path.
spec fn is_collected(acc: Seq<EntryView>, all: Seq<EntryView>) -> bool {
    &&& path_ascending(acc)
    &&& forall|i: int|
        0 <= i < acc.len() ==> of_path(all, (#[trigger] acc[i]).path).len() > 0 && acc[i]
            == combined(of_path(all, acc[i].path))
    &&& forall|i: int| 0 <= i < all.len() ==> has_path(acc, (#[trigger] all[i]).path)
}

proof fn lemma_collect_known(acc: Seq<EntryView>, all: Seq<EntryView>, e: EntryView, at: int)
    requires
        is_collected(acc, all),
        0 <= at < acc.len(),
        acc[at].path == e.path,
    ensures
        is_collected(acc.update(at, merged_pair(acc[at], e)), all.push(e)),
{
    let m = merged_pair(acc[at], e);
    let acc2 = acc.update(at, m);
    let all2 = all.push(e);
    assert forall|i: int| 0 <= i < acc2.len() implies (#[trigger] acc2[i]).path == acc[i].path by {}
    assert forall|i: int| 0 <= i < acc2.len() implies of_path(all2, (#[trigger] acc2[i]).path).len()
        > 0 && acc2[i] == combined(of_path(all2, acc2[i].path)) by {
        assert(acc2[i].path == acc[i].path);
        lemma_of_path_push(all, e, acc[i].path);
        if i == at {
            let before = of_path(all, e.path);
            assert(before.push(e).drop_last() =~= before);
        } else {
            if i < at {
                assert(text::less(acc[i].path, acc[at].path));
            } else {
                assert(text::less(acc[at].path, acc[i].path));
            }
            text::lemma_less_irreflexive(e.path);
        }
    }
    assert forall|i: int| 0 <= i < all2.len() implies has_path(acc2, (#[trigger] all2[i]).path) by {
        if i < all.len() {
            assert(all2[i] == all[i]);
            let k = choose|k: int| 0 <= k < acc.len() && (#[trigger] acc[k]).path == all[i].path;
            assert(acc2[k].path == all2[i].path);
        } else {
            assert(acc2[at].path == e.path);
        }
    }
}

proof fn lemma_collect_new(acc: Seq<EntryView>, all: Seq<EntryView>, e: EntryView, pos: int)
    requires
        is_collected(acc, all),
        0 <= pos <= acc.len(),
        forall|i: int| 0 <= i < pos ==> text::less((#[trigger] acc[i]).path, e.path),
        forall|i: int| pos <= i < acc.len() ==> text::less(e.path, (#[trigger] acc[i]).path),
    ensures
        is_collected(acc.insert(pos, deduped(e)), all.push(e)),
{
    let acc2 = acc.insert(pos, deduped(e));
    let all2 = all.push(e);
    text::lemma_less_irreflexive(e.path);
    assert forall|i: int, j: int| 0 <= i < j < acc2.len() implies text::less(
        (#[trigger] acc2[i]).path,
        (#[trigger] acc2[j]).path,
    ) by {
        if i < pos {
            assert(acc2[i] == acc[i]);
        } else if i > pos {
            assert(acc2[i] == acc[i - 1]);
        }
        if j < pos {
            assert(acc2[j] == acc[j]);
        } else if j > pos {
            assert(acc2[j] == acc[j - 1]);
        }
    }
    assert(!has_path(acc, e.path)) by {
        if has_path(acc, e.path) {
            let k = choose|k: int| 0 <= k < acc.len() && (#[trigger] acc[k]).path == e.path;
        }
    }
    assert(of_path(all, e.path).len() == 0) by {
        lemma_of_path_empty(all, e.path);
        if has_path(all, e.path) {
            let k = choose|k: int| 0 <= k < all.len() && (#[trigger] all[k]).path == e.path;
            assert(has_path(acc, all[k].path));
        }
    }
    assert forall|i: int| 0 <= i < acc2.len() implies of_path(all2, (#[trigger] acc2[i]).path).len()
        > 0 && acc2[i] == combined(of_path(all2, acc2[i].path)) by {
        lemma_of_path_push(all, e, acc2[i].path);
        if i < pos {
            assert(acc2[i] == acc[i]);
        } else if i > pos {
            assert(acc2[i] == acc[i - 1]);
        }
    }
    assert forall|i: int| 0 <= i < all2.len() implies has_path(acc2, (#[trigger] all2[i]).path) by {
        if i < all.len() {
            assert(all2[i] == all[i]);
            let k = choose|k: int| 0 <= k < acc.len() && (#[trigger] acc[k]).path == all[i].path;
            if k < pos {
                assert(acc2[k].path == all2[i].path);
            } else {
                assert(acc2[k + 1].path == all2[i].path);
            }
        } else {
            assert(acc2[pos].path == e.path);
        }
    }
}

/// Merges one entry into the list that is built up path by path.
fn collect(acc: &mut Vec<PathEntry>, e: PathEntry, Ghost(all): Ghost<Seq<EntryView>>)
    requires
        is_collected(path_entry::entry_views(old(acc)@), all),
    ensures
        is_collected(path_entry::entry_views(final(acc)@), all.push(e@)),
{
    let ghost av = path_entry::entry_views(acc@);
    let mut pos: usize = 0;
    while pos < acc.len() && text::before(acc[pos].path.as_str(), e.path.as_str())
        invariant
            pos <= acc@.len(),
            av == path_entry::entry_views(acc@),
            forall|i: int| 0 <= i < pos ==> text::less((#[trigger] av[i]).path, e@.path),
        decreases acc@.len() - pos,
    {
        assert(av[pos as int] == acc@[pos as int]@);
        pos = pos + 1;
    }
    if pos < acc.len() && text::same(acc[pos].path.as_str(), e.path.as_str()) {
        assert(av[pos as int] == acc@[pos as int]@);
        proof {
            lemma_collect_known(av, all, e@, pos as int);
        }
        let mut known: PathEntry = acc[pos].clone();
        let ghost before = known@;
        merge_sections(&mut known.sections, &e.sections);
        known.created_at = earlier_time(known.created_at, e.created_at);
        known.last_opened_at = later_time(known.last_opened_at, e.last_opened_at);
        assert(known@ == merged_pair(before, e@));
        acc.set(pos, known);
        assert(path_entry::entry_views(acc@) =~= av.update(pos as int, merged_pair(before, e@)));
    } else {
        proof {
            assert forall|i: int| pos <= i < av.len() implies text::less(
                e@.path,
                (#[trigger] av[i]).path,
            ) by {
                assert(av[pos as int] == acc@[pos as int]@);
                text::lemma_less_total(e@.path, av[pos as int].path);
                if i > pos {
                    assert(text::less(av[pos as int].path, av[i].path));
                    text::lemma_less_transitive(e@.path, av[pos as int].path, av[i].path);
                }
            }
            lemma_collect_new(av, all, e@, pos as int);
        }
        let mut sections: Vec<Session> = Vec::new();
        assert(session::session_views(sections@) =~= Seq::<SessionView>::empty());
        merge_sections(&mut sections, &e.sections);
        let ghost whole = e@;
        let first = PathEntry {
            path: e.path,
            sections,
            created_at: e.created_at,
            last_opened_at: e.last_opened_at,
        };
        assert(first@ == deduped(whole));
        assert(path_entry::entry_views(acc@.insert(pos as int, first)) =~= av.insert(
            pos as int,
            first@,
        ));
        acc.insert(pos, first);
    }
}

proof fn lemma_of_key_members(s: Seq<EntryView>, k: Seq<char>)
    ensures
        forall|a: int|
            0 <= a < of_key(s, k).len() ==> s.contains(#[trigger] of_key(s, k)[a]) && sort_key(
                of_key(s, k)[a],
            ) == k,
    decreases s.len(),
{
    if s.len() > 0 {
        let init = s.drop_last();
        lemma_of_key_members(init, k);
        assert forall|a: int| 0 <= a < of_key(s, k).len() implies s.contains(
            #[trigger] of_key(s, k)[a],
        ) && sort_key(of_key(s, k)[a]) == k by {
            if a < of_key(init, k).len() {
                assert(of_key(s, k)[a] == of_key(init, k)[a]);
                let i = choose|i: int| 0 <= i < init.len() && init[i] == of_key(init, k)[a];
                assert(s[i] == of_key(s, k)[a]);
            } else {
                assert(s[s.len() - 1] == of_key(s, k)[a]);
            }
        }
    }
}

proof fn lemma_of_key_position(s: Seq<EntryView>, i: int) -> (a: int)
    requires
        0 <= i < s.len(),
    ensures
        0 <= a < of_key(s, sort_key(s[i])).len(),
        of_key(s, sort_key(s[i]))[a] == s[i],
    decreases s.len(),
{
    let k = sort_key(s[i]);
    let init = s.drop_last();
    if i == s.len() - 1 {
        of_key(s, k).len() - 1
    } else {
        assert(init[i] == s[i]);
        lemma_of_key_position(init, i)
    }
}

proof fn lemma_of_key_positions(s: Seq<EntryView>, i: int, j: int) -> (r: (int, int))
    requires
        0 <= i < j < s.len(),
        sort_key(s[i]) == sort_key(s[j]),
    ensures
        0 <= r.0 < r.1 < of_key(s, sort_key(s[i])).len(),
        of_key(s, sort_key(s[i]))[r.0] == s[i],
        of_key(s, sort_key(s[i]))[r.1] == s[j],
    decreases s.len(),
{
    let k = sort_key(s[i]);
    let init = s.drop_last();
    assert(init[i] == s[i]);
    if j == s.len() - 1 {
        let a = lemma_of_key_position(init, i);
        (a, of_key(s, k).len() - 1)
    } else {
        assert(init[j] == s[j]);
        lemma_of_key_positions(init, i, j)
    }
}

proof fn lemma_of_key_ascending(s: Seq<EntryView>, k: Seq<char>)
    requires
        path_ascending(s),
    ensures
        path_ascending(of_key(s, k)),
    decreases s.len(),
{
    if s.len() > 0 {
        let init = s.drop_last();
        assert(path_ascending(init)) by {
            assert forall|i: int, j: int| 0 <= i < j < init.len() implies text::less(
                (#[trigger] init[i]).path,
                (#[trigger] init[j]).path,
            ) by {
                assert(init[i] == s[i] && init[j] == s[j]);
            }
        }
        lemma_of_key_ascending(init, k);
        if sort_key(s.last()) == k {
            let f = of_key(init, k);
            lemma_of_key_members(init, k);
            assert forall|i: int, j: int| 0 <= i < j < of_key(s, k).len() implies text::less(
                (#[trigger] of_key(s, k)[i]).path,
                (#[trigger] of_key(s, k)[j]).path,
            ) by {
                assert(of_key(s, k)[i] == f[i]);
                if j < f.len() {
                    assert(of_key(s, k)[j] == f[j]);
                } else {
                    assert(init.contains(f[i]));
                    let m = choose|m: int| 0 <= m < init.len() && init[m] == f[i];
                    assert(s[m] == f[i]);
                    assert(text::less(s[m].path, s[s.len() - 1].path));
                }
            }
        }
    }
}

proof fn lemma_sorted_collection(r: Seq<EntryView>, acc: Seq<EntryView>, all: Seq<EntryView>)
    requires
        is_collected(acc, all),
        is_sorted_form(r, acc),
    ensures
        is_merge(r, all),
{
    assert forall|i: int| 0 <= i < r.len() implies acc.contains(#[trigger] r[i]) by {
        let k = sort_key(r[i]);
        let a = lemma_of_key_position(r, i);
        lemma_of_key_members(acc, k);
        assert(of_key(r, k) == of_key(acc, k));
        assert(acc.contains(of_key(acc, k)[a]));
    }
    assert forall|i: int| 0 <= i < r.len() implies of_path(all, (#[trigger] r[i]).path).len() > 0
        && r[i] == combined(of_path(all, r[i].path)) by {
        let m = choose|m: int| 0 <= m < acc.len() && acc[m] == r[i];
        assert(acc[m] == r[i]);
    }
    assert forall|i: int| 0 <= i < all.len() implies has_path(r, (#[trigger] all[i]).path) by {
        assert(has_path(acc, all[i].path));
        let m = choose|m: int| 0 <= m < acc.len() && (#[trigger] acc[m]).path == all[i].path;
        let k = sort_key(acc[m]);
        let a = lemma_of_key_position(acc, m);
        assert(of_key(r, k) == of_key(acc, k));
        lemma_of_key_members(r, k);
        assert(r.contains(of_key(r, k)[a]));
        let n = choose|n: int| 0 <= n < r.len() && r[n] == of_key(r, k)[a];
        assert(r[n].path == all[i].path);
    }
    assert forall|i: int, j: int| 0 <= i < j < r.len() implies comes_first(
        #[trigger] r[i],
        #[trigger] r[j],
    ) by {
        let ki = sort_key(r[i]);
        let kj = sort_key(r[j]);
        text::lemma_less_total(ki, kj);
        if ki == kj {
            let (a, b) = lemma_of_key_positions(r, i, j);
            lemma_of_key_ascending(acc, ki);
            assert(of_key(r, ki) == of_key(acc, ki));
            assert(text::less(of_key(acc, ki)[a].path, of_key(acc, ki)[b].path));
        }
    }
}

/// Merge two entry sets by path.
///
/// For each path, sections are united by session id; when the same id appears
/// twice, on one side or on both, the session with the strictly later update
/// wins (ties keep the existing one). The earlier creation time and the later opening time are
/// kept. The result is ordered by opening time, last first, and then by path.
#[must_use]
pub fn merge_entries(remote: Vec<PathEntry>, local: Vec<PathEntry>) -> (r: Vec<PathEntry>)
    ensures
        is_merge(
            path_entry::entry_views(r@),
            path_entry::entry_views(remote@) + path_entry::entry_views(local@),
        ),
{
    let ghost rs = path_entry::entry_views(remote@);
    let ghost ls = path_entry::entry_views(local@);
    let ghost all = rs + ls;
    let mut acc: Vec<PathEntry> = Vec::new();
    assert(is_collected(path_entry::entry_views(acc@), all.take(0)));
    let mut i: usize = 0;
    while i < remote.len()
        invariant
            i <= remote@.len(),
            rs == path_entry::entry_views(remote@),
            all == rs + ls,
            is_collected(path_entry::entry_views(acc@), all.take(i as int)),
        decreases remote@.len() - i,
    {
        let e: PathEntry = remote[i].clone();
        assert(rs[i as int] == remote@[i as int]@);
        assert(all.take(i + 1) =~= all.take(i as int).push(e@));
        collect(&mut acc, e, Ghost(all.take(i as int)));
        i = i + 1;
    }
    let mut j: usize = 0;
    while j < local.len()
        invariant
            j <= local@.len(),
            i == rs.len(),
            ls == path_entry::entry_views(local@),
            all == rs + ls,
            is_collected(path_entry::entry_views(acc@), all.take(i + j)),
        decreases local@.len() - j,
    {
        let e: PathEntry = local[j].clone();
        assert(ls[j as int] == local@[j as int]@);
        assert(all.take(i + j + 1) =~= all.take(i + j).push(e@));
        collect(&mut acc, e, Ghost(all.take(i + j)));
        j = j + 1;
    }
    assert(all.take(i + j) =~= all);
    let ghost av = path_entry::entry_views(acc@);
    let r: Vec<PathEntry> = sort_desc(acc);
    proof {
        lemma_sorted_collection(path_entry::entry_views(r@), av, all);
    }
    r
}

// --- Laws ------------------------------------------------------------------
/// No two entries of one path.
pub open spec fn distinct_paths(s: Seq<EntryView>) -> bool {
    forall|i: int, j: int|
        0 <= i < j < s.len() ==> (#[trigger] s[i]).path != (#[trigger] s[j]).path
}

/// No two sections of one id.
pub open spec fn distinct_ids(s: Seq<SessionView>) -> bool {
    forall|i: int, j: int| 0 <= i < j < s.len() ==> (#[trigger] s[i]).id != (#[trigger] s[j]).id
}

pub open spec fn has_id(s: Seq<SessionView>, id: Seq<char>) -> bool {
    exists|i: int| 0 <= i < s.len() && (#[trigger] s[i]).id == id
}

/// Whether `s` has a session with the id of `x` that is no older than `x`.
pub open spec fn covers(s: Seq<SessionView>, x: SessionView) -> bool {
    exists|i: int|
        0 <= i < s.len() && (#[trigger] s[i]).id == x.id && !time::later(
            x.updated_at,
            s[i].updated_at,
        )
}

/// A merge has one entry per path, and a path exactly where one of the lists
/// has it.
pub proof fn law_merge_unites_paths(r: Seq<EntryView>, all: Seq<EntryView>)
    requires
        is_merge(r, all),
    ensures
        distinct_paths(r),
        forall|path: Seq<char>| #[trigger] has_path(r, path) <==> has_path(all, path),
        ordered(r),
{
    assert forall|i: int, j: int| 0 <= i < j < r.len() implies (#[trigger] r[i]).path != (
    #[trigger] r[j]).path by {
        assert(comes_first(r[i], r[j]));
        if r[i].path == r[j].path {
            assert(r[i] == r[j]);
            text::lemma_less_irreflexive(sort_key(r[i]));
            text::lemma_less_irreflexive(r[i].path);
        }
    }
    assert forall|i: int, j: int| 0 <= i < j < r.len() implies !text::less(
        sort_key(#[trigger] r[i]),
        sort_key(#[trigger] r[j]),
    ) by {
        assert(comes_first(r[i], r[j]));
        text::lemma_less_irreflexive(sort_key(r[i]));
        if text::less(sort_key(r[i]), sort_key(r[j])) && text::less(sort_key(r[j]), sort_key(r[i])) {
            text::lemma_less_transitive(sort_key(r[i]), sort_key(r[j]), sort_key(r[i]));
        }
    }
    assert forall|path: Seq<char>| #[trigger] has_path(r, path) <==> has_path(all, path) by {
        if has_path(r, path) {
            let i = choose|i: int| 0 <= i < r.len() && (#[trigger] r[i]).path == path;
            lemma_of_path_empty(all, r[i].path);
        }
        if has_path(all, path) {
            let i = choose|i: int| 0 <= i < all.len() && (#[trigger] all[i]).path == path;
            assert(has_path(r, all[i].path));
        }
    }
}

/// The merge of two entries of one path keeps the lesser non-empty creation
/// text and the greater non-empty opening text of the two, and the path.
pub proof fn law_pair_takes_min_and_max(a: EntryView, b: EntryView)
    ensures
        merged_pair(a, b).path == a.path,
        time::formatted(a.created_at).len() > 0 && time::formatted(b.created_at).len() > 0
            ==> merged_pair(a, b).created_at == time::parsed(
            if text::less(time::formatted(b.created_at), time::formatted(a.created_at)) {
                time::formatted(b.created_at)
            } else {
                time::formatted(a.created_at)
            },
        ),
        time::formatted(a.last_opened_at).len() > 0 && time::formatted(b.last_opened_at).len() > 0
            ==> merged_pair(a, b).last_opened_at == time::parsed(
            if text::less(time::formatted(a.last_opened_at), time::formatted(b.last_opened_at)) {
                time::formatted(b.last_opened_at)
            } else {
                time::formatted(a.last_opened_at)
            },
        ),
        a.created_at is None && time::formatted(b.created_at).len() > 0 ==> merged_pair(
            a,
            b,
        ).created_at == time::parsed(time::formatted(b.created_at)),
        a.last_opened_at is None && time::formatted(b.last_opened_at).len() > 0 ==> merged_pair(
            a,
            b,
        ).last_opened_at == time::parsed(time::formatted(b.last_opened_at)),
{
}

pub(crate) proof fn lemma_with_section_keeps(secs: Seq<SessionView>, new: SessionView)
    ensures
        covers(with_section(secs, new), new),
        forall|id: Seq<char>| #[trigger] has_id(secs, id) ==> has_id(with_section(secs, new), id),
{
    let r = with_section(secs, new);
    lemma_section_at(secs, new.id);
    match section_at(secs, new.id) {
        Some(at) => {
            assert(r[at].id == new.id);
        },
        None => {
            assert(r[secs.len() as int] == new);
        },
    }
    assert forall|id: Seq<char>| #[trigger] has_id(secs, id) implies has_id(r, id) by {
        let i = choose|i: int| 0 <= i < secs.len() && (#[trigger] secs[i]).id == id;
        assert(r[i].id == id);
    }
}

/// Sorting keeps the entries: what is in the one list is in the other.
pub proof fn law_sorting_keeps_entries(r: Seq<EntryView>, s: Seq<EntryView>)
    requires
        is_sorted_form(r, s),
    ensures
        forall|i: int| 0 <= i < r.len() ==> s.contains(#[trigger] r[i]),
        forall|i: int| 0 <= i < s.len() ==> r.contains(#[trigger] s[i]),
{
    assert forall|i: int| 0 <= i < r.len() implies s.contains(#[trigger] r[i]) by {
        let k = sort_key(r[i]);
        let a = lemma_of_key_position(r, i);
        lemma_of_key_members(s, k);
        assert(of_key(r, k) == of_key(s, k));
        assert(s.contains(of_key(s, k)[a]));
    }
    assert forall|i: int| 0 <= i < s.len() implies r.contains(#[trigger] s[i]) by {
        let k = sort_key(s[i]);
        let a = lemma_of_key_position(s, i);
        lemma_of_key_members(r, k);
        assert(of_key(r, k) == of_key(s, k));
        assert(r.contains(of_key(r, k)[a]));
    }
}

/// Merging in a session adds its id, drops none, keeps ids distinct, and leaves
/// no session older than it was or than the new one.
pub proof fn law_section_later_update_wins(secs: Seq<SessionView>, new: SessionView)
    requires
        distinct_ids(secs),
    ensures
        distinct_ids(with_section(secs, new)),
        forall|id: Seq<char>|
            #[trigger] has_id(with_section(secs, new), id) <==> has_id(secs, id) || id == new.id,
        covers(with_section(secs, new), new),
        forall|x: SessionView| #[trigger] covers(secs, x) ==> covers(with_section(secs, new), x),
        forall|i: int|
            0 <= i < with_section(secs, new).len() ==> (#[trigger] with_section(secs, new)[i]) == new
                || secs.contains(with_section(secs, new)[i]),
{
    let r = with_section(secs, new);
    lemma_section_at(secs, new.id);
    match section_at(secs, new.id) {
        Some(at) => {
            assert(secs[at].id == new.id);
            assert forall|i: int| 0 <= i < r.len() implies (#[trigger] r[i]).id == secs[i].id by {}
            assert(r[at].id == new.id);
            assert forall|x: SessionView| #[trigger] covers(secs, x) implies covers(r, x) by {
                let i = choose|i: int|
                    0 <= i < secs.len() && (#[trigger] secs[i]).id == x.id && !time::later(
                        x.updated_at,
                        secs[i].updated_at,
                    );
                assert(r[i].id == x.id);
            }
            assert forall|id: Seq<char>| #[trigger] has_id(r, id) <==> has_id(secs, id) || id
                == new.id by {
                if has_id(r, id) {
                    let i = choose|i: int| 0 <= i < r.len() && (#[trigger] r[i]).id == id;
                    assert(secs[i].id == id);
                }
                if has_id(secs, id) {
                    let i = choose|i: int| 0 <= i < secs.len() && (#[trigger] secs[i]).id == id;
                    assert(r[i].id == id);
                }
            }
            assert forall|i: int| 0 <= i < r.len() implies (#[trigger] r[i]) == new
                || secs.contains(r[i]) by {
                if r[i] != new {
                    assert(secs[i] == r[i]);
                }
            }
        },
        None => {
            let n = secs.len() as int;
            assert(r[n] == new);
            assert forall|i: int| 0 <= i < n implies #[trigger] r[i] == secs[i] by {}
            assert forall|i: int, j: int| 0 <= i < j < r.len() implies (#[trigger] r[i]).id != (
            #[trigger] r[j]).id by {
                assert(r[i] == secs[i]);
                if j < n {
                    assert(r[j] == secs[j]);
                }
            }
            assert forall|x: SessionView| #[trigger] covers(secs, x) implies covers(r, x) by {
                let i = choose|i: int|
                    0 <= i < secs.len() && (#[trigger] secs[i]).id == x.id && !time::later(
                        x.updated_at,
                        secs[i].updated_at,
                    );
                assert(r[i].id == x.id);
            }
            assert forall|id: Seq<char>| #[trigger] has_id(r, id) <==> has_id(secs, id) || id
                == new.id by {
                if has_id(r, id) {
                    let i = choose|i: int| 0 <= i < r.len() && (#[trigger] r[i]).id == id;
                    if i < n {
                        assert(secs[i].id == id);
                    }
                }
                if has_id(secs, id) {
                    let i = choose|i: int| 0 <= i < secs.len() && (#[trigger] secs[i]).id == id;
                    assert(r[i].id == id);
                }
            }
            assert forall|i: int| 0 <= i < r.len() implies (#[trigger] r[i]) == new
                || secs.contains(r[i]) by {
                if i < n {
                    assert(secs[i] == r[i]);
                }
            }
        },
    }
}

/// Merging in a list of sessions unites the ids, keeps them distinct, and keeps
/// for each id a session that is no older than any of that id on either side.
pub proof fn law_sections_unite(secs: Seq<SessionView>, news: Seq<SessionView>)
    requires
        distinct_ids(secs),
    ensures
        distinct_ids(with_sections(secs, news)),
        forall|id: Seq<char>|
            #[trigger] has_id(with_sections(secs, news), id) <==> has_id(secs, id) || has_id(
                news,
                id,
            ),
        forall|i: int|
            0 <= i < secs.len() ==> covers(with_sections(secs, news), #[trigger] secs[i]),
        forall|i: int|
            0 <= i < news.len() ==> covers(with_sections(secs, news), #[trigger] news[i]),
    decreases news.len(),
{
    let r = with_sections(secs, news);
    if news.len() == 0 {
        assert forall|i: int| 0 <= i < secs.len() implies covers(r, #[trigger] secs[i]) by {
            time::law_later_is_a_strict_order(
                secs[i].updated_at,
                secs[i].updated_at,
                secs[i].updated_at,
            );
        }
    } else {
        let init = news.drop_last();
        let mid = with_sections(secs, init);
        law_sections_unite(secs, init);
        law_section_later_update_wins(mid, news.last());
        assert forall|i: int| 0 <= i < secs.len() implies covers(r, #[trigger] secs[i]) by {
            assert(covers(mid, secs[i]));
        }
        assert forall|i: int| 0 <= i < news.len() implies covers(r, #[trigger] news[i]) by {
            if i < init.len() {
                assert(init[i] == news[i]);
                assert(covers(mid, init[i]));
            }
        }
        assert forall|id: Seq<char>| #[trigger] has_id(r, id) <==> has_id(secs, id) || has_id(
            news,
            id,
        ) by {
            assert(has_id(mid, id) <==> has_id(secs, id) || has_id(init, id));
            if has_id(init, id) {
                let i = choose|i: int| 0 <= i < init.len() && (#[trigger] init[i]).id == id;
                assert(news[i].id == id);
            }
            if has_id(news, id) {
                let i = choose|i: int| 0 <= i < news.len() && (#[trigger] news[i]).id == id;
                if i < init.len() {
                    assert(init[i].id == id);
                }
            }
            if id == news.last().id {
                assert(news[news.len() - 1].id == id);
            }
        }
    }
}

proof fn lemma_of_path_members(s: Seq<EntryView>, path: Seq<char>)
    ensures
        forall|k: int|
            0 <= k < of_path(s, path).len() ==> s.contains(#[trigger] of_path(s, path)[k]) && of_path(
                s,
                path,
            )[k].path == path,
        forall|j: int|
            0 <= j < s.len() && s[j].path == path ==> of_path(s, path).contains(#[trigger] s[j]),
    decreases s.len(),
{
    if s.len() > 0 {
        let init = s.drop_last();
        let before = of_path(init, path);
        let r = of_path(s, path);
        lemma_of_path_members(init, path);
        assert forall|k: int| 0 <= k < r.len() implies s.contains(#[trigger] r[k]) && r[k].path
            == path by {
            if k < before.len() {
                assert(r[k] == before[k]);
                let j = choose|j: int| 0 <= j < init.len() && init[j] == before[k];
                assert(s[j] == r[k]);
            } else {
                assert(s[s.len() - 1] == r[k]);
            }
        }
        assert forall|j: int| 0 <= j < s.len() && s[j].path == path implies r.contains(
            #[trigger] s[j],
        ) by {
            if j < init.len() {
                assert(init[j] == s[j]);
                let k = choose|k: int| 0 <= k < before.len() && before[k] == init[j];
                assert(r[k] == s[j]);
            } else {
                assert(r[r.len() - 1] == s[j]);
            }
        }
    }
}

proof fn lemma_combined_sections(s: Seq<EntryView>)
    requires
        s.len() > 0,
    ensures
        distinct_ids(combined(s).sections),
        forall|j: int, k: int|
            0 <= j < s.len() && 0 <= k < s[j].sections.len() ==> covers(
                combined(s).sections,
                #[trigger] s[j].sections[k],
            ),
        forall|id: Seq<char>| #[trigger]
            has_id(combined(s).sections, id) ==> exists|j: int|
                0 <= j < s.len() && has_id((#[trigger] s[j]).sections, id),
    decreases s.len(),
{
    let r = combined(s).sections;
    if s.len() == 1 {
        let none = Seq::<SessionView>::empty();
        law_sections_unite(none, s[0].sections);
        assert forall|id: Seq<char>| #[trigger] has_id(r, id) implies exists|j: int|
            0 <= j < s.len() && has_id((#[trigger] s[j]).sections, id) by {
            assert(!has_id(none, id));
            assert(has_id(s[0].sections, id));
        }
    } else {
        let init = s.drop_last();
        let mid = combined(init).sections;
        let news = s.last().sections;
        lemma_combined_sections(init);
        law_sections_unite(mid, news);
        assert forall|j: int, k: int| 0 <= j < s.len() && 0 <= k < s[j].sections.len() implies covers(
            r,
            #[trigger] s[j].sections[k],
        ) by {
            let x = s[j].sections[k];
            if j < init.len() {
                assert(init[j].sections[k] == x);
                let i = choose|i: int|
                    0 <= i < mid.len() && (#[trigger] mid[i]).id == x.id && !time::later(
                        x.updated_at,
                        mid[i].updated_at,
                    );
                assert(covers(r, mid[i]));
            } else {
                assert(news[k] == x);
            }
        }
        assert forall|id: Seq<char>| #[trigger] has_id(r, id) implies exists|j: int|
            0 <= j < s.len() && has_id((#[trigger] s[j]).sections, id) by {
            if has_id(news, id) {
                assert(has_id(s[s.len() - 1].sections, id));
            } else {
                assert(has_id(mid, id));
                let j = choose|j: int|
                    0 <= j < init.len() && has_id((#[trigger] init[j]).sections, id);
                assert(has_id(s[j].sections, id));
            }
        }
    }
}

/// A merge unites the sections of each path: no session id is lost and none is
/// made up, no id occurs twice, and what is kept for an id is no older than any
/// session of that id on either side.
pub proof fn law_merge_unites_sections(r: Seq<EntryView>, all: Seq<EntryView>)
    requires
        is_merge(r, all),
    ensures
        forall|i: int| 0 <= i < r.len() ==> distinct_ids((#[trigger] r[i]).sections),
        forall|i: int, j: int, k: int|
            0 <= i < r.len() && 0 <= j < all.len() && r[i].path == all[j].path && 0 <= k
                < all[j].sections.len() ==> covers(
                (#[trigger] r[i]).sections,
                #[trigger] all[j].sections[k],
            ),
        forall|i: int, id: Seq<char>|
            0 <= i < r.len() && #[trigger] has_id(r[i].sections, id) ==> exists|j: int|
                0 <= j < all.len() && (#[trigger] all[j]).path == r[i].path && has_id(
                    all[j].sections,
                    id,
                ),
{
    assert forall|i: int| 0 <= i < r.len() implies distinct_ids((#[trigger] r[i]).sections) by {
        lemma_combined_sections(of_path(all, r[i].path));
    }
    assert forall|i: int, j: int, k: int|
        0 <= i < r.len() && 0 <= j < all.len() && r[i].path == all[j].path && 0 <= k
            < all[j].sections.len() implies covers(
        (#[trigger] r[i]).sections,
        #[trigger] all[j].sections[k],
    ) by {
        let own = of_path(all, r[i].path);
        lemma_of_path_members(all, r[i].path);
        lemma_combined_sections(own);
        let m = choose|m: int| 0 <= m < own.len() && own[m] == all[j];
        assert(covers(combined(own).sections, own[m].sections[k]));
    }
    assert forall|i: int, id: Seq<char>|
        0 <= i < r.len() && #[trigger] has_id(r[i].sections, id) implies exists|j: int|
        0 <= j < all.len() && (#[trigger] all[j]).path == r[i].path && has_id(
            all[j].sections,
            id,
        ) by {
        let own = of_path(all, r[i].path);
        lemma_of_path_members(all, r[i].path);
        lemma_combined_sections(own);
        let m = choose|m: int| 0 <= m < own.len() && has_id((#[trigger] own[m]).sections, id);
        let j = choose|j: int| 0 <= j < all.len() && all[j] == own[m];
        assert(all[j].path == r[i].path);
    }
}

proof fn lemma_of_path_alone(s: Seq<EntryView>, i: int)
    requires
        distinct_paths(s),
        0 <= i < s.len(),
    ensures
        of_path(s, s[i].path) == seq![s[i]],
    decreases s.len(),
{
    let init = s.drop_last();
    let path = s[i].path;
    assert(distinct_paths(init)) by {
        assert forall|a: int, b: int| 0 <= a < b < init.len() implies (#[trigger] init[a]).path != (
        #[trigger] init[b]).path by {
            assert(init[a] == s[a] && init[b] == s[b]);
        }
    }
    if i == s.len() - 1 {
        lemma_of_path_empty(init, path);
        if has_path(init, path) {
            let k = choose|k: int| 0 <= k < init.len() && (#[trigger] init[k]).path == path;
            assert(s[k].path != s[i].path);
        }
        assert(of_path(init, path) =~= Seq::<EntryView>::empty());
        assert(of_path(s, path) =~= seq![s[i]]);
    } else {
        assert(s[i].path != s[s.len() - 1].path);
        assert(init[i] == s[i]);
        lemma_of_path_alone(init, i);
    }
}

proof fn lemma_distinct_sections_stay(s: Seq<SessionView>)
    requires
        distinct_ids(s),
    ensures
        with_sections(Seq::<SessionView>::empty(), s) == s,
    decreases s.len(),
{
    if s.len() > 0 {
        let init = s.drop_last();
        let n = s.len() - 1;
        assert(distinct_ids(init)) by {
            assert forall|i: int, j: int| 0 <= i < j < init.len() implies (#[trigger] init[i]).id
                != (#[trigger] init[j]).id by {
                assert(init[i] == s[i] && init[j] == s[j]);
            }
        }
        lemma_distinct_sections_stay(init);
        lemma_section_at(init, s.last().id);
        if let Some(i) = section_at(init, s.last().id) {
            assert(init[i] == s[i] && s[n] == s.last());
        }
        assert(init.push(s.last()) =~= s);
    } else {
        assert(s =~= Seq::<SessionView>::empty());
    }
}

/// Merging a list that has one entry per path, and one section per session id,
/// with nothing changes no entry.
pub proof fn law_merge_with_nothing_keeps_entries(r: Seq<EntryView>, s: Seq<EntryView>)
    requires
        distinct_paths(s),
        forall|i: int| 0 <= i < s.len() ==> distinct_ids((#[trigger] s[i]).sections),
        is_merge(r, s),
    ensures
        forall|i: int| 0 <= i < r.len() ==> s.contains(#[trigger] r[i]),
        forall|i: int| 0 <= i < s.len() ==> r.contains(#[trigger] s[i]),
{
    assert forall|i: int| 0 <= i < r.len() implies s.contains(#[trigger] r[i]) by {
        lemma_of_path_empty(s, r[i].path);
        let k = choose|k: int| 0 <= k < s.len() && (#[trigger] s[k]).path == r[i].path;
        lemma_of_path_alone(s, k);
        lemma_distinct_sections_stay(s[k].sections);
        assert(s[k] == r[i]);
    }
    assert forall|i: int| 0 <= i < s.len() implies r.contains(#[trigger] s[i]) by {
        assert(has_path(r, s[i].path));
        let k = choose|k: int| 0 <= k < r.len() && (#[trigger] r[k]).path == s[i].path;
        lemma_of_path_alone(s, i);
        lemma_distinct_sections_stay(s[i].sections);
        assert(r[k] == s[i]);
    }
}

proof fn lemma_of_key_is_filter(s: Seq<EntryView>, t: Seq<char>)
    ensures
        of_key(s, t) == s.filter(|e: EntryView| time::formatted(e.last_opened_at) == t),
    decreases s.len(),
{
    reveal(Seq::filter);
    if s.len() > 0 {
        lemma_of_key_is_filter(s.drop_last(), t);
    }
}

proof fn lemma_of_key_counts(s: Seq<EntryView>, x: EntryView)
    ensures
        s.to_multiset().count(x) == of_key(s, sort_key(x)).to_multiset().count(x),
    decreases s.len(),
{
    broadcast use vstd::seq_lib::group_to_multiset_ensures;

    let k = sort_key(x);
    if s.len() > 0 {
        let init = s.drop_last();
        lemma_of_key_counts(init, x);
        assert(init.push(s.last()) =~= s);
        if sort_key(s.last()) == k {
            assert(of_key(s, k) == of_key(init, k).push(s.last()));
        }
    } else {
        assert(of_key(s, k) =~= s);
    }
}

/// A sorted list shows what was opened last first, by the text of the opening
/// time, with what was never opened at the end. It holds the entries of the
/// list it was made of, each as often as that, and those of one opening time in
/// the same order.
pub proof fn law_sorted_list_is_last_opened_first(
    r: Seq<EntryView>,
    s: Seq<EntryView>,
    opened: Seq<char>,
)
    requires
        is_sorted_form(r, s),
    ensures
        forall|i: int, j: int|
            0 <= i < j < r.len() ==> !text::less(
                time::formatted((#[trigger] r[i]).last_opened_at),
                time::formatted((#[trigger] r[j]).last_opened_at),
            ),
        r.to_multiset() == s.to_multiset(),
        r.filter(|e: EntryView| time::formatted(e.last_opened_at) == opened) == s.filter(
            |e: EntryView| time::formatted(e.last_opened_at) == opened,
        ),
{
    lemma_of_key_is_filter(r, opened);
    lemma_of_key_is_filter(s, opened);
    assert(of_key(r, opened) == of_key(s, opened));
    assert forall|x: EntryView| #[trigger] r.to_multiset().count(x) == s.to_multiset().count(x) by {
        lemma_of_key_counts(r, x);
        lemma_of_key_counts(s, x);
        assert(of_key(r, sort_key(x)) == of_key(s, sort_key(x)));
    }
    assert(r.to_multiset() =~= s.to_multiset());
}

/// A merged list shows what was opened last first, by the text of the opening
/// time; what was opened at the same time stands in the order of the paths.
pub proof fn law_merge_is_last_opened_first(r: Seq<EntryView>, all: Seq<EntryView>, i: int, j: int)
    requires
        is_merge(r, all),
        0 <= i < j < r.len(),
    ensures
        !text::less(time::formatted(r[i].last_opened_at), time::formatted(r[j].last_opened_at)),
        time::formatted(r[i].last_opened_at) == time::formatted(r[j].last_opened_at) ==> text::less(
            r[i].path,
            r[j].path,
        ),
{
    let a = time::formatted(r[i].last_opened_at);
    let b = time::formatted(r[j].last_opened_at);
    assert(comes_first(r[i], r[j]));
    text::lemma_less_irreflexive(a);
    if text::less(a, b) && text::less(b, a) {
        text::lemma_less_transitive(a, b, a);
    }
}

proof fn lemma_of_path_add(a: Seq<EntryView>, b: Seq<EntryView>, path: Seq<char>)
    ensures
        of_path(a + b, path) == of_path(a, path) + of_path(b, path),
    decreases b.len(),
{
    if b.len() == 0 {
        assert(a + b =~= a);
        assert(of_path(a, path) + of_path(b, path) =~= of_path(a, path));
    } else {
        lemma_of_path_add(a, b.drop_last(), path);
        assert((a + b).drop_last() =~= a + b.drop_last());
        assert((a + b).last() == b.last());
        if b.last().path == path {
            assert(of_path(a + b, path) =~= of_path(a, path) + of_path(b, path));
        }
    }
}

/// An entry that both sides have takes the earlier of the two creation times
/// and the later of the two opening times, by their texts; a time that one side
/// does not have is that of the other.
pub proof fn law_merge_takes_earliest_and_latest(
    r: Seq<EntryView>,
    remote: Seq<EntryView>,
    local: Seq<EntryView>,
    i: int,
    j: int,
    k: int,
)
    requires
        is_merge(r, remote + local),
        forall|a: int, b: int|
            0 <= a < b < remote.len() ==> (#[trigger] remote[a]).path != (#[trigger] remote[b]).path,
        forall|a: int, b: int|
            0 <= a < b < local.len() ==> (#[trigger] local[a]).path != (#[trigger] local[b]).path,
        0 <= i < r.len(),
        0 <= j < remote.len(),
        0 <= k < local.len(),
        r[i].path == remote[j].path,
        r[i].path == local[k].path,
    ensures
        ({
            let a = time::formatted(remote[j].created_at);
            let b = time::formatted(local[k].created_at);
            &&& a.len() > 0 && b.len() > 0 && !text::less(b, a) ==> r[i].created_at
                == time::parsed(a)
            &&& a.len() > 0 && b.len() > 0 && text::less(b, a) ==> r[i].created_at
                == time::parsed(b)
            &&& a.len() > 0 && b.len() == 0 ==> r[i].created_at == time::parsed(a)
            &&& a.len() == 0 && b.len() > 0 ==> r[i].created_at == time::parsed(b)
        }),
        ({
            let a = time::formatted(remote[j].last_opened_at);
            let b = time::formatted(local[k].last_opened_at);
            &&& a.len() > 0 && b.len() > 0 && !text::less(a, b) ==> r[i].last_opened_at
                == time::parsed(a)
            &&& a.len() > 0 && b.len() > 0 && text::less(a, b) ==> r[i].last_opened_at
                == time::parsed(b)
            &&& a.len() > 0 && b.len() == 0 ==> r[i].last_opened_at == time::parsed(a)
            &&& a.len() == 0 && b.len() > 0 ==> r[i].last_opened_at == time::parsed(b)
        }),
{
    let path = r[i].path;
    assert(distinct_paths(remote) && distinct_paths(local));
    lemma_of_path_add(remote, local, path);
    lemma_of_path_alone(remote, j);
    lemma_of_path_alone(local, k);
    let own = of_path(remote + local, path);
    assert(own =~= seq![remote[j], local[k]]);
    assert(own.drop_last() =~= seq![remote[j]]);
    assert(combined(own.drop_last()) == deduped(remote[j]));
    assert(r[i] == merged_pair(deduped(remote[j]), local[k]));
}

/// An entry that only one of the lists has keeps its times.
pub proof fn law_merge_keeps_the_times_of_a_single_entry(
    r: Seq<EntryView>,
    all: Seq<EntryView>,
    i: int,
    j: int,
)
    requires
        is_merge(r, all),
        0 <= i < r.len(),
        0 <= j < all.len(),
        r[i].path == all[j].path,
        forall|k: int| 0 <= k < all.len() && k != j ==> (#[trigger] all[k]).path != all[j].path,
    ensures
        r[i].created_at == all[j].created_at,
        r[i].last_opened_at == all[j].last_opened_at,
{
    let path = all[j].path;
    let a = all.take(j);
    let b = all.skip(j + 1);
    assert(all =~= a + (seq![all[j]] + b));
    lemma_of_path_add(a, seq![all[j]] + b, path);
    lemma_of_path_add(seq![all[j]], b, path);
    lemma_of_path_empty(a, path);
    lemma_of_path_empty(b, path);
    if has_path(a, path) {
        let k = choose|k: int| 0 <= k < a.len() && (#[trigger] a[k]).path == path;
        assert(all[k].path == path);
    }
    if has_path(b, path) {
        let k = choose|k: int| 0 <= k < b.len() && (#[trigger] b[k]).path == path;
        assert(all[k + j + 1].path == path);
    }
    let none = Seq::<EntryView>::empty();
    lemma_of_path_push(none, all[j], path);
    assert(none.push(all[j]) =~= seq![all[j]]);
    assert(of_path(all, path) =~= seq![all[j]]);
}

/// Where a session of the same id is listed, a session that is merged in takes
/// its place if it was updated strictly later, and changes nothing otherwise;
/// the other sessions stay where they are. A session of a new id goes to the
/// end.
pub proof fn law_session_takes_the_place_of_an_older_one(
    secs: Seq<SessionView>,
    new: SessionView,
    i: int,
)
    ensures
        0 <= i < secs.len() && secs[i].id == new.id && (forall|j: int|
            0 <= j < i ==> (#[trigger] secs[j]).id != new.id) && time::later(
            new.updated_at,
            secs[i].updated_at,
        ) ==> with_section(secs, new) == secs.update(i, new),
        0 <= i < secs.len() && secs[i].id == new.id && (forall|j: int|
            0 <= j < i ==> (#[trigger] secs[j]).id != new.id) && !time::later(
            new.updated_at,
            secs[i].updated_at,
        ) ==> with_section(secs, new) == secs,
        (forall|j: int| 0 <= j < secs.len() ==> (#[trigger] secs[j]).id != new.id) ==> with_section(
            secs,
            new,
        ) == secs.push(new),
{
    lemma_section_at(secs, new.id);
    if 0 <= i < secs.len() && secs[i].id == new.id && forall|j: int|
        0 <= j < i ==> (#[trigger] secs[j]).id != new.id {
        lemma_section_at_is(secs, new.id, i);
    }
    if forall|j: int| 0 <= j < secs.len() ==> (#[trigger] secs[j]).id != new.id {
        if let Some(k) = section_at(secs, new.id) {
            assert(secs[k].id == new.id);
        }
    }
}

/// Merging in a list of sessions is merging them in one after the other, and
/// makes up none: every session of the result is one of those merged. The ids
/// that were listed keep their places.
pub proof fn law_merged_sessions_are_verbatim(secs: Seq<SessionView>, news: Seq<SessionView>)
    ensures
        with_sections(secs, Seq::<SessionView>::empty()) == secs,
        news.len() > 0 ==> with_sections(secs, news) == with_section(
            with_sections(secs, news.take(news.len() - 1)),
            news[news.len() - 1],
        ),
        forall|i: int|
            0 <= i < with_sections(secs, news).len() ==> secs.contains(
                #[trigger] with_sections(secs, news)[i],
            ) || news.contains(with_sections(secs, news)[i]),
        secs.len() <= with_sections(secs, news).len(),
        forall|i: int|
            0 <= i < secs.len() ==> (#[trigger] with_sections(secs, news)[i]).id == secs[i].id,
    decreases news.len(),
{
    let r = with_sections(secs, news);
    if news.len() > 0 {
        let init = news.drop_last();
        assert(init =~= news.take(news.len() - 1));
        let mid = with_sections(secs, init);
        let last = news.last();
        law_merged_sessions_are_verbatim(secs, init);
        lemma_section_at(mid, last.id);
        assert forall|i: int| 0 <= i < r.len() implies secs.contains(#[trigger] r[i])
            || news.contains(r[i]) by {
            if r[i] == last {
                assert(news[news.len() - 1] == last);
            } else {
                assert(r[i] == mid[i]);
                if init.contains(mid[i]) {
                    let j = choose|j: int| 0 <= j < init.len() && init[j] == mid[i];
                    assert(news[j] == r[i]);
                }
            }
        }
        assert forall|i: int| 0 <= i < secs.len() implies (#[trigger] r[i]).id == secs[i].id by {
            assert(mid[i].id == secs[i].id);
        }
    } else {
        assert forall|i: int| 0 <= i < r.len() implies secs.contains(#[trigger] r[i])
            || news.contains(r[i]) by {
            assert(secs[i] == r[i]);
        }
    }
}

proof fn lemma_combined_verbatim(s: Seq<EntryView>, k: int) -> (at: (int, int))
    requires
        s.len() > 0,
        0 <= k < combined(s).sections.len(),
    ensures
        0 <= at.0 < s.len(),
        0 <= at.1 < s[at.0].sections.len(),
        s[at.0].sections[at.1] == combined(s).sections[k],
    decreases s.len(),
{
    let x = combined(s).sections[k];
    let n = s.len() - 1;
    if n == 0 {
        law_merged_sessions_are_verbatim(Seq::<SessionView>::empty(), s[0].sections);
        let m = choose|m: int| 0 <= m < s[0].sections.len() && s[0].sections[m] == x;
        (0, m)
    } else {
        let init = s.drop_last();
        let mid = combined(init).sections;
        law_merged_sessions_are_verbatim(mid, s.last().sections);
        if s.last().sections.contains(x) {
            let m = choose|m: int| 0 <= m < s.last().sections.len() && s.last().sections[m] == x;
            (n, m)
        } else {
            let j = choose|j: int| 0 <= j < mid.len() && mid[j] == x;
            let at = lemma_combined_verbatim(init, j);
            assert(init[at.0] == s[at.0]);
            at
        }
    }
}

/// A merge makes up no session and changes none: each session of an entry is
/// one that some list has for its path.
pub proof fn law_merged_entries_hold_sessions_verbatim(
    r: Seq<EntryView>,
    all: Seq<EntryView>,
    i: int,
    k: int,
)
    requires
        is_merge(r, all),
        0 <= i < r.len(),
        0 <= k < r[i].sections.len(),
    ensures
        exists|j: int, m: int|
            0 <= j < all.len() && all[j].path == r[i].path && 0 <= m < all[j].sections.len()
                && #[trigger] all[j].sections[m] == r[i].sections[k],
{
    let own = of_path(all, r[i].path);
    lemma_of_path_members(all, r[i].path);
    let (a, m) = lemma_combined_verbatim(own, k);
    let j = choose|j: int| 0 <= j < all.len() && all[j] == own[a];
    assert(all[j].sections[m] == r[i].sections[k]);
}

/// A merged list has an entry for each path of either list, and no path twice.
pub proof fn law_merge_has_each_path_once(r: Seq<EntryView>, all: Seq<EntryView>)
    requires
        is_merge(r, all),
    ensures
        forall|i: int, j: int|
            0 <= i < j < r.len() ==> (#[trigger] r[i]).path != (#[trigger] r[j]).path,
        forall|j: int|
            0 <= j < all.len() ==> exists|i: int|
                0 <= i < r.len() && (#[trigger] r[i]).path == (#[trigger] all[j]).path,
        forall|i: int|
            0 <= i < r.len() ==> exists|j: int|
                0 <= j < all.len() && (#[trigger] all[j]).path == (#[trigger] r[i]).path,
{
    law_merge_unites_paths(r, all);
    assert forall|j: int| 0 <= j < all.len() implies exists|i: int|
        0 <= i < r.len() && (#[trigger] r[i]).path == (#[trigger] all[j]).path by {
        assert(has_path(r, all[j].path));
    }
    assert forall|i: int| 0 <= i < r.len() implies exists|j: int|
        0 <= j < all.len() && (#[trigger] all[j]).path == (#[trigger] r[i]).path by {
        lemma_of_path_empty(all, r[i].path);
    }
}

} // verus!
