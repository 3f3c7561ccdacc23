//! `KEY=VALUE` env files, as text: reading pairs, and updating keys without
//! touching anything else.

use vstd::prelude::*;
use vstd::string::*;

use crate::text;

verus! {

pub open spec fn is_quote(c: char) -> bool {
    c == '"' || c == '\''
}

/// `s` without the quotes at both ends.
pub open spec fn unquoted(s: Seq<char>) -> Seq<char> {
    text::drop_while_end(text::drop_while(s, |c: char| is_quote(c)), |c: char| is_quote(c))
}

/// The key and the raw value on a line, both trimmed. Blank lines, comments and
/// lines without `=` have none.
pub open spec fn assignment(line: Seq<char>) -> Option<(Seq<char>, Seq<char>)> {
    let t = text::trimmed(line);
    if t.len() == 0 || t[0] == '#' {
        None
    } else {
        match text::split_once(t, '=') {
            Some((k, v)) => Some((text::trimmed(k), text::trimmed(v))),
            None => None,
        }
    }
}

/// Whether a line assigns to `key`.
pub open spec fn assigns(line: Seq<char>, key: Seq<char>) -> bool {
    match assignment(line) {
        Some((k, _)) => k == key,
        None => false,
    }
}

/// The pairs that a list of lines assigns, in order, with values unquoted.
pub open spec fn pairs(lines: Seq<Seq<char>>) -> Seq<(Seq<char>, Seq<char>)>
    decreases lines.len(),
{
    if lines.len() == 0 {
        Seq::<(Seq<char>, Seq<char>)>::empty()
    } else {
        match assignment(lines.last()) {
            Some((k, v)) => pairs(lines.drop_last()).push((k, unquoted(v))),
            None => pairs(lines.drop_last()),
        }
    }
}

/// The pairs in the contents of a file.
pub open spec fn contents_pairs(contents: Seq<char>) -> Seq<(Seq<char>, Seq<char>)> {
    pairs(text::lines(contents))
}

/// The first non-empty value of `key`; empty when there is none.
pub open spec fn first_value(ps: Seq<(Seq<char>, Seq<char>)>, key: Seq<char>) -> Seq<char>
    decreases ps.len(),
{
    if ps.len() == 0 {
        Seq::<char>::empty()
    } else {
        let before = first_value(ps.drop_last(), key);
        if before.len() == 0 && ps.last().0 == key {
            ps.last().1
        } else {
            before
        }
    }
}

/// The line that gives `key` a value.
pub open spec fn assigning_line(key: Seq<char>, value: Seq<char>) -> Seq<char> {
    key + seq!['='] + value
}

pub open spec fn mentions(lines: Seq<Seq<char>>, key: Seq<char>) -> bool {
    exists|i: int| 0 <= i < lines.len() && assigns(#[trigger] lines[i], key)
}

/// `lines` with every assignment to `key` replaced.
pub open spec fn with_value(lines: Seq<Seq<char>>, key: Seq<char>, value: Seq<char>) -> Seq<
    Seq<char>,
> {
    lines.map_values(
        |l: Seq<char>|
            if assigns(l, key) {
                assigning_line(key, value)
            } else {
                l
            },
    )
}

/// `lines` without the assignments to `key`.
pub open spec fn without_key(lines: Seq<Seq<char>>, key: Seq<char>) -> Seq<Seq<char>>
    decreases lines.len(),
{
    if lines.len() == 0 {
        lines
    } else if assigns(lines.last(), key) {
        without_key(lines.drop_last(), key)
    } else {
        without_key(lines.drop_last(), key).push(lines.last())
    }
}

/// One update: a key with its new value, or with nothing where it is to go.
pub type UpdateView = (Seq<char>, Option<Seq<char>>);

/// `lines` after one update, and whether the header has been written.
///
/// A key that is there gets the new value on each of its lines. One that is not
/// there is appended, unless its value is empty; the first to be appended is
/// preceded by a blank line and `header`.
pub open spec fn updated_once(
    lines: Seq<Seq<char>>,
    headed: bool,
    update: UpdateView,
    header: Seq<char>,
) -> (Seq<Seq<char>>, bool) {
    match update.1 {
        Some(v) => if mentions(lines, update.0) {
            (with_value(lines, update.0, v), headed)
        } else if v.len() > 0 {
            let front = if headed {
                lines
            } else {
                lines.push(Seq::<char>::empty()).push(header)
            };
            (front.push(assigning_line(update.0, v)), true)
        } else {
            (lines, headed)
        },
        None => (without_key(lines, update.0), headed),
    }
}

/// `lines` after a list of updates, and whether the header has been written.
pub open spec fn updated(lines: Seq<Seq<char>>, updates: Seq<UpdateView>, header: Seq<char>) -> (
    Seq<Seq<char>>,
    bool,
)
    decreases updates.len(),
{
    if updates.len() == 0 {
        (lines, false)
    } else {
        let before = updated(lines, updates.drop_last(), header);
        updated_once(before.0, before.1, updates.last(), header)
    }
}

/// The file contents that a list of lines makes: each line ended by a line
/// feed, and nothing where there is no text.
pub open spec fn body(lines: Seq<Seq<char>>) -> Seq<char> {
    let t = text::joined(lines, seq!['\n']);
    if t.len() == 0 {
        t
    } else {
        t.push('\n')
    }
}

/// The lines of a file; none where there is no file.
pub open spec fn file_lines(contents: Option<Seq<char>>) -> Seq<Seq<char>> {
    match contents {
        Some(c) => text::lines(c),
        None => Seq::<Seq<char>>::empty(),
    }
}

/// The contents of a file after a list of updates.
pub open spec fn rewritten(
    contents: Option<Seq<char>>,
    updates: Seq<UpdateView>,
    header: Seq<char>,
) -> Seq<char> {
    body(updated(file_lines(contents), updates, header).0)
}

/// An update of a key: its new value, or `None` to remove it.
pub type Update = (String, Option<String>);

pub open spec fn update_view(u: Update) -> UpdateView {
    (
        u.0@,
        match u.1 {
            Some(v) => Some(v@),
            None => None,
        },
    )
}

pub open spec fn update_views(us: Seq<Update>) -> Seq<UpdateView> {
    us.map_values(|u: Update| update_view(u))
}

pub open spec fn pair_views(ps: Seq<(String, String)>) -> Seq<(Seq<char>, Seq<char>)> {
    ps.map_values(|p: (String, String)| (p.0@, p.1@))
}

pub open spec fn text_of(s: Option<&str>) -> Option<Seq<char>> {
    match s {
        Some(t) => Some(t@),
        None => None,
    }
}

fn unquote(s: &str) -> (r: String)
    ensures
        r@ == unquoted(s@),
{
    let cs: Vec<char> = text::chars_of(s);
    let mut a: usize = 0;
    while a < cs.len() && (cs[a] == '"' || cs[a] == '\'')
        invariant
            a <= cs@.len(),
            forall|j: int| 0 <= j < a ==> is_quote(cs@[j]),
        decreases cs@.len() - a,
    {
        a = a + 1;
    }
    let mut b: usize = cs.len();
    while a < b && (cs[b - 1] == '"' || cs[b - 1] == '\'')
        invariant
            a <= b <= cs@.len(),
            forall|j: int| b <= j < cs@.len() ==> is_quote(cs@[j]),
        decreases b,
    {
        b = b - 1;
    }
    proof {
        text::lemma_drop_while_at(cs@, |c: char| is_quote(c), a as int);
        let t = cs@.skip(a as int);
        text::lemma_drop_while_end_at(t, |c: char| is_quote(c), b - a);
        assert(t.take(b - a) =~= cs@.subrange(a as int, b as int));
    }
    text::string_of(&cs, a, b)
}

/// The key and the raw value on a line.
fn read_assignment(line: &str) -> (r: Option<(String, String)>)
    ensures
        match r {
            Some((k, v)) => assignment(line@) == Some((k@, v@)),
            None => assignment(line@) is None,
        },
{
    let t: String = text::trim(line);
    proof {
        reveal_strlit("#");
    }
    if t.as_str().is_empty() {
        return None;
    }
    assert("#"@ =~= seq!['#']);
    if text::has_prefix(t.as_str(), "#") {
        assert(t@.take(1)[0] == '#');
        return None;
    }
    assert(t@[0] != '#') by {
        if t@[0] == '#' {
            assert(t@.take(1) =~= seq!['#']);
        }
    }
    match text::split_at_first(t.as_str(), '=') {
        Some((k, v)) => Some((text::trim(k.as_str()), text::trim(v.as_str()))),
        None => None,
    }
}

pub(crate) fn line_assigns(line: &str, key: &str) -> (r: bool)
    ensures
        r == assigns(line@, key@),
{
    match read_assignment(line) {
        Some((k, _)) => text::same(k.as_str(), key),
        None => false,
    }
}

fn make_line(key: &str, value: &str) -> (r: String)
    ensures
        r@ == assigning_line(key@, value@),
{
    let mut r: String = key.to_owned();
    r.push('=');
    r.append(value);
    assert(r@ =~= assigning_line(key@, value@));
    r
}

/// Reads the pairs of an env file (blank lines and comments are ignored). A
/// missing file has none.
#[must_use]
pub fn read_env_kv(contents: Option<&str>) -> (r: Vec<(String, String)>)
    ensures
        pair_views(r@) == pairs(file_lines(text_of(contents))),
{
    let mut r: Vec<(String, String)> = Vec::new();
    let c: &str = match contents {
        Some(c) => c,
        None => {
            assert(pair_views(r@) =~= Seq::<(Seq<char>, Seq<char>)>::empty());
            return r;
        },
    };
    let lines: Vec<String> = text::lines_of(c);
    let ghost vs = text::views(lines@);
    let mut i: usize = 0;
    assert(pair_views(r@) =~= pairs(vs.take(0)));
    while i < lines.len()
        invariant
            i <= lines@.len(),
            vs == text::views(lines@),
            pair_views(r@) == pairs(vs.take(i as int)),
        decreases lines@.len() - i,
    {
        assert(vs.take(i + 1).drop_last() =~= vs.take(i as int));
        assert(vs.take(i + 1).last() == lines@[i as int]@);
        match read_assignment(lines[i].as_str()) {
            Some((k, v)) => {
                let p: (String, String) = (k, unquote(v.as_str()));
                assert(pair_views(r@.push(p)) =~= pair_views(r@).push((p.0@, p.1@)));
                r.push(p);
            },
            None => {},
        }
        i = i + 1;
    }
    assert(vs.take(i as int) =~= vs);
    r
}

/// The first non-empty value of `key` among `ps`; empty when there is none.
pub fn lookup(ps: &Vec<(String, String)>, key: &str) -> (r: String)
    ensures
        r@ == first_value(pair_views(ps@), key@),
{
    let ghost vs = pair_views(ps@);
    let mut r: String = String::new();
    let mut i: usize = 0;
    while i < ps.len()
        invariant
            i <= ps@.len(),
            vs == pair_views(ps@),
            r@ == first_value(vs.take(i as int), key@),
        decreases ps@.len() - i,
    {
        assert(vs.take(i + 1).drop_last() =~= vs.take(i as int));
        assert(vs.take(i + 1).last() == (ps@[i as int].0@, ps@[i as int].1@));
        if r.as_str().is_empty() && text::same(ps[i].0.as_str(), key) {
            r = ps[i].1.clone();
        }
        i = i + 1;
    }
    assert(vs.take(i as int) =~= vs);
    r
}

/// Replaces every assignment to `key`; tells whether there was one.
fn set_key(lines: &mut Vec<String>, key: &str, value: &str) -> (found: bool)
    ensures
        found == mentions(text::views(old(lines)@), key@),
        text::views(final(lines)@) == with_value(text::views(old(lines)@), key@, value@),
{
    let ghost before = text::views(lines@);
    let ghost n = lines@.len();
    let mut found: bool = false;
    let mut i: usize = 0;
    while i < lines.len()
        invariant
            i <= lines@.len(),
            lines@.len() == n == before.len(),
            forall|j: int| i <= j < n ==> (#[trigger] lines@[j])@ == before[j],
            forall|j: int|
                0 <= j < i ==> (#[trigger] lines@[j])@ == with_value(before, key@, value@)[j],
            found == exists|j: int| 0 <= j < i && assigns(#[trigger] before[j], key@),
        decreases n - i,
    {
        assert(lines@[i as int]@ == before[i as int]);
        if line_assigns(lines[i].as_str(), key) {
            assert(assigns(before[i as int], key@));
            let line: String = make_line(key, value);
            lines.set(i, line);
            found = true;
        }
        i = i + 1;
    }
    assert(text::views(lines@) =~= with_value(before, key@, value@));
    found
}

/// `lines` without the assignments to `key`.
fn drop_key(lines: &Vec<String>, key: &str) -> (r: Vec<String>)
    ensures
        text::views(r@) == without_key(text::views(lines@), key@),
{
    let ghost vs = text::views(lines@);
    let mut r: Vec<String> = Vec::new();
    let mut i: usize = 0;
    assert(text::views(r@) =~= vs.take(0));
    while i < lines.len()
        invariant
            i <= lines@.len(),
            vs == text::views(lines@),
            text::views(r@) == without_key(vs.take(i as int), key@),
        decreases lines@.len() - i,
    {
        assert(vs.take(i + 1).drop_last() =~= vs.take(i as int));
        assert(vs.take(i + 1).last() == lines@[i as int]@);
        if !line_assigns(lines[i].as_str(), key) {
            let l: String = lines[i].clone();
            assert(text::views(r@.push(l)) =~= text::views(r@).push(l@));
            r.push(l);
        }
        i = i + 1;
    }
    assert(vs.take(i as int) =~= vs);
    r
}

fn push_line(lines: &mut Vec<String>, line: String)
    ensures
        text::views(final(lines)@) == text::views(old(lines)@).push(line@),
{
    let ghost before = lines@;
    lines.push(line);
    assert(text::views(lines@) =~= text::views(before).push(line@));
}

/// Updates a list of lines key by key.
fn update_lines(lines: Vec<String>, updates: &Vec<Update>, header: &str) -> (r: Vec<String>)
    ensures
        text::views(r@) == updated(text::views(lines@), update_views(updates@), header@).0,
{
    let ghost start = text::views(lines@);
    let ghost us = update_views(updates@);
    let mut lines: Vec<String> = lines;
    let mut headed: bool = false;
    let mut i: usize = 0;
    while i < updates.len()
        invariant
            i <= updates@.len(),
            us == update_views(updates@),
            updated(start, us.take(i as int), header@) == (text::views(lines@), headed),
        decreases updates@.len() - i,
    {
        assert(us.take(i + 1).drop_last() =~= us.take(i as int));
        assert(us.take(i + 1).last() == update_view(updates@[i as int]));
        let key: &str = updates[i].0.as_str();
        match &updates[i].1 {
            Some(value) => {
                let ghost before = text::views(lines@);
                let found: bool = set_key(&mut lines, key, value.as_str());
                if !found {
                    assert(with_value(before, key@, value@) =~= before) by {
                        assert forall|j: int| 0 <= j < before.len() implies !assigns(
                            #[trigger] before[j],
                            key@,
                        ) by {}
                    }
                    if !value.as_str().is_empty() {
                        if !headed {
                            push_line(&mut lines, String::new());
                            push_line(&mut lines, header.to_owned());
                            assert(text::views(lines@) == before.push(Seq::<char>::empty()).push(
                                header@,
                            ));
                            headed = true;
                        }
                        let line: String = make_line(key, value.as_str());
                        push_line(&mut lines, line);
                    }
                }
            },
            None => {
                let kept: Vec<String> = drop_key(&lines, key);
                lines = kept;
            },
        }
        i = i + 1;
    }
    assert(us.take(i as int) =~= us);
    lines
}

pub(crate) fn make_body(lines: &Vec<String>) -> (r: String)
    ensures
        r@ == body(text::views(lines@)),
{
    proof {
        reveal_strlit("\n");
    }
    assert("\n"@ =~= seq!['\n']);
    let mut r: String = text::join(lines, "\n");
    if !r.as_str().is_empty() {
        r.push('\n');
    }
    r
}

/// The new contents of an env file: the keys in `updates` set, appended below
/// `header`, or removed, and everything else kept as it is.
#[must_use]
pub fn rewrite(contents: Option<&str>, updates: &Vec<Update>, header: &str) -> (r: String)
    ensures
        r@ == rewritten(text_of(contents), update_views(updates@), header@),
{
    let lines: Vec<String> = match contents {
        Some(c) => text::lines_of(c),
        None => Vec::new(),
    };
    assert(text::views(lines@) =~= file_lines(text_of(contents)));
    let after: Vec<String> = update_lines(lines, updates, header);
    make_body(&after)
}

/// The lines that assign to `key`.
pub open spec fn key_lines(lines: Seq<Seq<char>>, key: Seq<char>) -> Seq<Seq<char>>
    decreases lines.len(),
{
    if lines.len() == 0 {
        lines
    } else if assigns(lines.last(), key) {
        key_lines(lines.drop_last(), key).push(lines.last())
    } else {
        key_lines(lines.drop_last(), key)
    }
}

/// The lines that assign nothing: blank lines, comments, and the like.
pub open spec fn other_lines(lines: Seq<Seq<char>>) -> Seq<Seq<char>>
    decreases lines.len(),
{
    if lines.len() == 0 {
        lines
    } else if assignment(lines.last()) is None {
        other_lines(lines.drop_last()).push(lines.last())
    } else {
        other_lines(lines.drop_last())
    }
}

/// A key that stands on a line as it is: not empty, no white space at its ends,
/// no `=` in it, and not read as a comment.
pub open spec fn is_plain_key(key: Seq<char>) -> bool {
    &&& key.len() > 0
    &&& text::trimmed(key) == key
    &&& text::has_no(key, '=')
    &&& text::has_no(key, '\n')
    &&& key[0] != '#'
}

/// A comment on one line.
pub open spec fn is_comment(line: Seq<char>) -> bool {
    line.len() > 0 && line[0] == '#' && text::has_no(line, '\n')
}

/// Updates of distinct plain keys with one-line values.
pub open spec fn well_formed(updates: Seq<UpdateView>) -> bool {
    &&& forall|i: int| 0 <= i < updates.len() ==> is_plain_key((#[trigger] updates[i]).0)
    &&& forall|i: int|
        0 <= i < updates.len() ==> (match (#[trigger] updates[i]).1 {
            Some(v) => text::has_no(v, '\n'),
            None => true,
        })
    &&& forall|i: int, j: int|
        0 <= i < j < updates.len() ==> (#[trigger] updates[i]).0 != (#[trigger] updates[j]).0
}

pub open spec fn one_line_each(lines: Seq<Seq<char>>) -> bool {
    forall|i: int| 0 <= i < lines.len() ==> text::has_no(#[trigger] lines[i], '\n')
}

proof fn lemma_trimmed_first(s: Seq<char>)
    requires
        s.len() > 0,
        !text::is_white(s[0]),
    ensures
        text::trimmed(s).len() > 0,
        text::trimmed(s)[0] == s[0],
{
    let (a, b) = text::lemma_trimmed(s);
    assert(a == 0);
    if b == 0 {
        assert(text::is_white(s[0]));
    }
}

/// A written line assigns its value to its key.
pub(crate) proof fn lemma_assigning_line(key: Seq<char>, value: Seq<char>)
    requires
        is_plain_key(key),
    ensures
        assignment(assigning_line(key, value)) == Some((key, text::trimmed(value))),
{
    let line = assigning_line(key, value);
    text::lemma_trimmed_twice(key);
    let n = key.len() as int;
    assert(line[n] == '=');
    assert(!text::is_white('='));
    let (a, b) = text::lemma_trimmed(line);
    assert(line[0] == key[0]);
    assert(a == 0);
    assert(b > n) by {
        if b <= n {
            assert(text::is_white(line[n]));
        }
    }
    let t = text::trimmed(line);
    assert(t.take(n) =~= key);
    text::lemma_find_is(t, '=', n);
    let rest = t.skip(n + 1);
    assert(rest =~= value.take(b - n - 1));
    // What trimming the line took from its end, trimming the value takes too.
    let (c, d) = text::lemma_trimmed(rest);
    if c < d {
        assert forall|j: int| d <= j < value.len() implies text::is_white(value[j]) by {
            if j < rest.len() {
                assert(text::is_white(rest[j]));
            } else {
                assert(text::is_white(line[j + n + 1]));
            }
        }
        assert forall|j: int| 0 <= j < c implies text::is_white(value[j]) by {
            assert(text::is_white(rest[j]));
        }
        text::lemma_trimmed_is(value, c, d);
        assert(value.subrange(c, d) =~= rest.subrange(c, d));
    } else {
        assert forall|j: int| 0 <= j < value.len() implies text::is_white(value[j]) by {
            if j < rest.len() {
                assert(text::is_white(rest[j]));
            } else {
                assert(text::is_white(line[j + n + 1]));
            }
        }
        text::lemma_trimmed_is(value, value.len() as int, value.len() as int);
        assert(text::trimmed(value) =~= text::trimmed(rest));
    }
}

pub(crate) proof fn lemma_quiet_lines(header: Seq<char>)
    requires
        is_comment(header),
    ensures
        assignment(header) is None,
        assignment(Seq::<char>::empty()) is None,
{
    assert(!text::is_white('#'));
    lemma_trimmed_first(header);
    text::lemma_trimmed_fixed(Seq::<char>::empty());
}

proof fn lemma_key_lines_push(lines: Seq<Seq<char>>, line: Seq<char>, key: Seq<char>)
    ensures
        key_lines(lines.push(line), key) == (if assigns(line, key) {
            key_lines(lines, key).push(line)
        } else {
            key_lines(lines, key)
        }),
        other_lines(lines.push(line)) == (if assignment(line) is None {
            other_lines(lines).push(line)
        } else {
            other_lines(lines)
        }),
{
    assert(lines.push(line).drop_last() =~= lines);
}

proof fn lemma_with_value(
    lines: Seq<Seq<char>>,
    key: Seq<char>,
    value: Seq<char>,
    other: Seq<char>,
)
    requires
        is_plain_key(key),
    ensures
        other != key ==> key_lines(with_value(lines, key, value), other) == key_lines(lines, other),
        key_lines(with_value(lines, key, value), key) == Seq::new(
            key_lines(lines, key).len(),
            |i: int| assigning_line(key, value),
        ),
        other_lines(with_value(lines, key, value)) == other_lines(lines),
    decreases lines.len(),
{
    if lines.len() > 0 {
        let init = lines.drop_last();
        let l = lines.last();
        lemma_with_value(init, key, value, other);
        assert(with_value(lines, key, value).drop_last() =~= with_value(init, key, value));
        lemma_assigning_line(key, value);
        let w = Seq::new(key_lines(init, key).len(), |i: int| assigning_line(key, value));
        if assigns(l, key) {
            assert(with_value(lines, key, value).last() == assigning_line(key, value));
            assert(w.push(assigning_line(key, value)) =~= Seq::new(
                key_lines(lines, key).len(),
                |i: int| assigning_line(key, value),
            ));
        } else {
            assert(with_value(lines, key, value).last() == l);
        }
    } else {
        assert(key_lines(with_value(lines, key, value), key) =~= Seq::new(
            key_lines(lines, key).len(),
            |i: int| assigning_line(key, value),
        ));
        assert(with_value(lines, key, value) =~= lines);
    }
}

proof fn lemma_without_key(lines: Seq<Seq<char>>, key: Seq<char>, other: Seq<char>)
    ensures
        other != key ==> key_lines(without_key(lines, key), other) == key_lines(lines, other),
        key_lines(without_key(lines, key), key).len() == 0,
        other_lines(without_key(lines, key)) == other_lines(lines),
        one_line_each(lines) ==> one_line_each(without_key(lines, key)),
    decreases lines.len(),
{
    if lines.len() > 0 {
        let init = lines.drop_last();
        lemma_without_key(init, key, other);
        assert(one_line_each(lines) ==> one_line_each(init)) by {
            assert forall|i: int|
                one_line_each(lines) && 0 <= i < init.len() implies text::has_no(
                #[trigger] init[i],
                '\n',
            ) by {
                assert(init[i] == lines[i]);
            }
        }
        if !assigns(lines.last(), key) {
            lemma_key_lines_push(without_key(init, key), lines.last(), other);
            lemma_key_lines_push(without_key(init, key), lines.last(), key);
            assert(one_line_each(lines) ==> text::has_no(lines.last(), '\n')) by {
                if one_line_each(lines) {
                    assert(text::has_no(lines[lines.len() - 1], '\n'));
                }
            }
        }
    }
}

proof fn lemma_mentions(lines: Seq<Seq<char>>, key: Seq<char>)
    ensures
        mentions(lines, key) <==> key_lines(lines, key).len() > 0,
    decreases lines.len(),
{
    if lines.len() > 0 {
        let init = lines.drop_last();
        lemma_mentions(init, key);
        if mentions(init, key) {
            let i = choose|i: int| 0 <= i < init.len() && assigns(#[trigger] init[i], key);
            assert(assigns(lines[i], key));
        }
        if assigns(lines.last(), key) {
            assert(assigns(lines[lines.len() - 1], key));
        }
        if mentions(lines, key) && !assigns(lines.last(), key) {
            let i = choose|i: int| 0 <= i < lines.len() && assigns(#[trigger] lines[i], key);
            assert(assigns(init[i], key));
        }
    }
}

/// The lines that assign to a key after it was given a value: as many as
/// before, but one where there was none and the value is not empty.
pub open spec fn set_lines(before: Seq<Seq<char>>, key: Seq<char>, value: Seq<char>) -> Seq<
    Seq<char>,
> {
    let n = key_lines(before, key).len();
    Seq::new(
        if n == 0 && value.len() > 0 {
            1
        } else {
            n
        },
        |i: int| assigning_line(key, value),
    )
}

proof fn lemma_updated_once(
    lines: Seq<Seq<char>>,
    headed: bool,
    u: UpdateView,
    header: Seq<char>,
    other: Seq<char>,
)
    requires
        is_plain_key(u.0),
        is_comment(header),
        u.1 matches Some(v) ==> text::has_no(v, '\n'),
        one_line_each(lines),
    ensures
        one_line_each(updated_once(lines, headed, u, header).0),
        other != u.0 ==> key_lines(updated_once(lines, headed, u, header).0, other) == key_lines(
            lines,
            other,
        ),
        match u.1 {
            Some(v) => key_lines(updated_once(lines, headed, u, header).0, u.0) == set_lines(
                lines,
                u.0,
                v,
            ),
            None => key_lines(updated_once(lines, headed, u, header).0, u.0).len() == 0,
        },
        other_lines(updated_once(lines, headed, u, header).0) == (if !headed && updated_once(
            lines,
            headed,
            u,
            header,
        ).1 {
            other_lines(lines).push(Seq::<char>::empty()).push(header)
        } else {
            other_lines(lines)
        }),
        headed ==> updated_once(lines, headed, u, header).1,
{
    let after = updated_once(lines, headed, u, header).0;
    lemma_mentions(lines, u.0);
    match u.1 {
        Some(v) => {
            let line = assigning_line(u.0, v);
            assert(text::has_no(line, '\n'));
            if mentions(lines, u.0) {
                lemma_with_value(lines, u.0, v, other);
                assert(key_lines(after, u.0) =~= set_lines(lines, u.0, v));
                assert forall|i: int| 0 <= i < after.len() implies text::has_no(
                    #[trigger] after[i],
                    '\n',
                ) by {
                    assert(text::has_no(lines[i], '\n'));
                }
            } else if v.len() > 0 {
                lemma_quiet_lines(header);
                let blank = Seq::<char>::empty();
                lemma_assigning_line(u.0, v);
                lemma_key_lines_push(lines, blank, other);
                lemma_key_lines_push(lines, blank, u.0);
                lemma_key_lines_push(lines.push(blank), header, other);
                lemma_key_lines_push(lines.push(blank), header, u.0);
                let front = if headed {
                    lines
                } else {
                    lines.push(blank).push(header)
                };
                lemma_key_lines_push(front, line, other);
                lemma_key_lines_push(front, line, u.0);
                assert(key_lines(after, u.0) =~= set_lines(lines, u.0, v));
                assert forall|i: int| 0 <= i < after.len() implies text::has_no(
                    #[trigger] after[i],
                    '\n',
                ) by {
                    if i < lines.len() {
                        assert(after[i] == lines[i]);
                    }
                }
            } else {
                assert(key_lines(after, u.0) =~= set_lines(lines, u.0, v));
            }
        },
        None => {
            lemma_without_key(lines, u.0, other);
        },
    }
}

/// Updating keys leaves the lines of every other key as they are, and gives
/// each updated key what it was given: its lines carry the new value, or are
/// gone. Lines that assign nothing are kept, in order; at most a blank line and
/// the header join them.
pub proof fn law_update_touches_only_its_keys(
    lines: Seq<Seq<char>>,
    updates: Seq<UpdateView>,
    header: Seq<char>,
)
    requires
        well_formed(updates),
        is_comment(header),
        one_line_each(lines),
    ensures
        one_line_each(updated(lines, updates, header).0),
        forall|key: Seq<char>|
            (forall|i: int| 0 <= i < updates.len() ==> (#[trigger] updates[i]).0 != key)
                ==> #[trigger] key_lines(updated(lines, updates, header).0, key) == key_lines(
                lines,
                key,
            ),
        forall|i: int|
            0 <= i < updates.len() ==> match (#[trigger] updates[i]).1 {
                Some(v) => key_lines(updated(lines, updates, header).0, updates[i].0) == set_lines(
                    lines,
                    updates[i].0,
                    v,
                ),
                None => key_lines(updated(lines, updates, header).0, updates[i].0).len() == 0,
            },
        other_lines(updated(lines, updates, header).0) == (if updated(lines, updates, header).1 {
            other_lines(lines).push(Seq::<char>::empty()).push(header)
        } else {
            other_lines(lines)
        }),
    decreases updates.len(),
{
    if updates.len() > 0 {
        let init = updates.drop_last();
        let u = updates.last();
        assert(u == updates[updates.len() - 1]);
        assert(well_formed(init)) by {
            assert forall|i: int| 0 <= i < init.len() implies #[trigger] init[i] == updates[i] by {}
        }
        law_update_touches_only_its_keys(lines, init, header);
        let (mid, headed) = updated(lines, init, header);
        let after = updated(lines, updates, header).0;
        lemma_updated_once(mid, headed, u, header, u.0);
        assert(key_lines(mid, u.0) == key_lines(lines, u.0)) by {
            assert forall|i: int| 0 <= i < init.len() implies (#[trigger] init[i]).0 != u.0 by {
                assert(init[i] == updates[i]);
            }
        }
        assert forall|key: Seq<char>|
            (forall|i: int|
                0 <= i < updates.len() ==> (#[trigger] updates[i]).0
                    != key) implies #[trigger] key_lines(after, key) == key_lines(lines, key) by {
            assert forall|i: int| 0 <= i < init.len() implies (#[trigger] init[i]).0 != key by {
                assert(init[i] == updates[i]);
            }
            assert(updates[updates.len() - 1].0 != key);
            lemma_updated_once(mid, headed, u, header, key);
        }
        assert forall|i: int| 0 <= i < updates.len() implies match (#[trigger] updates[i]).1 {
            Some(v) => key_lines(after, updates[i].0) == set_lines(lines, updates[i].0, v),
            None => key_lines(after, updates[i].0).len() == 0,
        } by {
            if i < init.len() {
                assert(init[i] == updates[i]);
                assert(updates[i].0 != updates[updates.len() - 1].0);
                lemma_updated_once(mid, headed, u, header, updates[i].0);
            } else {
                match u.1 {
                    Some(v) => {
                        assert(set_lines(mid, u.0, v) =~= set_lines(lines, u.0, v));
                    },
                    None => {},
                }
            }
        }
    }
}

/// Whether `lines` are as an update leaves them.
spec fn settled(lines: Seq<Seq<char>>, u: UpdateView) -> bool {
    match u.1 {
        Some(v) => (mentions(lines, u.0) || v.len() == 0) && forall|i: int|
            0 <= i < lines.len() && assigns(#[trigger] lines[i], u.0) ==> lines[i]
                == assigning_line(u.0, v),
        None => !mentions(lines, u.0),
    }
}

proof fn lemma_key_line(lines: Seq<Seq<char>>, key: Seq<char>, i: int)
    requires
        0 <= i < lines.len(),
        assigns(lines[i], key),
    ensures
        key_lines(lines, key).contains(lines[i]),
    decreases lines.len(),
{
    let init = lines.drop_last();
    let before = key_lines(init, key);
    let all = key_lines(lines, key);
    if i < init.len() {
        assert(init[i] == lines[i]);
        lemma_key_line(init, key, i);
        let j = choose|j: int| 0 <= j < before.len() && before[j] == lines[i];
        assert(all[j] == lines[i]);
    } else {
        assert(all[before.len() as int] == lines[i]);
    }
}

proof fn lemma_without_key_absent(lines: Seq<Seq<char>>, key: Seq<char>)
    requires
        !mentions(lines, key),
    ensures
        without_key(lines, key) == lines,
    decreases lines.len(),
{
    if lines.len() > 0 {
        let init = lines.drop_last();
        assert(!assigns(lines[lines.len() - 1], key));
        assert(!mentions(init, key)) by {
            if mentions(init, key) {
                let i = choose|i: int| 0 <= i < init.len() && assigns(#[trigger] init[i], key);
                assert(assigns(lines[i], key));
            }
        }
        lemma_without_key_absent(init, key);
        assert(init.push(lines.last()) =~= lines);
    }
}

proof fn lemma_settled(lines: Seq<Seq<char>>, updates: Seq<UpdateView>, header: Seq<char>)
    requires
        forall|i: int| 0 <= i < updates.len() ==> settled(lines, #[trigger] updates[i]),
    ensures
        updated(lines, updates, header) == (lines, false),
    decreases updates.len(),
{
    if updates.len() > 0 {
        let init = updates.drop_last();
        let u = updates.last();
        assert(settled(lines, updates[updates.len() - 1]));
        assert forall|i: int| 0 <= i < init.len() implies settled(lines, #[trigger] init[i]) by {
            assert(init[i] == updates[i]);
        }
        lemma_settled(lines, init, header);
        match u.1 {
            Some(v) => {
                assert(with_value(lines, u.0, v) =~= lines);
            },
            None => {
                lemma_without_key_absent(lines, u.0);
            },
        }
    }
}

/// The same update a second time changes nothing.
pub proof fn law_updating_twice_is_updating_once(
    lines: Seq<Seq<char>>,
    updates: Seq<UpdateView>,
    header: Seq<char>,
)
    requires
        well_formed(updates),
        is_comment(header),
        one_line_each(lines),
    ensures
        updated(updated(lines, updates, header).0, updates, header) == (
            updated(lines, updates, header).0,
            false,
        ),
{
    let after = updated(lines, updates, header).0;
    law_update_touches_only_its_keys(lines, updates, header);
    assert forall|i: int| 0 <= i < updates.len() implies settled(after, #[trigger] updates[i]) by {
        let key = updates[i].0;
        lemma_mentions(after, key);
        lemma_mentions(lines, key);
        if let Some(v) = updates[i].1 {
            assert forall|j: int| 0 <= j < after.len() && assigns(
                #[trigger] after[j],
                key,
            ) implies after[j] == assigning_line(key, v) by {
                lemma_key_line(after, key, j);
                assert(set_lines(lines, key, v).contains(after[j]));
            }
        }
    }
    lemma_settled(after, updates, header);
}

proof fn lemma_pairs_without_cr(lines: Seq<Seq<char>>)
    ensures
        pairs(lines.map_values(|l: Seq<char>| text::without_cr(l))) == pairs(lines),
    decreases lines.len(),
{
    let f = |l: Seq<char>| text::without_cr(l);
    if lines.len() > 0 {
        lemma_pairs_without_cr(lines.drop_last());
        assert(lines.map_values(f).drop_last() =~= lines.drop_last().map_values(f));
        text::lemma_trimmed_without_cr(lines.last());
    } else {
        assert(lines.map_values(f) =~= lines);
    }
}

/// Writing lines to a file and reading it gives back their pairs.
pub proof fn law_written_lines_read_back(lines: Seq<Seq<char>>)
    requires
        one_line_each(lines),
    ensures
        contents_pairs(body(lines)) == pairs(lines),
{
    let t = text::joined(lines, seq!['\n']);
    let empty = Seq::<char>::empty();
    if lines.len() == 0 {
        text::lemma_find_none(empty, '\n');
        assert(body(lines) =~= empty);
        assert(text::lines(body(lines)) =~= lines);
    } else if t.len() > 0 {
        text::lemma_lines_of_joined(lines);
        lemma_pairs_without_cr(lines);
    } else {
        // Only a single empty line joins to nothing.
        if lines.len() >= 2 {
            text::lemma_joined_front(lines, seq!['\n']);
            assert(false);
        }
        text::lemma_find_none(empty, '\n');
        assert(t =~= empty);
        text::lemma_trimmed_fixed(empty);
        assert(lines[0] =~= empty);
        assert(lines.drop_last() =~= Seq::<Seq<char>>::empty());
        assert(pairs(lines.drop_last()) =~= Seq::<(Seq<char>, Seq<char>)>::empty());
        assert(pairs(lines) =~= Seq::<(Seq<char>, Seq<char>)>::empty());
        assert(text::lines(body(lines)) =~= Seq::<Seq<char>>::empty());
    }
}

/// The first non-empty value that a list of assignments to one key holds.
pub open spec fn first_of(lines: Seq<Seq<char>>) -> Seq<char>
    decreases lines.len(),
{
    if lines.len() == 0 {
        Seq::<char>::empty()
    } else {
        let before = first_of(lines.drop_last());
        if before.len() == 0 {
            match assignment(lines.last()) {
                Some((_, v)) => unquoted(v),
                None => before,
            }
        } else {
            before
        }
    }
}

/// What is read for a key depends on the lines of that key alone.
pub proof fn law_value_depends_on_key_lines(lines: Seq<Seq<char>>, key: Seq<char>)
    ensures
        first_value(pairs(lines), key) == first_of(key_lines(lines, key)),
    decreases lines.len(),
{
    if lines.len() > 0 {
        let init = lines.drop_last();
        law_value_depends_on_key_lines(init, key);
        match assignment(lines.last()) {
            Some((k, v)) => {
                assert(pairs(lines).drop_last() =~= pairs(init));
                if k == key {
                    assert(key_lines(lines, key).drop_last() =~= key_lines(init, key));
                }
            },
            None => {},
        }
    }
}

proof fn lemma_first_of_repeated(n: nat, key: Seq<char>, value: Seq<char>)
    requires
        is_plain_key(key),
    ensures
        first_of(Seq::new(n, |i: int| assigning_line(key, value))) == (if n == 0 {
            Seq::<char>::empty()
        } else {
            unquoted(text::trimmed(value))
        }),
    decreases n,
{
    let s = Seq::new(n, |i: int| assigning_line(key, value));
    lemma_assigning_line(key, value);
    if n > 0 {
        let m: nat = (n - 1) as nat;
        lemma_first_of_repeated(m, key, value);
        assert(s.drop_last() =~= Seq::new(m, |i: int| assigning_line(key, value)));
        if unquoted(text::trimmed(value)).len() == 0 {
            assert(unquoted(text::trimmed(value)) =~= Seq::<char>::empty());
        }
    }
}

/// Reading an env file gives back what was written to it: each updated key
/// reads as its new value, trimmed and unquoted (nothing where it was removed,
/// or where an empty value met a file without it), and every other key reads as
/// before.
pub proof fn law_read_after_rewrite(
    contents: Option<Seq<char>>,
    updates: Seq<UpdateView>,
    header: Seq<char>,
)
    requires
        well_formed(updates),
        is_comment(header),
    ensures
        forall|i: int|
            0 <= i < updates.len() ==> first_value(
                contents_pairs(rewritten(contents, updates, header)),
                (#[trigger] updates[i]).0,
            ) == (match updates[i].1 {
                Some(v) => unquoted(text::trimmed(v)),
                None => Seq::<char>::empty(),
            }),
        forall|key: Seq<char>|
            (forall|i: int| 0 <= i < updates.len() ==> (#[trigger] updates[i]).0 != key)
                ==> #[trigger] first_value(
                contents_pairs(rewritten(contents, updates, header)),
                key,
            ) == first_value(pairs(file_lines(contents)), key),
{
    let lines = file_lines(contents);
    assert(one_line_each(lines)) by {
        match contents {
            Some(c) => {
                text::lemma_lines_have_no_feed(c);
            },
            None => {},
        }
    }
    law_update_touches_only_its_keys(lines, updates, header);
    let after = updated(lines, updates, header).0;
    law_written_lines_read_back(after);
    assert forall|i: int| 0 <= i < updates.len() implies first_value(
        contents_pairs(rewritten(contents, updates, header)),
        (#[trigger] updates[i]).0,
    ) == (match updates[i].1 {
        Some(v) => unquoted(text::trimmed(v)),
        None => Seq::<char>::empty(),
    }) by {
        let key = updates[i].0;
        law_value_depends_on_key_lines(after, key);
        match updates[i].1 {
            Some(v) => {
                let n = set_lines(lines, key, v).len();
                lemma_first_of_repeated(n, key, v);
                assert(set_lines(lines, key, v) =~= Seq::new(n, |j: int| assigning_line(key, v)));
                if n == 0 {
                    let e = Seq::<char>::empty();
                    assert(v =~= e);
                    text::lemma_trimmed_fixed(e);
                    assert(unquoted(e) =~= e);
                }
            },
            None => {},
        }
    }
    assert forall|key: Seq<char>|
        (forall|i: int| 0 <= i < updates.len() ==> (#[trigger] updates[i]).0
            != key) implies #[trigger] first_value(
        contents_pairs(rewritten(contents, updates, header)),
        key,
    ) == first_value(pairs(file_lines(contents)), key) by {
        law_value_depends_on_key_lines(after, key);
        law_value_depends_on_key_lines(lines, key);
    }
}

/// Writing the same update to a file a second time leaves the file as it is,
/// unless a line of it ends in a carriage return, which belongs to the line end
/// when the file is read again.
pub proof fn law_rewriting_twice_is_rewriting_once(
    contents: Option<Seq<char>>,
    updates: Seq<UpdateView>,
    header: Seq<char>,
)
    requires
        well_formed(updates),
        is_comment(header),
        forall|i: int|
            0 <= i < updated(file_lines(contents), updates, header).0.len() ==> text::without_cr(
                #[trigger] updated(file_lines(contents), updates, header).0[i],
            ) == updated(file_lines(contents), updates, header).0[i],
    ensures
        rewritten(Some(rewritten(contents, updates, header)), updates, header) == rewritten(
            contents,
            updates,
            header,
        ),
{
    let lines = file_lines(contents);
    let after = updated(lines, updates, header).0;
    let t = text::joined(after, seq!['\n']);
    let empty = Seq::<char>::empty();
    if let Some(c) = contents {
        text::lemma_lines_have_no_feed(c);
    }
    law_update_touches_only_its_keys(lines, updates, header);
    law_updating_twice_is_updating_once(lines, updates, header);
    if t.len() > 0 {
        if after.len() == 0 {
            assert(false);
        }
        text::lemma_lines_of_joined(after);
        assert(after.map_values(|l: Seq<char>| text::without_cr(l)) =~= after);
    } else {
        // Nothing was written, so no update left a line.
        if after.len() >= 2 {
            text::lemma_joined_front(after, seq!['\n']);
        }
        assert(body(after) =~= empty);
        text::lemma_find_none(empty, '\n');
        let none = Seq::<Seq<char>>::empty();
        assert(text::lines(empty) =~= none);
        assert forall|i: int| 0 <= i < updates.len() implies settled(
            none,
            #[trigger] updates[i],
        ) by {
            let key = updates[i].0;
            lemma_mentions(after, key);
            lemma_mentions(lines, key);
            if mentions(after, key) {
                let j = choose|j: int| 0 <= j < after.len() && assigns(#[trigger] after[j], key);
                assert(after[j] =~= empty);
                text::lemma_trimmed_fixed(empty);
                assert(false);
            }
        }
        lemma_settled(none, updates, header);
        assert(text::joined(none, seq!['\n']) =~= empty);
    }
}

/// Quotes around a value are dropped, all of them at either end, and those inside
/// it stay.
pub proof fn law_quotes_around_are_dropped(before: Seq<char>, v: Seq<char>, after: Seq<char>)
    requires
        forall|i: int| 0 <= i < before.len() ==> before[i] == '"' || before[i] == '\'',
        forall|i: int| 0 <= i < after.len() ==> after[i] == '"' || after[i] == '\'',
        v.len() > 0,
        v[0] != '"' && v[0] != '\'',
        v.last() != '"' && v.last() != '\'',
    ensures
        unquoted(before + v + after) == v,
    decreases before.len() + after.len(),
{
    let s = before + v + after;
    let quote = |c: char| is_quote(c);
    if before.len() > 0 {
        assert(s[0] == before[0]);
        assert(s.skip(1) =~= before.skip(1) + v + after);
        law_quotes_around_are_dropped(before.skip(1), v, after);
        assert(text::drop_while(s, quote) == text::drop_while(s.skip(1), quote));
    } else {
        assert(s[0] == v[0]);
        assert(text::drop_while(s, quote) == s);
        if after.len() > 0 {
            assert(s.last() == after.last());
            assert(s.drop_last() =~= before + v + after.drop_last());
            law_quotes_around_are_dropped(before, v, after.drop_last());
            assert(s.drop_last()[0] == v[0]);
            assert(text::drop_while(s.drop_last(), quote) == s.drop_last());
            assert(text::drop_while_end(s, quote) == text::drop_while_end(s.drop_last(), quote));
        } else {
            assert(s =~= v);
        }
    }
}

/// A line of a key, an equals sign and a value assigns the value to the key, with
/// white space around either left out. The first equals sign counts.
pub proof fn law_line_assigns_its_value(key: Seq<char>, value: Seq<char>)
    requires
        key.len() > 0,
        !text::is_white(key[0]),
        !text::is_white(key.last()),
        key[0] != '#',
        forall|i: int| 0 <= i < key.len() ==> key[i] != '=',
        forall|i: int| 0 <= i < key.len() ==> key[i] != '\n',
    ensures
        assignment(key + seq!['='] + value) == Some((key, text::trimmed(value))),
        assigns(key + seq!['='] + value, key),
{
    let none = Seq::<char>::empty();
    text::law_trimming_drops_the_white_space_around(none, key, none);
    assert(none + key + none =~= key);
    assert forall|i: int| 0 <= i < key.len() implies key[i] != '=' && key[i] != '\n' by {}
    assert(text::has_no(key, '='));
    assert(text::has_no(key, '\n'));
    lemma_assigning_line(key, value);
}

/// A blank line, a comment and a line without an equals sign assign nothing.
pub proof fn law_other_lines_assign_nothing(line: Seq<char>)
    ensures
        (forall|i: int| 0 <= i < line.len() ==> text::is_white(#[trigger] line[i])) ==> assignment(
            line,
        ) is None,
        line.len() > 0 && line[0] == '#' ==> assignment(line) is None,
        text::has_no(text::trimmed(line), '=') ==> assignment(line) is None,
{
    text::law_blank_texts_trim_to_nothing(line);
    if line.len() > 0 && line[0] == '#' {
        text::law_white_space('#');
        lemma_trimmed_first(line);
    }
    let t = text::trimmed(line);
    if text::has_no(t, '=') {
        assert forall|i: int| 0 <= i < t.len() implies t[i] != '=' by {}
        text::law_split_once_cuts_at_the_first(t, '=', Seq::empty());
    }
}

/// The pairs of a file come in the order of its lines: those of its first lines,
/// then those of the others.
pub proof fn law_pairs_come_in_order(a: Seq<Seq<char>>, b: Seq<Seq<char>>)
    ensures
        pairs(a + b) == pairs(a) + pairs(b),
    decreases b.len(),
{
    if b.len() == 0 {
        assert(a + b =~= a);
        assert(pairs(a) + pairs(b) =~= pairs(a));
    } else {
        assert((a + b).drop_last() =~= a + b.drop_last());
        assert((a + b).last() == b.last());
        law_pairs_come_in_order(a, b.drop_last());
        if let Some((k, v)) = assignment(b.last()) {
            assert((pairs(a) + pairs(b.drop_last())).push((k, unquoted(v))) =~= pairs(a) + pairs(
                b.drop_last(),
            ).push((k, unquoted(v))));
        }
    }
}

/// The value of a key is the first of its values that is not empty; it is empty
/// where the key has none such.
pub proof fn law_first_filled_value_counts(ps: Seq<(Seq<char>, Seq<char>)>, key: Seq<char>, i: int)
    ensures
        0 <= i < ps.len() && ps[i].0 == key && ps[i].1.len() > 0 && (forall|j: int|
            0 <= j < i && (#[trigger] ps[j]).0 == key ==> ps[j].1.len() == 0) ==> first_value(
            ps,
            key,
        ) == ps[i].1,
        (forall|j: int|
            0 <= j < ps.len() && (#[trigger] ps[j]).0 == key ==> ps[j].1.len() == 0)
            ==> first_value(ps, key).len() == 0,
    decreases ps.len(),
{
    if ps.len() > 0 {
        let front = ps.drop_last();
        law_first_filled_value_counts(front, key, i);
        assert forall|j: int| 0 <= j < front.len() implies front[j] == ps[j] by {}
        if 0 <= i == ps.len() - 1 && ps[i].0 == key && ps[i].1.len() > 0 && (forall|j: int|
            0 <= j < i && (#[trigger] ps[j]).0 == key ==> ps[j].1.len() == 0) {
            assert forall|j: int| 0 <= j < front.len() && (#[trigger] front[j]).0 == key implies front[j].1.len()
                == 0 by {
                assert(ps[j] == front[j]);
            }
        }
        if forall|j: int| 0 <= j < ps.len() && (#[trigger] ps[j]).0 == key ==> ps[j].1.len() == 0 {
            assert forall|j: int| 0 <= j < front.len() && (#[trigger] front[j]).0 == key implies front[j].1.len()
                == 0 by {
                assert(ps[j] == front[j]);
            }
        }
        if 0 <= i < front.len() && ps[i].0 == key && ps[i].1.len() > 0 && (forall|j: int|
            0 <= j < i && (#[trigger] ps[j]).0 == key ==> ps[j].1.len() == 0) {
            assert forall|j: int| 0 <= j < i && (#[trigger] front[j]).0 == key implies front[j].1.len()
                == 0 by {
                assert(ps[j] == front[j]);
            }
        }
    }
}

/// A value is replaced in place: the lines that assign to the key become the new
/// assignment, and every other line stays where and as it is.
pub proof fn law_values_are_replaced_in_place(
    lines: Seq<Seq<char>>,
    key: Seq<char>,
    value: Seq<char>,
    i: int,
)
    requires
        0 <= i < lines.len(),
    ensures
        with_value(lines, key, value).len() == lines.len(),
        assignment(lines[i]) is Some && (assignment(lines[i])->0).0 == key ==> with_value(
            lines,
            key,
            value,
        )[i] == key + seq!['='] + value,
        assignment(lines[i]) is None || (assignment(lines[i])->0).0 != key ==> with_value(
            lines,
            key,
            value,
        )[i] == lines[i],
{
}

/// Removing a key leaves the other lines, in their order.
pub proof fn law_removing_a_key_keeps_the_others(lines: Seq<Seq<char>>, key: Seq<char>)
    ensures
        without_key(lines, key) == lines.filter(
            |l: Seq<char>| !(assignment(l) is Some && (assignment(l)->0).0 == key),
        ),
    decreases lines.len(),
{
    reveal(Seq::filter);
    if lines.len() > 0 {
        law_removing_a_key_keeps_the_others(lines.drop_last(), key);
    }
}

/// A key that a file lacks is appended below a blank line and the header; a second
/// one needs no header any more. An empty value appends nothing.
pub proof fn law_missing_key_is_appended(
    lines: Seq<Seq<char>>,
    key: Seq<char>,
    value: Seq<char>,
    header: Seq<char>,
)
    requires
        forall|i: int| 0 <= i < lines.len() ==> !assigns(#[trigger] lines[i], key),
    ensures
        value.len() > 0 ==> updated_once(lines, false, (key, Some(value)), header) == (
            lines + seq![Seq::<char>::empty(), header, key + seq!['='] + value],
            true,
        ),
        value.len() > 0 ==> updated_once(lines, true, (key, Some(value)), header) == (
            lines + seq![key + seq!['='] + value],
            true,
        ),
        value.len() == 0 ==> updated_once(lines, false, (key, Some(value)), header) == (
            lines,
            false,
        ),
        updated_once(lines, false, (key, None), header) == (lines, false),
{
    assert(lines.push(Seq::<char>::empty()).push(header).push(key + seq!['='] + value) =~= lines
        + seq![Seq::<char>::empty(), header, key + seq!['='] + value]);
    assert(lines.push(key + seq!['='] + value) =~= lines + seq![key + seq!['='] + value]);
    assert(!mentions(lines, key));
    lemma_without_key_absent(lines, key);
}

/// A pair is read as its key and its value, an update as its key and what it is to
/// become, each in its place.
pub proof fn law_pairs_and_updates_in_their_places(
    ps: Seq<(String, String)>,
    us: Seq<Update>,
    i: int,
)
    ensures
        0 <= i < ps.len() ==> pair_views(ps)[i] == (ps[i].0@, ps[i].1@),
        0 <= i < us.len() ==> update_views(us)[i].0 == us[i].0@,
        0 <= i < us.len() && us[i].1 is Some ==> update_views(us)[i].1 == Some((us[i].1->0)@),
        0 <= i < us.len() && us[i].1 is None ==> update_views(us)[i].1 is None,
        pair_views(ps).len() == ps.len(),
        update_views(us).len() == us.len(),
{
}

} // verus!
