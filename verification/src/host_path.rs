//! Paths as text. Where the host separates paths with `/` they are read here;
//! elsewhere reading them is left to the host.

use vstd::prelude::*;
use vstd::string::*;

use crate::text;

verus! {

/// The machine, as far as paths depend on it. [`Host::current`] alone makes
/// such a value, so it always holds the separator of the machine it is on.
#[derive(Debug, Clone, Copy, PartialEq, Eq)]
pub struct Host {
    sep: char,
}

/// `std::path::MAIN_SEPARATOR`: the primary path separator of the machine.
/// Which one that is, nothing is said of.
#[verifier::external_body]
fn main_separator() -> (r: char) {
    std::path::MAIN_SEPARATOR
}

impl Host {
    /// What separates the components of a path.
    pub closed spec fn separator(self) -> char {
        self.sep
    }

    /// The machine this runs on.
    #[must_use]
    pub fn current() -> (r: Host) {
        Host { sep: main_separator() }
    }

    /// Whether paths are read as POSIX reads them.
    #[must_use]
    pub fn is_posix(self) -> (r: bool)
        ensures
            r == (self.separator() == '/'),
    {
        self.sep == '/'
    }
}

/// What `path_clean::clean` makes of a path on a host whose path separator is
/// `sep`.
pub uninterp spec fn cleaned_in(path: Seq<char>, sep: char) -> Seq<char>;

/// What `Path::with_file_name` makes of a path and a name on a host whose path
/// separator is `sep`.
pub uninterp spec fn with_file_name_in(path: Seq<char>, name: Seq<char>, sep: char) -> Seq<char>;

/// What `Path::join` makes of two paths on a host whose path separator is
/// `sep`.
pub uninterp spec fn joined_in(base: Seq<char>, rest: Seq<char>, sep: char) -> Seq<char>;

/// What `Path::file_name` finds in a path on a host whose path separator is
/// `sep`.
pub uninterp spec fn file_name_in(path: Seq<char>, sep: char) -> Option<Seq<char>>;

/// A path, lexically cleaned.
pub open spec fn host_cleaned(path: Seq<char>, sep: char) -> Seq<char> {
    if sep == '/' {
        posix_cleaned(path)
    } else {
        cleaned_in(path, sep)
    }
}

/// A path with another file name.
pub open spec fn host_renamed(path: Seq<char>, name: Seq<char>, sep: char) -> Seq<char> {
    if sep == '/' && posix_sibling(path, name) is Some {
        posix_sibling(path, name)->0
    } else {
        with_file_name_in(path, name, sep)
    }
}

/// `rest` seen from the directory `base`.
pub open spec fn host_joined(base: Seq<char>, rest: Seq<char>, sep: char) -> Seq<char> {
    if sep == '/' {
        joined(base, rest)
    } else {
        joined_in(base, rest, sep)
    }
}

/// The last component of a path, unless the path has none or ends in `..`.
pub open spec fn host_base_name(path: Seq<char>, sep: char) -> Option<Seq<char>> {
    if sep == '/' {
        base_name_of(path)
    } else {
        file_name_in(path, sep)
    }
}

/// The components of a POSIX path after cleaning: empty ones and `.` are gone,
/// and `..` takes the component before it along. One that has nothing to take
/// is kept, unless the path is rooted.
pub open spec fn cleaned_parts(parts: Seq<Seq<char>>, rooted: bool) -> Seq<Seq<char>>
    decreases parts.len(),
{
    if parts.len() == 0 {
        Seq::<Seq<char>>::empty()
    } else {
        let before = cleaned_parts(parts.drop_last(), rooted);
        let part = parts.last();
        if part.len() == 0 || part == seq!['.'] {
            before
        } else if part != seq!['.', '.'] {
            before.push(part)
        } else if before.len() > 0 && before.last() != seq!['.', '.'] {
            before.drop_last()
        } else if rooted {
            before
        } else {
            before.push(part)
        }
    }
}

/// Whether a POSIX path starts at the root.
pub open spec fn is_rooted(path: Seq<char>) -> bool {
    path.len() > 0 && path[0] == '/'
}

/// The text of the components of a cleaned path.
pub open spec fn path_of(parts: Seq<Seq<char>>, rooted: bool) -> Seq<char> {
    let t = text::joined(parts, seq!['/']);
    if rooted {
        seq!['/'] + t
    } else if t.len() == 0 {
        seq!['.']
    } else {
        t
    }
}

/// A POSIX path, lexically cleaned.
pub open spec fn posix_cleaned(path: Seq<char>) -> Seq<char> {
    path_of(cleaned_parts(text::split(path, '/'), is_rooted(path)), is_rooted(path))
}

/// Whether the first `n` characters of a POSIX path are nothing, or a directory
/// and a slash that is written in one way only: no slash and no `/.` stands
/// before it.
pub open spec fn is_plain_parent(path: Seq<char>, n: int) -> bool {
    n == 0 || {
        &&& path[n - 1] == '/'
        &&& !(n >= 2 && path[n - 2] == '/')
        &&& !(n >= 3 && path[n - 2] == '.' && path[n - 3] == '/')
    }
}

/// A POSIX path with another file name: behind the same directory, where the
/// path is a file name or a directory, one slash and a file name; below the
/// path, where it has no file name. A name that is empty or holds a slash is
/// left out, and so is a path that ends behind its file name.
pub open spec fn posix_sibling(path: Seq<char>, name: Seq<char>) -> Option<Seq<char>> {
    if name.len() == 0 || !text::has_no(name, '/') {
        None
    } else {
        match base_name_of(path) {
            Some(file) => {
                let n = path.len() - file.len();
                if n >= 0 && path.skip(n) == file && is_plain_parent(path, n) {
                    Some(path.take(n) + name)
                } else {
                    None
                }
            },
            None => Some(joined(path, name)),
        }
    }
}

/// `path_clean::clean`: the lexically cleaned path, named [`cleaned_in`]. It
/// depends on the path syntax of the machine, of which a [`Host`] always holds
/// the separator. Where that is `/`, paths are read as POSIX reads them, and the
/// result is what the rules of the crate make of the components: see
/// [`posix_cleaned`].
#[verifier::external_body]
pub(crate) fn clean(host: Host, path: &str) -> (r: String)
    ensures
        r@ == cleaned_in(path@, host.separator()),
        host.separator() == '/' ==> r@ == posix_cleaned(path@),
{
    path_clean::clean(path).to_string_lossy().into_owned()
}

/// `Path::with_file_name`: the path with its last component replaced, named
/// [`with_file_name_in`]. It depends on the path syntax of the machine, of which
/// a [`Host`] always holds the separator. Where that is `/`, a file name is
/// replaced in place and a path without one gets it: see [`posix_sibling`],
/// which leaves out where a slash or a `.` too many would be dropped.
#[verifier::external_body]
pub(crate) fn with_file_name(host: Host, path: &str, name: &str) -> (r: String)
    ensures
        r@ == with_file_name_in(path@, name@, host.separator()),
        host.separator() == '/' && posix_sibling(path@, name@) is Some ==> posix_sibling(
            path@,
            name@,
        ) == Some(r@),
{
    std::path::Path::new(path).with_file_name(name).to_string_lossy().into_owned()
}

/// `Path::join`: the second path seen from the first, named [`joined_in`]. It
/// depends on the path syntax of the machine, of which a [`Host`] always holds
/// the separator.
#[verifier::external_body]
fn path_join(host: Host, base: &str, rest: &str) -> (r: String)
    ensures
        r@ == joined_in(base@, rest@, host.separator()),
{
    std::path::Path::new(base).join(rest).to_string_lossy().into_owned()
}

/// `Path::file_name`: the final component of a path, named [`file_name_in`]. It
/// depends on the path syntax of the machine, of which a [`Host`] always holds
/// the separator.
#[verifier::external_body]
fn path_file_name(host: Host, path: &str) -> (r: Option<String>)
    ensures
        match r {
            Some(n) => file_name_in(path@, host.separator()) == Some(n@),
            None => file_name_in(path@, host.separator()) is None,
        },
{
    std::path::Path::new(path).file_name().map(|n| n.to_string_lossy().into_owned())
}

/// `rest` seen from the directory `base` of a POSIX path: an absolute `rest`
/// stands for itself.
pub open spec fn joined(base: Seq<char>, rest: Seq<char>) -> Seq<char> {
    if rest.len() > 0 && rest[0] == '/' {
        rest
    } else if base.len() == 0 || base.last() == '/' {
        base + rest
    } else {
        base + seq!['/'] + rest
    }
}

/// Joins two paths.
pub fn join(host: Host, base: &str, rest: &str) -> (r: String)
    ensures
        r@ == host_joined(base@, rest@, host.separator()),
{
    if host.is_posix() {
        posix_join(base, rest)
    } else {
        path_join(host, base, rest)
    }
}

fn posix_join(base: &str, rest: &str) -> (r: String)
    ensures
        r@ == joined(base@, rest@),
{
    proof {
        reveal_strlit("/");
    }
    assert("/"@ =~= seq!['/']);
    if text::has_prefix(rest, "/") {
        assert(rest@.take(1)[0] == '/');
        return rest.to_owned();
    }
    assert(rest@.len() > 0 ==> rest@[0] != '/') by {
        if rest@.len() > 0 && rest@[0] == '/' {
            assert(rest@.take(1) =~= seq!['/']);
        }
    }
    let mut r: String = base.to_owned();
    let ended: bool = text::has_suffix(base, "/");
    assert(ended == (base@.len() > 0 && base@.last() == '/')) by {
        if base@.len() > 0 {
            assert(base@.skip(base@.len() - 1) =~= seq![base@.last()]);
            assert(base@.skip(base@.len() - 1)[0] == base@.last());
        }
    }
    if !base.is_empty() && !ended {
        r.append("/");
    }
    r.append(rest);
    r
}

/// The components of a POSIX path that name something: neither empty nor `.`.
pub open spec fn components(path: Seq<char>) -> Seq<Seq<char>> {
    named(text::split(path, '/'))
}

pub open spec fn named(parts: Seq<Seq<char>>) -> Seq<Seq<char>>
    decreases parts.len(),
{
    if parts.len() == 0 {
        Seq::<Seq<char>>::empty()
    } else if parts.last().len() == 0 || parts.last() == seq!['.'] {
        named(parts.drop_last())
    } else {
        named(parts.drop_last()).push(parts.last())
    }
}

/// The last component of a POSIX path, unless the path has none or ends in
/// `..`.
pub open spec fn base_name_of(path: Seq<char>) -> Option<Seq<char>> {
    let parts = components(path);
    if parts.len() == 0 || parts.last() == seq!['.', '.'] {
        None
    } else {
        Some(parts.last())
    }
}

proof fn lemma_named(parts: Seq<Seq<char>>)
    ensures
        forall|i: int|
            0 <= i < named(parts).len() ==> (#[trigger] named(parts)[i]).len() > 0
                && parts.contains(named(parts)[i]),
    decreases parts.len(),
{
    if parts.len() > 0 {
        let init = parts.drop_last();
        let before = named(init);
        let r = named(parts);
        lemma_named(init);
        assert forall|i: int| 0 <= i < r.len() implies (#[trigger] r[i]).len() > 0
            && parts.contains(r[i]) by {
            if i < before.len() {
                assert(r[i] == before[i]);
                let j = choose|j: int| 0 <= j < init.len() && init[j] == before[i];
                assert(parts[j] == r[i]);
            } else {
                assert(parts[parts.len() - 1] == r[i]);
            }
        }
    }
}

/// The last component of a path is not empty and holds no slash.
pub(crate) proof fn lemma_base_name(path: Seq<char>)
    ensures
        base_name_of(path) matches Some(n) ==> n.len() > 0 && text::has_no(n, '/'),
{
    if let Some(n) = base_name_of(path) {
        let parts = text::split(path, '/');
        lemma_named(parts);
        text::lemma_split_pieces(path, '/');
        let last = components(path).len() - 1;
        assert(components(path)[last] == n);
        let j = choose|j: int| 0 <= j < parts.len() && parts[j] == n;
        assert(text::has_no(parts[j], '/'));
    }
}

/// Whether `parts` are the components of a cleaned path: each names something,
/// and `..` stands only at the start of a path that is not rooted.
spec fn are_clean(parts: Seq<Seq<char>>, rooted: bool) -> bool {
    &&& forall|i: int|
        0 <= i < parts.len() ==> (#[trigger] parts[i]).len() > 0 && parts[i] != seq!['.']
            && text::has_no(parts[i], '/')
    &&& forall|i: int, j: int|
        0 <= i <= j < parts.len() && (#[trigger] parts[j]) == seq!['.', '.'] ==> !rooted && (
        #[trigger] parts[i]) == seq!['.', '.']
}

proof fn lemma_cleaned_parts(parts: Seq<Seq<char>>, rooted: bool)
    requires
        forall|i: int| 0 <= i < parts.len() ==> text::has_no(#[trigger] parts[i], '/'),
    ensures
        are_clean(cleaned_parts(parts, rooted), rooted),
    decreases parts.len(),
{
    if parts.len() > 0 {
        let init = parts.drop_last();
        let before = cleaned_parts(init, rooted);
        let part = parts.last();
        assert(text::has_no(parts[parts.len() - 1], '/'));
        lemma_cleaned_parts(init, rooted);
        let r = cleaned_parts(parts, rooted);
        if part == seq!['.', '.'] && !rooted && r == before.push(part) {
            assert forall|i: int, j: int|
                0 <= i <= j < r.len() && (#[trigger] r[j]) == seq!['.', '.'] implies (
            #[trigger] r[i]) == seq!['.', '.'] by {
                if i < before.len() {
                    assert(before[before.len() - 1] == seq!['.', '.']);
                    assert(before[i] == seq!['.', '.']);
                }
            }
        }
    }
}

proof fn lemma_clean_parts_stay(parts: Seq<Seq<char>>, rooted: bool)
    requires
        are_clean(parts, rooted),
    ensures
        cleaned_parts(parts, rooted) == parts,
    decreases parts.len(),
{
    if parts.len() > 0 {
        let init = parts.drop_last();
        let n = parts.len() - 1;
        assert(parts[n] == parts.last());
        assert(are_clean(init, rooted)) by {
            assert forall|i: int, j: int|
                0 <= i <= j < init.len() && (#[trigger] init[j]) == seq!['.', '.'] implies !rooted
                && (#[trigger] init[i]) == seq!['.', '.'] by {
                assert(parts[j] == init[j] && parts[i] == init[i]);
            }
        }
        lemma_clean_parts_stay(init, rooted);
        if parts.last() == seq!['.', '.'] && init.len() > 0 {
            assert(parts[n - 1] == init.last());
        }
        assert(init.push(parts.last()) =~= parts);
    } else {
        assert(parts =~= Seq::<Seq<char>>::empty());
    }
}

proof fn lemma_leading_slash(parts: Seq<Seq<char>>, rooted: bool)
    ensures
        cleaned_parts(seq![Seq::<char>::empty()] + parts, rooted) == cleaned_parts(parts, rooted),
    decreases parts.len(),
{
    let e = Seq::<char>::empty();
    let all = seq![e] + parts;
    if parts.len() == 0 {
        assert(all.last() == e);
        assert(all.drop_last() =~= parts);
    } else {
        assert(all.drop_last() =~= seq![e] + parts.drop_last());
        assert(all.last() == parts.last());
        lemma_leading_slash(parts.drop_last(), rooted);
    }
}

/// Cleaning a path that is clean leaves it as it is, and a cleaned path starts
/// at the root just where the path does.
pub proof fn law_cleaning_twice_is_cleaning_once(path: Seq<char>)
    ensures
        posix_cleaned(posix_cleaned(path)) == posix_cleaned(path),
        is_rooted(posix_cleaned(path)) == is_rooted(path),
{
    let rooted = is_rooted(path);
    let parts = cleaned_parts(text::split(path, '/'), rooted);
    let t = text::joined(parts, seq!['/']);
    let e = Seq::<char>::empty();
    let cleaned = posix_cleaned(path);
    text::lemma_split_pieces(path, '/');
    lemma_cleaned_parts(text::split(path, '/'), rooted);
    lemma_clean_parts_stay(parts, rooted);
    if parts.len() > 0 {
        text::lemma_split_joined(parts, '/');
        if parts.len() > 1 {
            text::lemma_joined_front(parts, seq!['/']);
        }
        assert(t.len() > 0 && t[0] == parts[0][0]);
    }
    if rooted {
        assert(cleaned =~= e + seq!['/'] + t);
        text::lemma_split_cons(e, '/', t);
        lemma_leading_slash(text::split(t, '/'), rooted);
        if parts.len() == 0 {
            text::lemma_find_none(t, '/');
            assert(text::split(t, '/') =~= seq![e] + parts);
            lemma_leading_slash(parts, rooted);
        }
    } else if parts.len() == 0 {
        text::lemma_find_none(cleaned, '/');
        let split = text::split(cleaned, '/');
        assert(split.last() == seq!['.']);
        assert(split.drop_last() =~= parts);
    }
}

/// The last component of a path.
pub fn base_name(host: Host, path: &str) -> (r: Option<String>)
    ensures
        match r {
            Some(n) => host_base_name(path@, host.separator()) == Some(n@),
            None => host_base_name(path@, host.separator()) is None,
        },
{
    if host.is_posix() {
        posix_base_name(path)
    } else {
        path_file_name(host, path)
    }
}

fn posix_base_name(path: &str) -> (r: Option<String>)
    ensures
        match r {
            Some(n) => base_name_of(path@) == Some(n@),
            None => base_name_of(path@) is None,
        },
{
    proof {
        reveal_strlit(".");
        reveal_strlit("..");
        assert("."@ =~= seq!['.']);
        assert(".."@ =~= seq!['.', '.']);
    }
    let parts: Vec<String> = text::split_char(path, '/');
    let ghost vs = text::views(parts@);
    let mut i: usize = parts.len();
    assert(vs.take(i as int) =~= vs);
    while i > 0
        invariant
            i <= parts@.len(),
            vs == text::views(parts@),
            components(path@) == named(vs.take(i as int)),
            "."@ == seq!['.'],
            ".."@ == seq!['.', '.'],
        decreases i,
    {
        let last: &String = &parts[i - 1];
        assert(vs.take(i as int).last() == last@);
        assert(vs.take(i as int).drop_last() =~= vs.take(i - 1));
        if !last.as_str().is_empty() && !text::same(last.as_str(), ".") {
            if text::same(last.as_str(), "..") {
                return None;
            }
            return Some(last.clone());
        }
        i = i - 1;
    }
    None
}

proof fn lemma_split_last(a: Seq<char>, b: Seq<char>)
    requires
        text::has_no(b, '/'),
    ensures
        text::split(a + seq!['/'] + b, '/') == text::split(a, '/').push(b),
    decreases a.len(),
{
    let whole = a + seq!['/'] + b;
    text::lemma_find(a, '/');
    match text::find(a, '/') {
        None => {
            text::lemma_split_cons(a, '/', b);
            text::lemma_find_none(b, '/');
            assert(text::split(a, '/') =~= seq![a]);
            assert(text::split(whole, '/') =~= text::split(a, '/').push(b));
        },
        Some(i) => {
            let head = a.take(i);
            let rest = a.skip(i + 1);
            lemma_split_last(rest, b);
            assert(whole =~= head + seq!['/'] + (rest + seq!['/'] + b));
            text::lemma_split_cons(head, '/', rest + seq!['/'] + b);
            assert(a =~= head + seq!['/'] + rest);
            text::lemma_split_cons(head, '/', rest);
            assert(text::split(whole, '/') =~= text::split(a, '/').push(b));
        },
    }
}

/// The base name of a POSIX path is what stands behind its last slash; a slash
/// or a `.` at the end does not matter, and `..` is nobody's name.
pub proof fn law_base_name_stands_behind_the_last_slash(dir: Seq<char>, name: Seq<char>)
    requires
        name.len() > 0,
        name != seq!['.'],
        forall|i: int| 0 <= i < name.len() ==> name[i] != '/',
    ensures
        name != seq!['.', '.'] ==> base_name_of(dir + seq!['/'] + name) == Some(name),
        name == seq!['.', '.'] ==> base_name_of(dir + seq!['/'] + name) is None,
        name != seq!['.', '.'] ==> base_name_of(name) == Some(name),
        base_name_of(dir + seq!['/'] + name + seq!['/']) == base_name_of(
            dir + seq!['/'] + name,
        ),
        base_name_of(dir + seq!['/'] + name + seq!['/', '.']) == base_name_of(
            dir + seq!['/'] + name,
        ),
{
    let path = dir + seq!['/'] + name;
    let none = Seq::<char>::empty();
    lemma_split_last(dir, name);
    lemma_split_last(path, none);
    lemma_split_last(path, seq!['.']);
    assert(path + seq!['/'] + none =~= path + seq!['/']);
    assert(path + seq!['/'] + seq!['.'] =~= path + seq!['/', '.']);
    let parts = text::split(path, '/');
    assert(parts.last() == name);
    assert(parts.push(none).drop_last() =~= parts);
    assert(parts.push(seq!['.']).drop_last() =~= parts);
    text::lemma_find_none(name, '/');
    assert(text::split(name, '/') =~= seq![name]);
    assert(seq![name].drop_last() =~= Seq::<Seq<char>>::empty());
    assert(named(seq![name].drop_last()) =~= Seq::<Seq<char>>::empty());
    assert(seq![name].last() == name);
    assert(named(seq![name]) =~= seq![name]);
}

/// A POSIX path that is joined to a directory stands below it, with one slash
/// between them, unless it is absolute: then it stands for itself.
pub proof fn law_joined_path_stands_below(base: Seq<char>, rest: Seq<char>)
    ensures
        rest.len() > 0 && rest[0] == '/' ==> joined(base, rest) == rest,
        base.len() > 0 && base.last() != '/' && !(rest.len() > 0 && rest[0] == '/') ==> joined(
            base,
            rest,
        ) == base + seq!['/'] + rest,
        base.len() > 0 && base.last() == '/' && !(rest.len() > 0 && rest[0] == '/') ==> joined(
            base,
            rest,
        ) == base + rest,
        base.len() == 0 ==> joined(base, rest) == rest,
{
    assert(base.len() == 0 ==> base + rest =~= rest);
}

/// Cleaning a POSIX path drops what leads nowhere: a slash or a `.` at its end,
/// and a component that `..` follows.
pub proof fn law_cleaning_drops_what_leads_nowhere(path: Seq<char>, name: Seq<char>)
    requires
        path.len() > 0,
        name.len() > 0,
        name != seq!['.'],
        name != seq!['.', '.'],
        forall|i: int| 0 <= i < name.len() ==> name[i] != '/',
    ensures
        posix_cleaned(path + seq!['/']) == posix_cleaned(path),
        posix_cleaned(path + seq!['/', '.']) == posix_cleaned(path),
        posix_cleaned(path + seq!['/'] + name + seq!['/', '.', '.']) == posix_cleaned(path),
{
    let none = Seq::<char>::empty();
    let dots = seq!['.', '.'];
    let parts = text::split(path, '/');
    let rooted = is_rooted(path);
    lemma_split_last(path, none);
    lemma_split_last(path, seq!['.']);
    lemma_split_last(path, name);
    let deep = path + seq!['/'] + name;
    lemma_split_last(deep, dots);
    assert(path + seq!['/'] + none =~= path + seq!['/']);
    assert(path + seq!['/'] + seq!['.'] =~= path + seq!['/', '.']);
    assert(deep + seq!['/'] + dots =~= deep + seq!['/', '.', '.']);
    assert(parts.push(none).drop_last() =~= parts);
    assert(parts.push(seq!['.']).drop_last() =~= parts);
    assert(parts.push(name).drop_last() =~= parts);
    assert(parts.push(name).push(dots).drop_last() =~= parts.push(name));
    let before = cleaned_parts(parts, rooted);
    assert(cleaned_parts(parts.push(name), rooted) == before.push(name));
    assert(before.push(name).drop_last() =~= before);
}

/// A cleaned POSIX path that starts at the root leads down only: no component of
/// it is `.` or `..`.
pub proof fn law_cleaned_path_leads_down(path: Seq<char>, i: int)
    requires
        path.len() > 0,
        path[0] == '/',
        0 <= i < text::split(posix_cleaned(path), '/').len(),
    ensures
        text::split(posix_cleaned(path), '/')[i] != seq!['.'],
        text::split(posix_cleaned(path), '/')[i] != seq!['.', '.'],
{
    let parts = cleaned_parts(text::split(path, '/'), true);
    let t = text::joined(parts, seq!['/']);
    let none = Seq::<char>::empty();
    text::lemma_split_pieces(path, '/');
    lemma_cleaned_parts(text::split(path, '/'), true);
    assert(posix_cleaned(path) =~= none + seq!['/'] + t);
    text::lemma_split_cons(none, '/', t);
    if parts.len() > 0 {
        text::lemma_split_joined(parts, '/');
        if i > 0 {
            assert(text::split(posix_cleaned(path), '/')[i] == parts[i - 1]);
        }
    } else {
        text::lemma_find_none(t, '/');
        assert(text::split(t, '/') =~= seq![t]);
    }
}

/// A cleaned component is one of the path's own: cleaning a path of plain
/// components changes nothing.
pub proof fn law_plain_paths_are_clean(parts: Seq<Seq<char>>)
    requires
        parts.len() > 0,
        forall|i: int|
            0 <= i < parts.len() ==> (#[trigger] parts[i]).len() > 0 && parts[i] != seq!['.']
                && parts[i] != seq!['.', '.'] && text::has_no(parts[i], '/'),
    ensures
        posix_cleaned(seq!['/'] + text::joined(parts, seq!['/'])) == seq!['/'] + text::joined(
            parts,
            seq!['/'],
        ),
{
    let t = text::joined(parts, seq!['/']);
    let none = Seq::<char>::empty();
    let path = seq!['/'] + t;
    assert(path =~= none + seq!['/'] + t);
    text::lemma_split_joined(parts, '/');
    text::lemma_split_cons(none, '/', t);
    lemma_leading_slash(parts, true);
    lemma_clean_parts_stay(parts, true);
}

/// Where a slash separates the parts of a path, one path stands below another behind
/// a slash, is called by what stands behind its last one, and is the same path with a
/// slash more at its end.
pub proof fn law_slashes_separate_the_parts(base: Seq<char>, name: Seq<char>)
    requires
        base.len() > 0,
        base.last() != '/',
        name.len() > 0,
        name != seq!['.'],
        name != seq!['.', '.'],
        forall|i: int| 0 <= i < name.len() ==> name[i] != '/',
    ensures
        host_joined(base, name, '/') == base + seq!['/'] + name,
        host_base_name(host_joined(base, name, '/'), '/') == Some(name),
        host_cleaned(base + seq!['/'], '/') == host_cleaned(base, '/'),
        host_cleaned(host_joined(base, name, '/') + seq!['/', '.', '.'], '/') == host_cleaned(
            base,
            '/',
        ),
{
    law_joined_path_stands_below(base, name);
    law_base_name_stands_behind_the_last_slash(base, name);
    law_cleaning_drops_what_leads_nowhere(base, name);
}

/// A file with another name stays in its directory.
pub proof fn law_renaming_stays_in_the_directory(
    dir: Seq<char>,
    name: Seq<char>,
    new: Seq<char>,
)
    requires
        dir.len() > 0 ==> dir.last() != '/',
        !(dir.len() >= 2 && dir.last() == '.' && dir[dir.len() - 2] == '/'),
        name.len() > 0,
        name != seq!['.'],
        name != seq!['.', '.'],
        forall|i: int| 0 <= i < name.len() ==> name[i] != '/',
        new.len() > 0,
        forall|i: int| 0 <= i < new.len() ==> new[i] != '/',
    ensures
        host_renamed(dir + seq!['/'] + name, new, '/') == dir + seq!['/'] + new,
        host_renamed(name, new, '/') == new,
{
    let path = dir + seq!['/'] + name;
    law_base_name_stands_behind_the_last_slash(dir, name);
    assert(text::has_no(new, '/'));
    let n = path.len() - name.len();
    assert(path.skip(n) =~= name);
    assert(path[n - 1] == '/');
    if n >= 2 {
        assert(path[n - 2] == dir.last());
    }
    if n >= 3 {
        assert(path[n - 3] == dir[dir.len() - 2]);
    }
    assert(path.take(n) + new =~= dir + seq!['/'] + new);
    assert(name.skip(0) =~= name);
    assert(name.take(0) + new =~= new);
}

} // verus!
