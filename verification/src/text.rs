//! Text as sequences of characters: the small string vocabulary that the rest
//! of the library states its contracts in, with an executable function for
//! each notion.

use vstd::prelude::*;
use vstd::string::*;

verus! {

/// Appends one character to a string (`String::push`).
pub assume_specification[ String::push ](s: &mut String, c: char)
    ensures
        final(s)@ == old(s)@.push(c),
;

/// Takes the last character off a string and returns it; an empty string stays
/// as it is and gives nothing (`String::pop`).
pub assume_specification[ String::pop ](s: &mut String) -> (r: Option<char>)
    ensures
        if old(s)@.len() == 0 {
            r is None && final(s)@ == old(s)@
        } else {
            r == Some(old(s)@.last()) && final(s)@ == old(s)@.drop_last()
        },
;

/// A text without its last character.
pub open spec fn shortened(s: Seq<char>) -> Seq<char> {
    if s.len() == 0 {
        s
    } else {
        s.drop_last()
    }
}

/// The character sequences that a list of strings holds.
pub open spec fn views(v: Seq<String>) -> Seq<Seq<char>> {
    v.map_values(|s: String| s@)
}

/// The Unicode `White_Space` characters.
pub open spec fn is_white(c: char) -> bool {
    ||| 0x9 <= c as u32 <= 0xD
    ||| c as u32 == 0x20
    ||| c as u32 == 0x85
    ||| c as u32 == 0xA0
    ||| c as u32 == 0x1680
    ||| 0x2000 <= c as u32 <= 0x200A
    ||| c as u32 == 0x2028
    ||| c as u32 == 0x2029
    ||| c as u32 == 0x202F
    ||| c as u32 == 0x205F
    ||| c as u32 == 0x3000
}

/// The Unicode control characters (general category `Cc`).
pub open spec fn is_control(c: char) -> bool {
    c as u32 <= 0x1F || 0x7F <= c as u32 <= 0x9F
}

pub open spec fn is_digit(c: char) -> bool {
    '0' <= c && c <= '9'
}

pub open spec fn is_ascii_alphanumeric(c: char) -> bool {
    is_digit(c) || ('a' <= c && c <= 'z') || ('A' <= c && c <= 'Z')
}

/// `s` without the longest prefix whose characters satisfy `p`.
pub open spec fn drop_while(s: Seq<char>, p: spec_fn(char) -> bool) -> Seq<char>
    decreases s.len(),
{
    if s.len() > 0 && p(s[0]) {
        drop_while(s.skip(1), p)
    } else {
        s
    }
}

/// `s` without the longest suffix whose characters satisfy `p`.
pub open spec fn drop_while_end(s: Seq<char>, p: spec_fn(char) -> bool) -> Seq<char>
    decreases s.len(),
{
    if s.len() > 0 && p(s.last()) {
        drop_while_end(s.drop_last(), p)
    } else {
        s
    }
}

/// `s` without leading and trailing white space.
pub open spec fn trimmed(s: Seq<char>) -> Seq<char> {
    drop_while_end(drop_while(s, |c: char| is_white(c)), |c: char| is_white(c))
}

/// `s` without leading white space.
pub open spec fn trimmed_start(s: Seq<char>) -> Seq<char> {
    drop_while(s, |c: char| is_white(c))
}

/// The predicate that holds of `c` alone.
pub open spec fn equal_to(c: char) -> spec_fn(char) -> bool {
    |x: char| x == c
}

/// `s` without leading occurrences of `c`.
pub open spec fn without_leading(s: Seq<char>, c: char) -> Seq<char> {
    drop_while(s, equal_to(c))
}

/// `s` without trailing occurrences of `c`.
pub open spec fn without_trailing(s: Seq<char>, c: char) -> Seq<char> {
    drop_while_end(s, equal_to(c))
}

/// The index of the first `c` in `s`.
pub open spec fn find(s: Seq<char>, c: char) -> Option<int>
    decreases s.len(),
{
    if s.len() == 0 {
        None
    } else if s[0] == c {
        Some(0)
    } else {
        match find(s.skip(1), c) {
            Some(i) => Some(i + 1),
            None => None,
        }
    }
}

/// What stands before and after the first `c` in `s`.
pub open spec fn split_once(s: Seq<char>, c: char) -> Option<(Seq<char>, Seq<char>)> {
    match find(s, c) {
        Some(i) => Some((s.take(i), s.skip(i + 1))),
        None => None,
    }
}

/// What stands before the first `c` in `s`; all of `s` where there is none.
pub open spec fn before_first(s: Seq<char>, c: char) -> Seq<char> {
    match find(s, c) {
        Some(i) => s.take(i),
        None => s,
    }
}

/// The index at which `p` first occurs in `s`.
pub open spec fn find_str(s: Seq<char>, p: Seq<char>) -> Option<int>
    decreases s.len(),
{
    if starts_with(s, p) {
        Some(0)
    } else if s.len() == 0 {
        None
    } else {
        match find_str(s.skip(1), p) {
            Some(i) => Some(i + 1),
            None => None,
        }
    }
}

/// The pieces of `s` between the occurrences of `c`.
pub open spec fn split(s: Seq<char>, c: char) -> Seq<Seq<char>>
    decreases s.len(),
    via split_terminates
{
    match find(s, c) {
        None => seq![s],
        Some(i) => seq![s.take(i)] + split(s.skip(i + 1), c),
    }
}

#[via_fn]
proof fn split_terminates(s: Seq<char>, c: char) {
    lemma_find(s, c);
}

/// `s` without one final carriage return.
pub open spec fn without_cr(s: Seq<char>) -> Seq<char> {
    if s.len() > 0 && s.last() == '\r' {
        s.drop_last()
    } else {
        s
    }
}

/// The lines of `s`: each ends at a line feed, which may follow a carriage
/// return, and an empty last line does not count.
pub open spec fn lines(s: Seq<char>) -> Seq<Seq<char>>
    decreases s.len(),
    via lines_terminates
{
    match find(s, '\n') {
        None => if s.len() == 0 {
            Seq::<Seq<char>>::empty()
        } else {
            seq![s]
        },
        Some(i) => seq![without_cr(s.take(i))] + lines(s.skip(i + 1)),
    }
}

#[via_fn]
proof fn lines_terminates(s: Seq<char>) {
    lemma_find(s, '\n');
}

/// Whether `p` occurs in `s`.
pub open spec fn contains(s: Seq<char>, p: Seq<char>) -> bool {
    exists|i: int| #[trigger] occurs_at(s, p, i)
}

pub open spec fn occurs_at(s: Seq<char>, p: Seq<char>, i: int) -> bool {
    0 <= i && i + p.len() <= s.len() && s.subrange(i, i + p.len()) == p
}

pub open spec fn starts_with(s: Seq<char>, p: Seq<char>) -> bool {
    p.len() <= s.len() && s.take(p.len() as int) == p
}

pub open spec fn ends_with(s: Seq<char>, p: Seq<char>) -> bool {
    p.len() <= s.len() && s.skip(s.len() - p.len()) == p
}

/// `s` with every `a` replaced by `b`.
pub open spec fn replaced(s: Seq<char>, a: char, b: char) -> Seq<char> {
    s.map_values(
        |c: char|
            if c == a {
                b
            } else {
                c
            },
    )
}

/// `parts` with `sep` between neighbours.
pub open spec fn joined(parts: Seq<Seq<char>>, sep: Seq<char>) -> Seq<char>
    decreases parts.len(),
{
    if parts.len() == 0 {
        Seq::<char>::empty()
    } else if parts.len() == 1 {
        parts[0]
    } else {
        joined(parts.drop_last(), sep) + sep + parts.last()
    }
}

/// Lexicographic order by code point.
pub open spec fn less(a: Seq<char>, b: Seq<char>) -> bool
    decreases a.len(),
{
    if b.len() == 0 {
        false
    } else if a.len() == 0 {
        true
    } else if a[0] == b[0] {
        less(a.skip(1), b.skip(1))
    } else {
        a[0] < b[0]
    }
}

/// The decimal digits of `n`.
pub open spec fn decimal(n: nat) -> Seq<char>
    decreases n,
{
    if n < 10 {
        seq![digit_char(n)]
    } else {
        decimal(n / 10).push(digit_char(n % 10))
    }
}

pub open spec fn digit_char(d: nat) -> char {
    (48 + d) as char
}

/// The decimal form of a number, with a minus sign where it is negative.
pub open spec fn signed_decimal(n: int) -> Seq<char> {
    if n < 0 {
        seq!['-'] + decimal((-n) as nat)
    } else {
        decimal(n as nat)
    }
}

/// `s` with lower-case ASCII letters raised.
pub open spec fn ascii_upper(s: Seq<char>) -> Seq<char> {
    s.map_values(|c: char| upper_char(c))
}

pub open spec fn upper_char(c: char) -> char {
    if 'a' <= c && c <= 'z' {
        (c as u32 - 32) as char
    } else {
        c
    }
}

/// The last white-space separated word of `s`; nothing where there is none.
pub open spec fn last_word(s: Seq<char>) -> Option<Seq<char>> {
    let t = drop_while_end(s, |c: char| is_white(c));
    if t.len() == 0 {
        None
    } else {
        Some(trailing_word(t))
    }
}

/// The longest suffix of `s` without white space.
pub open spec fn trailing_word(s: Seq<char>) -> Seq<char>
    decreases s.len(),
{
    if s.len() == 0 || is_white(s.last()) {
        Seq::<char>::empty()
    } else {
        trailing_word(s.drop_last()).push(s.last())
    }
}

/// The number that a string of digits denotes.
pub open spec fn digits_value(s: Seq<char>) -> nat
    decreases s.len(),
{
    if s.len() == 0 {
        0
    } else {
        10 * digits_value(s.drop_last()) + (s.last() as u32 - 48) as nat
    }
}

pub open spec fn all_digits(s: Seq<char>) -> bool {
    forall|i: int| 0 <= i < s.len() ==> is_digit(#[trigger] s[i])
}

/// What follows an optional plus sign.
pub open spec fn unsigned_digits(s: Seq<char>) -> Seq<char> {
    if s.len() > 0 && s[0] == '+' {
        s.skip(1)
    } else {
        s
    }
}

/// The number written in `s`, if `s` is an unsigned decimal number of at most
/// `max`.
pub open spec fn parsed_unsigned(s: Seq<char>, max: nat) -> Option<nat> {
    let d = unsigned_digits(s);
    if d.len() > 0 && all_digits(d) && digits_value(d) <= max {
        Some(digits_value(d))
    } else {
        None
    }
}

/// `find` is the first occurrence.
pub proof fn lemma_find(s: Seq<char>, c: char)
    ensures
        match find(s, c) {
            Some(i) => 0 <= i < s.len() && s[i] == c && forall|j: int| 0 <= j < i ==> s[j] != c,
            None => forall|j: int| 0 <= j < s.len() ==> s[j] != c,
        },
    decreases s.len(),
{
    if s.len() > 0 && s[0] != c {
        lemma_find(s.skip(1), c);
        assert forall|j: int| 0 < j < s.len() implies s[j] == s.skip(1)[j - 1] by {}
    }
}

/// A first occurrence is what `find` gives.
pub proof fn lemma_find_is(s: Seq<char>, c: char, i: int)
    requires
        0 <= i < s.len(),
        s[i] == c,
        forall|j: int| 0 <= j < i ==> s[j] != c,
    ensures
        find(s, c) == Some(i),
{
    lemma_find(s, c);
}

/// Without an occurrence `find` gives nothing.
pub proof fn lemma_find_none(s: Seq<char>, c: char)
    requires
        forall|j: int| 0 <= j < s.len() ==> s[j] != c,
    ensures
        find(s, c) is None,
{
    lemma_find(s, c);
}

/// The characters of a string.
pub fn chars_of(s: &str) -> (r: Vec<char>)
    ensures
        r@ == s@,
{
    broadcast use axiom_spec_iter;

    let mut r: Vec<char> = Vec::new();
    for c in it: s.chars()
        invariant
            r@ == s@.take(it.index() as int),
            it.seq() == s@,
    {
        r.push(c);
    }
    r
}

/// The characters from `from` up to `to` as a string.
pub fn string_of(cs: &[char], from: usize, to: usize) -> (r: String)
    requires
        from <= to <= cs@.len(),
    ensures
        r@ == cs@.subrange(from as int, to as int),
{
    let mut r: String = String::new();
    let mut i: usize = from;
    while i < to
        invariant
            from <= i <= to <= cs@.len(),
            r@ == cs@.subrange(from as int, i as int),
        decreases to - i,
    {
        r.push(cs[i]);
        i = i + 1;
    }
    r
}

/// Whether two strings hold the same characters.
pub fn same(a: &str, b: &str) -> (r: bool)
    ensures
        r == (a@ == b@),
{
    let x: Vec<char> = chars_of(a);
    let y: Vec<char> = chars_of(b);
    if x.len() != y.len() {
        return false;
    }
    let mut i: usize = 0;
    while i < x.len()
        invariant
            i <= x@.len(),
            x@.len() == y@.len(),
            x@ == a@,
            y@ == b@,
            forall|j: int| 0 <= j < i ==> x@[j] == y@[j],
        decreases x@.len() - i,
    {
        if x[i] != y[i] {
            assert(a@[i as int] != b@[i as int]);
            return false;
        }
        i = i + 1;
    }
    assert(a@ =~= b@);
    true
}

/// Whether a character is white space.
pub fn white(c: char) -> (r: bool)
    ensures
        r == is_white(c),
{
    let n: u32 = c as u32;
    (0x9 <= n && n <= 0xD) || n == 0x20 || n == 0x85 || n == 0xA0 || n == 0x1680 || (0x2000 <= n
        && n <= 0x200A) || n == 0x2028 || n == 0x2029 || n == 0x202F || n == 0x205F || n == 0x3000
}

/// Whether a character is a control character.
pub fn control(c: char) -> (r: bool)
    ensures
        r == is_control(c),
{
    let n: u32 = c as u32;
    n <= 0x1F || (0x7F <= n && n <= 0x9F)
}

pub proof fn lemma_drop_while_at(s: Seq<char>, p: spec_fn(char) -> bool, k: int)
    requires
        0 <= k <= s.len(),
        forall|j: int| 0 <= j < k ==> p(s[j]),
        k < s.len() ==> !p(s[k]),
    ensures
        drop_while(s, p) == s.skip(k),
    decreases k,
{
    if k > 0 {
        let t = s.skip(1);
        assert forall|j: int| 0 <= j < k - 1 implies p(t[j]) by {
            assert(p(s[j + 1]));
        }
        lemma_drop_while_at(t, p, k - 1);
        assert(t.skip(k - 1) =~= s.skip(k));
        assert(p(s[0]));
    } else {
        assert(s.skip(0) =~= s);
    }
}

pub proof fn lemma_drop_while_end_at(s: Seq<char>, p: spec_fn(char) -> bool, k: int)
    requires
        0 <= k <= s.len(),
        forall|j: int| k <= j < s.len() ==> p(s[j]),
        k > 0 ==> !p(s[k - 1]),
    ensures
        drop_while_end(s, p) == s.take(k),
    decreases s.len() - k,
{
    if k < s.len() {
        let t = s.drop_last();
        assert forall|j: int| k <= j < t.len() implies p(t[j]) by {
            assert(p(s[j]));
        }
        lemma_drop_while_end_at(t, p, k);
        assert(t.take(k) =~= s.take(k));
        assert(p(s[s.len() - 1]));
    } else {
        assert(s.take(k) =~= s);
    }
}

/// Where the white space at the start of `cs` ends.
fn white_prefix(cs: &Vec<char>) -> (k: usize)
    ensures
        k <= cs@.len(),
        trimmed_start(cs@) == cs@.skip(k as int),
        forall|j: int| 0 <= j < k ==> is_white(cs@[j]),
{
    let mut k: usize = 0;
    while k < cs.len() && white(cs[k])
        invariant
            k <= cs@.len(),
            forall|j: int| 0 <= j < k ==> is_white(cs@[j]),
        decreases cs@.len() - k,
    {
        k = k + 1;
    }
    proof {
        lemma_drop_while_at(cs@, |c: char| is_white(c), k as int);
    }
    k
}

/// `s` without leading and trailing white space.
pub fn trim(s: &str) -> (r: String)
    ensures
        r@ == trimmed(s@),
{
    let cs: Vec<char> = chars_of(s);
    let a: usize = white_prefix(&cs);
    let mut b: usize = cs.len();
    while a < b && white(cs[b - 1])
        invariant
            a <= b <= cs@.len(),
            forall|j: int| b <= j < cs@.len() ==> is_white(cs@[j]),
        decreases b,
    {
        b = b - 1;
    }
    proof {
        let t = cs@.skip(a as int);
        lemma_drop_while_end_at(t, |c: char| is_white(c), b - a);
        assert(t.take(b - a) =~= cs@.subrange(a as int, b as int));
    }
    string_of(&cs, a, b)
}

/// `s` without trailing white space.
pub fn trim_end(s: &str) -> (r: String)
    ensures
        r@ == drop_while_end(s@, |c: char| is_white(c)),
{
    let cs: Vec<char> = chars_of(s);
    let mut b: usize = cs.len();
    while 0 < b && white(cs[b - 1])
        invariant
            b <= cs@.len(),
            forall|j: int| b <= j < cs@.len() ==> is_white(cs@[j]),
        decreases b,
    {
        b = b - 1;
    }
    proof {
        lemma_drop_while_end_at(cs@, |c: char| is_white(c), b as int);
        assert(cs@.subrange(0, b as int) =~= cs@.take(b as int));
    }
    string_of(&cs, 0, b)
}

/// `s` without leading occurrences of `c`.
pub fn trim_start_char(s: &str, c: char) -> (r: String)
    ensures
        r@ == without_leading(s@, c),
{
    let cs: Vec<char> = chars_of(s);
    let mut k: usize = 0;
    while k < cs.len() && cs[k] == c
        invariant
            k <= cs@.len(),
            forall|j: int| 0 <= j < k ==> cs@[j] == c,
        decreases cs@.len() - k,
    {
        k = k + 1;
    }
    proof {
        lemma_drop_while_at(cs@, equal_to(c), k as int);
        assert(cs@.subrange(k as int, cs@.len() as int) =~= cs@.skip(k as int));
    }
    string_of(&cs, k, cs.len())
}

/// `s` without trailing occurrences of `c`.
pub fn trim_end_char(s: &str, c: char) -> (r: String)
    ensures
        r@ == without_trailing(s@, c),
{
    let cs: Vec<char> = chars_of(s);
    let mut b: usize = cs.len();
    while 0 < b && cs[b - 1] == c
        invariant
            b <= cs@.len(),
            forall|j: int| b <= j < cs@.len() ==> cs@[j] == c,
        decreases b,
    {
        b = b - 1;
    }
    proof {
        lemma_drop_while_end_at(cs@, equal_to(c), b as int);
        assert(cs@.subrange(0, b as int) =~= cs@.take(b as int));
    }
    string_of(&cs, 0, b)
}

/// The index of the first `c` in `cs` at or after `from`.
fn find_from(cs: &Vec<char>, c: char, from: usize) -> (r: Option<usize>)
    requires
        from <= cs@.len(),
    ensures
        match r {
            Some(i) => from <= i < cs@.len() && find(cs@.skip(from as int), c) == Some(i - from),
            None => find(cs@.skip(from as int), c) is None,
        },
{
    let ghost t = cs@.skip(from as int);
    let mut i: usize = from;
    while i < cs.len()
        invariant
            from <= i <= cs@.len(),
            t == cs@.skip(from as int),
            forall|j: int| 0 <= j < i - from ==> t[j] != c,
        decreases cs@.len() - i,
    {
        if cs[i] == c {
            proof {
                lemma_find_is(t, c, i - from);
            }
            return Some(i);
        }
        i = i + 1;
    }
    proof {
        lemma_find_none(t, c);
    }
    None
}

/// What stands before and after the first `c` in `s`.
pub fn split_at_first(s: &str, c: char) -> (r: Option<(String, String)>)
    ensures
        match r {
            Some((a, b)) => split_once(s@, c) == Some((a@, b@)),
            None => split_once(s@, c) is None,
        },
{
    let cs: Vec<char> = chars_of(s);
    assert(cs@.skip(0) =~= cs@);
    let n: usize = cs.len();
    match find_from(&cs, c, 0) {
        Some(i) => {
            assert(cs@.subrange(0, i as int) =~= cs@.take(i as int));
            assert(cs@.subrange(i + 1, cs@.len() as int) =~= cs@.skip(i + 1));
            Some((string_of(&cs, 0, i), string_of(&cs, i + 1, n)))
        },
        None => None,
    }
}

proof fn lemma_views_push(v: Seq<String>, s: String)
    ensures
        views(v.push(s)) == views(v).push(s@),
{
    assert(views(v.push(s)) =~= views(v).push(s@));
}

/// The pieces of `s` between the occurrences of `c`.
pub fn split_char(s: &str, c: char) -> (r: Vec<String>)
    ensures
        views(r@) == split(s@, c),
{
    let cs: Vec<char> = chars_of(s);
    let mut r: Vec<String> = Vec::new();
    let n: usize = cs.len();
    let mut from: usize = 0;
    assert(cs@.skip(0) =~= cs@);
    assert(views(r@) + split(cs@, c) =~= split(cs@, c));
    loop
        invariant
            from <= n == cs@.len(),
            views(r@) + split(cs@.skip(from as int), c) == split(cs@, c),
            cs@ == s@,
        decreases cs@.len() - from,
    {
        let ghost t = cs@.skip(from as int);
        match find_from(&cs, c, from) {
            Some(i) => {
                let piece: String = string_of(&cs, from, i);
                proof {
                    lemma_views_push(r@, piece);
                    assert(piece@ =~= t.take(i - from));
                    assert(t.skip(i - from + 1) =~= cs@.skip(i + 1));
                    assert(views(r@.push(piece)) + split(cs@.skip(i + 1), c) =~= views(r@) + (seq![
                        t.take(i - from),
                    ] + split(t.skip(i - from + 1), c)));
                }
                r.push(piece);
                from = i + 1;
            },
            None => {
                let piece: String = string_of(&cs, from, cs.len());
                proof {
                    lemma_views_push(r@, piece);
                    assert(piece@ =~= t);
                    assert(views(r@.push(piece)) =~= views(r@) + seq![t]);
                }
                r.push(piece);
                return r;
            },
        }
    }
}

/// The lines of `s`.
pub fn lines_of(s: &str) -> (r: Vec<String>)
    ensures
        views(r@) == lines(s@),
{
    let cs: Vec<char> = chars_of(s);
    let mut r: Vec<String> = Vec::new();
    let n: usize = cs.len();
    let mut from: usize = 0;
    assert(cs@.skip(0) =~= cs@);
    assert(views(r@) + lines(cs@) =~= lines(cs@));
    loop
        invariant
            from <= n == cs@.len(),
            views(r@) + lines(cs@.skip(from as int)) == lines(cs@),
            cs@ == s@,
        decreases cs@.len() - from,
    {
        let ghost t = cs@.skip(from as int);
        match find_from(&cs, '\n', from) {
            Some(i) => {
                let mut to: usize = i;
                if from < i && cs[i - 1] == '\r' {
                    to = i - 1;
                }
                let piece: String = string_of(&cs, from, to);
                proof {
                    lemma_views_push(r@, piece);
                    assert(piece@ =~= without_cr(t.take(i - from)));
                    assert(t.skip(i - from + 1) =~= cs@.skip(i + 1));
                    assert(views(r@.push(piece)) + lines(cs@.skip(i + 1)) =~= views(r@) + (seq![
                        without_cr(t.take(i - from)),
                    ] + lines(t.skip(i - from + 1))));
                }
                r.push(piece);
                from = i + 1;
            },
            None => {
                if from < cs.len() {
                    let piece: String = string_of(&cs, from, cs.len());
                    proof {
                        lemma_views_push(r@, piece);
                        assert(piece@ =~= t);
                        assert(views(r@.push(piece)) =~= views(r@) + seq![t]);
                    }
                    r.push(piece);
                } else {
                    assert(views(r@) + Seq::<Seq<char>>::empty() =~= views(r@));
                }
                return r;
            },
        }
    }
}

/// Whether `p` stands in `cs` at position `i`.
fn matches_at(cs: &Vec<char>, p: &Vec<char>, i: usize) -> (r: bool)
    requires
        i + p@.len() <= cs@.len(),
    ensures
        r == occurs_at(cs@, p@, i as int),
{
    let n: usize = cs.len();
    let mut j: usize = 0;
    while j < p.len()
        invariant
            j <= p@.len(),
            i + p@.len() <= n == cs@.len(),
            forall|k: int| 0 <= k < j ==> cs@[i + k] == p@[k],
        decreases p@.len() - j,
    {
        if cs[i + j] != p[j] {
            assert(cs@.subrange(i as int, i + p@.len())[j as int] != p@[j as int]);
            return false;
        }
        j = j + 1;
    }
    assert(cs@.subrange(i as int, i + p@.len()) =~= p@);
    true
}

/// Whether `s` starts with `p`.
pub fn has_prefix(s: &str, p: &str) -> (r: bool)
    ensures
        r == starts_with(s@, p@),
{
    let cs: Vec<char> = chars_of(s);
    let ps: Vec<char> = chars_of(p);
    if ps.len() > cs.len() {
        return false;
    }
    assert(cs@.subrange(0, ps@.len() as int) =~= cs@.take(ps@.len() as int));
    matches_at(&cs, &ps, 0)
}

/// Whether `s` ends with `p`.
pub fn has_suffix(s: &str, p: &str) -> (r: bool)
    ensures
        r == ends_with(s@, p@),
{
    let cs: Vec<char> = chars_of(s);
    let ps: Vec<char> = chars_of(p);
    if ps.len() > cs.len() {
        return false;
    }
    let at: usize = cs.len() - ps.len();
    assert(cs@.subrange(at as int, cs@.len() as int) =~= cs@.skip(at as int));
    matches_at(&cs, &ps, at)
}

/// What follows the prefix `p` of `s`.
pub fn after_prefix(s: &str, p: &str) -> (r: Option<String>)
    ensures
        match r {
            Some(t) => starts_with(s@, p@) && t@ == s@.skip(p@.len() as int),
            None => !starts_with(s@, p@),
        },
{
    if has_prefix(s, p) {
        let cs: Vec<char> = chars_of(s);
        let ps: Vec<char> = chars_of(p);
        let n: usize = ps.len();
        assert(cs@.subrange(n as int, cs@.len() as int) =~= cs@.skip(n as int));
        Some(string_of(&cs, n, cs.len()))
    } else {
        None
    }
}

/// What stands before the first `c` in `s`; all of `s` where there is none.
pub fn until(s: &str, c: char) -> (r: String)
    ensures
        r@ == before_first(s@, c),
{
    match split_at_first(s, c) {
        Some((a, _)) => a,
        None => s.to_owned(),
    }
}

/// What follows the first occurrence of `p` in `s`.
pub fn after_str(s: &str, p: &str) -> (r: Option<String>)
    ensures
        match r {
            Some(t) => find_str(s@, p@) is Some && t@ == s@.skip(
                find_str(s@, p@)->0 + p@.len(),
            ),
            None => find_str(s@, p@) is None,
        },
{
    let cs: Vec<char> = chars_of(s);
    let ps: Vec<char> = chars_of(p);
    let n: usize = cs.len();
    let m: usize = ps.len();
    let mut i: usize = 0;
    assert(cs@.skip(0) =~= cs@);
    while i <= n
        invariant
            i <= n + 1,
            n == cs@.len(),
            m == ps@.len(),
            cs@ == s@,
            ps@ == p@,
            i <= n ==> find_str(s@, p@) == (match find_str(cs@.skip(i as int), p@) {
                Some(k) => Some(k + i),
                None => None,
            }),
            i == n + 1 ==> find_str(s@, p@) is None,
        decreases n + 1 - i,
    {
        let ghost t = cs@.skip(i as int);
        if m <= n - i {
            if matches_at(&cs, &ps, i) {
                assert(cs@.subrange(i as int, i + m) =~= t.take(m as int));
                assert(cs@.subrange(i + m, n as int) =~= cs@.skip(i + m));
                return Some(string_of(&cs, i + m, n));
            }
            assert(cs@.subrange(i as int, i + m) =~= t.take(m as int));
        }
        assert(!starts_with(t, p@));
        if i == n {
            return None;
        }
        assert(t.skip(1) =~= cs@.skip(i + 1));
        i = i + 1;
    }
    None
}

/// Whether `p` occurs in `s`.
pub fn has(s: &str, p: &str) -> (r: bool)
    ensures
        r == contains(s@, p@),
{
    let cs: Vec<char> = chars_of(s);
    let ps: Vec<char> = chars_of(p);
    if ps.len() > cs.len() {
        return false;
    }
    let last: usize = cs.len() - ps.len();
    let mut i: usize = 0;
    while i <= last
        invariant
            i <= last + 1,
            last + ps@.len() == cs@.len(),
            cs@ == s@,
            ps@ == p@,
            forall|k: int| 0 <= k < i ==> !occurs_at(s@, p@, k),
        decreases last + 1 - i,
    {
        if matches_at(&cs, &ps, i) {
            return true;
        }
        if i == last {
            assert(forall|k: int| occurs_at(s@, p@, k) ==> k <= last);
            return false;
        }
        i = i + 1;
    }
    false
}

/// `s` with every `a` replaced by `b`.
pub fn replace_char(s: &str, a: char, b: char) -> (r: String)
    ensures
        r@ == replaced(s@, a, b),
{
    let cs: Vec<char> = chars_of(s);
    let mut r: String = String::new();
    let mut i: usize = 0;
    while i < cs.len()
        invariant
            i <= cs@.len(),
            r@ == replaced(cs@.take(i as int), a, b),
        decreases cs@.len() - i,
    {
        let c: char = cs[i];
        assert(replaced(cs@.take(i + 1), a, b) =~= replaced(cs@.take(i as int), a, b).push(
            if c == a {
                b
            } else {
                c
            },
        ));
        if c == a {
            r.push(b);
        } else {
            r.push(c);
        }
        i = i + 1;
    }
    assert(cs@.take(i as int) =~= cs@);
    r
}

/// `parts` with `sep` between neighbours.
pub fn join(parts: &Vec<String>, sep: &str) -> (r: String)
    ensures
        r@ == joined(views(parts@), sep@),
{
    let ghost vs = views(parts@);
    let mut r: String = String::new();
    let mut i: usize = 0;
    while i < parts.len()
        invariant
            i <= parts@.len(),
            vs == views(parts@),
            r@ == joined(vs.take(i as int), sep@),
        decreases parts@.len() - i,
    {
        assert(vs.take(i + 1).drop_last() =~= vs.take(i as int));
        assert(vs[i as int] == parts@[i as int]@);
        if i > 0 {
            r.append(sep);
            r.append(parts[i].as_str());
        } else {
            r.append(parts[i].as_str());
            assert(r@ =~= parts@[0]@);
        }
        i = i + 1;
    }
    assert(vs.take(i as int) =~= vs);
    r
}

/// Whether `a` comes before `b` in lexicographic order.
pub fn before(a: &str, b: &str) -> (r: bool)
    ensures
        r == less(a@, b@),
{
    let x: Vec<char> = chars_of(a);
    let y: Vec<char> = chars_of(b);
    let mut i: usize = 0;
    assert(x@.skip(0) =~= x@);
    assert(y@.skip(0) =~= y@);
    while i < x.len() && i < y.len()
        invariant
            i <= x@.len(),
            i <= y@.len(),
            less(a@, b@) == less(x@.skip(i as int), y@.skip(i as int)),
        decreases x@.len() - i,
    {
        if x[i] != y[i] {
            return x[i] < y[i];
        }
        assert(x@.skip(i as int).skip(1) =~= x@.skip(i + 1));
        assert(y@.skip(i as int).skip(1) =~= y@.skip(i + 1));
        i = i + 1;
    }
    i < y.len()
}

proof fn lemma_digits_take(s: Seq<char>, i: int)
    requires
        0 <= i < s.len(),
    ensures
        digits_value(s.take(i + 1)) == 10 * digits_value(s.take(i)) + (s[i] as u32 - 48) as nat,
{
    assert(s.take(i + 1).drop_last() =~= s.take(i));
    assert(s.take(i + 1).last() == s[i]);
}

proof fn lemma_digits_monotone(s: Seq<char>, i: int)
    requires
        0 <= i <= s.len(),
        all_digits(s),
    ensures
        digits_value(s.take(i)) <= digits_value(s),
    decreases s.len() - i,
{
    if i < s.len() {
        lemma_digits_monotone(s, i + 1);
        lemma_digits_take(s, i);
    } else {
        assert(s.take(i) =~= s);
    }
}

/// The unsigned decimal number of at most `max` that `s` holds.
pub fn parse_unsigned(s: &str, max: u64) -> (r: Option<u64>)
    ensures
        match r {
            Some(n) => parsed_unsigned(s@, max as nat) == Some(n as nat),
            None => parsed_unsigned(s@, max as nat) is None,
        },
{
    let cs: Vec<char> = chars_of(s);
    let mut from: usize = 0;
    if cs.len() > 0 && cs[0] == '+' {
        from = 1;
    }
    let ghost d = unsigned_digits(s@);
    assert(d =~= cs@.skip(from as int));
    if from == cs.len() {
        return None;
    }
    let mut n: u64 = 0;
    let mut i: usize = from;
    while i < cs.len()
        invariant
            from <= i <= cs@.len(),
            d == cs@.skip(from as int),
            d == unsigned_digits(s@),
            d.len() > 0,
            forall|j: int| 0 <= j < i - from ==> is_digit(#[trigger] d[j]),
            n == digits_value(d.take(i - from)),
            n <= max,
        decreases cs@.len() - i,
    {
        let c: char = cs[i];
        assert(d[i - from] == c);
        if !('0' <= c && c <= '9') {
            assert(!is_digit(d[i - from]));
            return None;
        }
        let v: u64 = c as u64 - 48;
        proof {
            lemma_digits_take(d, i - from);
            if all_digits(d) {
                lemma_digits_monotone(d, i - from + 1);
            }
        }
        if v > max || n > (max - v) / 10 {
            return None;
        }
        n = n * 10 + v;
        i = i + 1;
    }
    assert(d.take(i - from) =~= d);
    Some(n)
}

/// The decimal digits of `n`.
pub fn to_decimal(n: u64) -> (r: String)
    ensures
        r@ == decimal(n as nat),
    decreases n,
{
    let c: char = digit(n % 10);
    if n < 10 {
        let mut r: String = String::new();
        r.push(c);
        assert(r@ =~= seq![digit_char(n as nat)]);
        r
    } else {
        let mut r: String = to_decimal(n / 10);
        r.push(c);
        r
    }
}

/// The character of a digit.
fn digit(d: u64) -> (c: char)
    requires
        d < 10,
    ensures
        c == digit_char(d as nat),
{
    if d == 0 {
        '0'
    } else if d == 1 {
        '1'
    } else if d == 2 {
        '2'
    } else if d == 3 {
        '3'
    } else if d == 4 {
        '4'
    } else if d == 5 {
        '5'
    } else if d == 6 {
        '6'
    } else if d == 7 {
        '7'
    } else if d == 8 {
        '8'
    } else {
        '9'
    }
}

/// Where dropping a prefix stops.
pub proof fn lemma_drop_while(s: Seq<char>, p: spec_fn(char) -> bool) -> (k: int)
    ensures
        0 <= k <= s.len(),
        forall|j: int| 0 <= j < k ==> p(s[j]),
        k < s.len() ==> !p(s[k]),
        drop_while(s, p) == s.skip(k),
    decreases s.len(),
{
    if s.len() > 0 && p(s[0]) {
        let t = s.skip(1);
        let k = lemma_drop_while(t, p);
        assert forall|j: int| 0 <= j < k + 1 implies p(s[j]) by {
            if j > 0 {
                assert(p(t[j - 1]));
            }
        }
        assert(t.skip(k) =~= s.skip(k + 1));
        k + 1
    } else {
        assert(s.skip(0) =~= s);
        0
    }
}

/// Where dropping a suffix stops.
pub proof fn lemma_drop_while_end(s: Seq<char>, p: spec_fn(char) -> bool) -> (k: int)
    ensures
        0 <= k <= s.len(),
        forall|j: int| k <= j < s.len() ==> p(s[j]),
        k > 0 ==> !p(s[k - 1]),
        drop_while_end(s, p) == s.take(k),
    decreases s.len(),
{
    if s.len() > 0 && p(s.last()) {
        let t = s.drop_last();
        let k = lemma_drop_while_end(t, p);
        assert forall|j: int| k <= j < s.len() implies p(s[j]) by {
            if j < t.len() {
                assert(p(t[j]));
            }
        }
        assert(t.take(k) =~= s.take(k));
        k
    } else {
        assert(s.take(s.len() as int) =~= s);
        s.len() as int
    }
}

/// Trimming gives a piece of the text that neither starts nor ends in white
/// space, with nothing but white space around it.
pub proof fn lemma_trimmed(s: Seq<char>) -> (r: (int, int))
    ensures
        0 <= r.0 <= r.1 <= s.len(),
        trimmed(s) == s.subrange(r.0, r.1),
        forall|j: int| 0 <= j < r.0 ==> is_white(s[j]),
        forall|j: int| r.1 <= j < s.len() ==> is_white(s[j]),
        r.0 < r.1 ==> !is_white(s[r.0]) && !is_white(s[r.1 - 1]),
{
    let p = |c: char| is_white(c);
    let a = lemma_drop_while(s, p);
    let t = s.skip(a);
    let b = lemma_drop_while_end(t, p);
    assert(t.take(b) =~= s.subrange(a, a + b));
    assert forall|j: int| a + b <= j < s.len() implies is_white(s[j]) by {
        assert(p(t[j - a]));
    }
    assert forall|j: int| 0 <= j < a implies is_white(s[j]) by {
        assert(p(s[j]));
    }
    if b > 0 {
        assert(!p(t[b - 1]));
        assert(!p(s[a]));
    }
    (a, a + b)
}

/// A piece with nothing but white space around it, and none at its ends, is
/// what trimming gives.
pub proof fn lemma_trimmed_is(s: Seq<char>, a: int, b: int)
    requires
        0 <= a <= b <= s.len(),
        forall|j: int| 0 <= j < a ==> is_white(s[j]),
        forall|j: int| b <= j < s.len() ==> is_white(s[j]),
        a < b ==> !is_white(s[a]) && !is_white(s[b - 1]),
        a == b ==> a == s.len(),
    ensures
        trimmed(s) == s.subrange(a, b),
{
    let p = |c: char| is_white(c);
    lemma_drop_while_at(s, p, a);
    let t = s.skip(a);
    assert forall|j: int| b - a <= j < t.len() implies p(t[j]) by {
        assert(is_white(s[j + a]));
    }
    lemma_drop_while_end_at(t, p, b - a);
    assert(t.take(b - a) =~= s.subrange(a, b));
}

/// A text that neither starts nor ends in white space is its own trimmed form.
pub proof fn lemma_trimmed_fixed(s: Seq<char>)
    requires
        s.len() > 0 ==> !is_white(s[0]) && !is_white(s.last()),
    ensures
        trimmed(s) == s,
{
    lemma_trimmed_is(s, 0, s.len() as int);
    assert(s.subrange(0, s.len() as int) =~= s);
}

/// Trimming twice is trimming once.
pub proof fn lemma_trimmed_twice(s: Seq<char>)
    ensures
        trimmed(trimmed(s)) == trimmed(s),
        trimmed(s).len() > 0 ==> !is_white(trimmed(s)[0]) && !is_white(trimmed(s).last()),
{
    let (a, b) = lemma_trimmed(s);
    lemma_trimmed_fixed(trimmed(s));
}

/// A trailing carriage return does not matter to trimming.
pub proof fn lemma_trimmed_without_cr(s: Seq<char>)
    ensures
        trimmed(without_cr(s)) == trimmed(s),
{
    if s.len() > 0 && s.last() == '\r' {
        let t = s.drop_last();
        let (a, b) = lemma_trimmed(s);
        if a < b {
            assert(is_white('\r'));
            assert(b < s.len());
            lemma_trimmed_is(t, a, b);
            assert(t.subrange(a, b) =~= s.subrange(a, b));
        } else {
            assert forall|j: int| 0 <= j < t.len() implies is_white(t[j]) by {
                assert(is_white(s[j]));
            }
            lemma_trimmed_is(t, t.len() as int, t.len() as int);
            assert(trimmed(t) =~= trimmed(s));
        }
    }
}

/// Joining from the front.
pub proof fn lemma_joined_front(parts: Seq<Seq<char>>, sep: Seq<char>)
    requires
        parts.len() >= 2,
    ensures
        joined(parts, sep) == parts[0] + sep + joined(parts.skip(1), sep),
    decreases parts.len(),
{
    let rest = parts.skip(1);
    if parts.len() == 2 {
        assert(parts.drop_last().len() == 1);
        assert(rest.len() == 1);
        assert(joined(parts.drop_last(), sep) == parts[0]);
        assert(joined(rest, sep) == parts[1]);
    } else {
        lemma_joined_front(parts.drop_last(), sep);
        assert(parts.drop_last().skip(1) =~= rest.drop_last());
        assert(joined(parts, sep) =~= parts[0] + sep + (joined(rest.drop_last(), sep) + sep
            + rest.last()));
    }
}

/// Whether `c` does not occur in `s`.
pub open spec fn has_no(s: Seq<char>, c: char) -> bool {
    forall|i: int| 0 <= i < s.len() ==> s[i] != c
}

/// No piece of a split text holds the separator.
pub proof fn lemma_split_pieces(s: Seq<char>, c: char)
    ensures
        split(s, c).len() > 0,
        forall|i: int| 0 <= i < split(s, c).len() ==> has_no(#[trigger] split(s, c)[i], c),
    decreases s.len(),
{
    let r = split(s, c);
    lemma_find(s, c);
    match find(s, c) {
        None => {
            assert(r =~= seq![s]);
        },
        Some(k) => {
            let rest = s.skip(k + 1);
            lemma_split_pieces(rest, c);
            assert forall|i: int| 0 <= i < r.len() implies has_no(#[trigger] r[i], c) by {
                if i == 0 {
                    assert(r[0] == s.take(k));
                } else {
                    assert(r[i] == split(rest, c)[i - 1]);
                }
            }
        },
    }
}

/// The first piece of a split text.
pub proof fn lemma_split_cons(head: Seq<char>, c: char, rest: Seq<char>)
    requires
        has_no(head, c),
    ensures
        split(head + seq![c] + rest, c) == seq![head] + split(rest, c),
{
    let s = head + seq![c] + rest;
    lemma_find_is(s, c, head.len() as int);
    assert(s.take(head.len() as int) =~= head);
    assert(s.skip(head.len() as int + 1) =~= rest);
}

/// Splitting undoes joining.
pub proof fn lemma_split_joined(parts: Seq<Seq<char>>, c: char)
    requires
        parts.len() > 0,
        forall|i: int| 0 <= i < parts.len() ==> has_no(#[trigger] parts[i], c),
    ensures
        split(joined(parts, seq![c]), c) == parts,
    decreases parts.len(),
{
    assert(has_no(parts[0], c));
    if parts.len() == 1 {
        lemma_find_none(parts[0], c);
        assert(parts =~= seq![parts[0]]);
    } else {
        let rest = parts.skip(1);
        lemma_joined_front(parts, seq![c]);
        lemma_split_joined(rest, c);
        lemma_split_cons(parts[0], c, joined(rest, seq![c]));
        assert(parts =~= seq![parts[0]] + rest);
    }
}

/// The lines of a text hold no line feed.
pub proof fn lemma_lines_have_no_feed(s: Seq<char>)
    ensures
        forall|i: int| 0 <= i < lines(s).len() ==> has_no(#[trigger] lines(s)[i], '\n'),
    decreases s.len(),
{
    lemma_find(s, '\n');
    match find(s, '\n') {
        None => {},
        Some(k) => {
            let rest = s.skip(k + 1);
            lemma_lines_have_no_feed(rest);
            assert forall|i: int| 0 <= i < lines(s).len() implies has_no(
                #[trigger] lines(s)[i],
                '\n',
            ) by {
                if i > 0 {
                    assert(lines(s)[i] == lines(rest)[i - 1]);
                }
            }
        },
    }
}

/// A text that starts with a line: its lines are that line and the rest.
pub proof fn lemma_lines_cons(line: Seq<char>, rest: Seq<char>)
    requires
        has_no(line, '\n'),
    ensures
        lines(line + seq!['\n'] + rest) == seq![without_cr(line)] + lines(rest),
{
    let s = line + seq!['\n'] + rest;
    lemma_find_is(s, '\n', line.len() as int);
    assert(s.take(line.len() as int) =~= line);
    assert(s.skip(line.len() as int + 1) =~= rest);
}

/// What comes back when lines are ended by line feeds and read again: the same
/// lines, up to a carriage return at the end of each.
pub proof fn lemma_lines_of_joined(ls: Seq<Seq<char>>)
    requires
        ls.len() > 0,
        forall|i: int| 0 <= i < ls.len() ==> has_no(#[trigger] ls[i], '\n'),
    ensures
        lines(joined(ls, seq!['\n']).push('\n')) == ls.map_values(|l: Seq<char>| without_cr(l)),
    decreases ls.len(),
{
    let nl = seq!['\n'];
    let f = |l: Seq<char>| without_cr(l);
    if ls.len() == 1 {
        let empty = Seq::<char>::empty();
        lemma_lines_cons(ls[0], empty);
        assert(joined(ls, nl).push('\n') =~= ls[0] + nl + empty);
        lemma_find_none(empty, '\n');
        assert(lines(empty) =~= Seq::<Seq<char>>::empty());
        assert(ls.map_values(f) =~= seq![without_cr(ls[0])]);
    } else {
        let rest = ls.skip(1);
        lemma_joined_front(ls, nl);
        assert forall|i: int| 0 <= i < rest.len() implies has_no(#[trigger] rest[i], '\n') by {
            assert(rest[i] == ls[i + 1]);
        }
        lemma_lines_of_joined(rest);
        let tail = joined(rest, nl).push('\n');
        lemma_lines_cons(ls[0], tail);
        assert(joined(ls, nl).push('\n') =~= ls[0] + nl + tail);
        assert(ls.map_values(f) =~= seq![without_cr(ls[0])] + rest.map_values(f));
    }
}

/// Nothing comes before itself.
pub proof fn lemma_less_irreflexive(a: Seq<char>)
    ensures
        !less(a, a),
    decreases a.len(),
{
    if a.len() > 0 {
        lemma_less_irreflexive(a.skip(1));
    }
}

/// The order is transitive.
pub proof fn lemma_less_transitive(a: Seq<char>, b: Seq<char>, c: Seq<char>)
    requires
        less(a, b),
        less(b, c),
    ensures
        less(a, c),
    decreases a.len(),
{
    if a.len() > 0 && a[0] == b[0] && b[0] == c[0] {
        lemma_less_transitive(a.skip(1), b.skip(1), c.skip(1));
    }
}

/// Of two different texts one comes first.
pub proof fn lemma_less_total(a: Seq<char>, b: Seq<char>)
    ensures
        less(a, b) || less(b, a) || a == b,
    decreases a.len(),
{
    if a.len() > 0 && b.len() > 0 && a[0] == b[0] {
        lemma_less_total(a.skip(1), b.skip(1));
        if a.skip(1) == b.skip(1) {
            assert forall|i: int| 0 <= i < a.len() implies a[i] == b[i] by {
                if i > 0 {
                    assert(a[i] == a.skip(1)[i - 1]);
                    assert(b[i] == b.skip(1)[i - 1]);
                }
            }
            assert(a.len() == b.len()) by {
                assert(a.skip(1).len() == b.skip(1).len());
            }
            assert(a =~= b);
        }
    } else if a.len() == 0 && b.len() == 0 {
        assert(a =~= b);
    }
}

/// The decimal form of a number.
pub fn to_signed_decimal(n: i64) -> (r: String)
    ensures
        r@ == signed_decimal(n as int),
{
    if n < 0 {
        let m: u64 = (-(n as i128)) as u64;
        let mut r: String = String::new();
        r.push('-');
        let d: String = to_decimal(m);
        r.append(d.as_str());
        assert(r@ =~= seq!['-'] + decimal((-n) as nat));
        r
    } else {
        to_decimal(n as u64)
    }
}

/// A lower-case ASCII letter raised.
fn raise(c: char) -> (r: char)
    ensures
        r == upper_char(c),
{
    if 'a' <= c && c <= 'z' {
        let b: u8 = c as u8;
        (b - 32) as char
    } else {
        c
    }
}

/// `s` with lower-case ASCII letters raised.
pub fn to_ascii_upper(s: &str) -> (r: String)
    ensures
        r@ == ascii_upper(s@),
{
    let cs: Vec<char> = chars_of(s);
    let mut r: String = String::new();
    let mut i: usize = 0;
    while i < cs.len()
        invariant
            i <= cs@.len(),
            r@ == ascii_upper(cs@.take(i as int)),
        decreases cs@.len() - i,
    {
        let c: char = raise(cs[i]);
        assert(ascii_upper(cs@.take(i + 1)) =~= ascii_upper(cs@.take(i as int)).push(c));
        r.push(c);
        i = i + 1;
    }
    assert(cs@.take(i as int) =~= cs@);
    r
}

/// The last white-space separated word of `s`.
pub fn find_last_word(s: &str) -> (r: Option<String>)
    ensures
        match r {
            Some(w) => last_word(s@) == Some(w@),
            None => last_word(s@) is None,
        },
{
    let t: String = trim_end(s);
    let cs: Vec<char> = chars_of(t.as_str());
    let n: usize = cs.len();
    if n == 0 {
        return None;
    }
    let mut a: usize = n;
    assert(cs@.subrange(n as int, n as int) =~= Seq::<char>::empty());
    assert(cs@.take(n as int) =~= cs@);
    assert(trailing_word(cs@) + Seq::<char>::empty() =~= trailing_word(cs@));
    while 0 < a && !white(cs[a - 1])
        invariant
            a <= n == cs@.len(),
            trailing_word(cs@) == trailing_word(cs@.take(a as int)) + cs@.subrange(
                a as int,
                n as int,
            ),
        decreases a,
    {
        assert(cs@.take(a as int).drop_last() =~= cs@.take(a - 1));
        assert(cs@.take(a as int).last() == cs@[a - 1]);
        assert(trailing_word(cs@.take(a - 1)).push(cs@[a - 1]) + cs@.subrange(a as int, n as int)
            =~= trailing_word(cs@.take(a - 1)) + cs@.subrange(a - 1, n as int));
        a = a - 1;
    }
    assert(trailing_word(cs@.take(a as int)) =~= Seq::<char>::empty());
    assert(trailing_word(cs@) =~= cs@.subrange(a as int, n as int));
    Some(string_of(&cs, a, n))
}

/// `n` times a character.
pub open spec fn repeated(c: char, n: nat) -> Seq<char> {
    Seq::new(n, |i: int| c)
}

/// `n` times a character.
pub fn repeat(c: char, n: usize) -> (r: String)
    ensures
        r@ == repeated(c, n as nat),
{
    let mut r: String = String::new();
    let mut i: usize = 0;
    while i < n
        invariant
            i <= n,
            r@ == repeated(c, i as nat),
        decreases n - i,
    {
        r.push(c);
        i = i + 1;
        assert(r@ =~= repeated(c, i as nat));
    }
    r
}

/// The number of bytes of a text in UTF-8.
pub open spec fn byte_len(s: Seq<char>) -> usize {
    vstd::utf8::encode_utf8(s).len() as usize
}

/// What `str::parse::<i32>` makes of a text.
pub open spec fn parsed_i32(s: Seq<char>) -> Option<int> {
    if s.len() > 0 && s[0] == '-' {
        if s.len() > 1 && all_digits(s.skip(1)) && digits_value(s.skip(1)) <= 0x8000_0000 {
            Some(-(digits_value(s.skip(1)) as int))
        } else {
            None
        }
    } else {
        match parsed_unsigned(s, 0x7fff_ffff) {
            Some(n) => Some(n as int),
            None => None,
        }
    }
}

/// The `i32` that `s` holds.
pub fn parse_i32(s: &str) -> (r: Option<i32>)
    ensures
        match r {
            Some(n) => parsed_i32(s@) == Some(n as int),
            None => parsed_i32(s@) is None,
        },
{
    let cs: Vec<char> = chars_of(s);
    if cs.len() > 0 && cs[0] == '-' {
        let rest: String = string_of(cs.as_slice(), 1, cs.len());
        assert(rest@ =~= s@.skip(1));
        if cs.len() == 1 {
            return None;
        }
        if cs[1] == '+' {
            assert(!is_digit(s@.skip(1)[0]));
            return None;
        }
        assert(rest@[0] != '+');
        match parse_unsigned(rest.as_str(), 0x8000_0000) {
            Some(n) => Some((-(n as i64)) as i32),
            None => None,
        }
    } else {
        match parse_unsigned(s, 0x7fff_ffff) {
            Some(n) => Some(n as i32),
            None => None,
        }
    }
}

// --- Laws ------------------------------------------------------------------
/// Whether two texts agree up to a position at which the first ends and the
/// second does not, or at which the first has the character of the smaller code
/// point.
pub open spec fn parts_at(a: Seq<char>, b: Seq<char>, k: int) -> bool {
    &&& 0 <= k <= a.len() && k < b.len()
    &&& forall|j: int| 0 <= j < k ==> a[j] == b[j]
    &&& k == a.len() || a[k] < b[k]
}

/// A text comes before another just where they agree up to a position at which
/// the first ends and the second does not, or at which the first has the
/// character of the smaller code point.
pub proof fn law_less_is_by_code_point(a: Seq<char>, b: Seq<char>)
    ensures
        less(a, b) <==> exists|k: int| #[trigger] parts_at(a, b, k),
    decreases a.len(),
{
    if b.len() == 0 {
    } else if a.len() == 0 {
        assert(parts_at(a, b, 0));
    } else if a[0] == b[0] {
        let x = a.skip(1);
        let y = b.skip(1);
        law_less_is_by_code_point(x, y);
        if less(x, y) {
            let k = choose|k: int| #[trigger] parts_at(x, y, k);
            assert forall|j: int| 0 <= j < k + 1 implies a[j] == b[j] by {
                if j > 0 {
                    assert(x[j - 1] == y[j - 1]);
                }
            }
            assert(parts_at(a, b, k + 1));
        }
        if exists|k: int| #[trigger] parts_at(a, b, k) {
            let k = choose|k: int| #[trigger] parts_at(a, b, k);
            assert(k > 0);
            assert forall|j: int| 0 <= j < k - 1 implies x[j] == y[j] by {
                assert(a[j + 1] == b[j + 1]);
            }
            assert(parts_at(x, y, k - 1));
        }
    } else {
        if less(a, b) {
            assert(parts_at(a, b, 0));
        }
        if exists|k: int| #[trigger] parts_at(a, b, k) {
            let k = choose|k: int| #[trigger] parts_at(a, b, k);
            assert(k == 0);
        }
    }
}

/// White space is what stands between words: blanks, tabs and line ends are,
/// and no visible ASCII character is.
pub proof fn law_white_space(c: char)
    ensures
        c == ' ' || c == '\t' || c == '\n' || c == '\r' ==> is_white(c),
        0x21 <= c as u32 <= 0x7e ==> !is_white(c),
{
}

/// The control characters of ASCII are the ones below the blank and the last
/// one; nothing that can be printed is among them.
pub proof fn law_control_characters(c: char)
    ensures
        (c as u32) < 0x20 || c as u32 == 0x7f ==> is_control(c),
        0x20 <= c as u32 <= 0x7e || 0xa0 <= c as u32 ==> !is_control(c),
{
}

/// Trimming drops all the white space around a text and nothing else.
pub proof fn law_trimming_drops_the_white_space_around(
    before: Seq<char>,
    s: Seq<char>,
    after: Seq<char>,
)
    requires
        forall|i: int| 0 <= i < before.len() ==> is_white(before[i]),
        forall|i: int| 0 <= i < after.len() ==> is_white(after[i]),
        s.len() > 0,
        !is_white(s[0]),
        !is_white(s.last()),
    ensures
        trimmed(before + s + after) == s,
{
    let t = before + s + after;
    lemma_trimmed_is(t, before.len() as int, (before.len() + s.len()) as int);
    assert(t.subrange(before.len() as int, (before.len() + s.len()) as int) =~= s);
}

/// A text of nothing but white space is trimmed to nothing, and only such a text
/// is.
pub proof fn law_blank_texts_trim_to_nothing(s: Seq<char>)
    ensures
        trimmed(s).len() == 0 <==> forall|i: int| 0 <= i < s.len() ==> is_white(s[i]),
{
    let (a, b) = lemma_trimmed(s);
    if forall|i: int| 0 <= i < s.len() ==> is_white(s[i]) {
        if a < b {
            assert(is_white(s[a]));
        }
    }
    if trimmed(s).len() == 0 {
        assert(a == b);
    }
}

/// Dropping a character at an end drops all of it there, and keeps the rest.
pub proof fn law_ends_are_dropped(s: Seq<char>, c: char, n: nat)
    ensures
        s.len() > 0 && s[0] != c ==> without_leading(repeated(c, n) + s, c) == s,
        s.len() > 0 && s.last() != c ==> without_trailing(s + repeated(c, n), c) == s,
        without_leading(repeated(c, n), c).len() == 0,
        without_trailing(repeated(c, n), c).len() == 0,
{
    let r = repeated(c, n);
    lemma_drop_while_at(r, equal_to(c), n as int);
    lemma_drop_while_end_at(r, equal_to(c), 0);
    if s.len() > 0 && s[0] != c {
        lemma_drop_while_at(r + s, equal_to(c), n as int);
        assert((r + s).skip(n as int) =~= s);
    }
    if s.len() > 0 && s.last() != c {
        lemma_drop_while_end_at(s + r, equal_to(c), s.len() as int);
        assert((s + r).take(s.len() as int) =~= s);
    }
}

/// A text is cut at the first occurrence of a character.
pub proof fn law_split_once_cuts_at_the_first(a: Seq<char>, c: char, b: Seq<char>)
    requires
        forall|i: int| 0 <= i < a.len() ==> a[i] != c,
    ensures
        split_once(a + seq![c] + b, c) == Some((a, b)),
        before_first(a + seq![c] + b, c) == a,
        split_once(a, c) is None,
        before_first(a, c) == a,
{
    let s = a + seq![c] + b;
    lemma_find_is(s, c, a.len() as int);
    lemma_find_none(a, c);
    assert(s.take(a.len() as int) =~= a);
    assert(s.skip((a.len() + 1) as int) =~= b);
}

/// Splitting a text loses nothing: its pieces, joined by the separator, are the
/// text, and none of them holds the separator.
pub proof fn law_joining_undoes_splitting(s: Seq<char>, c: char)
    ensures
        joined(split(s, c), seq![c]) == s,
        forall|i: int, j: int|
            0 <= i < split(s, c).len() && 0 <= j < split(s, c)[i].len() ==> #[trigger] split(
                s,
                c,
            )[i][j] != c,
    decreases s.len(),
{
    lemma_split_pieces(s, c);
    lemma_find(s, c);
    match find(s, c) {
        None => {},
        Some(i) => {
            let rest = s.skip(i + 1);
            law_joining_undoes_splitting(rest, c);
            lemma_split_pieces(rest, c);
            let parts = split(s, c);
            assert(parts.skip(1) =~= split(rest, c));
            lemma_joined_front(parts, seq![c]);
            assert(s =~= s.take(i) + seq![c] + rest);
        },
    }
}

/// A line ends at a line feed or at a carriage return and a line feed; neither
/// belongs to it, and what stands behind the last one is a line of its own.
pub proof fn law_lines_end_at_line_feeds(line: Seq<char>, rest: Seq<char>)
    requires
        forall|i: int| 0 <= i < line.len() ==> line[i] != '\n',
        line.len() > 0 ==> line.last() != '\r',
    ensures
        lines(line + seq!['\n'] + rest) == seq![line] + lines(rest),
        lines(line + seq!['\r', '\n'] + rest) == seq![line] + lines(rest),
        line.len() > 0 ==> lines(line) == seq![line],
        lines(Seq::<char>::empty()).len() == 0,
{
    lemma_lines_cons(line, rest);
    let long = line.push('\r');
    assert(long + seq!['\n'] + rest =~= line + seq!['\r', '\n'] + rest);
    lemma_lines_cons(long, rest);
    assert(long.drop_last() =~= line);
    lemma_find_none(line, '\n');
    lemma_find_none(Seq::<char>::empty(), '\n');
}

/// A text contains another just where it is made of it and what stands around
/// it.
pub proof fn law_contains_means_standing_inside(s: Seq<char>, p: Seq<char>)
    ensures
        contains(s, p) <==> exists|a: Seq<char>, b: Seq<char>| s == #[trigger] (a + p + b),
        starts_with(s, p) <==> exists|b: Seq<char>| s == #[trigger] (p + b),
        ends_with(s, p) <==> exists|a: Seq<char>| s == #[trigger] (a + p),
{
    if contains(s, p) {
        let i = choose|i: int| #[trigger] occurs_at(s, p, i);
        assert(s =~= s.take(i) + p + s.skip(i + p.len()));
    }
    if exists|a: Seq<char>, b: Seq<char>| s == #[trigger] (a + p + b) {
        let (a, b) = choose|a: Seq<char>, b: Seq<char>| s == #[trigger] (a + p + b);
        assert(s.subrange(a.len() as int, (a.len() + p.len()) as int) =~= p);
        assert(occurs_at(s, p, a.len() as int));
    }
    if starts_with(s, p) {
        assert(s =~= p + s.skip(p.len() as int));
    }
    if exists|b: Seq<char>| s == #[trigger] (p + b) {
        let b = choose|b: Seq<char>| s == #[trigger] (p + b);
        assert(s.take(p.len() as int) =~= p);
    }
    if ends_with(s, p) {
        assert(s =~= s.take(s.len() - p.len()) + p);
    }
    if exists|a: Seq<char>| s == #[trigger] (a + p) {
        let a = choose|a: Seq<char>| s == #[trigger] (a + p);
        assert(s.skip(s.len() - p.len()) =~= p);
    }
}

/// What is looked for is found where it first stands.
pub proof fn law_find_str_is_the_first_place(s: Seq<char>, p: Seq<char>)
    ensures
        match find_str(s, p) {
            Some(i) => 0 <= i && i + p.len() <= s.len() && s.subrange(i, i + p.len()) == p
                && forall|j: int|
                0 <= j < i && j + p.len() <= s.len() ==> #[trigger] s.subrange(j, j + p.len()) != p,
            None => forall|j: int|
                0 <= j && j + p.len() <= s.len() ==> #[trigger] s.subrange(j, j + p.len()) != p,
        },
    decreases s.len(),
{
    if p.len() <= s.len() {
        assert(s.take(p.len() as int) =~= s.subrange(0, p.len() as int));
    }
    if starts_with(s, p) {
    } else if s.len() == 0 {
        assert forall|j: int| 0 <= j && j + p.len() <= s.len() implies #[trigger] s.subrange(
            j,
            j + p.len(),
        ) != p by {
            assert(j == 0);
        }
    } else {
        let t = s.skip(1);
        law_find_str_is_the_first_place(t, p);
        assert forall|j: int| 1 <= j && j + p.len() <= s.len() implies #[trigger] s.subrange(
            j,
            j + p.len(),
        ) == t.subrange(j - 1, j - 1 + p.len()) by {
            assert(s.subrange(j, j + p.len()) =~= t.subrange(j - 1, j - 1 + p.len()));
        }
        if let Some(i) = find_str(t, p) {
            assert(s.subrange(i + 1, i + 1 + p.len()) =~= t.subrange(i, i + p.len()));
        }
    }
}

/// Replacing a character leaves none of it, and every other one in its place.
pub proof fn law_replacing_is_complete(s: Seq<char>, a: char, b: char, i: int)
    requires
        0 <= i < s.len(),
    ensures
        replaced(s, a, b).len() == s.len(),
        s[i] == a ==> replaced(s, a, b)[i] == b,
        s[i] != a ==> replaced(s, a, b)[i] == s[i],
{
}

/// A letter and its capital are alike once raised, and nothing else changes.
pub proof fn law_raising_folds_letters(s: Seq<char>, i: int)
    requires
        0 <= i < s.len(),
    ensures
        ascii_upper(s).len() == s.len(),
        'a' <= s[i] <= 'z' ==> ascii_upper(s)[i] as u32 + 32 == s[i] as u32,
        !('a' <= s[i] <= 'z') ==> ascii_upper(s)[i] == s[i],
{
}

/// The last word of a text has no white space in it, stands behind white space
/// or at the start, and has nothing but white space behind it.
pub proof fn law_last_word_stands_last(before: Seq<char>, w: Seq<char>, after: Seq<char>)
    requires
        w.len() > 0,
        forall|i: int| 0 <= i < w.len() ==> !is_white(w[i]),
        forall|i: int| 0 <= i < after.len() ==> is_white(after[i]),
        before.len() > 0 ==> is_white(before.last()),
    ensures
        last_word(before + w + after) == Some(w),
        last_word(after) is None,
{
    let s = before + w + after;
    let p = |c: char| is_white(c);
    let n = (before.len() + w.len()) as int;
    assert(s[n - 1] == w.last());
    lemma_drop_while_end_at(s, p, n);
    assert(s.take(n) =~= before + w);
    lemma_drop_while_end_at(after, p, 0);
    lemma_trailing_word(before, w);
}

proof fn lemma_trailing_word(before: Seq<char>, w: Seq<char>)
    requires
        forall|i: int| 0 <= i < w.len() ==> !is_white(w[i]),
        before.len() > 0 ==> is_white(before.last()),
    ensures
        trailing_word(before + w) == w,
    decreases w.len(),
{
    if w.len() == 0 {
        assert(before + w =~= before);
        assert(w =~= Seq::<char>::empty());
    } else {
        assert((before + w).drop_last() =~= before + w.drop_last());
        assert((before + w).last() == w.last());
        lemma_trailing_word(before, w.drop_last());
        assert(w.drop_last().push(w.last()) =~= w);
    }
}

/// The decimal form of a number has digits only, no zero before them, and is
/// read as the number; a plus sign in front of it does not matter.
pub proof fn law_decimal_reads_back(n: nat, max: nat)
    requires
        n <= max,
    ensures
        parsed_unsigned(decimal(n), max) == Some(n),
        parsed_unsigned(seq!['+'] + decimal(n), max) == Some(n),
        forall|i: int| 0 <= i < decimal(n).len() ==> '0' <= #[trigger] decimal(n)[i] <= '9',
        decimal(n).len() > 0,
        n > 0 ==> decimal(n)[0] != '0',
        n < 10 ==> decimal(n) == seq![(48 + n) as char],
{
    lemma_decimal(n);
    assert((seq!['+'] + decimal(n)).skip(1) =~= decimal(n));
}

proof fn lemma_decimal(n: nat)
    ensures
        all_digits(decimal(n)),
        digits_value(decimal(n)) == n,
        decimal(n).len() > 0,
        n > 0 ==> decimal(n)[0] != '0',
    decreases n,
{
    if n >= 10 {
        lemma_decimal(n / 10);
        let d = decimal(n / 10);
        assert(decimal(n).drop_last() =~= d);
        assert(decimal(n).last() == digit_char(n % 10));
        assert(digit_char(n % 10) as u32 == 48 + n % 10);
        assert(digits_value(decimal(n)) == 10 * digits_value(d) + n % 10);
    } else {
        assert(decimal(n).drop_last() =~= Seq::<char>::empty());
        assert(decimal(n).last() == digit_char(n));
        assert(digit_char(n) as u32 == 48 + n);
        assert(digits_value(decimal(n).drop_last()) == 0);
    }
}

/// A number is read in a text just where the text is digits, with at most a plus
/// sign in front, and the number they denote is not too large.
pub proof fn law_numbers_are_digits(s: Seq<char>, max: nat)
    ensures
        match parsed_unsigned(s, max) {
            Some(n) => n <= max && s.len() > 0 && (('0' <= s[0] <= '9') || (s[0] == '+' && s.len()
                > 1)) && forall|i: int| 1 <= i < s.len() ==> '0' <= #[trigger] s[i] <= '9',
            None => true,
        },
        (exists|i: int| 0 < i < s.len() && !('0' <= #[trigger] s[i] <= '9')) ==> parsed_unsigned(
            s,
            max,
        ) is None,
{
    let d = unsigned_digits(s);
    if let Some(n) = parsed_unsigned(s, max) {
        if s[0] == '+' {
            assert(d.len() == s.len() - 1);
            assert forall|i: int| 1 <= i < s.len() implies '0' <= #[trigger] s[i] <= '9' by {
                assert(is_digit(d[i - 1]));
            }
        } else {
            assert(is_digit(d[0]));
            assert forall|i: int| 1 <= i < s.len() implies '0' <= #[trigger] s[i] <= '9' by {
                assert(is_digit(d[i]));
            }
        }
    }
}

/// A number with a sign is read back from its decimal form.
pub proof fn law_signed_decimal_reads_back(n: i32)
    ensures
        parsed_i32(signed_decimal(n as int)) == Some(n as int),
        n < 0 ==> signed_decimal(n as int)[0] == '-',
{
    if n < 0 {
        let m = (-(n as int)) as nat;
        lemma_decimal(m);
        assert(signed_decimal(n as int).skip(1) =~= decimal(m));
    } else {
        lemma_decimal(n as nat);
        assert(is_digit(decimal(n as nat)[0]));
    }
}

/// Taking the last character away undoes typing one; a text without any stays as it
/// is.
pub proof fn law_shortening_undoes_typing(s: Seq<char>, c: char)
    ensures
        shortened(s.push(c)) == s,
        shortened(Seq::<char>::empty()).len() == 0,
{
    assert(s.push(c).drop_last() =~= s);
}

/// The digits and letters of ASCII, by their code points.
pub proof fn law_ascii_letters_and_digits(c: char)
    ensures
        is_digit(c) <==> 0x30 <= c as u32 <= 0x39,
        is_ascii_alphanumeric(c) <==> 0x30 <= c as u32 <= 0x39 || 0x41 <= c as u32 <= 0x5a || 0x61
            <= c as u32 <= 0x7a,
{
}

/// What a list of strings holds stands in the order of the list.
pub proof fn law_strings_in_their_order(v: Seq<String>, i: int)
    requires
        0 <= i < v.len(),
    ensures
        views(v).len() == v.len(),
        views(v)[i] == v[i]@,
{
}

} // verus!
