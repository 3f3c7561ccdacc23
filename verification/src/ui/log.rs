//! The log buffer: what is logged goes in, the log panels show its end.

use std::collections::VecDeque;

use vstd::prelude::*;

use crate::text;

verus! {

/// The most lines that are kept.
pub const MAX_LOG_LINES: usize = 500;

/// A bounded log: the oldest lines make room for new ones.
#[derive(Debug)]
pub struct LogBuffer {
    lines: VecDeque<String>,
}

impl View for LogBuffer {
    type V = Seq<Seq<char>>;

    closed spec fn view(&self) -> Seq<Seq<char>> {
        text::views(self.lines@)
    }
}

/// The last `n` elements of a sequence.
pub open spec fn last_of(s: Seq<Seq<char>>, n: nat) -> Seq<Seq<char>> {
    if s.len() <= n {
        s
    } else {
        s.skip(s.len() - n)
    }
}

/// What `String::from_utf8_lossy` makes of bytes.
pub uninterp spec fn lossy_text(bytes: Seq<u8>) -> Seq<char>;

/// `String::from_utf8_lossy`: the text of bytes, named [`lossy_text`].
#[verifier::external_body]
fn lossy(bytes: &[u8]) -> (r: String)
    ensures
        r@ == lossy_text(bytes@),
{
    String::from_utf8_lossy(bytes).into_owned()
}

impl LogBuffer {
    /// No more lines are kept than the limit allows.
    pub closed spec fn bounded(self) -> bool {
        self.lines@.len() <= MAX_LOG_LINES
    }

    /// An empty buffer.
    #[must_use]
    pub fn new() -> (r: Self)
        ensures
            r.bounded(),
            r@ == Seq::<Seq<char>>::empty(),
    {
        let r = LogBuffer { lines: VecDeque::new() };
        assert(r@ =~= Seq::<Seq<char>>::empty());
        r
    }

    /// Adds a line; the oldest line goes when there are too many.
    pub fn push(&mut self, line: String)
        requires
            old(self).bounded(),
        ensures
            final(self).bounded(),
            final(self)@ == last_of(old(self)@.push(line@), MAX_LOG_LINES as nat),
    {
        let ghost before = self.lines@;
        self.lines.push_back(line);
        assert(text::views(self.lines@) =~= text::views(before).push(line@));
        if self.lines.len() > MAX_LOG_LINES {
            let ghost full = self.lines@;
            let _ = self.lines.pop_front();
            assert(text::views(self.lines@) =~= text::views(full).skip(1));
        }
    }

    /// Adds each line of a text.
    pub fn push_text(&mut self, s: &str)
        requires
            old(self).bounded(),
        ensures
            final(self).bounded(),
            final(self)@ == last_of(old(self)@ + text::lines(s@), MAX_LOG_LINES as nat),
    {
        let ls: Vec<String> = text::lines_of(s);
        let ghost vs = text::views(ls@);
        let ghost start = self@;
        let mut i: usize = 0;
        assert(start + vs.take(0) =~= start);
        while i < ls.len()
            invariant
                i <= ls@.len(),
                vs == text::views(ls@),
                self.bounded(),
                self@ == last_of(start + vs.take(i as int), MAX_LOG_LINES as nat),
            decreases ls@.len() - i,
        {
            assert(vs[i as int] == ls@[i as int]@);
            let ghost before = self@;
            self.push(ls[i].clone());
            assert(start + vs.take(i + 1) =~= (start + vs.take(i as int)).push(vs[i as int]));
            assert(self@ =~= last_of(start + vs.take(i + 1), MAX_LOG_LINES as nat));
            i = i + 1;
        }
        assert(vs.take(i as int) =~= vs);
    }

    /// Takes what a log writer wrote, and says that it took all of it.
    pub fn write(&mut self, buf: &[u8]) -> (r: usize)
        requires
            old(self).bounded(),
        ensures
            final(self).bounded(),
            final(self)@ == last_of(
                old(self)@ + text::lines(lossy_text(buf@)),
                MAX_LOG_LINES as nat,
            ),
            r == buf@.len(),
    {
        let s: String = lossy(buf);
        self.push_text(s.as_str());
        buf.len()
    }

    /// The last `n` lines, the oldest first.
    #[must_use]
    pub fn tail(&self, n: usize) -> (r: Vec<String>)
        ensures
            text::views(r@) == last_of(self@, n as nat),
    {
        let len: usize = self.lines.len();
        let from: usize = if len <= n {
            0
        } else {
            len - n
        };
        let mut r: Vec<String> = Vec::new();
        let ghost vs = text::views(self.lines@);
        let mut i: usize = from;
        while i < len
            invariant
                from <= i <= len,
                len == self.lines@.len(),
                vs == text::views(self.lines@),
                text::views(r@) == vs.subrange(from as int, i as int),
            decreases len - i,
        {
            let ghost before = r@;
            r.push(self.lines[i].clone());
            assert(text::views(r@) =~= text::views(before).push(vs[i as int]));
            assert(vs.subrange(from as int, i + 1) =~= vs.subrange(from as int, i as int).push(
                vs[i as int],
            ));
            i = i + 1;
        }
        assert(text::views(r@) =~= last_of(self@, n as nat));
        r
    }
}

/// The buffer never holds more than its limit, and a line that was just added is
/// the last of it.
pub proof fn law_log_is_bounded(before: Seq<Seq<char>>, line: Seq<char>)
    ensures
        last_of(before.push(line), MAX_LOG_LINES as nat).len() <= MAX_LOG_LINES,
        last_of(before.push(line), MAX_LOG_LINES as nat).last() == line,
{
}

/// What is kept is the end of what was logged, in its order, and no line goes
/// while there is room.
pub proof fn law_latest_lines_are_kept(s: Seq<Seq<char>>, n: nat, i: int)
    ensures
        s.len() <= n ==> last_of(s, n) == s,
        s.len() > n ==> last_of(s, n).len() == n,
        0 <= i < n && i < s.len() ==> last_of(s, n)[last_of(s, n).len() - 1 - i] == s[s.len() - 1
            - i],
{
}

/// Logging in two steps keeps what logging at once keeps.
pub proof fn law_logging_in_steps(a: Seq<Seq<char>>, b: Seq<Seq<char>>, n: nat)
    ensures
        last_of(last_of(a, n) + b, n) == last_of(a + b, n),
{
    assert(last_of(last_of(a, n) + b, n) =~= last_of(a + b, n));
}

} // verus!
