//! Finding and killing the processes that listen on a port.

use vstd::prelude::*;
use vstd::string::*;

use crate::error::{glued, AppError, ErrorView};
use crate::platform::Platform;
use crate::text;

verus! {

/// The PID on a line of PIDs: a positive number, with white space around it.
pub open spec fn pid_on(line: Seq<char>) -> Option<u32> {
    match text::parsed_unsigned(text::trimmed(line), u32::MAX as nat) {
        Some(n) => if n > 0 {
            Some(n as u32)
        } else {
            None
        },
        None => None,
    }
}

/// The PIDs in the terse output of `lsof`, one per line, in order.
pub open spec fn lsof_pids(lines: Seq<Seq<char>>) -> Seq<u32>
    decreases lines.len(),
{
    if lines.len() == 0 {
        Seq::<u32>::empty()
    } else {
        match pid_on(lines.last()) {
            Some(p) => lsof_pids(lines.drop_last()).push(p),
            None => lsof_pids(lines.drop_last()),
        }
    }
}

/// Whether a port stands at a position of a line: a colon and the whole of the
/// number.
pub open spec fn port_at(line: Seq<char>, port: u16, i: int) -> bool {
    let needle = ":"@ + text::decimal(port as nat);
    text::occurs_at(line, needle, i) && (i + needle.len() == line.len() || !text::is_digit(
        line[i + needle.len()],
    ))
}

/// Whether a line names a port.
pub open spec fn names_port(line: Seq<char>, port: u16) -> bool {
    exists|i: int| #[trigger] port_at(line, port, i)
}

fn has_port(line: &str, port: u16) -> (r: bool)
    ensures
        r == names_port(line@, port),
{
    let n: String = text::to_decimal(port as u64);
    let needle: String = glued(":", n.as_str());
    let cs: Vec<char> = text::chars_of(line);
    let k: usize = text::chars_of(needle.as_str()).len();
    let len: usize = cs.len();
    if k > len {
        return false;
    }
    let last: usize = len - k;
    let mut i: usize = 0;
    while i <= last
        invariant
            i <= last + 1,
            last + k == len,
            len == cs@.len(),
            cs@ == line@,
            needle@ == ":"@ + text::decimal(port as nat),
            k == needle@.len(),
            forall|j: int| 0 <= j < i ==> !port_at(line@, port, j),
        decreases last + 1 - i,
    {
        let part: String = text::string_of(cs.as_slice(), i, i + k);
        if text::same(part.as_str(), needle.as_str()) && (i == last || !('0' <= cs[i + k] && cs[i
            + k] <= '9')) {
            assert(port_at(line@, port, i as int));
            return true;
        }
        assert(!port_at(line@, port, i as int));
        if i == last {
            assert(forall|j: int| port_at(line@, port, j) ==> 0 <= j <= last);
            return false;
        }
        i = i + 1;
    }
    false
}

/// The PID of the process that listens on a port, on a line of `netstat`: the
/// last column of a line that says `LISTENING` and names the port.
pub open spec fn listener_on(line: Seq<char>, port: u16) -> Option<u32> {
    if text::contains(text::ascii_upper(line), "LISTENING"@) && names_port(line, port) {
        match text::last_word(line) {
            Some(w) => match text::parsed_unsigned(w, u32::MAX as nat) {
                Some(n) => if n > 0 {
                    Some(n as u32)
                } else {
                    None
                },
                None => None,
            },
            None => None,
        }
    } else {
        None
    }
}

/// The PIDs of the processes that listen on a port, in the output of
/// `netstat`, each once, in order of first appearance.
pub open spec fn netstat_pids(lines: Seq<Seq<char>>, port: u16) -> Seq<u32>
    decreases lines.len(),
{
    if lines.len() == 0 {
        Seq::<u32>::empty()
    } else {
        let before = netstat_pids(lines.drop_last(), port);
        match listener_on(lines.last(), port) {
            Some(p) => if before.contains(p) {
                before
            } else {
                before.push(p)
            },
            None => before,
        }
    }
}

fn positive(n: Option<u64>) -> (r: Option<u32>)
    requires
        n matches Some(v) ==> v <= u32::MAX,
    ensures
        r == (match n {
            Some(v) => if v > 0 {
                Some(v as u32)
            } else {
                None
            },
            None => None,
        }),
{
    match n {
        Some(v) => {
            if v > 0 {
                Some(v as u32)
            } else {
                None
            }
        },
        None => None,
    }
}

/// Reads the terse output of `lsof`.
#[must_use]
pub fn parse_lsof(output: &str) -> (r: Vec<u32>)
    ensures
        r@ == lsof_pids(text::lines(output@)),
{
    let lines: Vec<String> = text::lines_of(output);
    let ghost vs = text::views(lines@);
    let mut r: Vec<u32> = Vec::new();
    let mut i: usize = 0;
    while i < lines.len()
        invariant
            i <= lines@.len(),
            vs == text::views(lines@),
            r@ == lsof_pids(vs.take(i as int)),
        decreases lines@.len() - i,
    {
        assert(vs.take(i + 1).drop_last() =~= vs.take(i as int));
        assert(vs.take(i + 1).last() == lines@[i as int]@);
        let t: String = text::trim(lines[i].as_str());
        if let Some(p) = positive(text::parse_unsigned(t.as_str(), u32::MAX as u64)) {
            r.push(p);
        }
        i = i + 1;
    }
    assert(vs.take(i as int) =~= vs);
    r
}

fn has_pid(v: &Vec<u32>, pid: u32) -> (r: bool)
    ensures
        r == v@.contains(pid),
{
    let mut i: usize = 0;
    while i < v.len()
        invariant
            i <= v@.len(),
            forall|j: int| 0 <= j < i ==> v@[j] != pid,
        decreases v@.len() - i,
    {
        if v[i] == pid {
            return true;
        }
        i = i + 1;
    }
    false
}

/// Reads the output of `netstat -ano`.
#[must_use]
pub fn parse_netstat(output: &str, port: u16) -> (r: Vec<u32>)
    ensures
        r@ == netstat_pids(text::lines(output@), port),
{
    let lines: Vec<String> = text::lines_of(output);
    let ghost vs = text::views(lines@);
    let mut r: Vec<u32> = Vec::new();
    let mut i: usize = 0;
    while i < lines.len()
        invariant
            i <= lines@.len(),
            vs == text::views(lines@),
            r@ == netstat_pids(vs.take(i as int), port),
        decreases lines@.len() - i,
    {
        assert(vs.take(i + 1).drop_last() =~= vs.take(i as int));
        assert(vs.take(i + 1).last() == lines@[i as int]@);
        let line: &str = lines[i].as_str();
        let upper: String = text::to_ascii_upper(line);
        if text::has(upper.as_str(), "LISTENING") && has_port(line, port) {
            if let Some(w) = text::find_last_word(line) {
                if let Some(p) = positive(text::parse_unsigned(w.as_str(), u32::MAX as u64)) {
                    if !has_pid(&r, p) {
                        r.push(p);
                    }
                }
            }
        }
        i = i + 1;
    }
    assert(vs.take(i as int) =~= vs);
    r
}

/// What running a kill command gave.
#[derive(Debug)]
pub struct KillOutput {
    /// Whether it exited with success.
    pub success: bool,
    /// Its exit code, if it has one.
    pub code: Option<i32>,
    /// What it printed.
    pub stdout: String,
    /// What it printed as an error.
    pub stderr: String,
}

pub open spec fn code_text(code: Option<i32>) -> Seq<char> {
    match code {
        Some(n) => "exit code Some("@ + text::signed_decimal(n as int) + ")"@,
        None => "exit code None"@,
    }
}

/// Why a kill command failed: what it printed as an error and what it printed
/// besides, or its exit code where it printed nothing.
pub open spec fn kill_detail(out: KillOutput) -> Seq<char> {
    let stderr = text::trimmed(out.stderr@);
    let stdout = text::trimmed(out.stdout@);
    if stderr.len() > 0 && stdout.len() > 0 {
        stderr + "; "@ + stdout
    } else if stderr.len() > 0 {
        stderr
    } else if stdout.len() > 0 {
        stdout
    } else {
        code_text(out.code)
    }
}

/// The kill command of a platform.
pub open spec fn kill_command(p: Platform) -> Seq<char> {
    if p is Windows {
        "taskkill /T /F PID "@
    } else {
        "kill -9 PID "@
    }
}

/// Decides whether a kill command has killed the process: only its exit status
/// counts.
///
/// # Errors
/// Returns [`AppError::Internal`] with the reason when the command failed.
pub fn kill_pid_force(p: Platform, pid: u32, out: &KillOutput) -> (r: Result<(), AppError>)
    ensures
        match r {
            Ok(()) => out.success,
            Err(e) => !out.success && e@ == ErrorView::Internal(
                kill_command(p) + text::decimal(pid as nat) + " 失败："@ + kill_detail(*out),
            ),
        },
{
    if out.success {
        return Ok(());
    }
    let windows: bool = match p {
        Platform::Windows => true,
        _ => false,
    };
    let stderr: String = text::trim(out.stderr.as_str());
    let stdout: String = text::trim(out.stdout.as_str());
    let detail: String = if !stderr.as_str().is_empty() {
        let mut d: String = stderr;
        if !stdout.as_str().is_empty() {
            d.append("; ");
            d.append(stdout.as_str());
        }
        d
    } else if !stdout.as_str().is_empty() {
        stdout
    } else {
        match out.code {
            Some(n) => {
                let d: String = text::to_signed_decimal(n as i64);
                let mut m: String = glued("exit code Some(", d.as_str());
                m.append(")");
                m
            },
            None => "exit code None".to_owned(),
        }
    };
    let n: String = text::to_decimal(pid as u64);
    let mut m: String = if windows {
        glued("taskkill /T /F PID ", n.as_str())
    } else {
        glued("kill -9 PID ", n.as_str())
    };
    m.append(" 失败：");
    m.append(detail.as_str());
    Err(AppError::Internal(m))
}

/// Whether a port is in use: `lsof` found a listener, or it accepts a
/// connection. `lsof` is nothing where it could not be run.
#[must_use]
pub fn is_port_busy(lsof: Option<(bool, bool)>, connected: bool) -> (r: bool)
    ensures
        r == ((lsof matches Some((success, output)) && success && output) || connected),
{
    match lsof {
        Some((success, output)) => (success && output) || connected,
        None => connected,
    }
}

/// A clean-up of a port: its listeners are looked for and killed, twice, since
/// a child may take over the socket of a killed parent.
#[derive(Debug)]
pub struct PortCleaner {
    /// The processes that were killed.
    pub killed: Vec<u32>,
    /// How often listeners were looked for.
    pub scans: u32,
}

/// What a clean-up does after a scan.
#[derive(Debug, Clone, Copy, PartialEq, Eq, Structural)]
pub enum CleanStep {
    /// It is over.
    Finish,
    /// Kill what was found.
    Kill,
}

/// How long to wait between two scans, in milliseconds.
pub const PAUSE_MILLIS: u64 = 500;

/// What follows a scan that found so many processes; one that failed found none.
pub open spec fn scan_step(found: nat) -> CleanStep {
    if found > 0 {
        CleanStep::Kill
    } else {
        CleanStep::Finish
    }
}

/// How many scans are over after another one that found so many processes: all of
/// them where it found none.
pub open spec fn scans_after(scans: int, found: nat) -> int {
    if found > 0 {
        scans + 1
    } else {
        2
    }
}

/// The processes that were killed, after another attempt.
pub open spec fn killed_after(killed: Seq<u32>, pid: u32, success: bool) -> Seq<u32> {
    if success && !killed.contains(pid) {
        killed.push(pid)
    } else {
        killed
    }
}

impl PortCleaner {
    /// No process is listed twice, and there are at most two scans.
    pub open spec fn well_formed(&self) -> bool {
        self.killed@.no_duplicates() && self.scans <= 2
    }

    /// A clean-up that has not begun.
    #[must_use]
    pub fn new() -> (r: Self)
        ensures
            r.well_formed(),
            r.killed@.len() == 0,
            r.scans == 0,
    {
        PortCleaner { killed: Vec::new(), scans: 0 }
    }

    /// Whether there is another scan to make.
    #[must_use]
    pub fn scan_due(&self) -> (r: bool)
        ensures
            r == (self.scans < 2),
    {
        self.scans < 2
    }

    /// Whether to wait for [`PAUSE_MILLIS`] before the next scan, for sockets to
    /// be released: after the first.
    #[must_use]
    pub fn pause_due(&self) -> (r: bool)
        ensures
            r == (self.scans == 1),
    {
        self.scans == 1
    }

    /// Decides after a scan: `found` is nothing where it failed. A scan that
    /// failed or found nothing ends the clean-up.
    pub fn scanned(&mut self, found: Option<&Vec<u32>>) -> (r: CleanStep)
        requires
            old(self).well_formed(),
            old(self).scans < 2,
        ensures
            final(self).well_formed(),
            final(self).killed@ == old(self).killed@,
            r == scan_step(
                match found {
                    Some(v) => v@.len(),
                    None => 0,
                },
            ),
            final(self).scans == scans_after(
                old(self).scans as int,
                match found {
                    Some(v) => v@.len(),
                    None => 0,
                },
            ),
    {
        match found {
            Some(v) => {
                if v.len() > 0 {
                    self.scans = self.scans + 1;
                    return CleanStep::Kill;
                }
            },
            None => {},
        }
        self.scans = 2;
        CleanStep::Finish
    }

    /// Whether a process is still to be killed.
    #[must_use]
    pub fn wants(&self, pid: u32) -> (r: bool)
        ensures
            r == !self.killed@.contains(pid),
    {
        !has_pid(&self.killed, pid)
    }

    /// Records an attempt to kill a process: only a success counts.
    pub fn record(&mut self, pid: u32, success: bool)
        requires
            old(self).well_formed(),
        ensures
            final(self).well_formed(),
            final(self).scans == old(self).scans,
            final(self).killed@ == killed_after(old(self).killed@, pid, success),
    {
        if success && self.wants(pid) {
            let ghost before = self.killed@;
            self.killed.push(pid);
            assert(self.killed@.no_duplicates()) by {
                assert forall|i: int, j: int|
                    0 <= i < self.killed@.len() && 0 <= j < self.killed@.len() && i
                        != j implies self.killed@[i] != self.killed@[j] by {
                    if i < before.len() && j < before.len() {
                        assert(before[i] != before[j]);
                    } else if i < before.len() {
                        assert(before[i] != pid);
                    } else {
                        assert(before[j] != pid);
                    }
                }
            }
        }
    }
}

/// The listeners that `netstat` shows are listed once each, and none of them is
/// the idle process.
pub proof fn law_listeners_are_distinct(lines: Seq<Seq<char>>, port: u16)
    ensures
        netstat_pids(lines, port).no_duplicates(),
        forall|i: int| 0 <= i < netstat_pids(lines, port).len() ==> netstat_pids(lines, port)[i] > 0,
    decreases lines.len(),
{
    if lines.len() > 0 {
        law_listeners_are_distinct(lines.drop_last(), port);
        let before = netstat_pids(lines.drop_last(), port);
        if let Some(p) = listener_on(lines.last(), port) {
            if !before.contains(p) {
                let after = before.push(p);
                assert forall|i: int, j: int|
                    0 <= i < after.len() && 0 <= j < after.len() && i != j implies after[i]
                    != after[j] by {
                    if i < before.len() && j < before.len() {
                        assert(before[i] != before[j]);
                    } else if i < before.len() {
                        assert(before.contains(before[i]));
                    } else {
                        assert(before.contains(before[j]));
                    }
                }
            }
        }
    }
}

/// Whether a text is the word `LISTENING`, in capitals, small letters or both.
pub open spec fn is_listening(w: Seq<char>) -> bool {
    w.len() == 9 && forall|k: int|
        0 <= k < 9 ==> (#[trigger] w[k]) == "LISTENING"@[k] || w[k] == "listening"@[k]
}

/// Whether a line has the word `LISTENING` in it, in capitals, small letters or
/// both.
pub open spec fn says_listening(line: Seq<char>) -> bool {
    exists|before: Seq<char>, w: Seq<char>, after: Seq<char>|
        line == #[trigger] (before + w + after) && is_listening(w)
}

/// Whether a line has a port in it: a colon and its digits, with no digit behind
/// them.
pub open spec fn shows_port(line: Seq<char>, port: u16) -> bool {
    exists|before: Seq<char>, after: Seq<char>|
        line == #[trigger] (before + (seq![':'] + text::decimal(port as nat)) + after) && (
        after.len() > 0 ==> !('0' <= after[0] <= '9'))
}

proof fn lemma_says_listening(line: Seq<char>)
    ensures
        says_listening(line) <==> text::contains(text::ascii_upper(line), "LISTENING"@),
{
    reveal_strlit("LISTENING");
    reveal_strlit("listening");
    let word = "LISTENING"@;
    let small = "listening"@;
    let upper = text::ascii_upper(line);
    assert forall|c: char, k: int| 0 <= k < 9 implies (#[trigger] text::upper_char(c)
        == #[trigger] word[k] <==> (c == word[k] || c == small[k])) by {
        assert(word[0] == 'L' && small[0] == 'l');
        assert(word[1] == 'I' && small[1] == 'i');
        assert(word[2] == 'S' && small[2] == 's');
        assert(word[3] == 'T' && small[3] == 't');
        assert(word[4] == 'E' && small[4] == 'e');
        assert(word[5] == 'N' && small[5] == 'n');
        assert(word[6] == 'I' && small[6] == 'i');
        assert(word[7] == 'N' && small[7] == 'n');
        assert(word[8] == 'G' && small[8] == 'g');
    }
    if says_listening(line) {
        let (before, w, after) = choose|before: Seq<char>, w: Seq<char>, after: Seq<char>|
            line == #[trigger] (before + w + after) && is_listening(w);
        let i = before.len() as int;
        assert forall|k: int| 0 <= k < 9 implies upper.subrange(i, i + 9)[k] == word[k] by {
            assert(w[k] == line[i + k]);
            assert(upper[i + k] == text::upper_char(line[i + k]));
        }
        assert(upper.subrange(i, i + 9) =~= word);
        assert(text::occurs_at(upper, word, i));
    }
    if text::contains(upper, word) {
        let i = choose|i: int| #[trigger] text::occurs_at(upper, word, i);
        let w = line.subrange(i, i + 9);
        assert forall|k: int| 0 <= k < 9 implies (#[trigger] w[k]) == word[k] || w[k]
            == small[k] by {
            assert(upper.subrange(i, i + 9)[k] == upper[i + k]);
            assert(upper[i + k] == text::upper_char(w[k]));
        }
        assert(line =~= line.take(i) + w + line.skip(i + 9));
    }
}

proof fn lemma_shows_port(line: Seq<char>, port: u16)
    ensures
        shows_port(line, port) <==> names_port(line, port),
{
    reveal_strlit(":");
    let needle = ":"@ + text::decimal(port as nat);
    assert(needle =~= seq![':'] + text::decimal(port as nat));
    if names_port(line, port) {
        let i = choose|i: int| #[trigger] port_at(line, port, i);
        let after = line.skip(i + needle.len());
        assert(line =~= line.take(i) + needle + after);
        assert(after.len() > 0 ==> after[0] == line[i + needle.len()]);
    }
    if shows_port(line, port) {
        let (before, after) = choose|before: Seq<char>, after: Seq<char>|
            line == #[trigger] (before + (seq![':'] + text::decimal(port as nat)) + after) && (
            after.len() > 0 ==> !('0' <= after[0] <= '9'));
        let i = before.len() as int;
        assert(line.subrange(i, i + needle.len()) =~= needle);
        assert(after.len() > 0 ==> line[i + needle.len()] == after[0]);
        assert(port_at(line, port, i));
    }
}

/// Whether a line tells that a process listens on a port: it says so, shows the
/// port, and has the PID, which is not zero, in its last column.
pub open spec fn tells_listener(line: Seq<char>, port: u16, pid: u32) -> bool {
    &&& says_listening(line)
    &&& shows_port(line, port)
    &&& pid > 0
    &&& text::last_word(line) matches Some(w) && text::parsed_unsigned(w, 0xffff_ffff) == Some(
        pid as nat,
    )
}

/// The PIDs that `netstat` gives for a port are those of the lines that say
/// `LISTENING`, show the port and have the PID in their last column: every such
/// PID is listed, and no other, so that a mere connection to the port is not
/// taken for a listener.
pub proof fn law_only_listeners_are_found(lines: Seq<Seq<char>>, port: u16, pid: u32)
    ensures
        netstat_pids(lines, port).contains(pid) <==> exists|i: int|
            0 <= i < lines.len() && tells_listener(#[trigger] lines[i], port, pid),
    decreases lines.len(),
{
    let r = netstat_pids(lines, port);
    if lines.len() > 0 {
        let init = lines.drop_last();
        let before = netstat_pids(init, port);
        let line = lines.last();
        law_only_listeners_are_found(init, port, pid);
        lemma_says_listening(line);
        lemma_shows_port(line, port);
        assert(tells_listener(line, port, pid) <==> listener_on(line, port) == Some(pid));
        assert(r.contains(pid) <==> before.contains(pid) || listener_on(line, port) == Some(
            pid,
        )) by {
            if let Some(p) = listener_on(line, port) {
                if !before.contains(p) {
                    assert(r == before.push(p));
                    assert(r[before.len() as int] == p);
                    if before.contains(pid) {
                        let k = choose|k: int| 0 <= k < before.len() && before[k] == pid;
                        assert(r[k] == pid);
                    }
                }
            }
        }
        if before.contains(pid) {
            let i = choose|i: int|
                0 <= i < init.len() && tells_listener(#[trigger] init[i], port, pid);
            assert(tells_listener(lines[i], port, pid));
        }
        if listener_on(line, port) == Some(pid) {
            assert(tells_listener(lines[lines.len() - 1], port, pid));
        }
        if exists|i: int| 0 <= i < lines.len() && tells_listener(#[trigger] lines[i], port, pid) {
            let i = choose|i: int|
                0 <= i < lines.len() && tells_listener(#[trigger] lines[i], port, pid);
            if i < init.len() {
                assert(tells_listener(init[i], port, pid));
            }
        }
    }
}

/// `lsof` gives one PID for each line that holds a positive number, in the order
/// of the lines; other lines give none.
pub proof fn law_each_line_of_lsof_gives_its_pid(
    before: Seq<Seq<char>>,
    line: Seq<char>,
    pid: u32,
)
    ensures
        pid > 0 && text::parsed_unsigned(text::trimmed(line), 0xffff_ffff) == Some(pid as nat)
            ==> lsof_pids(before.push(line)) == lsof_pids(before).push(pid),
        text::parsed_unsigned(text::trimmed(line), 0xffff_ffff) is None || text::parsed_unsigned(
            text::trimmed(line),
            0xffff_ffff,
        ) == Some(0nat) ==> lsof_pids(before.push(line)) == lsof_pids(before),
        lsof_pids(Seq::<Seq<char>>::empty()).len() == 0,
{
    assert(before.push(line).drop_last() =~= before);
}

/// A failed kill is told with what the command printed; its exit code is told
/// only where it printed nothing.
pub proof fn law_kill_detail_tells_what_was_printed(out: KillOutput)
    ensures
        text::trimmed(out.stderr@).len() > 0 ==> text::starts_with(
            kill_detail(out),
            text::trimmed(out.stderr@),
        ),
        text::trimmed(out.stdout@).len() > 0 ==> text::ends_with(
            kill_detail(out),
            text::trimmed(out.stdout@),
        ),
        text::trimmed(out.stderr@).len() == 0 && text::trimmed(out.stdout@).len() == 0
            ==> kill_detail(out) == code_text(out.code),
{
    let e = text::trimmed(out.stderr@);
    let o = text::trimmed(out.stdout@);
    let d = kill_detail(out);
    if e.len() > 0 {
        assert(d.take(e.len() as int) =~= e);
    }
    if o.len() > 0 {
        assert(d.skip(d.len() - o.len()) =~= o);
    }
}

/// A clean-up kills what a scan found and looks a second time, but not a third; a scan
/// that finds nothing ends it.
pub proof fn law_two_scans_at_most(found: nat, again: nat)
    ensures
        scan_step(found) is Kill <==> found > 0,
        scan_step(found) is Finish <==> found == 0,
        found == 0 ==> scans_after(0, found) == 2,
        found > 0 ==> scans_after(0, found) == 1,
        scans_after(scans_after(0, 1), again) == 2,
{
}

/// A process counts as killed once an attempt succeeded, and once only; a failed
/// attempt changes nothing, and those before it stay in their order.
pub proof fn law_killed_processes_count_once(killed: Seq<u32>, pid: u32, success: bool)
    requires
        killed.no_duplicates(),
    ensures
        killed_after(killed, pid, success).no_duplicates(),
        success ==> killed_after(killed, pid, success).contains(pid),
        !success ==> killed_after(killed, pid, success) == killed,
        killed.is_prefix_of(killed_after(killed, pid, success)),
        killed_after(killed_after(killed, pid, true), pid, success) == killed_after(
            killed,
            pid,
            true,
        ),
{
    let after = killed_after(killed, pid, success);
    if success && !killed.contains(pid) {
        assert(after[killed.len() as int] == pid);
        assert(after.contains(pid));
        assert forall|i: int, j: int|
            0 <= i < after.len() && 0 <= j < after.len() && i != j implies after[i] != after[j] by {
            if i < killed.len() && j < killed.len() {
                assert(killed[i] != killed[j]);
            } else if i < killed.len() {
                assert(killed.contains(killed[i]));
            } else {
                assert(killed.contains(killed[j]));
            }
        }
    }
    let once = killed_after(killed, pid, true);
    if !killed.contains(pid) {
        assert(once[killed.len() as int] == pid);
    }
    assert(once.contains(pid));
}

/// Why a kill failed is what was printed, the error before the rest; where nothing was
/// printed it is the exit code, if there is one.
pub proof fn law_kill_detail_in_full(out: KillOutput)
    ensures
        text::trimmed(out.stderr@).len() > 0 && text::trimmed(out.stdout@).len() > 0
            ==> kill_detail(out) == text::trimmed(out.stderr@) + "; "@ + text::trimmed(out.stdout@),
        text::trimmed(out.stderr@).len() > 0 && text::trimmed(out.stdout@).len() == 0
            ==> kill_detail(out) == text::trimmed(out.stderr@),
        text::trimmed(out.stderr@).len() == 0 && text::trimmed(out.stdout@).len() > 0
            ==> kill_detail(out) == text::trimmed(out.stdout@),
        text::trimmed(out.stderr@).len() == 0 && text::trimmed(out.stdout@).len() == 0 ==> (
        out.code matches Some(n) ==> text::contains(
            kill_detail(out),
            text::signed_decimal(n as int),
        )),
{
    if let Some(n) = out.code {
        let d = text::signed_decimal(n as int);
        let t = code_text(out.code);
        let k = "exit code Some("@.len() as int;
        assert(t.subrange(k, k + d.len()) =~= d);
        assert(text::occurs_at(t, d, k));
    }
}

/// The command that kills is the platform's own.
pub proof fn law_kill_command_of_the_platform(p: Platform)
    ensures
        p is Windows ==> text::starts_with(kill_command(p), "taskkill"@),
        !(p is Windows) ==> text::starts_with(kill_command(p), "kill -9"@),
{
    reveal_strlit("taskkill /T /F PID ");
    reveal_strlit("taskkill");
    reveal_strlit("kill -9 PID ");
    reveal_strlit("kill -9");
    assert("taskkill /T /F PID "@.take(8) =~= "taskkill"@);
    assert("kill -9 PID "@.take(7) =~= "kill -9"@);
}

} // verus!
