//! `GET /status`: what the supervised processes do.

use vstd::prelude::*;

use crate::platform;
use crate::platform::Platform;
use crate::serve::supervisor;
use crate::serve::supervisor::ServeStatus;
use crate::time::Timestamp;

verus! {

/// `whoami::fallible::hostname`: the name of the host, if it can be told. What
/// it is, is left open.
#[verifier::external_body]
fn os_hostname() -> (r: Option<String>) {
    whoami::fallible::hostname().ok()
}

/// The `/status` response body.
#[derive(Debug)]
pub struct StatusResponse {
    /// `"running"` while `opencode serve` runs, else `"stopped"`.
    pub opencode_serve: &'static str,
    /// `"running"` while the tunnel runs, else `"stopped"`.
    pub rathole: &'static str,
    /// When `opencode serve` was started; nothing while no process runs.
    pub started_at: Option<Timestamp>,
    /// The host.
    pub system: SystemInfo,
    /// Version of the service.
    pub version: &'static str,
}

/// The host that the service runs on.
#[derive(Debug)]
pub struct SystemInfo {
    /// `windows`, `macos`, `linux` or `unknown`.
    pub os: &'static str,
    /// Processor architecture.
    pub arch: &'static str,
    /// Host name, or `unknown`.
    pub hostname: String,
}

pub open spec fn state_word(pid: Option<u32>) -> Seq<char> {
    if pid is Some {
        "running"@
    } else {
        "stopped"@
    }
}

fn state_of(pid: Option<u32>) -> (r: &'static str)
    ensures
        r@ == state_word(pid),
{
    if pid.is_some() {
        "running"
    } else {
        "stopped"
    }
}

/// Platform of this machine: `"macos"`, `"windows"`, `"linux"` or `"unknown"`.
pub fn pctype() -> (r: &'static str)
    ensures
        exists|p: Platform| r@ == #[trigger] p.device_tag(),
{
    let p: Platform = platform::host_platform();
    let r: &'static str = p.device_name();
    assert(r@ == p.device_tag());
    r
}

/// The host name to report.
#[must_use]
pub fn hostname_or_unknown(name: Option<String>) -> (r: String)
    ensures
        r@ == (match name {
            Some(n) => n@,
            None => "unknown"@,
        }),
{
    match name {
        Some(n) => n,
        None => "unknown".to_owned(),
    }
}

/// The start that is reported: none while no process runs.
pub open spec fn start_told(snap: ServeStatus) -> Option<Timestamp> {
    if snap.opencode_pid is None && snap.rathole_pid is None {
        None
    } else {
        snap.started_at
    }
}

/// The report on the supervised processes, on this host.
#[must_use]
pub fn status(snap: ServeStatus, arch: &'static str, version: &'static str) -> (r: StatusResponse)
    ensures
        r.opencode_serve@ == state_word(snap.opencode_pid),
        r.rathole@ == state_word(snap.rathole_pid),
        r.started_at == start_told(snap),
        r.version@ == version@,
        r.system.arch@ == arch@,
        exists|p: Platform| r.system.os@ == #[trigger] p.device_tag(),
{
    let os: &'static str = pctype();
    let idle: bool = snap.opencode_pid.is_none() && snap.rathole_pid.is_none();
    let started_at: Option<Timestamp> = if idle {
        None
    } else {
        snap.started_at
    };
    StatusResponse {
        opencode_serve: state_of(snap.opencode_pid),
        rathole: state_of(snap.rathole_pid),
        started_at,
        system: SystemInfo { os, arch, hostname: hostname_or_unknown(os_hostname()) },
        version,
    }
}

/// A process is reported as running just where it has a PID.
pub proof fn law_running_means_a_pid(pid: Option<u32>)
    ensures
        state_word(pid) == "running"@ <==> pid is Some,
        state_word(pid) == "stopped"@ <==> pid is None,
{
    reveal_strlit("running");
    reveal_strlit("stopped");
    assert("running"@[0] == 'r');
    assert("stopped"@[0] == 's');
}

/// The start is told while either process runs, and not after both have stopped.
pub proof fn law_start_is_told_while_running(snap: ServeStatus)
    ensures
        snap.opencode_pid is Some ==> start_told(snap) == snap.started_at,
        snap.rathole_pid is Some ==> start_told(snap) == snap.started_at,
        start_told(supervisor::without_rathole(supervisor::without_opencode(snap))) is None,
{
}

} // verus!
