//! Lifecycle supervisor for `opencode serve` and the optional `rathole`.
//!
//! Processes are spawned and probed elsewhere. Here stand the status, which
//! launches it allows, and what each outcome makes of it.

use vstd::prelude::*;
use vstd::string::*;

use crate::error::{glued, AppError, ErrorView};
use crate::serve::process;
use crate::serve::process::{ProcessSpec, SpecView};
use crate::text;
use crate::time::Timestamp;

verus! {

/// HTTP Basic credentials of `opencode serve` (account id and secret).
///
/// `opencode serve` has no option for them; it reads them from its environment:
/// a non-empty `OPENCODE_SERVER_PASSWORD` turns authentication on, and
/// `OPENCODE_SERVER_USERNAME` is the user. The user is not checked for any
/// format, so an account id of digits will do.
#[derive(Debug, Clone, PartialEq, Eq)]
pub struct ServeAuth {
    /// Basic auth username (the account id).
    pub username: String,
    /// Basic auth password (the account secret).
    pub password: String,
}

impl ServeAuth {
    /// Credentials of an account id and secret.
    #[must_use]
    pub fn new(username: &str, password: &str) -> (r: Self)
        ensures
            r.username@ == username@,
            r.password@ == password@,
    {
        ServeAuth { username: username.to_owned(), password: password.to_owned() }
    }
}

/// Snapshot of supervisor state.
#[derive(Debug, Clone, Copy, PartialEq, Eq, Structural)]
pub struct ServeStatus {
    /// PID of `opencode serve` if running.
    pub opencode_pid: Option<u32>,
    /// PID of `rathole` if running.
    pub rathole_pid: Option<u32>,
    /// Configured port.
    pub port: Option<u16>,
    /// When `opencode serve` was started.
    pub started_at: Option<Timestamp>,
}

impl Default for ServeStatus {
    fn default() -> (r: Self)
        ensures
            r == (ServeStatus {
                opencode_pid: None,
                rathole_pid: None,
                port: None,
                started_at: None,
            }),
    {
        ServeStatus { opencode_pid: None, rathole_pid: None, port: None, started_at: None }
    }
}

/// What became of a spawned process.
#[derive(Debug)]
pub enum Spawned {
    /// It could not be spawned.
    Failed(AppError),
    /// It did not stay alive.
    Exited,
    /// It is alive, with this PID.
    Alive(u32),
}

/// The status of the child processes.
#[derive(Debug)]
pub struct ServeSupervisor {
    /// The current status.
    pub status: ServeStatus,
}

/// What stands in the way of using a port, if anything.
pub open spec fn port_problem(port: u16, busy: bool) -> Option<ErrorView> {
    if port == 0 {
        Some(ErrorView::BadRequest("port must be in 1..=65535"@))
    } else if busy {
        Some(
            ErrorView::Conflict(
                "port "@ + text::decimal(port as nat) + " is already in use"@,
            ),
        )
    } else {
        None
    }
}

/// What stands in the way of launching `opencode serve`, if anything: the
/// tunnel is running, or the port cannot be used.
pub open spec fn opencode_obstacle(s: ServeStatus, port: u16, busy: bool) -> Option<ErrorView> {
    if s.rathole_pid is Some {
        Some(ErrorView::Conflict("云服务正在运行,请先停止云服务后再启动单体"@))
    } else {
        port_problem(port, busy)
    }
}

/// What stands in the way of launching the tunnel, if anything: it is running,
/// or a file is missing.
pub open spec fn rathole_obstacle(
    s: ServeStatus,
    bin: Seq<char>,
    bin_exists: bool,
    config: Seq<char>,
    config_exists: bool,
) -> Option<ErrorView> {
    if s.rathole_pid is Some {
        Some(ErrorView::Conflict("rathole 隧道已在运行"@))
    } else if !bin_exists {
        Some(ErrorView::BadRequest("rathole binary not found: "@ + bin))
    } else if !config_exists {
        Some(ErrorView::BadRequest("rathole config not found: "@ + config))
    } else {
        None
    }
}

/// The status after `opencode serve` was launched.
pub open spec fn with_opencode(s: ServeStatus, pid: u32, port: u16, now: Timestamp) -> ServeStatus {
    ServeStatus { opencode_pid: Some(pid), port: Some(port), started_at: Some(now.in_utc()), ..s }
}

/// The status after `opencode serve` was stopped.
pub open spec fn without_opencode(s: ServeStatus) -> ServeStatus {
    ServeStatus { opencode_pid: None, ..s }
}

/// The status after the tunnel was stopped.
pub open spec fn without_rathole(s: ServeStatus) -> ServeStatus {
    ServeStatus { rathole_pid: None, ..s }
}

/// What a launch of `opencode serve` comes to: the new status, and the PID or
/// the error.
pub open spec fn opencode_launched(
    s: ServeStatus,
    port: u16,
    busy: bool,
    spawned: Spawned,
    now: Timestamp,
) -> (ServeStatus, Result<u32, ErrorView>) {
    match opencode_obstacle(s, port, busy) {
        Some(e) => (s, Err(e)),
        None => match spawned {
            Spawned::Failed(e) => (s, Err(e@)),
            Spawned::Exited => (
                s,
                Err(ErrorView::Internal("opencode serve did not stay alive after launch"@)),
            ),
            Spawned::Alive(pid) => (with_opencode(s, pid, port, now), Ok(pid)),
        },
    }
}

/// What a launch of the tunnel comes to.
pub open spec fn rathole_launched(
    s: ServeStatus,
    bin: Seq<char>,
    bin_exists: bool,
    config: Seq<char>,
    config_exists: bool,
    spawned: Spawned,
) -> (ServeStatus, Result<u32, ErrorView>) {
    match rathole_obstacle(s, bin, bin_exists, config, config_exists) {
        Some(e) => (s, Err(e)),
        None => match spawned {
            Spawned::Failed(e) => (s, Err(e@)),
            Spawned::Exited => (
                s,
                Err(ErrorView::Internal("rathole process exited unexpectedly"@)),
            ),
            Spawned::Alive(pid) => (ServeStatus { rathole_pid: Some(pid), ..s }, Ok(pid)),
        },
    }
}

/// The error of a cloud service whose `opencode serve` did not start.
pub open spec fn cloud_without_opencode(e: ErrorView) -> ErrorView {
    ErrorView::Conflict("云服务启动失败:单体 OpenCode 未启动:"@ + e.message())
}

/// The error of a cloud service whose tunnel did not start.
pub open spec fn cloud_without_rathole(pid: u32, e: ErrorView) -> ErrorView {
    ErrorView::Conflict(
        "云服务启动失败:单体已启(PID="@ + text::decimal(pid as nat)
            + "),但 rathole 启动失败:"@ + e.message(),
    )
}

/// What starting the cloud service comes to: the PID of the `opencode serve` that
/// runs, if one does, or the conflict with a tunnel that runs.
pub open spec fn cloud_begun(s: ServeStatus) -> Result<Option<u32>, ErrorView> {
    if s.rathole_pid is Some {
        Err(ErrorView::Conflict("云服务正在运行,请先停止"@))
    } else {
        Ok(s.opencode_pid)
    }
}

pub open spec fn err_view<T>(r: Result<T, AppError>) -> Result<T, ErrorView> {
    match r {
        Ok(v) => Ok(v),
        Err(e) => Err(e@),
    }
}

/// How often `opencode serve` is probed, at most, until it is seen alive.
pub const OPENCODE_PROBES: u64 = 10;

/// How often the tunnel is probed, at most, until it is seen alive.
pub const RATHOLE_PROBES: u64 = 1;

/// How long the tunnel gets before the first probe, in milliseconds.
pub const RATHOLE_SETTLE_MILLIS: u64 = 1500;

/// How long it takes from a probe to the next one, in milliseconds.
pub const PROBE_MILLIS: u64 = 1000;

/// How long a process that was asked to terminate gets before it is killed, in
/// milliseconds.
pub const GRACE_MILLIS: u64 = 5000;

/// How long it takes from a look at such a process to the next one, in
/// milliseconds.
pub const TERM_POLL_MILLIS: u64 = 200;

/// What a probe for a living process leads to.
#[derive(Debug, Clone, Copy, PartialEq, Eq, Structural)]
pub enum WaitStep {
    /// It is alive.
    Alive,
    /// It is not.
    Dead,
    /// Wait for [`PROBE_MILLIS`] and probe again.
    Again,
}

/// What comes after a probe.
pub open spec fn probe_step(alive: Option<bool>, probes: u64, max: u64) -> WaitStep {
    match alive {
        None => WaitStep::Dead,
        Some(true) => WaitStep::Alive,
        Some(false) => if probes < max {
            WaitStep::Again
        } else {
            WaitStep::Dead
        },
    }
}

/// Decides after a probe: `alive` is nothing where the process is no longer
/// known; `probes` probes were made, of at most `max`.
pub fn after_probe(alive: Option<bool>, probes: u64, max: u64) -> (r: WaitStep)
    ensures
        r == probe_step(alive, probes, max),
{
    match alive {
        None => WaitStep::Dead,
        Some(a) => {
            if a {
                WaitStep::Alive
            } else if probes < max {
                WaitStep::Again
            } else {
                WaitStep::Dead
            }
        },
    }
}

/// The state of a process that was asked to terminate.
#[derive(Debug, Clone, Copy, PartialEq, Eq, Structural)]
pub enum Terminating {
    /// It has exited.
    Exited,
    /// It is still running.
    Running,
    /// Its state cannot be told.
    Unknown,
}

/// What terminating a process does next.
#[derive(Debug, Clone, Copy, PartialEq, Eq, Structural)]
pub enum TerminateStep {
    /// It is over.
    Finish,
    /// Wait for [`TERM_POLL_MILLIS`] and look again.
    Wait,
    /// Kill it.
    Kill,
}

/// How to go on with a process that was asked to terminate.
pub open spec fn term_step(state: Terminating, grace_over: bool) -> TerminateStep {
    match state {
        Terminating::Exited | Terminating::Unknown => TerminateStep::Finish,
        Terminating::Running => if grace_over {
            TerminateStep::Kill
        } else {
            TerminateStep::Wait
        },
    }
}

/// Decides how to go on with a process that was asked to terminate: it gets
/// [`GRACE_MILLIS`], and is killed after them.
pub fn after_term(state: Terminating, grace_over: bool) -> (r: TerminateStep)
    ensures
        r == term_step(state, grace_over),
{
    match state {
        Terminating::Exited | Terminating::Unknown => TerminateStep::Finish,
        Terminating::Running => {
            if grace_over {
                TerminateStep::Kill
            } else {
                TerminateStep::Wait
            }
        },
    }
}

impl ServeSupervisor {
    /// A supervisor of nothing.
    #[must_use]
    pub fn new() -> (r: Self)
        ensures
            r.status == (ServeStatus {
                opencode_pid: None,
                rathole_pid: None,
                port: None,
                started_at: None,
            }),
    {
        ServeSupervisor { status: ServeStatus::default() }
    }

    /// The current status.
    #[must_use]
    pub fn status(&self) -> (r: ServeStatus)
        ensures
            r == self.status,
    {
        self.status
    }

    /// Validate that a port is in range and not already in use.
    ///
    /// # Errors
    /// Returns [`AppError::BadRequest`] if the port is invalid, or
    /// [`AppError::Conflict`] if the port is busy.
    pub fn check_port(port: u16, busy: bool) -> (r: Result<(), AppError>)
        ensures
            match r {
                Ok(()) => port_problem(port, busy) is None,
                Err(e) => port_problem(port, busy) == Some(e@),
            },
    {
        if port == 0 {
            return Err(AppError::BadRequest("port must be in 1..=65535".to_owned()));
        }
        if busy {
            let n: String = text::to_decimal(port as u64);
            let mut m: String = glued("port ", n.as_str());
            m.append(" is already in use");
            return Err(AppError::Conflict(m));
        }
        Ok(())
    }

    /// Whether `opencode serve` may be launched.
    ///
    /// # Errors
    /// Returns [`AppError::Conflict`] while the tunnel is running, and what
    /// [`ServeSupervisor::check_port`] returns.
    pub fn may_launch_opencode(&self, port: u16, busy: bool) -> (r: Result<(), AppError>)
        ensures
            match r {
                Ok(()) => opencode_obstacle(self.status, port, busy) is None,
                Err(e) => opencode_obstacle(self.status, port, busy) == Some(e@),
            },
    {
        if self.status.rathole_pid.is_some() {
            return Err(
                AppError::Conflict("云服务正在运行,请先停止云服务后再启动单体".to_owned()),
            );
        }
        ServeSupervisor::check_port(port, busy)
    }

    /// Decides a launch of `opencode serve`.
    ///
    /// # Errors
    /// Returns [`AppError::Conflict`] while the tunnel is running or if the port
    /// is busy, [`AppError::BadRequest`] if it is invalid, the error of the
    /// spawn, and [`AppError::Internal`] if the process did not stay alive. The
    /// status is then unchanged.
    pub fn launch_opencode(&mut self, port: u16, busy: bool, spawned: Spawned, now: Timestamp) -> (r:
        Result<u32, AppError>)
        ensures
            (final(self).status, err_view(r)) == opencode_launched(
                old(self).status,
                port,
                busy,
                spawned,
                now,
            ),
    {
        if let Err(e) = self.may_launch_opencode(port, busy) {
            return Err(e);
        }
        match spawned {
            Spawned::Failed(e) => Err(e),
            Spawned::Exited => Err(
                AppError::Internal("opencode serve did not stay alive after launch".to_owned()),
            ),
            Spawned::Alive(pid) => {
                self.status.opencode_pid = Some(pid);
                self.status.port = Some(port);
                self.status.started_at = Some(now.to_utc());
                Ok(pid)
            },
        }
    }

    /// Whether the tunnel may be launched.
    ///
    /// # Errors
    /// Returns [`AppError::Conflict`] while it is running, and
    /// [`AppError::BadRequest`] if the binary or the configuration is missing.
    pub fn may_launch_rathole(
        &self,
        bin: &str,
        bin_exists: bool,
        config: &str,
        config_exists: bool,
    ) -> (r: Result<(), AppError>)
        ensures
            match r {
                Ok(()) => rathole_obstacle(
                    self.status,
                    bin@,
                    bin_exists,
                    config@,
                    config_exists,
                ) is None,
                Err(e) => rathole_obstacle(
                    self.status,
                    bin@,
                    bin_exists,
                    config@,
                    config_exists,
                ) == Some(e@),
            },
    {
        if self.status.rathole_pid.is_some() {
            return Err(AppError::Conflict("rathole 隧道已在运行".to_owned()));
        }
        if !bin_exists {
            return Err(AppError::BadRequest(glued("rathole binary not found: ", bin)));
        }
        if !config_exists {
            return Err(AppError::BadRequest(glued("rathole config not found: ", config)));
        }
        Ok(())
    }

    /// Decides a launch of the tunnel.
    ///
    /// # Errors
    /// Returns what [`ServeSupervisor::may_launch_rathole`] returns, the error
    /// of the spawn, and [`AppError::Internal`] if the process exited. The
    /// status is then unchanged.
    pub fn launch_rathole(
        &mut self,
        bin: &str,
        bin_exists: bool,
        config: &str,
        config_exists: bool,
        spawned: Spawned,
    ) -> (r: Result<u32, AppError>)
        ensures
            (final(self).status, err_view(r)) == rathole_launched(
                old(self).status,
                bin@,
                bin_exists,
                config@,
                config_exists,
                spawned,
            ),
    {
        if let Err(e) = self.may_launch_rathole(bin, bin_exists, config, config_exists) {
            return Err(e);
        }
        match spawned {
            Spawned::Failed(e) => Err(e),
            Spawned::Exited => Err(
                AppError::Internal("rathole process exited unexpectedly".to_owned()),
            ),
            Spawned::Alive(pid) => {
                self.status.rathole_pid = Some(pid);
                Ok(pid)
            },
        }
    }

    /// Starts the cloud service: the PID of `opencode serve` where it is running
    /// already, and nothing where it has to be launched first.
    ///
    /// # Errors
    /// Returns [`AppError::Conflict`] while the tunnel is running.
    pub fn begin_cloud_service(&self) -> (r: Result<Option<u32>, AppError>)
        ensures
            err_view(r) == cloud_begun(self.status),
    {
        if self.status.rathole_pid.is_some() {
            return Err(AppError::Conflict("云服务正在运行,请先停止".to_owned()));
        }
        Ok(self.status.opencode_pid)
    }

    /// The error of a cloud service whose `opencode serve` did not start.
    #[must_use]
    pub fn cloud_opencode_failed(e: &AppError) -> (r: AppError)
        ensures
            r@ == cloud_without_opencode(e@),
    {
        let m: String = e.message();
        AppError::Conflict(glued("云服务启动失败:单体 OpenCode 未启动:", m.as_str()))
    }

    /// The error of a cloud service whose tunnel did not start. `opencode serve`
    /// stays up.
    #[must_use]
    pub fn cloud_rathole_failed(pid: u32, e: &AppError) -> (r: AppError)
        ensures
            r@ == cloud_without_rathole(pid, e@),
    {
        let n: String = text::to_decimal(pid as u64);
        let mut m: String = glued("云服务启动失败:单体已启(PID=", n.as_str());
        m.append("),但 rathole 启动失败:");
        let cause: String = e.message();
        m.append(cause.as_str());
        AppError::Conflict(m)
    }

    /// Launch the cloud service: make sure that `opencode serve` is up, then add
    /// the tunnel. What became of each spawn is given; that of `opencode serve`
    /// does not matter where it is running already.
    ///
    /// # Errors
    /// Returns [`AppError::Conflict`] while the tunnel is running, and when
    /// either launch fails. A failure of the tunnel leaves `opencode serve` up.
    pub fn launch_cloud_service(
        &mut self,
        port: u16,
        busy: bool,
        opencode: Spawned,
        now: Timestamp,
        bin: &str,
        bin_exists: bool,
        config: &str,
        config_exists: bool,
        rathole: Spawned,
    ) -> (r: Result<(u32, u32), AppError>)
        ensures
            (final(self).status, err_view(r)) == cloud_launched(
                old(self).status,
                port,
                busy,
                opencode,
                now,
                bin@,
                bin_exists,
                config@,
                config_exists,
                rathole,
            ),
    {
        let running: Option<u32> = match self.begin_cloud_service() {
            Ok(p) => p,
            Err(e) => {
                return Err(e);
            },
        };
        let oc_pid: u32 = match running {
            Some(p) => p,
            None => match self.launch_opencode(port, busy, opencode, now) {
                Ok(p) => p,
                Err(e) => {
                    return Err(ServeSupervisor::cloud_opencode_failed(&e));
                },
            },
        };
        match self.launch_rathole(bin, bin_exists, config, config_exists, rathole) {
            Ok(p) => Ok((oc_pid, p)),
            Err(e) => Err(ServeSupervisor::cloud_rathole_failed(oc_pid, &e)),
        }
    }

    /// `opencode serve` was stopped.
    pub fn stop_opencode(&mut self)
        ensures
            final(self).status == without_opencode(old(self).status),
    {
        self.status.opencode_pid = None;
    }

    /// The tunnel was stopped.
    pub fn stop_rathole(&mut self)
        ensures
            final(self).status == without_rathole(old(self).status),
    {
        self.status.rathole_pid = None;
    }

    /// Both processes were stopped.
    pub fn stop_all(&mut self)
        ensures
            final(self).status == without_rathole(without_opencode(old(self).status)),
    {
        self.stop_opencode();
        self.stop_rathole();
    }
}

/// What launching the cloud service comes to.
pub open spec fn cloud_launched(
    s: ServeStatus,
    port: u16,
    busy: bool,
    opencode: Spawned,
    now: Timestamp,
    bin: Seq<char>,
    bin_exists: bool,
    config: Seq<char>,
    config_exists: bool,
    rathole: Spawned,
) -> (ServeStatus, Result<(u32, u32), ErrorView>) {
    if s.rathole_pid is Some {
        (s, Err(ErrorView::Conflict("云服务正在运行,请先停止"@)))
    } else {
        let (mid, first) = match s.opencode_pid {
            Some(pid) => (s, Ok(pid)),
            None => opencode_launched(s, port, busy, opencode, now),
        };
        match first {
            Err(e) => (mid, Err(cloud_without_opencode(e))),
            Ok(pid) => {
                let (end, second) = rathole_launched(
                    mid,
                    bin,
                    bin_exists,
                    config,
                    config_exists,
                    rathole,
                );
                match second {
                    Ok(tunnel) => (end, Ok((pid, tunnel))),
                    Err(e) => (end, Err(cloud_without_rathole(pid, e))),
                }
            },
        }
    }
}

/// The binary that is run, of one that was named and one that was found.
pub open spec fn binary_of(explicit: Option<Seq<char>>, found: Option<Seq<char>>) -> Seq<char> {
    match (explicit, found) {
        (Some(b), _) => b,
        (None, Some(b)) => b,
        (None, None) => "opencode"@,
    }
}

/// The binary that is run: `explicit` (`OPENCODE_BIN`) where it is given, else
/// the one that was found on the path, else the bare name.
#[must_use]
pub fn serve_bin(explicit: Option<&str>, found: Option<&str>) -> (r: String)
    ensures
        r@ == binary_of(
            match explicit {
                Some(b) => Some(b@),
                None => None,
            },
            match found {
                Some(b) => Some(b@),
                None => None,
            },
        ),
{
    match explicit {
        Some(b) => b.to_owned(),
        None => match found {
            Some(b) => b.to_owned(),
            None => "opencode".to_owned(),
        },
    }
}

/// The process of `opencode serve` on a port, with credentials or without.
pub open spec fn serve_process(
    bin: Seq<char>,
    port: u16,
    cwd: Seq<char>,
    auth: Option<(Seq<char>, Seq<char>)>,
) -> SpecView {
    SpecView {
        program: bin,
        args: seq!["serve"@, "--port"@, text::decimal(port as nat)],
        env: match auth {
            Some((user, password)) => seq![
                ("OPENCODE_SERVER_USERNAME"@, user),
                ("OPENCODE_SERVER_PASSWORD"@, password),
            ],
            None => Seq::empty(),
        },
        working_dir: Some(cwd),
    }
}

/// The process description of `opencode serve --port <port>`, with the
/// credentials in its environment where there are any.
#[must_use]
pub fn build_opencode_serve_spec(bin: &str, port: u16, cwd: &str, auth: Option<&ServeAuth>) -> (r:
    ProcessSpec)
    ensures
        r@ == serve_process(
            bin@,
            port,
            cwd@,
            match auth {
                Some(a) => Some((a.username@, a.password@)),
                None => None,
            },
        ),
{
    let n: String = text::to_decimal(port as u64);
    let mut spec = ProcessSpec::new(bin).arg("serve").arg("--port").arg(n.as_str()).cwd(cwd);
    assert(spec@.args =~= seq!["serve"@, "--port"@, text::decimal(port as nat)]);
    if let Some(a) = auth {
        spec =
        spec.env("OPENCODE_SERVER_USERNAME", a.username.as_str()).env(
            "OPENCODE_SERVER_PASSWORD",
            a.password.as_str(),
        );
        assert(spec@.env =~= seq![
            ("OPENCODE_SERVER_USERNAME"@, a.username@),
            ("OPENCODE_SERVER_PASSWORD"@, a.password@),
        ]);
    }
    spec
}

/// The process description of the tunnel.
#[must_use]
pub fn build_rathole_spec(bin: &str, config: &str) -> (r: ProcessSpec)
    ensures
        r@ == (SpecView {
            program: bin@,
            args: seq![config@],
            env: Seq::empty(),
            working_dir: None,
        }),
{
    let spec = ProcessSpec::new(bin).arg(config);
    assert(spec@.args =~= seq![config@]);
    spec
}

/// While the tunnel runs, nothing is launched: every launch is refused with a
/// conflict and leaves the status as it is, whatever else holds.
pub proof fn law_nothing_launches_while_tunnel_runs(
    s: ServeStatus,
    port: u16,
    busy: bool,
    opencode: Spawned,
    now: Timestamp,
    bin: Seq<char>,
    bin_exists: bool,
    config: Seq<char>,
    config_exists: bool,
    rathole: Spawned,
)
    requires
        s.rathole_pid is Some,
    ensures
        opencode_launched(s, port, busy, opencode, now).0 == s,
        opencode_launched(s, port, busy, opencode, now).1 is Err,
        opencode_launched(s, port, busy, opencode, now).1->Err_0 is Conflict,
        rathole_launched(s, bin, bin_exists, config, config_exists, rathole).0 == s,
        rathole_launched(s, bin, bin_exists, config, config_exists, rathole).1 is Err,
        rathole_launched(s, bin, bin_exists, config, config_exists, rathole).1->Err_0 is Conflict,
        cloud_launched(
            s,
            port,
            busy,
            opencode,
            now,
            bin,
            bin_exists,
            config,
            config_exists,
            rathole,
        ).0 == s,
        cloud_launched(
            s,
            port,
            busy,
            opencode,
            now,
            bin,
            bin_exists,
            config,
            config_exists,
            rathole,
        ).1 is Err,
{
}

/// The cloud service is all or nothing as far as the tunnel goes: it succeeds
/// exactly when both processes run afterwards, and after a failure the tunnel
/// does not run unless it did before. `opencode serve`, once up, stays up.
pub proof fn law_cloud_service_outcome(
    s: ServeStatus,
    port: u16,
    busy: bool,
    opencode: Spawned,
    now: Timestamp,
    bin: Seq<char>,
    bin_exists: bool,
    config: Seq<char>,
    config_exists: bool,
    rathole: Spawned,
)
    ensures
        ({
            let (end, r) = cloud_launched(
                s,
                port,
                busy,
                opencode,
                now,
                bin,
                bin_exists,
                config,
                config_exists,
                rathole,
            );
            &&& match r {
                Ok((a, b)) => end.opencode_pid == Some(a) && end.rathole_pid == Some(b),
                Err(e) => end.rathole_pid == s.rathole_pid && e is Conflict,
            }
            &&& s.opencode_pid is Some ==> end.opencode_pid == s.opencode_pid
        }),
{
}

/// `opencode serve` is launched just where no tunnel runs, the port can be
/// listened on and is free, and the process stays alive; it is then running on
/// that port since now, and the tunnel is as it was. In every other case nothing
/// changes.
pub proof fn law_opencode_runs_after_its_launch(
    s: ServeStatus,
    port: u16,
    busy: bool,
    spawned: Spawned,
    now: Timestamp,
    pid: u32,
)
    ensures
        ({
            let (end, r) = opencode_launched(s, port, busy, spawned, now);
            &&& r == Ok::<u32, ErrorView>(pid) <==> s.rathole_pid is None && port != 0 && !busy
                && spawned == Spawned::Alive(pid)
            &&& r == Ok::<u32, ErrorView>(pid) ==> end.opencode_pid == Some(pid) && end.port
                == Some(port) && end.rathole_pid == s.rathole_pid && end.started_at == Some(
                Timestamp { secs: now.secs, nanos: now.nanos, offset: 0 },
            )
            &&& r is Err ==> end == s
            &&& s.rathole_pid is None && port == 0 ==> r is Err && r->Err_0 is BadRequest
            &&& s.rathole_pid is None && port != 0 && busy ==> r is Err && r->Err_0 is Conflict
            &&& s.rathole_pid is None && port != 0 && !busy && spawned is Exited ==> r is Err
                && r->Err_0 is Internal
            &&& s.rathole_pid is None && port != 0 && !busy && spawned is Failed ==> r is Err
                && r->Err_0 == spawned->Failed_0@
        }),
{
}

/// The tunnel is launched just where it does not run, its binary and its
/// configuration are there, and the process stays alive; only its PID is then
/// noted. In every other case nothing changes.
pub proof fn law_tunnel_runs_after_its_launch(
    s: ServeStatus,
    bin: Seq<char>,
    bin_exists: bool,
    config: Seq<char>,
    config_exists: bool,
    spawned: Spawned,
    pid: u32,
)
    ensures
        ({
            let (end, r) = rathole_launched(s, bin, bin_exists, config, config_exists, spawned);
            &&& r == Ok::<u32, ErrorView>(pid) <==> s.rathole_pid is None && bin_exists
                && config_exists && spawned == Spawned::Alive(pid)
            &&& r == Ok::<u32, ErrorView>(pid) ==> end.rathole_pid == Some(pid)
                && end.opencode_pid == s.opencode_pid && end.port == s.port && end.started_at
                == s.started_at
            &&& r is Err ==> end == s
            &&& s.rathole_pid is None && !(bin_exists && config_exists) ==> r is Err
                && r->Err_0 is BadRequest
            &&& s.rathole_pid is None && bin_exists && config_exists && spawned is Exited ==> r
                is Err && r->Err_0 is Internal
            &&& s.rathole_pid is None && bin_exists && config_exists && spawned is Failed ==> r
                is Err && r->Err_0 == spawned->Failed_0@
        }),
{
}

/// The cloud service starts just where the tunnel can be launched next to an
/// `opencode serve` that runs or can be launched; one that runs is left alone.
pub proof fn law_cloud_service_needs_both(
    s: ServeStatus,
    port: u16,
    busy: bool,
    opencode: Spawned,
    now: Timestamp,
    bin: Seq<char>,
    bin_exists: bool,
    config: Seq<char>,
    config_exists: bool,
    rathole: Spawned,
)
    ensures
        ({
            let (end, r) = cloud_launched(
                s,
                port,
                busy,
                opencode,
                now,
                bin,
                bin_exists,
                config,
                config_exists,
                rathole,
            );
            &&& r is Ok <==> s.rathole_pid is None && bin_exists && config_exists && rathole
                is Alive && (s.opencode_pid is Some || (port != 0 && !busy && opencode is Alive))
            &&& s.opencode_pid is Some ==> end.port == s.port && end.started_at == s.started_at
            &&& s.opencode_pid is None && s.rathole_pid is None && port != 0 && !busy ==> (
            opencode matches Spawned::Alive(pid) ==> end.opencode_pid == Some(pid) && end.port
                == Some(port))
            &&& s.opencode_pid is None && !(port != 0 && !busy && opencode is Alive) ==> end == s
        }),
{
}

/// A port can be used just where it is not zero and nothing listens on it.
pub proof fn law_free_ports_can_be_used(port: u16, busy: bool)
    ensures
        port_problem(port, busy) is None <==> port != 0 && !busy,
        port == 0 ==> port_problem(port, busy)->0 is BadRequest,
        port != 0 && busy ==> port_problem(port, busy)->0 is Conflict,
{
}

/// A process that is seen alive is waited for no longer, nor is one that is gone; one
/// that is not seen yet is probed again until the last probe was made.
pub proof fn law_probing_ends(alive: Option<bool>, probes: u64, max: u64)
    ensures
        probe_step(alive, probes, max) is Alive <==> alive == Some(true),
        probe_step(alive, probes, max) is Again <==> alive == Some(false) && probes < max,
        probes >= max ==> !(probe_step(alive, probes, max) is Again),
{
}

/// A process that was asked to terminate is killed only while it runs and after its
/// grace is over; until then it is waited for, and once it is gone all is done.
pub proof fn law_only_running_processes_are_killed(state: Terminating, grace_over: bool)
    ensures
        term_step(state, grace_over) is Kill <==> state is Running && grace_over,
        term_step(state, grace_over) is Wait <==> state is Running && !grace_over,
        term_step(state, grace_over) is Finish <==> !(state is Running),
{
}

/// Stopping one process leaves the other as it is; stopping undoes what launching
/// noted of the PID. After both were stopped nothing runs, in whichever order.
pub proof fn law_stopping_leaves_the_other(
    s: ServeStatus,
    port: u16,
    busy: bool,
    spawned: Spawned,
    now: Timestamp,
)
    ensures
        without_opencode(s).opencode_pid is None,
        without_opencode(s).rathole_pid == s.rathole_pid,
        without_rathole(s).rathole_pid is None,
        without_rathole(s).opencode_pid == s.opencode_pid,
        without_rathole(without_opencode(s)) == without_opencode(without_rathole(s)),
        without_opencode(s).port == s.port && without_opencode(s).started_at == s.started_at,
        without_rathole(s).port == s.port && without_rathole(s).started_at == s.started_at,
        s.opencode_pid is None ==> without_opencode(
            opencode_launched(s, port, busy, spawned, now).0,
        ).opencode_pid == s.opencode_pid,
{
}

/// The cloud service begins with the server that runs, and is refused just where its
/// tunnel runs.
pub proof fn law_cloud_service_begins_with_the_server(s: ServeStatus)
    ensures
        cloud_begun(s) is Err <==> s.rathole_pid is Some,
        cloud_begun(s) is Err ==> cloud_begun(s)->Err_0 is Conflict,
        cloud_begun(s) is Ok ==> cloud_begun(s)->Ok_0 == s.opencode_pid,
{
}

/// A binary that was named comes before one that was found.
pub proof fn law_named_binary_comes_first(explicit: Option<Seq<char>>, found: Option<Seq<char>>)
    ensures
        explicit is Some ==> binary_of(explicit, found) == explicit->0,
        explicit is None && found is Some ==> binary_of(explicit, found) == found->0,
        explicit is None && found is None ==> binary_of(explicit, found) == "opencode"@,
{
}

/// The server listens on the port that it was launched for: the port follows its
/// option and can be read back; the credentials are in its environment and not among
/// its arguments.
pub proof fn law_server_is_told_its_port(
    bin: Seq<char>,
    port: u16,
    cwd: Seq<char>,
    user: Seq<char>,
    password: Seq<char>,
)
    ensures
        ({
            let p = serve_process(bin, port, cwd, Some((user, password)));
            let q = serve_process(bin, port, cwd, None);
            &&& p.program == bin && p.working_dir == Some(cwd)
            &&& p.args.len() == 3 && p.args[0] == "serve"@ && p.args[1] == "--port"@
            &&& text::parsed_unsigned(p.args[2], 65535) == Some(port as nat)
            &&& p.env.contains(("OPENCODE_SERVER_USERNAME"@, user))
            &&& p.env.contains(("OPENCODE_SERVER_PASSWORD"@, password))
            &&& q.env.len() == 0
            &&& q.args == p.args
        }),
{
    text::law_decimal_reads_back(port as nat, 65535);
    let p = serve_process(bin, port, cwd, Some((user, password)));
    assert(p.env[0] == ("OPENCODE_SERVER_USERNAME"@, user));
    assert(p.env[1] == ("OPENCODE_SERVER_PASSWORD"@, password));
}

} // verus!
