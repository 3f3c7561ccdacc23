//! The upgrades of opencode and oh-my-openagent: what their outcome means.

use vstd::prelude::*;
use vstd::string::*;

use crate::envfile;
use crate::error::{glued, AppError, ErrorView};
use crate::text;

verus! {

/// How long `opencode upgrade` may take, in seconds.
pub const UPGRADE_SECONDS: u64 = 300;

/// What an upgrade did.
#[derive(Debug, PartialEq, Eq)]
pub enum UpgradeResult {
    /// The version did not change.
    AlreadyLatest,
    /// The version changed.
    Upgraded,
    /// It failed, for this reason.
    Failed(String),
}

/// What running a command gave.
#[derive(Debug)]
pub enum CommandOutput {
    /// It could not be run, for this reason.
    Failed(String),
    /// It exited, with this status line and output.
    Exited { success: bool, status: String, stdout: String },
}

/// What became of `opencode upgrade`.
#[derive(Debug)]
pub enum UpgradeRun {
    /// It did not end in time.
    TimedOut,
    /// It ended.
    Ended(CommandOutput),
}

/// What `opencode --version` comes to.
pub open spec fn version_of(out: CommandOutput) -> Result<Seq<char>, ErrorView> {
    match out {
        CommandOutput::Failed(e) => Err(
            ErrorView::Internal("opencode --version failed: "@ + e@),
        ),
        CommandOutput::Exited { success, status, stdout } => if success {
            Ok(text::trimmed(stdout@))
        } else {
            Err(ErrorView::Io("opencode --version exited with status "@ + status@))
        },
    }
}

/// The error that `opencode upgrade` comes to, if it failed.
pub open spec fn upgrade_error(run: UpgradeRun) -> Option<ErrorView> {
    match run {
        UpgradeRun::TimedOut => Some(
            ErrorView::Internal("opencode upgrade timed out after 300s"@),
        ),
        UpgradeRun::Ended(CommandOutput::Failed(e)) => Some(
            ErrorView::Internal("opencode upgrade spawn failed: "@ + e@),
        ),
        UpgradeRun::Ended(CommandOutput::Exited { success, status, stdout }) => if success {
            None
        } else {
            Some(ErrorView::Io("opencode upgrade exited with status "@ + status@))
        },
    }
}

/// The version that `opencode --version` printed.
///
/// # Errors
/// Returns [`AppError::Internal`] if the command could not be run, and
/// [`AppError::Io`] if it failed.
pub fn run_version(out: &CommandOutput) -> (r: Result<String, AppError>)
    ensures
        match r {
            Ok(v) => version_of(*out) == Ok::<Seq<char>, ErrorView>(v@),
            Err(e) => version_of(*out) == Err::<Seq<char>, ErrorView>(e@),
        },
{
    match out {
        CommandOutput::Failed(e) => Err(
            AppError::Internal(glued("opencode --version failed: ", e.as_str())),
        ),
        CommandOutput::Exited { success, status, stdout } => {
            if *success {
                Ok(text::trim(stdout.as_str()))
            } else {
                Err(
                    AppError::Io(
                        glued("opencode --version exited with status ", status.as_str()),
                    ),
                )
            }
        },
    }
}

/// Whether `opencode upgrade` succeeded.
///
/// # Errors
/// Returns [`AppError::Internal`] if it timed out or could not be run, and
/// [`AppError::Io`] if it failed.
pub fn run_upgrade(run: &UpgradeRun) -> (r: Result<(), AppError>)
    ensures
        match r {
            Ok(_) => upgrade_error(*run) is None,
            Err(e) => upgrade_error(*run) == Some(e@),
        },
{
    match run {
        UpgradeRun::TimedOut => Err(
            AppError::Internal("opencode upgrade timed out after 300s".to_owned()),
        ),
        UpgradeRun::Ended(CommandOutput::Failed(e)) => Err(
            AppError::Internal(glued("opencode upgrade spawn failed: ", e.as_str())),
        ),
        UpgradeRun::Ended(CommandOutput::Exited { success, status, stdout: _ }) => {
            if *success {
                Ok(())
            } else {
                Err(
                    AppError::Io(
                        glued("opencode upgrade exited with status ", status.as_str()),
                    ),
                )
            }
        },
    }
}

/// What an upgrade comes to, from the version command before it, the upgrade
/// itself, and the version command after it: the result and both versions. The
/// first of the three that failed decides the error.
///
/// # Errors
/// Returns [`AppError::Internal`] if one of the commands could not be run or
/// timed out, and [`AppError::Io`] if one failed.
pub fn upgrade_opencode(before: &CommandOutput, run: &UpgradeRun, after: &CommandOutput) -> (r:
    Result<(UpgradeResult, String, String), AppError>)
    ensures
        match (version_of(*before), upgrade_error(*run), version_of(*after)) {
            (Err(e), _, _) => r matches Err(f) && f@ == e,
            (Ok(_), Some(e), _) => r matches Err(f) && f@ == e,
            (Ok(_), None, Err(e)) => r matches Err(f) && f@ == e,
            (Ok(v), None, Ok(w)) => r matches Ok((done, a, b)) && a@ == v && b@ == w && (if v
                == w {
                done is AlreadyLatest
            } else {
                done is Upgraded
            }),
        },
{
    let v: String = match run_version(before) {
        Ok(v) => v,
        Err(e) => return Err(e),
    };
    match run_upgrade(run) {
        Ok(_) => {},
        Err(e) => return Err(e),
    }
    let w: String = match run_version(after) {
        Ok(w) => w,
        Err(e) => return Err(e),
    };
    let done: UpgradeResult = if text::same(v.as_str(), w.as_str()) {
        UpgradeResult::AlreadyLatest
    } else {
        UpgradeResult::Upgraded
    };
    Ok((done, v, w))
}

/// What an upgrade of oh-my-openagent comes to, from the installed version
/// before it, how the package manager ended, and the installed version after
/// it. A version that cannot be told is like any other.
#[must_use]
pub fn upgrade_omo(before: Option<&str>, success: bool, stderr: &str, after: Option<&str>) -> (r:
    UpgradeResult)
    ensures
        if !success {
            r matches UpgradeResult::Failed(why) && why@ == text::trimmed(stderr@)
        } else if envfile::text_of(before) == envfile::text_of(after) {
            r is AlreadyLatest
        } else {
            r is Upgraded
        },
{
    if !success {
        return UpgradeResult::Failed(text::trim(stderr));
    }
    let same: bool = match (before, after) {
        (Some(a), Some(b)) => text::same(a, b),
        (None, None) => true,
        _ => false,
    };
    if same {
        UpgradeResult::AlreadyLatest
    } else {
        UpgradeResult::Upgraded
    }
}

/// What the user is told of the upgrade of opencode.
pub open spec fn opencode_news(r: Result<(UpgradeResult, String, String), String>) -> Seq<char> {
    match r {
        Ok((UpgradeResult::Upgraded, before, after)) => "opencode: "@ + before@ + " → "@ + after@,
        Ok((UpgradeResult::AlreadyLatest, v, _)) => "opencode 已是最新: "@ + v@,
        Ok((UpgradeResult::Failed(why), _, _)) => "opencode 升级失败: "@ + why@,
        Err(e) => "opencode 升级错误: "@ + e@,
    }
}

/// What the user is told of the upgrade of oh-my-openagent.
pub open spec fn omo_news(r: Result<UpgradeResult, String>) -> Seq<char> {
    match r {
        Ok(UpgradeResult::Upgraded) => "omo 已升级"@,
        Ok(UpgradeResult::AlreadyLatest) => "omo 已是最新"@,
        Ok(UpgradeResult::Failed(why)) => "omo 升级失败: "@ + why@,
        Err(e) => "omo 升级错误: "@ + e@,
    }
}

/// The message that sums up an upgrade of both.
#[must_use]
pub fn upgrade_message(
    opencode: &Result<(UpgradeResult, String, String), String>,
    omo: &Result<UpgradeResult, String>,
) -> (r: String)
    ensures
        r@ == opencode_news(*opencode) + " | "@ + omo_news(*omo),
{
    let mut m: String = match opencode {
        Ok((UpgradeResult::Upgraded, before, after)) => {
            let mut s: String = glued("opencode: ", before.as_str());
            s.append(" → ");
            s.append(after.as_str());
            s
        },
        Ok((UpgradeResult::AlreadyLatest, v, _)) => glued("opencode 已是最新: ", v.as_str()),
        Ok((UpgradeResult::Failed(why), _, _)) => glued("opencode 升级失败: ", why.as_str()),
        Err(e) => glued("opencode 升级错误: ", e.as_str()),
    };
    m.append(" | ");
    match omo {
        Ok(UpgradeResult::Upgraded) => m.append("omo 已升级"),
        Ok(UpgradeResult::AlreadyLatest) => m.append("omo 已是最新"),
        Ok(UpgradeResult::Failed(why)) => {
            m.append("omo 升级失败: ");
            m.append(why.as_str());
            assert(m@ =~= opencode_news(*opencode) + " | "@ + omo_news(*omo));
        },
        Err(e) => {
            m.append("omo 升级错误: ");
            m.append(e.as_str());
            assert(m@ =~= opencode_news(*opencode) + " | "@ + omo_news(*omo));
        },
    }
    m
}

/// A version is known just where the command could be run and succeeded, and an
/// upgrade has worked just where it ended in time and succeeded.
pub proof fn law_only_success_counts(out: CommandOutput)
    ensures
        version_of(out) is Ok <==> out is Exited && out->success,
        out matches CommandOutput::Exited { success: true, stdout, .. } ==> version_of(out)
            == Ok::<Seq<char>, ErrorView>(text::trimmed(stdout@)),
        upgrade_error(UpgradeRun::Ended(out)) is None <==> out is Exited && out->success,
        upgrade_error(UpgradeRun::TimedOut) is Some,
        out is Failed ==> version_of(out)->Err_0 is Internal && upgrade_error(
            UpgradeRun::Ended(out),
        )->0 is Internal,
        out matches CommandOutput::Exited { success: false, .. } ==> version_of(out)->Err_0 is Io
            && upgrade_error(UpgradeRun::Ended(out))->0 is Io,
{
}

/// What the user is told of an upgrade names the versions, or the reason of its
/// failure.
pub proof fn law_upgrade_news_names_the_versions(before: String, after: String, why: String)
    ensures
        text::contains(
            opencode_news(Ok((UpgradeResult::Upgraded, before, after))),
            before@ + " → "@ + after@,
        ),
        text::ends_with(opencode_news(Ok((UpgradeResult::AlreadyLatest, before, after))), before@),
        text::ends_with(
            opencode_news(Ok((UpgradeResult::Failed(why), before, after))),
            why@,
        ),
        text::ends_with(opencode_news(Err(why)), why@),
        text::ends_with(omo_news(Ok(UpgradeResult::Failed(why))), why@),
        text::ends_with(omo_news(Err(why)), why@),
{
    let a = opencode_news(Ok((UpgradeResult::Upgraded, before, after)));
    let part = before@ + " → "@ + after@;
    let n = "opencode: "@.len() as int;
    assert(a.subrange(n, n + part.len()) =~= part);
    assert(text::occurs_at(a, part, n));
    let b = opencode_news(Ok((UpgradeResult::AlreadyLatest, before, after)));
    assert(b.skip(b.len() - before@.len()) =~= before@);
    let c = opencode_news(Ok((UpgradeResult::Failed(why), before, after)));
    assert(c.skip(c.len() - why@.len()) =~= why@);
    let d = opencode_news(Err(why));
    assert(d.skip(d.len() - why@.len()) =~= why@);
    let e = omo_news(Ok(UpgradeResult::Failed(why)));
    assert(e.skip(e.len() - why@.len()) =~= why@);
    let f = omo_news(Err(why));
    assert(f.skip(f.len() - why@.len()) =~= why@);
}

} // verus!
