//! Pushing the path list to the remote: three attempts, one second apart.

use vstd::prelude::*;
use vstd::string::*;

use crate::error::{glued, AppError, ErrorView};
use crate::platform::Platform;
use crate::storage::remote;
use crate::storage::remote::{ClientView, RemoteClient};
use crate::text;

verus! {

/// How often a push is attempted.
pub const MAX_ATTEMPTS: u32 = 3;

/// What became of a PUT request.
#[derive(Debug, Clone, Copy, PartialEq, Eq, Structural)]
pub enum PutOutcome {
    /// It was answered with this status (`0` for a network failure).
    Status(u16),
    /// It failed.
    Errored,
}

/// What a push does after an attempt.
#[derive(Debug, Clone, Copy, PartialEq, Eq, Structural)]
pub enum PushStep {
    /// The remote has taken the list.
    Done,
    /// Wait a second and try again.
    Retry,
    /// Give up.
    Exhausted,
}

impl PutOutcome {
    /// Whether the remote has taken the list: any 2xx status.
    pub open spec fn is_accepted(self) -> bool {
        match self {
            PutOutcome::Status(s) => 200 <= s <= 299,
            PutOutcome::Errored => false,
        }
    }

    /// Whether the remote has taken the list.
    pub fn accepted(self) -> (r: bool)
        ensures
            r == self.is_accepted(),
    {
        match self {
            PutOutcome::Status(s) => 200 <= s && s <= 299,
            PutOutcome::Errored => false,
        }
    }
}

/// What comes after the attempt with that number, counted from one.
pub open spec fn step_after(attempt: int, outcome: PutOutcome) -> PushStep {
    if outcome.is_accepted() {
        PushStep::Done
    } else if attempt < MAX_ATTEMPTS {
        PushStep::Retry
    } else {
        PushStep::Exhausted
    }
}

/// Decides what comes after an attempt.
pub fn after_attempt(attempt: u32, outcome: PutOutcome) -> (r: PushStep)
    ensures
        r == step_after(attempt as int, outcome),
{
    if outcome.accepted() {
        PushStep::Done
    } else if attempt < MAX_ATTEMPTS {
        PushStep::Retry
    } else {
        PushStep::Exhausted
    }
}

/// The error of an awaited push that was given up.
#[must_use]
pub fn exhausted_error() -> (r: AppError)
    ensures
        r@ == ErrorView::Internal(
            "remote path-list push failed after 3 attempts (see logs); local cache updated but remote still holds the deleted entry"@,
        ),
{
    AppError::Internal(
        "remote path-list push failed after 3 attempts (see logs); local cache updated but remote still holds the deleted entry".to_owned(),
    )
}

/// The first thing that stands in the way of a push, if anything: there is no
/// remote, the list could not be serialized, or the remote path is not known.
pub open spec fn push_obstacle(client: Option<ClientView>, body: Result<String, String>) -> Option<
    ErrorView,
> {
    match client {
        None => Some(
            ErrorView::Internal("远程存储未配置（需要先完成账户登录 + fetch_user_info）"@),
        ),
        Some(c) => match body {
            Err(e) => Some(ErrorView::Internal("serialize path-list: "@ + e@)),
            Ok(_) => if remote::has_plan(c) {
                None
            } else {
                match c.user_id {
                    Some(id) => Some(ErrorView::Internal(remote::device_required(id))),
                    None => None,
                }
            },
        },
    }
}

/// Starts a push: the path to put to, and the body.
///
/// # Errors
/// Returns [`AppError::Internal`] when there is no remote, when the list could
/// not be serialized, and when the remote path is not known.
pub fn start_push(client: &Option<RemoteClient>, body: Result<String, String>) -> (r: Result<
    (String, String),
    AppError,
>)
    ensures
        match r {
            Ok((path, text)) => {
                &&& push_obstacle(
                    match *client {
                        Some(c) => Some(c@),
                        None => None,
                    },
                    body,
                ) is None
                &&& body == Ok::<String, String>(text)
                &&& client matches Some(c) && exists|p: Platform, username: Seq<char>|
                    (#[trigger] remote::planned(c@, p, username)) is Ok && path@ == "/"@
                        + remote::planned(c@, p, username)->Ok_0.path_list()
            },
            Err(e) => push_obstacle(
                match *client {
                    Some(c) => Some(c@),
                    None => None,
                },
                body,
            ) == Some(e@),
        },
{
    match client {
        None => Err(
            AppError::Internal(
                "远程存储未配置（需要先完成账户登录 + fetch_user_info）".to_owned(),
            ),
        ),
        Some(c) => match body {
            Err(e) => Err(AppError::Internal(glued("serialize path-list: ", e.as_str()))),
            Ok(text) => match c.remote_paths() {
                Ok(rp) => Ok((rp.path_list_with_slash(), text)),
                Err(e) => {
                    proof {
                        let p = Platform::Linux;
                        let u = Seq::<char>::empty();
                        assert(remote::planned(c@, p, u) is Err);
                    }
                    Err(e)
                },
            },
        },
    }
}

/// What a push comes to when its attempts, from the one with that number on,
/// have these outcomes.
pub open spec fn push_run(outcomes: Seq<PutOutcome>, attempt: int) -> PushStep
    decreases MAX_ATTEMPTS - attempt,
{
    match step_after(attempt, outcomes[attempt - 1]) {
        PushStep::Retry => push_run(outcomes, attempt + 1),
        s => s,
    }
}

/// A push makes at most three attempts: it succeeds exactly when the remote
/// takes the list on one of the first three, and is given up otherwise.
pub proof fn law_three_attempts(outcomes: Seq<PutOutcome>)
    requires
        outcomes.len() >= MAX_ATTEMPTS,
    ensures
        push_run(outcomes, 1) is Done <==> (outcomes[0].is_accepted() || outcomes[1].is_accepted()
            || outcomes[2].is_accepted()),
        !(push_run(outcomes, 1) is Done) ==> push_run(outcomes, 1) is Exhausted,
{
    reveal_with_fuel(push_run, 4);
}

/// The list was taken just where the status says success, from 200 to 299.
pub proof fn law_success_statuses_are_accepted(status: u16)
    ensures
        PutOutcome::Status(status).is_accepted() <==> 200 <= status < 300,
        !PutOutcome::Errored.is_accepted(),
{
}

/// A push ends with the first success; before the third attempt a failure is tried
/// again, and the third is the last.
pub proof fn law_failures_are_retried_twice(attempt: int, outcome: PutOutcome)
    ensures
        step_after(attempt, outcome) is Done <==> (outcome matches PutOutcome::Status(s) && 200
            <= s < 300),
        step_after(attempt, outcome) is Retry ==> attempt < 3,
        attempt < 3 && !(step_after(attempt, outcome) is Done) ==> step_after(attempt, outcome)
            is Retry,
        attempt >= 3 && !(step_after(attempt, outcome) is Done) ==> step_after(attempt, outcome)
            is Exhausted,
{
}

/// Nothing stands in the way of a push just where there is a client, a body, and a
/// device for the account, if there is one. Every obstacle is an internal error.
pub proof fn law_obstacles_of_a_push(client: Option<ClientView>, body: Result<String, String>)
    ensures
        push_obstacle(client, body) is None <==> client is Some && body is Ok && ((
        client->0).user_id is None || ((client->0).user_id->0).len() == 0 || ((
        client->0).device_name is Some && text::trimmed((client->0).device_name->0).len() > 0)),
        push_obstacle(client, body) is Some ==> push_obstacle(client, body)->0 is Internal,
        client is Some ==> (body matches Err(e) ==> text::ends_with(
            (push_obstacle(client, body)->0)->Internal_0,
            e@,
        )),
{
    if client is Some {
        if let Err(e) = body {
            let m = "serialize path-list: "@ + e@;
            assert(m.skip(m.len() - e@.len()) =~= e@);
        }
    }
}

} // verus!
