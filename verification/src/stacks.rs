//! Reading the answers of the GitHub Stacks endpoints.
//!
//! These endpoints are status-code sensitive: 404 means both "feature
//! unavailable" and "stack gone" depending on the route, 409 asks for a retry,
//! and merge-async answers 200 and 202 with different meanings. The transport
//! itself is the caller's; this module decides what each status means.

use vstd::prelude::*;
use crate::error::Error;
use crate::text::decimal;
use crate::types::{MergeAsyncOutcome, PrStack};

verus! {

/// The reason phrase that `reqwest::StatusCode`'s `Display` prints after the
/// code: the canonical reason of a registered status, or
/// `<unknown status code>`.
pub uninterp spec fn status_reason(code: u16) -> Seq<char>;

/// Calls `reqwest::StatusCode::from_u16(code)` and renders the status with
/// `to_string()`. Claimed, from the `http` crate's `Display` impl for
/// `StatusCode`: the code in decimal, a space, then the reason phrase. The
/// reason phrase itself is left unstated (`status_reason`). `from_u16` rejects
/// codes outside 100..=999, hence the precondition.
#[verifier::external_body]
fn status_text(code: u16) -> (s: String)
    requires
        100 <= code <= 999,
    ensures
        s@ == decimal(code as nat) + " "@ + status_reason(code),
{
    reqwest::StatusCode::from_u16(code).unwrap().to_string()
}

/// A Stacks endpoint.
#[derive(Debug, Clone, Copy, PartialEq, Eq, Structural)]
pub enum StacksEndpoint {
    /// `GET /repos/{o}/{r}/stacks?pull_request=N`
    FindForPr,
    /// `POST /repos/{o}/{r}/stacks`
    Create,
    /// `POST /repos/{o}/{r}/stacks/{n}/add`
    Add,
    /// `POST /repos/{o}/{r}/stacks/{n}/unstack`
    Unstack,
    /// `PUT /repos/{o}/{r}/pulls/{n}/merge-async`
    MergeAsync,
    /// `GET /repos/{o}/{r}/pulls/{n}/merge-async/{uuid}`
    PollMergeAsync,
}

/// How to read an answer.
#[derive(Debug, Clone, Copy, PartialEq, Eq, Structural)]
pub enum ResponseReading {
    /// Success: parse the JSON body.
    Json,
    /// Success without a body: the stack dissolved (unstack), or the PR is
    /// already merged or queued (merge-async).
    Empty,
    /// The Stacks feature is not available for the repository.
    Unavailable,
    /// Failure: read the body and report [`stacks_failure`].
    ErrorFromBody,
}

/// How each endpoint's answers are read, by status.
pub open spec fn spec_reading(endpoint: StacksEndpoint, status: u16) -> ResponseReading {
    match endpoint {
        StacksEndpoint::FindForPr => if status == 200 {
            ResponseReading::Json
        } else if status == 404 || status == 403 {
            ResponseReading::Unavailable
        } else {
            ResponseReading::ErrorFromBody
        },
        StacksEndpoint::Create => if status == 201 {
            ResponseReading::Json
        } else {
            ResponseReading::ErrorFromBody
        },
        StacksEndpoint::Add => if status == 200 {
            ResponseReading::Json
        } else {
            ResponseReading::ErrorFromBody
        },
        StacksEndpoint::Unstack => if status == 200 {
            ResponseReading::Json
        } else if status == 204 {
            ResponseReading::Empty
        } else {
            ResponseReading::ErrorFromBody
        },
        StacksEndpoint::MergeAsync => if status == 200 {
            ResponseReading::Empty
        } else if status == 202 {
            ResponseReading::Json
        } else {
            ResponseReading::ErrorFromBody
        },
        StacksEndpoint::PollMergeAsync => if status == 200 {
            ResponseReading::Json
        } else {
            ResponseReading::ErrorFromBody
        },
    }
}

/// How to read the answer `status` of `endpoint`.
pub fn response_reading(endpoint: StacksEndpoint, status: u16) -> (res: ResponseReading)
    ensures
        res == spec_reading(endpoint, status),
{
    match endpoint {
        StacksEndpoint::FindForPr => if status == 200 {
            ResponseReading::Json
        } else if status == 404 || status == 403 {
            ResponseReading::Unavailable
        } else {
            ResponseReading::ErrorFromBody
        },
        StacksEndpoint::Create => if status == 201 {
            ResponseReading::Json
        } else {
            ResponseReading::ErrorFromBody
        },
        StacksEndpoint::Add => if status == 200 {
            ResponseReading::Json
        } else {
            ResponseReading::ErrorFromBody
        },
        StacksEndpoint::Unstack => if status == 200 {
            ResponseReading::Json
        } else if status == 204 {
            ResponseReading::Empty
        } else {
            ResponseReading::ErrorFromBody
        },
        StacksEndpoint::MergeAsync => if status == 200 {
            ResponseReading::Empty
        } else if status == 202 {
            ResponseReading::Json
        } else {
            ResponseReading::ErrorFromBody
        },
        StacksEndpoint::PollMergeAsync => if status == 200 {
            ResponseReading::Json
        } else {
            ResponseReading::ErrorFromBody
        },
    }
}

/// Successful answers that carry a result are parsed, never read as empty: an
/// answer is read as empty only for a dissolved stack (unstack, 204) or a PR
/// already merged or queued (merge-async, 200). In particular an unstack
/// answered 200 carries the updated stack (merged PRs remain) and is parsed,
/// and only 204 means the stack dissolved. Lookup failures 404 and 403 mean the
/// feature is unavailable; every other status of every endpoint that is not
/// its success is a failure read from the body.
pub proof fn successful_answers_are_read(endpoint: StacksEndpoint, status: u16)
    ensures
        spec_reading(endpoint, status) == ResponseReading::Empty <==> (endpoint
            == StacksEndpoint::Unstack && status == 204) || (endpoint == StacksEndpoint::MergeAsync
            && status == 200),
        spec_reading(endpoint, status) == ResponseReading::Json <==> (status == 200 && endpoint
            != StacksEndpoint::Create && endpoint != StacksEndpoint::MergeAsync) || (endpoint
            == StacksEndpoint::Create && status == 201) || (endpoint == StacksEndpoint::MergeAsync
            && status == 202),
        spec_reading(endpoint, status) == ResponseReading::Unavailable <==> endpoint
            == StacksEndpoint::FindForPr && (status == 404 || status == 403),
{
}

/// Message of the error when the Stacks feature is unavailable.
pub open spec fn unavailable_message() -> Seq<char> {
    "stacks endpoint not available for this repository"@
}

/// The error when the Stacks feature is unavailable for the repository.
pub fn stacks_unavailable() -> (res: Error)
    ensures
        res matches Error::StacksUnavailable(m) && m@ == unavailable_message(),
{
    Error::StacksUnavailable(String::from_str("stacks endpoint not available for this repository"))
}

/// What a failed request was doing, as error messages name it.
pub open spec fn endpoint_context(endpoint: StacksEndpoint) -> Seq<char> {
    match endpoint {
        StacksEndpoint::FindForPr => "list stacks"@,
        StacksEndpoint::Create => "create stack"@,
        StacksEndpoint::Add => "add to stack"@,
        StacksEndpoint::Unstack => "unstack"@,
        StacksEndpoint::MergeAsync => "merge-async"@,
        StacksEndpoint::PollMergeAsync => "poll merge-async"@,
    }
}

fn context_str(endpoint: StacksEndpoint) -> (s: &'static str)
    ensures
        s@ == endpoint_context(endpoint),
{
    match endpoint {
        StacksEndpoint::FindForPr => "list stacks",
        StacksEndpoint::Create => "create stack",
        StacksEndpoint::Add => "add to stack",
        StacksEndpoint::Unstack => "unstack",
        StacksEndpoint::MergeAsync => "merge-async",
        StacksEndpoint::PollMergeAsync => "poll merge-async",
    }
}

/// Map a non-success Stacks answer to a structured error.
pub fn stacks_failure(endpoint: StacksEndpoint, status: u16, body: &str) -> (res: Error)
    requires
        100 <= status <= 999,
    ensures
        endpoint == StacksEndpoint::MergeAsync && status == 409 ==> (res matches Error::MergeInProgress(m) && m@ == body@),
        !(endpoint == StacksEndpoint::MergeAsync && status == 409) ==> {
            let context = endpoint_context(endpoint);
            &&& status == 404 ==> (res matches Error::StackNotFound(m) && m@ == context + ": "@ + body@)
            &&& status == 409 ==> (res matches Error::StackConflict(m) && m@ == context + ": "@ + body@)
            &&& status != 404 && status != 409 ==> (res matches Error::GitHubApi(m) && m@ == context
                + " failed ("@ + decimal(status as nat) + " "@ + status_reason(status) + "): "@ + body@)
        },
{
    if endpoint == StacksEndpoint::MergeAsync && status == 409 {
        return Error::MergeInProgress(String::from_str(body));
    }
    let context = context_str(endpoint);
    if status == 404 {
        Error::StackNotFound(String::from_str(context).concat(": ").concat(body))
    } else if status == 409 {
        Error::StackConflict(String::from_str(context).concat(": ").concat(body))
    } else {
        let st = status_text(status);
        let m = String::from_str(context).concat(" failed (").concat(st.as_str()).concat("): ").concat(body);
        assert(m@ =~= endpoint_context(endpoint) + " failed ("@ + decimal(status as nat) + " "@
            + status_reason(status) + "): "@ + body@);
        Error::GitHubApi(m)
    }
}

/// The current stack among those listed for a PR: the list is newest first.
pub fn current_stack(stacks: Vec<PrStack>) -> (res: Option<PrStack>)
    ensures
        stacks@.len() > 0 ==> res == Some(stacks@[0]),
        stacks@.len() == 0 ==> res is None,
{
    let mut stacks = stacks;
    if stacks.len() == 0 {
        return None;
    }
    let ghost first = stacks@[0];
    let s = stacks.remove(0);
    Some(s)
}

/// Message when an accepted merge-async answer has no uuid.
pub open spec fn missing_uuid_message() -> Seq<char> {
    "merge-async response missing uuid"@
}

/// Read an accepted (202) merge-async answer from its `uuid` field (none when
/// absent or not a string).
pub fn merge_async_accepted(uuid: Option<String>) -> (res: Result<MergeAsyncOutcome, Error>)
    ensures
        uuid matches Some(u) ==> res == Ok::<MergeAsyncOutcome, Error>(MergeAsyncOutcome::Accepted { uuid: u }),
        uuid is None ==> (res matches Err(Error::GitHubApi(m)) && m@ == missing_uuid_message()),
{
    match uuid {
        Some(u) => Ok(MergeAsyncOutcome::Accepted { uuid: u }),
        None => Err(Error::GitHubApi(String::from_str("merge-async response missing uuid"))),
    }
}

} // verus!
