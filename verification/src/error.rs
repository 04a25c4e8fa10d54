//! Errors of platform operations and of the planning functions.

use vstd::prelude::*;
use crate::types::Platform;

verus! {

/// An error of a platform operation or of a planning step.
#[derive(Debug)]
pub enum Error {
    /// An invariant of this crate was violated by the input.
    Internal(String),
    /// The user's request cannot be carried out as given.
    InvalidArgument(String),
    /// The Stacks endpoints are not available for the repository (404/403 on lookup).
    StacksUnavailable(String),
    /// The stack addressed no longer exists (404).
    StackNotFound(String),
    /// The stack is being modified concurrently (409); retrying may succeed.
    StackConflict(String),
    /// Any other failure reported by the GitHub API.
    GitHubApi(String),
    /// An async merge is already running for the stack (409 on merge-async).
    MergeInProgress(String),
    /// A failure reported by another platform service.
    Platform(String),
    /// The named remote does not exist.
    RemoteNotFound(String),
    /// The transport failed before a response was read.
    Http(String),
    /// The platform has no such feature.
    Unsupported { feature: String, platform: Platform },
}

/// The platform's display name.
pub open spec fn platform_name(p: Platform) -> Seq<char> {
    match p {
        Platform::GitHub => "GitHub"@,
        Platform::GitLab => "GitLab"@,
    }
}

impl Error {
    /// The human-readable text of the error.
    pub open spec fn spec_message(&self) -> Seq<char> {
        match self {
            Error::Internal(m) => "internal error: "@ + m@,
            Error::InvalidArgument(m) => "invalid argument: "@ + m@,
            Error::StacksUnavailable(m) => "native stacks unavailable: "@ + m@,
            Error::StackNotFound(m) => "stack not found: "@ + m@,
            Error::StackConflict(m) => "stack conflict: "@ + m@,
            Error::GitHubApi(m) => "GitHub API error: "@ + m@,
            Error::MergeInProgress(m) => "merge already in progress: "@ + m@,
            Error::Platform(m) => "platform error: "@ + m@,
            Error::RemoteNotFound(m) => "remote '"@ + m@ + "' not found"@,
            Error::Http(m) => "HTTP error: "@ + m@,
            Error::Unsupported { feature, platform } => feature@ + " is not supported on "@
                + platform_name(*platform),
        }
    }

    /// The human-readable text of the error.
    pub fn message(&self) -> (res: String)
        ensures
            res@ == self.spec_message(),
    {
        match self {
            Error::Internal(m) => String::from_str("internal error: ").concat(m.as_str()),
            Error::InvalidArgument(m) => String::from_str("invalid argument: ").concat(m.as_str()),
            Error::StacksUnavailable(m) => String::from_str("native stacks unavailable: ").concat(
                m.as_str(),
            ),
            Error::StackNotFound(m) => String::from_str("stack not found: ").concat(m.as_str()),
            Error::StackConflict(m) => String::from_str("stack conflict: ").concat(m.as_str()),
            Error::GitHubApi(m) => String::from_str("GitHub API error: ").concat(m.as_str()),
            Error::MergeInProgress(m) => String::from_str("merge already in progress: ").concat(
                m.as_str(),
            ),
            Error::Platform(m) => String::from_str("platform error: ").concat(m.as_str()),
            Error::RemoteNotFound(m) => String::from_str("remote '").concat(m.as_str()).concat(
                "' not found",
            ),
            Error::Http(m) => String::from_str("HTTP error: ").concat(m.as_str()),
            Error::Unsupported { feature, platform } => {
                let name = match platform {
                    Platform::GitHub => "GitHub",
                    Platform::GitLab => "GitLab",
                };
                feature.clone().concat(" is not supported on ").concat(name)
            },
        }
    }
}

impl Clone for Error {
    fn clone(&self) -> (res: Self)
        ensures
            res == *self,
    {
        match self {
            Error::Internal(m) => Error::Internal(m.clone()),
            Error::InvalidArgument(m) => Error::InvalidArgument(m.clone()),
            Error::StacksUnavailable(m) => Error::StacksUnavailable(m.clone()),
            Error::StackNotFound(m) => Error::StackNotFound(m.clone()),
            Error::StackConflict(m) => Error::StackConflict(m.clone()),
            Error::GitHubApi(m) => Error::GitHubApi(m.clone()),
            Error::MergeInProgress(m) => Error::MergeInProgress(m.clone()),
            Error::Platform(m) => Error::Platform(m.clone()),
            Error::RemoteNotFound(m) => Error::RemoteNotFound(m.clone()),
            Error::Http(m) => Error::Http(m.clone()),
            Error::Unsupported { feature, platform } => Error::Unsupported {
                feature: feature.clone(),
                platform: *platform,
            },
        }
    }
}

} // verus!
