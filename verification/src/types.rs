//! Plain data exchanged with the hosting platform: pull requests, native stacks
//! and async-merge states.

use vstd::prelude::*;

verus! {

/// Hosting platform of a remote.
#[derive(PartialEq, Eq, Structural, Clone, Copy, Debug)]
pub enum Platform {
    GitHub,
    GitLab,
}

/// A pull request as the platform reports it.
#[derive(Debug)]
pub struct PullRequest {
    pub number: u64,
    pub html_url: String,
    pub base_ref: String,
    pub head_ref: String,
    pub title: String,
    pub node_id: Option<String>,
    pub is_draft: bool,
}

/// Reference to the base branch of a native stack.
#[derive(Debug)]
pub struct StackRef {
    pub ref_field: String,
}

/// Head branch and commit of a stack entry.
#[derive(Debug)]
pub struct PrStackHead {
    pub ref_field: String,
    pub sha: String,
}

/// One pull request of a native stack.
#[derive(Debug)]
pub struct PrStackEntry {
    pub number: u64,
    pub state: String,
    pub draft: bool,
    pub merged_at: Option<String>,
    pub head: PrStackHead,
}

/// A native stack; `pull_requests` is ordered bottom to top.
#[derive(Debug)]
pub struct PrStack {
    pub id: u64,
    pub number: u64,
    pub node_id: Option<String>,
    pub url: String,
    pub base: StackRef,
    pub open: bool,
    pub created_at: Option<String>,
    pub pull_requests: Vec<PrStackEntry>,
}

/// Status of an accepted async merge.
#[derive(PartialEq, Eq, Structural, Clone, Copy, Debug)]
pub enum MergeAsyncState {
    Pending,
    Merged,
    Enqueued,
    Failed,
}

/// Answer to an async merge request.
#[derive(Debug)]
pub enum MergeAsyncOutcome {
    /// The platform answered that the PR is already merged or queued.
    AlreadyMergedOrQueued,
    /// The merge was accepted; poll it under `uuid`.
    Accepted { uuid: String },
}

/// How a pull request is merged.
#[derive(PartialEq, Eq, Structural, Clone, Copy, Debug)]
pub enum MergeMethod {
    Merge,
    Squash,
    Rebase,
}

/// Options sent with an async merge request.
#[derive(Debug)]
pub struct MergeOptions {
    pub merge_method: MergeMethod,
    /// Head commit the merge must still point at.
    pub sha: Option<String>,
    pub commit_title: Option<String>,
    pub commit_message: Option<String>,
}

fn clone_opt_string(s: &Option<String>) -> (res: Option<String>)
    ensures
        res == *s,
{
    match s {
        Some(v) => Some(v.clone()),
        None => None,
    }
}

impl Clone for PullRequest {
    fn clone(&self) -> (res: Self)
        ensures
            res == *self,
    {
        PullRequest {
            number: self.number,
            html_url: self.html_url.clone(),
            base_ref: self.base_ref.clone(),
            head_ref: self.head_ref.clone(),
            title: self.title.clone(),
            node_id: clone_opt_string(&self.node_id),
            is_draft: self.is_draft,
        }
    }
}

impl Clone for StackRef {
    fn clone(&self) -> (res: Self)
        ensures
            res == *self,
    {
        StackRef { ref_field: self.ref_field.clone() }
    }
}

impl Clone for PrStackHead {
    fn clone(&self) -> (res: Self)
        ensures
            res == *self,
    {
        PrStackHead { ref_field: self.ref_field.clone(), sha: self.sha.clone() }
    }
}

impl Clone for PrStackEntry {
    fn clone(&self) -> (res: Self)
        ensures
            res == *self,
    {
        PrStackEntry {
            number: self.number,
            state: self.state.clone(),
            draft: self.draft,
            merged_at: clone_opt_string(&self.merged_at),
            head: self.head.clone(),
        }
    }
}

impl Clone for PrStack {
    fn clone(&self) -> (res: Self)
        ensures
            res.id == self.id,
            res.number == self.number,
            res.node_id == self.node_id,
            res.url == self.url,
            res.base == self.base,
            res.open == self.open,
            res.created_at == self.created_at,
            res.pull_requests@ == self.pull_requests@,
    {
        let pull_requests = self.pull_requests.clone();
        assert(pull_requests@ =~= self.pull_requests@);
        PrStack {
            id: self.id,
            number: self.number,
            node_id: clone_opt_string(&self.node_id),
            url: self.url.clone(),
            base: self.base.clone(),
            open: self.open,
            created_at: clone_opt_string(&self.created_at),
            pull_requests,
        }
    }
}

impl Clone for MergeAsyncOutcome {
    fn clone(&self) -> (res: Self)
        ensures
            res == *self,
    {
        match self {
            MergeAsyncOutcome::AlreadyMergedOrQueued => MergeAsyncOutcome::AlreadyMergedOrQueued,
            MergeAsyncOutcome::Accepted { uuid } => MergeAsyncOutcome::Accepted { uuid: uuid.clone() },
        }
    }
}

impl Clone for MergeOptions {
    fn clone(&self) -> (res: Self)
        ensures
            res == *self,
    {
        MergeOptions {
            merge_method: self.merge_method,
            sha: clone_opt_string(&self.sha),
            commit_title: clone_opt_string(&self.commit_title),
            commit_message: clone_opt_string(&self.commit_message),
        }
    }
}

impl PrStackEntry {
    /// Whether the entry's PR has merged.
    pub open spec fn is_merged(&self) -> bool {
        self.merged_at is Some
    }
}

/// The numbers of the given pull requests, in order.
pub open spec fn pr_numbers(prs: Seq<PullRequest>) -> Seq<u64> {
    prs.map_values(|p: PullRequest| p.number)
}

/// The numbers of the given pull requests, in order.
pub fn pr_number_list(prs: &Vec<PullRequest>) -> (res: Vec<u64>)
    ensures
        res@ == pr_numbers(prs@),
{
    let mut res: Vec<u64> = Vec::new();
    for i in 0..prs.len()
        invariant
            res@ == pr_numbers(prs@.take(i as int)),
    {
        res.push(prs[i].number);
        assert(pr_numbers(prs@.take(i + 1)) =~= pr_numbers(prs@.take(i as int)).push(prs@[i as int].number));
    }
    assert(prs@.take(prs.len() as int) =~= prs@);
    res
}

} // verus!
