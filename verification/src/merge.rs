//! Merge planning for native stacks.
//!
//! Merging PR #k through the async merge endpoint merges every unmerged PR below
//! it atomically; the platform retargets and rebases the rest of the stack.

use vstd::prelude::*;
use crate::error::Error;
use crate::lemmas::{lemma_filter_all, lemma_filter_none, lemma_filter_same, lemma_filter_twice};
use crate::text::{decimal, hash_number, push_decimal, push_hash_number};
use crate::tracking::{CachedPr, PrCache, not_for};
use crate::types::{MergeAsyncState, MergeMethod, MergeOptions, PrStack, PrStackEntry, PullRequest};

verus! {

/// Which stack layers a merge through a given PR will affect.
#[derive(Debug)]
pub struct MergePlan {
    /// The stack the PR belongs to.
    pub stack: PrStack,
    /// Unmerged entries from the bottom through the target (these will merge).
    pub layers: Vec<PrStackEntry>,
}

/// Entries that have not merged yet.
pub open spec fn is_unmerged() -> spec_fn(PrStackEntry) -> bool {
    |e: PrStackEntry| e.merged_at is None
}

/// The unmerged entries of `entries`, in order.
pub open spec fn unmerged(entries: Seq<PrStackEntry>) -> Seq<PrStackEntry> {
    entries.filter(is_unmerged())
}

/// The PR numbers of `entries`, in order.
pub open spec fn entry_numbers(entries: Seq<PrStackEntry>) -> Seq<u64> {
    entries.map_values(|e: PrStackEntry| e.number)
}

/// Unmerged entries whose number is not among `taken`.
pub open spec fn is_left_over(taken: Seq<u64>) -> spec_fn(PrStackEntry) -> bool {
    |e: PrStackEntry| e.merged_at is None && !taken.contains(e.number)
}

/// The entries that remain after the plan's layers merge: unmerged entries of the
/// stack that are not among the layers, in stack order.
pub open spec fn spec_remaining(plan: MergePlan) -> Seq<PrStackEntry> {
    plan.stack.pull_requests@.filter(is_left_over(entry_numbers(plan.layers@)))
}

/// `i` is the first position of PR `n` among `entries`.
pub open spec fn is_first_index(entries: Seq<PrStackEntry>, n: u64, i: int) -> bool {
    &&& 0 <= i < entries.len()
    &&& entries[i].number == n
    &&& forall|j: int| 0 <= j < i ==> entries[j].number != n
}

/// The first position of PR `n` among `entries`, or -1 when it is absent.
pub open spec fn target_index(entries: Seq<PrStackEntry>, n: u64) -> int {
    if exists|i: int| is_first_index(entries, n, i) {
        choose|i: int| is_first_index(entries, n, i)
    } else {
        -1
    }
}

/// Message of the error for a PR that is not in the stack.
pub open spec fn not_in_stack_message(pr: u64, stack: u64) -> Seq<char> {
    "PR "@ + hash_number(pr) + " not found in stack "@ + hash_number(stack)
}

/// Message of the error for a target PR that has already merged.
pub open spec fn already_merged_message(pr: u64) -> Seq<char> {
    "PR "@ + hash_number(pr)
        + " is already merged; run `ryu sync` to update your local stack"@
}

proof fn lemma_first_index_unique(entries: Seq<PrStackEntry>, n: u64, i: int)
    requires
        is_first_index(entries, n, i),
    ensures
        target_index(entries, n) == i,
{
    let k = choose|k: int| is_first_index(entries, n, k);
    assert(is_first_index(entries, n, k));
    if k < i {
        assert(entries[k].number != n);
    } else if i < k {
        assert(entries[i].number != n);
    }
}

proof fn lemma_absent(entries: Seq<PrStackEntry>, n: u64)
    requires
        forall|j: int| 0 <= j < entries.len() ==> entries[j].number != n,
    ensures
        target_index(entries, n) == -1,
        forall|i: int| !is_first_index(entries, n, i),
{
}

proof fn lemma_unmerged_take_step(entries: Seq<PrStackEntry>, k: int)
    requires
        0 <= k < entries.len(),
    ensures
        unmerged(entries.take(k + 1)) == if entries[k].merged_at is None {
            unmerged(entries.take(k)).push(entries[k])
        } else {
            unmerged(entries.take(k))
        },
{
    assert(entries.take(k + 1) =~= entries.take(k).push(entries[k]));
    entries.take(k).lemma_filter_push(entries[k], is_unmerged());
}

proof fn lemma_some_first_index(entries: Seq<PrStackEntry>, n: u64, j: int)
    requires
        0 <= j < entries.len(),
        entries[j].number == n,
    ensures
        exists|i: int| is_first_index(entries, n, i),
    decreases j,
{
    if forall|k: int| 0 <= k < j ==> entries[k].number != n {
        assert(is_first_index(entries, n, j));
    } else {
        let k = choose|k: int| 0 <= k < j && entries[k].number != n == false;
        lemma_some_first_index(entries, n, k);
    }
}

/// The merge target is the first entry of the PR: when the PR is in the stack
/// the target is an entry of that PR with no entry of it below; otherwise no
/// entry is the PR's.
pub proof fn target_is_first_occurrence(entries: Seq<PrStackEntry>, n: u64)
    ensures
        target_index(entries, n) >= 0 ==> {
            let t = target_index(entries, n);
            &&& t < entries.len()
            &&& entries[t].number == n
            &&& forall|j: int| 0 <= j < t ==> entries[j].number != n
        },
        target_index(entries, n) < 0 <==> forall|j: int| 0 <= j < entries.len() ==> entries[j].number != n,
{
    if exists|j: int| 0 <= j < entries.len() && entries[j].number == n {
        let j = choose|j: int| 0 <= j < entries.len() && entries[j].number == n;
        lemma_some_first_index(entries, n, j);
        let i = choose|i: int| is_first_index(entries, n, i);
        lemma_first_index_unique(entries, n, i);
    }
}

/// Compute which layers merge when `pr_number` is merged: the unmerged entries
/// from the bottom of the stack through the first entry of `pr_number`.
///
/// Errors: the PR is not in the stack (`Internal`), or it has already merged
/// (`InvalidArgument`).
pub fn plan_merge(stack: PrStack, pr_number: u64) -> (res: Result<MergePlan, Error>)
    ensures
        ({
            let entries = stack.pull_requests@;
            let t = target_index(entries, pr_number);
            &&& t < 0 ==> (res matches Err(Error::Internal(m)) && m@ == not_in_stack_message(
                pr_number,
                stack.number,
            ))
            &&& t >= 0 && entries[t].merged_at is Some ==> (res matches Err(
                Error::InvalidArgument(m),
            ) && m@ == already_merged_message(pr_number))
            &&& t >= 0 && entries[t].merged_at is None ==> (res matches Ok(plan) && plan.stack
                == stack && plan.layers@ == unmerged(entries.take(t + 1)))
        }),
{
    let ghost entries = stack.pull_requests@;
    let n = stack.pull_requests.len();
    let mut pos: usize = 0;
    while pos < n && stack.pull_requests[pos].number != pr_number
        invariant
            n == entries.len(),
            entries == stack.pull_requests@,
            pos <= n,
            forall|j: int| 0 <= j < pos ==> entries[j].number != pr_number,
        decreases n - pos,
    {
        pos = pos + 1;
    }
    if pos == n {
        proof {
            lemma_absent(entries, pr_number);
        }
        let mut m = String::from_str("PR ");
        push_hash_number(&mut m, pr_number);
        m.append(" not found in stack ");
        push_hash_number(&mut m, stack.number);
        assert(m@ =~= not_in_stack_message(pr_number, stack.number));
        return Err(Error::Internal(m));
    }
    proof {
        lemma_first_index_unique(entries, pr_number, pos as int);
    }
    if stack.pull_requests[pos].merged_at.is_some() {
        let mut m = String::from_str("PR ");
        push_hash_number(&mut m, pr_number);
        m.append(" is already merged; run `ryu sync` to update your local stack");
        assert(m@ =~= already_merged_message(pr_number));
        return Err(Error::InvalidArgument(m));
    }
    let mut layers: Vec<PrStackEntry> = Vec::new();
    let mut k: usize = 0;
    while k <= pos
        invariant
            pos < n,
            n == entries.len(),
            entries == stack.pull_requests@,
            k <= pos + 1,
            layers@ == unmerged(entries.take(k as int)),
        decreases pos + 1 - k,
    {
        proof {
            lemma_unmerged_take_step(entries, k as int);
        }
        if stack.pull_requests[k].merged_at.is_none() {
            layers.push(stack.pull_requests[k].clone());
        }
        k = k + 1;
    }
    Ok(MergePlan { stack, layers })
}

/// Whether some entry of `entries` has PR number `n`.
fn has_number(entries: &Vec<PrStackEntry>, n: u64) -> (res: bool)
    ensures
        res == entry_numbers(entries@).contains(n),
{
    for i in 0..entries.len()
        invariant
            forall|j: int| 0 <= j < i ==> entries@[j].number != n,
    {
        if entries[i].number == n {
            assert(entry_numbers(entries@)[i as int] == n);
            return true;
        }
    }
    proof {
        if entry_numbers(entries@).contains(n) {
            let j = choose|j: int| 0 <= j < entry_numbers(entries@).len() && entry_numbers(entries@)[j] == n;
            assert(entries@[j].number == n);
        }
    }
    false
}


/// No PR appears twice in the stack.
pub open spec fn distinct_numbers(entries: Seq<PrStackEntry>) -> bool {
    forall|i: int, j: int|
        0 <= i < entries.len() && 0 <= j < entries.len() && i != j ==> entries[i].number
            != entries[j].number
}



/// Merging PR #k merges every unmerged PR below it and leaves the others: for a
/// stack that lists each PR once, the layers of the merge plan for `pr_number`
/// followed by the entries that remain are exactly the stack's unmerged entries
/// in order, and the top layer is the target PR.
pub proof fn merge_partitions_unmerged(stack: PrStack, pr_number: u64, plan: MergePlan)
    requires
        distinct_numbers(stack.pull_requests@),
        target_index(stack.pull_requests@, pr_number) >= 0,
        stack.pull_requests@[target_index(stack.pull_requests@, pr_number)].merged_at is None,
        plan.stack == stack,
        plan.layers@ == unmerged(
            stack.pull_requests@.take(target_index(stack.pull_requests@, pr_number) + 1),
        ),
    ensures
        unmerged(stack.pull_requests@) == plan.layers@ + spec_remaining(plan),
        plan.layers@.len() > 0,
        plan.layers@.last().number == pr_number,
{
    let entries = stack.pull_requests@;
    let t = target_index(entries, pr_number);
    let k = choose|k: int| is_first_index(entries, pr_number, k);
    assert(is_first_index(entries, pr_number, k));
    assert(t == k);
    let a = entries.take(t + 1);
    let b = entries.skip(t + 1);
    assert(entries =~= a + b);
    let layer_nums = entry_numbers(plan.layers@);
    let p2 = is_left_over(layer_nums);
    Seq::filter_distributes_over_add(a, b, is_unmerged());
    Seq::filter_distributes_over_add(a, b, p2);
    assert forall|i: int| 0 <= i < a.len() implies !p2(a[i]) by {
        if a[i].merged_at is None {
            a.lemma_filter_contains(is_unmerged(), i);
            let j = choose|j: int| 0 <= j < plan.layers@.len() && plan.layers@[j] == a[i];
            assert(layer_nums[j] == a[i].number);
            assert(layer_nums.contains(a[i].number));
        }
    }
    lemma_filter_none(a, p2);
    assert forall|i: int| 0 <= i < b.len() implies p2(b[i]) == is_unmerged()(b[i]) by {
        if layer_nums.contains(b[i].number) {
            let j = choose|j: int| 0 <= j < layer_nums.len() && layer_nums[j] == b[i].number;
            let x = plan.layers@[j];
            a.lemma_filter_contains_rev(is_unmerged(), x);
            let m = choose|m: int| 0 <= m < a.len() && a[m] == x;
            assert(entries[m] == x);
            assert(entries[t + 1 + i] == b[i]);
            assert(entries[m].number != entries[t + 1 + i].number);
        }
    }
    lemma_filter_same(b, p2, is_unmerged());
    assert(spec_remaining(plan) == a.filter(p2) + b.filter(p2));
    assert(a.filter(p2) + b.filter(p2) =~= b.filter(p2));
    lemma_unmerged_take_step(entries, t);
}

impl MergePlan {
    /// Entries above the target: unmerged entries that are not among the layers
    /// (these will be retargeted and rebased by the platform), in stack order.
    pub fn remaining(&self) -> (res: Vec<&PrStackEntry>)
        ensures
            res@.map_values(|r: &PrStackEntry| *r) == spec_remaining(*self),
    {
        let ghost entries = self.stack.pull_requests@;
        let ghost pred = is_left_over(entry_numbers(self.layers@));
        let mut res: Vec<&PrStackEntry> = Vec::new();
        for i in 0..self.stack.pull_requests.len()
            invariant
                entries == self.stack.pull_requests@,
                pred == is_left_over(entry_numbers(self.layers@)),
                res@.map_values(|r: &PrStackEntry| *r) == entries.take(i as int).filter(pred),
        {
            let e = &self.stack.pull_requests[i];
            proof {
                assert(entries.take(i + 1) =~= entries.take(i as int).push(entries[i as int]));
                entries.take(i as int).lemma_filter_push(entries[i as int], pred);
            }
            if e.merged_at.is_none() && !has_number(&self.layers, e.number) {
                let ghost before = res@;
                res.push(e);
                assert(res@.map_values(|r: &PrStackEntry| *r) =~= before.map_values(
                    |r: &PrStackEntry| *r,
                ).push(*e));
            }
        }
        assert(entries.take(entries.len() as int) =~= entries);
        res
    }
}


// ---------------------------------------------------------------------------
// Polling an accepted merge

/// The next step of polling an accepted async merge.
#[derive(Debug, PartialEq, Eq)]
pub enum PollStep {
    /// Still processing and time remains: wait one interval and poll again.
    Wait,
    /// Stop polling with this state.
    Finish(MergeAsyncState),
}

/// Decide after a poll: keep polling while the merge is `Pending` or `Enqueued`
/// and the timeout has not elapsed; otherwise return the state. A `Pending` or
/// `Enqueued` result therefore means the timeout elapsed.
pub fn poll_merge_step(state: MergeAsyncState, within_timeout: bool) -> (res: PollStep)
    ensures
        (state == MergeAsyncState::Pending || state == MergeAsyncState::Enqueued)
            && within_timeout ==> res == PollStep::Wait,
        !((state == MergeAsyncState::Pending || state == MergeAsyncState::Enqueued)
            && within_timeout) ==> res == PollStep::Finish(state),
{
    match state {
        MergeAsyncState::Pending if within_timeout => PollStep::Wait,
        MergeAsyncState::Enqueued if within_timeout => PollStep::Wait,
        _ => PollStep::Finish(state),
    }
}

// ---------------------------------------------------------------------------
// The merge command's decisions

/// Message when no PR was ever submitted.
pub open spec fn nothing_submitted_message() -> Seq<char> {
    "no submitted PRs found; run `ryu submit` first"@
}

/// The PR through which the default merge finds the stack: the first cached PR.
pub fn first_submitted_pr(pr_cache: &PrCache) -> (res: Result<u64, Error>)
    ensures
        pr_cache.prs@.len() > 0 ==> res == Ok::<u64, Error>(pr_cache.prs@[0].number),
        pr_cache.prs@.len() == 0 ==> (res matches Err(Error::InvalidArgument(m)) && m@
            == nothing_submitted_message()),
{
    if pr_cache.prs.len() == 0 {
        return Err(Error::InvalidArgument(String::from_str("no submitted PRs found; run `ryu submit` first")));
    }
    Ok(pr_cache.prs[0].number)
}

/// Message when every entry of the stack has merged.
pub open spec fn all_merged_message(stack_number: u64) -> Seq<char> {
    "every PR in stack "@ + hash_number(stack_number) + " is already merged; run `ryu sync`"@
}

/// The bottom unmerged entry of the stack: the default merge target.
pub fn bottom_unmerged_pr(stack: &PrStack) -> (res: Result<u64, Error>)
    ensures
        unmerged(stack.pull_requests@).len() > 0 ==> res == Ok::<u64, Error>(unmerged(stack.pull_requests@)[0].number),
        unmerged(stack.pull_requests@).len() == 0 ==> (res matches Err(Error::InvalidArgument(m))
            && m@ == all_merged_message(stack.number)),
{
    let ghost entries = stack.pull_requests@;
    for i in 0..stack.pull_requests.len()
        invariant
            entries == stack.pull_requests@,
            unmerged(entries.take(i as int)).len() == 0,
    {
        proof {
            lemma_unmerged_take_step(entries, i as int);
        }
        if stack.pull_requests[i].merged_at.is_none() {
            proof {
                let rest = entries.skip(i as int);
                assert(entries =~= entries.take(i as int) + rest);
                Seq::filter_distributes_over_add(entries.take(i as int), rest, is_unmerged());
                assert(rest =~= seq![entries[i as int]] + rest.skip(1));
                Seq::filter_distributes_over_add(seq![entries[i as int]], rest.skip(1), is_unmerged());
                assert(seq![entries[i as int]] =~= Seq::<PrStackEntry>::empty().push(entries[i as int]));
                Seq::<PrStackEntry>::empty().lemma_filter_push(entries[i as int], is_unmerged());
                assert(Seq::<PrStackEntry>::empty().filter(is_unmerged()) =~= Seq::<PrStackEntry>::empty()) by {
                    reveal(Seq::filter);
                }
            }
            return Ok(stack.pull_requests[i].number);
        }
    }
    assert(entries.take(entries.len() as int) =~= entries);
    let mut m = String::from_str("every PR in stack ");
    push_hash_number(&mut m, stack.number);
    m.append(" is already merged; run `ryu sync`");
    assert(m@ =~= all_merged_message(stack.number));
    Err(Error::InvalidArgument(m))
}

/// Message when no open PR exists for a bookmark.
pub open spec fn no_pr_for_bookmark_message(bookmark: Seq<char>) -> Seq<char> {
    "no open PR found for bookmark '"@ + bookmark + "'"@
}

/// The PR number of an explicit bookmark, from the platform's answer to the
/// search for its open PR (used when the cache has no entry for it).
pub fn bookmark_pr_number(bookmark: &str, found: Option<PullRequest>) -> (res: Result<u64, Error>)
    ensures
        found matches Some(pr) ==> res == Ok::<u64, Error>(pr.number),
        found is None ==> (res matches Err(Error::InvalidArgument(m)) && m@
            == no_pr_for_bookmark_message(bookmark@)),
{
    match found {
        Some(pr) => Ok(pr.number),
        None => Err(Error::InvalidArgument(String::from_str("no open PR found for bookmark '").concat(bookmark).concat("'"))),
    }
}

/// Advice appended when stacks are unavailable for a merge.
pub open spec fn merge_unavailable_advice() -> Seq<char> {
    "; merge the bottom PR with a regular merge (`gh pr merge`) and rebase manually"@
}

/// Message when the PR to merge is not stacked.
pub open spec fn not_stacked_message(pr: u64) -> Seq<char> {
    "PR "@ + hash_number(pr) + " is not in a native stack; merge it with `gh pr merge`"@
}

/// The stack to merge from the lookup for `pr_number`, with actionable errors:
/// unavailability gets merge advice, an unstacked PR is an invalid argument,
/// other errors pass through.
pub fn stack_for_merge(pr_number: u64, lookup: Result<Option<PrStack>, Error>) -> (res: Result<PrStack, Error>)
    ensures
        lookup matches Ok(Some(s)) ==> res == Ok::<PrStack, Error>(s),
        lookup matches Ok(None) ==> (res matches Err(Error::InvalidArgument(m)) && m@ == not_stacked_message(pr_number)),
        lookup matches Err(Error::StacksUnavailable(m0)) ==> (res matches Err(Error::StacksUnavailable(m))
            && m@ == m0@ + merge_unavailable_advice()),
        lookup matches Err(e) ==> !(e is StacksUnavailable) ==> res == Err::<PrStack, Error>(e),
{
    match lookup {
        Ok(Some(s)) => Ok(s),
        Ok(None) => {
            let mut m = String::from_str("PR ");
            push_hash_number(&mut m, pr_number);
            m.append(" is not in a native stack; merge it with `gh pr merge`");
            assert(m@ =~= not_stacked_message(pr_number));
            Err(Error::InvalidArgument(m))
        },
        Err(Error::StacksUnavailable(m0)) => Err(Error::StacksUnavailable(m0.concat(
            "; merge the bottom PR with a regular merge (`gh pr merge`) and rebase manually",
        ))),
        Err(e) => Err(e),
    }
}

/// The confirmation question before merging.
pub open spec fn merge_prompt_text(layers: nat, stack_number: u64) -> Seq<char> {
    "Merge "@ + decimal(layers) + " PR(s) from the bottom of stack "@ + hash_number(stack_number) + "?"@
}

/// The confirmation question before merging.
pub fn merge_prompt(plan: &MergePlan) -> (res: String)
    ensures
        res@ == merge_prompt_text(plan.layers@.len(), plan.stack.number),
{
    let mut m = String::from_str("Merge ");
    push_decimal(&mut m, plan.layers.len() as u64);
    m.append(" PR(s) from the bottom of stack ");
    push_hash_number(&mut m, plan.stack.number);
    m.append("?");
    assert(m@ =~= merge_prompt_text(plan.layers@.len(), plan.stack.number));
    m
}

/// The merge request: the chosen method, pinned to the top layer's head commit.
pub fn merge_options(method: MergeMethod, plan: &MergePlan) -> (res: MergeOptions)
    ensures
        res.merge_method == method,
        plan.layers@.len() > 0 ==> res.sha == Some(plan.layers@.last().head.sha),
        plan.layers@.len() == 0 ==> res.sha is None,
        res.commit_title is None,
        res.commit_message is None,
{
    let sha = if plan.layers.len() > 0 {
        Some(plan.layers[plan.layers.len() - 1].head.sha.clone())
    } else {
        None
    };
    MergeOptions { merge_method: method, sha, commit_title: None, commit_message: None }
}

/// Advice appended when another merge of the stack is running.
pub open spec fn merge_in_progress_advice() -> Seq<char> {
    "; wait for it to finish or check the stack on GitHub"@
}

/// The error reported for a refused merge request: a merge in progress gets
/// advice, other errors pass through.
pub fn merge_request_error(e: Error) -> (res: Error)
    ensures
        e matches Error::MergeInProgress(m0) ==> (res matches Error::MergeInProgress(m) && m@ == m0@
            + merge_in_progress_advice()),
        !(e is MergeInProgress) ==> res == e,
{
    match e {
        Error::MergeInProgress(m) => Error::MergeInProgress(m.concat("; wait for it to finish or check the stack on GitHub")),
        other => other,
    }
}

/// How an accepted merge ended, as the merge command reports it.
#[derive(Debug)]
pub enum MergeResolution {
    /// The layers merged: forget them locally.
    Merged,
    /// Polling timed out while the merge was in this state.
    StillProcessing(MergeAsyncState),
    /// The platform reports the merge failed.
    Failed(Error),
    /// Polling failed: the merge's status is unknown.
    Unknown(Error),
}

/// Message when the platform reports the async merge failed.
pub open spec fn merge_failed_message(pr: u64) -> Seq<char> {
    "async merge of PR "@ + hash_number(pr) + " failed; check the PR on GitHub"@
}

/// Resolve the final poll result of the merge through `pr_number`.
pub fn resolve_merge(pr_number: u64, polled: Result<MergeAsyncState, Error>) -> (res: MergeResolution)
    ensures
        polled == Ok::<MergeAsyncState, Error>(MergeAsyncState::Merged) ==> res is Merged,
        polled == Ok::<MergeAsyncState, Error>(MergeAsyncState::Failed) ==> (res matches MergeResolution::Failed(Error::GitHubApi(m))
            && m@ == merge_failed_message(pr_number)),
        polled matches Ok(st) ==> st != MergeAsyncState::Merged ==> st != MergeAsyncState::Failed
            ==> res == MergeResolution::StillProcessing(st),
        polled matches Err(e) ==> res == MergeResolution::Unknown(e),
{
    match polled {
        Ok(MergeAsyncState::Merged) => MergeResolution::Merged,
        Ok(MergeAsyncState::Failed) => {
            let mut m = String::from_str("async merge of PR ");
            push_hash_number(&mut m, pr_number);
            m.append(" failed; check the PR on GitHub");
            assert(m@ =~= merge_failed_message(pr_number));
            MergeResolution::Failed(Error::GitHubApi(m))
        },
        Ok(st) => MergeResolution::StillProcessing(st),
        Err(e) => MergeResolution::Unknown(e),
    }
}

/// Cache entries whose bookmark is not among `names`.
pub open spec fn not_listed(names: Seq<Seq<char>>) -> spec_fn(CachedPr) -> bool {
    |p: CachedPr| !names.contains(p.bookmark@)
}

/// The head branches of the layers, bottom to top.
pub open spec fn layer_heads(layers: Seq<PrStackEntry>) -> Seq<Seq<char>> {
    layers.map_values(|e: PrStackEntry| e.head.ref_field@)
}



/// After a merge, forget the merged layers' cache entries (keyed by their head
/// branch); the other entries stay, in order.
pub fn forget_merged_layers(pr_cache: &mut PrCache, plan: &MergePlan)
    ensures
        final(pr_cache).prs@ == old(pr_cache).prs@.filter(not_listed(layer_heads(plan.layers@))),
{
    let ghost before = pr_cache.prs@;
    let ghost heads = layer_heads(plan.layers@);
    proof {
        lemma_filter_all(before, not_listed(heads.take(0)));
    }
    for i in 0..plan.layers.len()
        invariant
            heads == layer_heads(plan.layers@),
            pr_cache.prs@ == before.filter(not_listed(heads.take(i as int))),
    {
        let ghost mid = pr_cache.prs@;
        pr_cache.remove(plan.layers[i].head.ref_field.as_str());
        proof {
            let name = plan.layers@[i as int].head.ref_field@;
            let t0 = heads.take(i as int);
            let t1 = heads.take(i + 1);
            assert(t1 =~= t0.push(name));
            assert forall|x: CachedPr| #[trigger] not_listed(t1)(x) == (not_listed(t0)(x) && not_for(name)(x)) by {
                if t0.contains(x.bookmark@) {
                    let j = choose|j: int| 0 <= j < t0.len() && t0[j] == x.bookmark@;
                    assert(t1[j] == x.bookmark@);
                }
                if x.bookmark@ == name {
                    assert(t1[i as int] == name);
                }
                if t1.contains(x.bookmark@) {
                    let j = choose|j: int| 0 <= j < t1.len() && t1[j] == x.bookmark@;
                    if j < i {
                        assert(t0[j] == x.bookmark@);
                    }
                }
            }
            lemma_filter_twice(before, not_listed(heads.take(i as int)), not_for(name), not_listed(heads.take(i + 1)));
        }
    }
    proof {
        assert(heads.take(heads.len() as int) =~= heads);
    }
}

} // verus!
