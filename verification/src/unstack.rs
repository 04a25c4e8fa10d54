//! Native stack removal: finding the stack of the submitted PRs, and reading the
//! answer of the unstack endpoint.

use vstd::prelude::*;
use crate::error::Error;
use crate::text::{decimal, hash_number, push_decimal, push_hash_number};
use crate::types::{PrStack, PrStackEntry};

verus! {

/// Outcome of removing unmerged PRs from a native stack.
#[derive(Debug, Clone, Copy, PartialEq, Eq, Structural)]
pub enum UnstackOutcome {
    /// Unmerged PRs removed; merged or queued PRs remain in the stack.
    Remaining { stack_number: u64, remaining: usize },
    /// No PRs remain; the stack was dissolved.
    Dissolved { stack_number: u64 },
}

/// Read the unstack endpoint's answer for `stack_number`: the updated stack
/// (with the PRs that remain), or none when the stack dissolved.
pub fn unstack_outcome(stack_number: u64, updated: Option<PrStack>) -> (res: UnstackOutcome)
    ensures
        updated matches Some(s) ==> res == (UnstackOutcome::Remaining {
            stack_number: s.number,
            remaining: s.pull_requests@.len() as usize,
        }),
        updated is None ==> res == (UnstackOutcome::Dissolved { stack_number }),
{
    match updated {
        Some(stack) => UnstackOutcome::Remaining {
            stack_number: stack.number,
            remaining: stack.pull_requests.len(),
        },
        None => UnstackOutcome::Dissolved { stack_number },
    }
}

/// The report line for an unstack outcome.
pub open spec fn unstack_report_text(o: UnstackOutcome) -> Seq<char> {
    match o {
        UnstackOutcome::Remaining { stack_number, remaining } => "Removed unmerged PRs; "@
            + decimal(remaining as nat) + " PR(s) remain in stack "@ + hash_number(stack_number),
        UnstackOutcome::Dissolved { stack_number } => "Stack "@ + hash_number(stack_number)
            + " dissolved"@,
    }
}

/// The report line for an unstack outcome.
pub fn unstack_report(outcome: &UnstackOutcome) -> (res: String)
    ensures
        res@ == unstack_report_text(*outcome),
{
    let mut m = String::new();
    match outcome {
        UnstackOutcome::Remaining { stack_number, remaining } => {
            m.append("Removed unmerged PRs; ");
            push_decimal(&mut m, *remaining as u64);
            m.append(" PR(s) remain in stack ");
            push_hash_number(&mut m, *stack_number);
        },
        UnstackOutcome::Dissolved { stack_number } => {
            m.append("Stack ");
            push_hash_number(&mut m, *stack_number);
            m.append(" dissolved");
        },
    }
    assert(m@ =~= unstack_report_text(*outcome));
    m
}

/// The next step of searching the stack of the submitted PRs.
#[derive(Debug)]
pub enum StackSearch {
    /// Look up the stack containing this PR, then search again with the result.
    Lookup { pr_number: u64 },
    /// The stack found for `pr_numbers[index]` holds the earliest PR that is stacked.
    Found { index: usize },
    /// None of the PRs belongs to a stack.
    NotFound,
}

/// Find the native stack containing any of `pr_numbers`, given the lookups so
/// far (`lookups[i]` is the stack of `pr_numbers[i]`): PRs are checked in order
/// and the first stack found is the answer (by its position); `NotFound` once every PR was looked
/// up without a stack.
pub fn find_submitted_stack(pr_numbers: &Vec<u64>, lookups: &Vec<Option<PrStack>>) -> (res: StackSearch)
    requires
        lookups.len() <= pr_numbers.len(),
    ensures
        (exists|i: int| 0 <= i < lookups@.len() && lookups@[i] is Some) ==> exists|i: int|
            #![trigger lookups@[i]]
            0 <= i < lookups@.len() && lookups@[i] is Some && (forall|j: int| 0 <= j < i ==> lookups@[j] is None)
                && res == (StackSearch::Found { index: i as usize }),
        (forall|i: int| #![trigger lookups@[i]] 0 <= i < lookups@.len() ==> lookups@[i] is None) ==> if lookups@.len() < pr_numbers@.len() {
            res == (StackSearch::Lookup { pr_number: pr_numbers@[lookups@.len() as int] })
        } else {
            res is NotFound
        },
{
    let ghost ls = lookups@;
    let n = lookups.len();
    let mut i: usize = 0;
    while i < n
        invariant
            n == ls.len(),
            i <= n,
            lookups@ == ls,
            forall|j: int| 0 <= j < i ==> ls[j] is None,
        decreases n - i,
    {
        if lookups[i].is_some() {
            let res = StackSearch::Found { index: i };
            assert(ls[i as int] is Some);
            return res;
        }
        i = i + 1;
    }
    if n < pr_numbers.len() {
        StackSearch::Lookup { pr_number: pr_numbers[n] }
    } else {
        StackSearch::NotFound
    }
}

/// Advice appended when stacks are unavailable for unstacking.
pub open spec fn unstack_unavailable_advice() -> Seq<char> {
    "; unstack manually from the GitHub UI if needed"@
}

/// The error reported when the lookup for unstacking failed: unavailability
/// gets advice, other errors pass through.
pub fn unstack_lookup_error(e: Error) -> (res: Error)
    ensures
        e matches Error::StacksUnavailable(m0) ==> (res matches Error::StacksUnavailable(m) && m@
            == m0@ + unstack_unavailable_advice()),
        !(e is StacksUnavailable) ==> res == e,
{
    match e {
        Error::StacksUnavailable(m) => Error::StacksUnavailable(m.concat("; unstack manually from the GitHub UI if needed")),
        other => other,
    }
}

/// How an entry is labelled in the stack summary.
#[derive(Debug, Clone, Copy, PartialEq, Eq, Structural)]
pub enum EntryStatus {
    Merged,
    Draft,
    Open,
}

/// The label of an entry: merged first, then draft, else open.
pub fn entry_status(entry: &PrStackEntry) -> (res: EntryStatus)
    ensures
        entry.merged_at is Some ==> res == EntryStatus::Merged,
        entry.merged_at is None && entry.draft ==> res == EntryStatus::Draft,
        entry.merged_at is None && !entry.draft ==> res == EntryStatus::Open,
{
    if entry.merged_at.is_some() {
        EntryStatus::Merged
    } else if entry.draft {
        EntryStatus::Draft
    } else {
        EntryStatus::Open
    }
}

/// The number of merged entries.
pub open spec fn merged_count_of(entries: Seq<PrStackEntry>) -> nat
    decreases entries.len(),
{
    if entries.len() == 0 {
        0
    } else {
        merged_count_of(entries.drop_last()) + if entries.last().merged_at is Some {
            1nat
        } else {
            0nat
        }
    }
}

/// The number of merged entries of the stack.
pub fn merged_count(stack: &PrStack) -> (res: usize)
    ensures
        res == merged_count_of(stack.pull_requests@),
{
    let ghost entries = stack.pull_requests@;
    let mut count: usize = 0;
    for i in 0..stack.pull_requests.len()
        invariant
            entries == stack.pull_requests@,
            count == merged_count_of(entries.take(i as int)),
            count <= i,
    {
        assert(entries.take(i + 1).drop_last() =~= entries.take(i as int));
        if stack.pull_requests[i].merged_at.is_some() {
            count = count + 1;
        }
    }
    assert(entries.take(entries.len() as int) =~= entries);
    count
}

} // verus!
