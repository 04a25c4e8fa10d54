//! Native stack registration: deciding how the submitted PRs are registered as a
//! native stack (create, extend, keep, skip, or refuse), and driving the
//! registration with its retries.
//!
//! Registration is soft-fail: problems are reported as a message, never as a
//! failure of the submission whose PRs were pushed.

use vstd::prelude::*;
use vstd::hash_map::StringHashMap;
pub use crate::plan::ordered_prs;
use crate::plan::{NarrowedBookmarkSegment, prs_for_names, segment_names, SubmissionPlan};
use crate::error::Error;
use crate::text::{join, debug_list, push_decimal, debug_list_text, decimal, hash_list, hash_list_text, hash_number, push_hash_number};
use crate::types::{pr_number_list, pr_numbers, PrStack, PrStackEntry, PullRequest};

verus! {

/// Action to take for native stack registration.
#[derive(Debug, PartialEq, Eq)]
pub enum StackAction {
    /// No stack exists: create one from these PRs (bottom to top).
    Create { prs: Vec<u64> },
    /// The existing stack is a prefix of ours: append the delta.
    Add { stack_number: u64, delta: Vec<u64> },
    /// The stack already matches.
    NoOp { stack_number: u64 },
    /// Registration does not apply.
    Skip { reason: String },
    /// Local and remote stacks disagree (reorder/removal): a manual fix is needed.
    ReorderConflict { message: String },
}

/// The mathematical content of a [`StackAction`].
pub enum StackActionView {
    Create(Seq<u64>),
    Add(u64, Seq<u64>),
    NoOp(u64),
    Skip(Seq<char>),
    ReorderConflict(Seq<char>),
}

impl View for StackAction {
    type V = StackActionView;

    open spec fn view(&self) -> StackActionView {
        match self {
            StackAction::Create { prs } => StackActionView::Create(prs@),
            StackAction::Add { stack_number, delta } => StackActionView::Add(*stack_number, delta@),
            StackAction::NoOp { stack_number } => StackActionView::NoOp(*stack_number),
            StackAction::Skip { reason } => StackActionView::Skip(reason@),
            StackAction::ReorderConflict { message } => StackActionView::ReorderConflict(message@),
        }
    }
}

impl Clone for StackAction {
    fn clone(&self) -> (res: Self)
        ensures
            res@ == self@,
    {
        match self {
            StackAction::Create { prs } => {
                let prs = prs.clone();
                StackAction::Create { prs }
            },
            StackAction::Add { stack_number, delta } => {
                let delta = delta.clone();
                StackAction::Add { stack_number: *stack_number, delta }
            },
            StackAction::NoOp { stack_number } => StackAction::NoOp { stack_number: *stack_number },
            StackAction::Skip { reason } => StackAction::Skip { reason: reason.clone() },
            StackAction::ReorderConflict { message } => StackAction::ReorderConflict {
                message: message.clone(),
            },
        }
    }
}

// ---------------------------------------------------------------------------
// Messages

/// Reason of the skip for fewer than two PRs.
pub open spec fn too_few_reason() -> Seq<char> {
    "native stacks require at least 2 PRs"@
}

/// Reason of the skip on a platform without native stacks.
pub open spec fn unsupported_reason() -> Seq<char> {
    "platform does not support native stacks"@
}

/// Conflict message when our PRs belong to two different stacks.
pub open spec fn span_message(first: u64, second: u64) -> Seq<char> {
    "PRs span multiple stacks ("@ + hash_number(first) + " and "@ + hash_number(second)
        + "); run `ryu unstack` and resubmit"@
}

/// Conflict message when PR `upper`'s base is not PR `lower`'s head.
pub open spec fn base_mismatch_message(lower: PullRequest, upper: PullRequest) -> Seq<char> {
    "PR "@ + hash_number(upper.number) + " base ("@ + upper.base_ref@ + ") does not match PR "@
        + hash_number(lower.number) + " head ("@ + lower.head_ref@
        + "); update PR bases first"@
}

/// Conflict message when the registered stack is neither a prefix nor an extension of ours.
pub open spec fn mismatch_message(stack_number: u64, remote: Seq<u64>, ours: Seq<u64>) -> Seq<
    char,
> {
    "local stack does not match stack "@ + hash_number(stack_number) + " (remote: "@
        + debug_list(remote) + ", local: "@ + debug_list(ours)
        + "); run `ryu unstack` and resubmit to recreate"@
}

// ---------------------------------------------------------------------------
// The decision

/// Entries that count as registered: open and not merged.
pub open spec fn is_open_entry() -> spec_fn(PrStackEntry) -> bool {
    |e: PrStackEntry| e.merged_at is None && e.state@ == "open"@
}

/// The stack's open PR numbers, bottom to top.
pub open spec fn open_numbers(stack: PrStack) -> Seq<u64> {
    stack.pull_requests@.filter(is_open_entry()).map_values(|e: PrStackEntry| e.number)
}

/// `i` is the first pair `(prs[i], prs[i + 1])` whose upper base is not the lower head.
pub open spec fn is_first_break(prs: Seq<PullRequest>, i: int) -> bool {
    &&& 0 <= i && i + 1 < prs.len()
    &&& prs[i + 1].base_ref@ != prs[i].head_ref@
    &&& forall|j: int| 0 <= j < i ==> prs[j + 1].base_ref@ == prs[j].head_ref@
}

/// Every PR's base is the previous PR's head.
pub open spec fn chained(prs: Seq<PullRequest>) -> bool {
    forall|j: int| 0 <= j && j + 1 < prs.len() ==> prs[j + 1].base_ref@ == prs[j].head_ref@
}

/// `a` is a prefix of `b`.
pub open spec fn is_prefix(a: Seq<u64>, b: Seq<u64>) -> bool {
    a.len() <= b.len() && b.take(a.len() as int) == a
}

/// The action once the lookups found no stack.
pub open spec fn decide_unstacked(prs: Seq<PullRequest>) -> StackActionView {
    if exists|i: int| is_first_break(prs, i) {
        let i = choose|i: int| is_first_break(prs, i);
        StackActionView::ReorderConflict(base_mismatch_message(prs[i], prs[i + 1]))
    } else {
        StackActionView::Create(pr_numbers(prs))
    }
}

/// The action once the lookups found `stack`: keep it when it already holds our
/// PRs (or we submit a bottom slice of it), extend it when it is a prefix of
/// ours, refuse otherwise.
pub open spec fn decide_stacked(prs: Seq<PullRequest>, stack: PrStack) -> StackActionView {
    let remote = open_numbers(stack);
    let ours = pr_numbers(prs);
    if remote == ours {
        StackActionView::NoOp(stack.number)
    } else if remote.len() > ours.len() && is_prefix(ours, remote) {
        StackActionView::NoOp(stack.number)
    } else if ours.len() > remote.len() && is_prefix(remote, ours) {
        StackActionView::Add(stack.number, ours.skip(remote.len() as int))
    } else {
        StackActionView::ReorderConflict(mismatch_message(stack.number, remote, ours))
    }
}


/// What the lookups done so far say: the stack found (if any), or two different
/// stacks holding our PRs.
pub enum LookupState {
    Found(Option<PrStack>),
    Span(u64, u64),
}

/// Account for the next lookup result.
pub open spec fn fold_step(s: LookupState, r: Option<PrStack>) -> LookupState {
    match s {
        LookupState::Span(a, b) => LookupState::Span(a, b),
        LookupState::Found(f) => match r {
            None => LookupState::Found(f),
            Some(st) => match f {
                None => LookupState::Found(Some(st)),
                Some(e) => if e.number == st.number {
                    LookupState::Found(Some(e))
                } else {
                    LookupState::Span(e.number, st.number)
                },
            },
        },
    }
}

/// The lookup results, accounted for in order.
pub open spec fn lookup_fold(rs: Seq<Option<PrStack>>) -> LookupState
    decreases rs.len(),
{
    if rs.len() == 0 {
        LookupState::Found(None)
    } else {
        fold_step(lookup_fold(rs.drop_last()), rs.last())
    }
}

/// The next step of planning: look up the stack of a PR, or the decided action.
pub enum PlanProgressView {
    Lookup(u64),
    Decided(StackActionView),
}

/// Planning after the given lookup results, `rs[i]` being the stack found for
/// `prs[i]`. Fewer than two PRs, or a platform without native stacks, skip.
/// Lookups go bottom to top; two different stacks stop planning with a conflict.
/// After the last lookup the found stack (or none) decides.
pub open spec fn spec_plan_progress(
    prs: Seq<PullRequest>,
    supports_native_stacks: bool,
    rs: Seq<Option<PrStack>>,
) -> PlanProgressView {
    if prs.len() < 2 {
        PlanProgressView::Decided(StackActionView::Skip(too_few_reason()))
    } else if !supports_native_stacks {
        PlanProgressView::Decided(StackActionView::Skip(unsupported_reason()))
    } else {
        match lookup_fold(rs) {
            LookupState::Span(a, b) => PlanProgressView::Decided(
                StackActionView::ReorderConflict(span_message(a, b)),
            ),
            LookupState::Found(f) => if rs.len() < prs.len() {
                PlanProgressView::Lookup(prs[rs.len() as int].number)
            } else {
                match f {
                    None => PlanProgressView::Decided(decide_unstacked(prs)),
                    Some(stack) => PlanProgressView::Decided(decide_stacked(prs, stack)),
                }
            },
        }
    }
}

/// The next step of planning registration.
#[derive(Debug)]
pub enum PlanProgress {
    /// Look up the native stack containing this PR, then plan again with the result.
    Lookup { pr_number: u64 },
    /// Planning is complete.
    Decided(StackAction),
}

impl View for PlanProgress {
    type V = PlanProgressView;

    open spec fn view(&self) -> PlanProgressView {
        match self {
            PlanProgress::Lookup { pr_number } => PlanProgressView::Lookup(*pr_number),
            PlanProgress::Decided(a) => PlanProgressView::Decided(a@),
        }
    }
}

proof fn lemma_fold_span_sticky(rs: Seq<Option<PrStack>>, i: int)
    requires
        0 <= i <= rs.len(),
        lookup_fold(rs.take(i)) is Span,
    ensures
        lookup_fold(rs) == lookup_fold(rs.take(i)),
    decreases rs.len(),
{
    if rs.len() == i {
        assert(rs.take(i) =~= rs);
    } else {
        assert(rs.drop_last().take(i) =~= rs.take(i));
        lemma_fold_span_sticky(rs.drop_last(), i);
    }
}

proof fn lemma_first_break_unique(prs: Seq<PullRequest>, i: int)
    requires
        is_first_break(prs, i),
    ensures
        (choose|k: int| is_first_break(prs, k)) == i,
{
    let k = choose|k: int| is_first_break(prs, k);
    assert(is_first_break(prs, k));
    if k < i {
        assert(prs[k + 1].base_ref@ == prs[k].head_ref@);
    } else if i < k {
        assert(prs[i + 1].base_ref@ == prs[i].head_ref@);
    }
}

/// The stack's open PR numbers, bottom to top.
fn open_number_list(stack: &PrStack) -> (res: Vec<u64>)
    ensures
        res@ == open_numbers(*stack),
{
    let open = String::from_str("open");
    let ghost entries = stack.pull_requests@;
    let mut res: Vec<u64> = Vec::new();
    for i in 0..stack.pull_requests.len()
        invariant
            entries == stack.pull_requests@,
            open@ == "open"@,
            res@ == entries.take(i as int).filter(is_open_entry()).map_values(
                |e: PrStackEntry| e.number,
            ),
    {
        let e = &stack.pull_requests[i];
        proof {
            assert(entries.take(i + 1) =~= entries.take(i as int).push(entries[i as int]));
            entries.take(i as int).lemma_filter_push(entries[i as int], is_open_entry());
        }
        if e.merged_at.is_none() && e.state == open {
            res.push(e.number);
        }
        assert(res@ =~= entries.take(i + 1).filter(is_open_entry()).map_values(
            |e: PrStackEntry| e.number,
        ));
    }
    assert(entries.take(entries.len() as int) =~= entries);
    res
}

/// Whether `a` is a prefix of `b`.
fn vec_is_prefix(a: &Vec<u64>, b: &Vec<u64>) -> (res: bool)
    ensures
        res == is_prefix(a@, b@),
{
    if a.len() > b.len() {
        return false;
    }
    for i in 0..a.len()
        invariant
            a.len() <= b.len(),
            forall|j: int| 0 <= j < i ==> a@[j] == b@[j],
    {
        if a[i] != b[i] {
            assert(b@.take(a.len() as int)[i as int] != a@[i as int]);
            return false;
        }
    }
    assert(b@.take(a.len() as int) =~= a@);
    true
}

/// The elements of `v` from position `k` on.
fn skip_from(v: &Vec<u64>, k: usize) -> (res: Vec<u64>)
    requires
        k <= v.len(),
    ensures
        res@ == v@.skip(k as int),
{
    let mut res: Vec<u64> = Vec::new();
    let mut i = k;
    while i < v.len()
        invariant
            k <= i <= v.len(),
            res@ == v@.subrange(k as int, i as int),
        decreases v.len() - i,
    {
        res.push(v[i]);
        i = i + 1;
        assert(res@ =~= v@.subrange(k as int, i as int));
    }
    assert(res@ =~= v@.skip(k as int));
    res
}

/// The action when no stack holds any of our PRs: create one, provided each PR's
/// base is the previous PR's head.
fn decide_without_stack(prs: &Vec<PullRequest>) -> (res: StackAction)
    ensures
        res@ == decide_unstacked(prs@),
{
    let n = prs.len();
    let mut i: usize = 0;
    while n > 0 && i < n - 1
        invariant
            n == prs@.len(),
            i < n || n == 0,
            forall|j: int| 0 <= j < i && j + 1 < n ==> prs@[j + 1].base_ref@ == prs@[j].head_ref@,
        decreases n - i,
    {
        if prs[i + 1].base_ref != prs[i].head_ref {
            proof {
                assert(is_first_break(prs@, i as int));
                lemma_first_break_unique(prs@, i as int);
            }
            let lower = &prs[i];
            let upper = &prs[i + 1];
            let mut m = String::from_str("PR ");
            push_hash_number(&mut m, upper.number);
            m.append(" base (");
            m.append(upper.base_ref.as_str());
            m.append(") does not match PR ");
            push_hash_number(&mut m, lower.number);
            m.append(" head (");
            m.append(lower.head_ref.as_str());
            m.append("); update PR bases first");
            assert(m@ =~= base_mismatch_message(prs@[i as int], prs@[i + 1]));
            return StackAction::ReorderConflict { message: m };
        }
        i = i + 1;
    }
    proof {
        assert forall|k: int| !is_first_break(prs@, k) by {
            if is_first_break(prs@, k) {
                assert(prs@[k + 1].base_ref@ == prs@[k].head_ref@);
            }
        }
    }
    StackAction::Create { prs: pr_number_list(prs) }
}

/// The action when `stack` holds some of our PRs.
fn decide_with_stack(prs: &Vec<PullRequest>, stack: &PrStack) -> (res: StackAction)
    ensures
        res@ == decide_stacked(prs@, *stack),
{
    let remote = open_number_list(stack);
    let ours = pr_number_list(prs);
    let ours_in_remote = vec_is_prefix(&ours, &remote);
    if ours_in_remote && remote.len() == ours.len() {
        assert(remote@ =~= ours@);
        return StackAction::NoOp { stack_number: stack.number };
    }
    proof {
        if remote@ == ours@ {
            assert(remote@.take(ours@.len() as int) =~= ours@);
        }
    }
    if remote.len() > ours.len() && ours_in_remote {
        return StackAction::NoOp { stack_number: stack.number };
    }
    if ours.len() > remote.len() && vec_is_prefix(&remote, &ours) {
        return StackAction::Add {
            stack_number: stack.number,
            delta: skip_from(&ours, remote.len()),
        };
    }
    let mut m = String::from_str("local stack does not match stack ");
    push_hash_number(&mut m, stack.number);
    m.append(" (remote: ");
    let r = debug_list_text(&remote);
    m.append(r.as_str());
    m.append(", local: ");
    let o = debug_list_text(&ours);
    m.append(o.as_str());
    m.append("); run `ryu unstack` and resubmit to recreate");
    assert(m@ =~= mismatch_message(stack.number, remote@, ours@));
    StackAction::ReorderConflict { message: m }
}

/// Decide what stack registration should do, mirroring gh-stack's upsert, given
/// the stacks that the lookups so far found: `lookups[i]` is the native stack
/// containing `prs[i]` (`None`: not stacked).
///
/// Returns the PR to look up next, or the decided action: `Skip` for fewer than
/// two PRs or a platform without native stacks; `ReorderConflict` when our PRs
/// span two stacks; after all lookups, `Create` when no stack was found (and each
/// PR's base is the previous PR's head), `NoOp` when the stack's open PRs are
/// ours or we submit a bottom slice of it, `Add` with the delta when it is a
/// prefix of ours, `ReorderConflict` otherwise. Lookup failures are the caller's
/// to report; they end planning.
pub fn plan_stack_action(
    prs: &Vec<PullRequest>,
    supports_native_stacks: bool,
    lookups: &Vec<Option<PrStack>>,
) -> (res: PlanProgress)
    requires
        lookups.len() <= prs.len(),
    ensures
        res@ == spec_plan_progress(prs@, supports_native_stacks, lookups@),
{
    if prs.len() < 2 {
        return PlanProgress::Decided(
            StackAction::Skip { reason: String::from_str("native stacks require at least 2 PRs") },
        );
    }
    if !supports_native_stacks {
        return PlanProgress::Decided(
            StackAction::Skip {
                reason: String::from_str("platform does not support native stacks"),
            },
        );
    }
    let ghost rs = lookups@;
    let mut found: Option<usize> = None;
    for i in 0..lookups.len()
        invariant
            rs == lookups@,
            prs.len() >= 2,
            supports_native_stacks,
            found matches Some(j) ==> j < i && rs[j as int] is Some,
            lookup_fold(rs.take(i as int)) == LookupState::Found(
                match found {
                    Some(j) => rs[j as int],
                    None => None,
                },
            ),
    {
        proof {
            assert(rs.take(i + 1).drop_last() =~= rs.take(i as int));
        }
        match &lookups[i] {
            None => {},
            Some(st) => {
                match found {
                    None => {
                        found = Some(i);
                    },
                    Some(j) => {
                        let existing = lookups[j].as_ref().unwrap();
                        if existing.number != st.number {
                            proof {
                                assert(rs.take(i + 1).last() == rs[i as int]);
                                assert(lookup_fold(rs.take(i + 1)) == LookupState::Span(
                                    existing.number,
                                    st.number,
                                ));
                                lemma_fold_span_sticky(rs, i + 1);
                            }
                            let mut m = String::from_str("PRs span multiple stacks (");
                            push_hash_number(&mut m, existing.number);
                            m.append(" and ");
                            push_hash_number(&mut m, st.number);
                            m.append("); run `ryu unstack` and resubmit");
                            assert(m@ =~= span_message(existing.number, st.number));
                            return PlanProgress::Decided(StackAction::ReorderConflict { message: m });
                        }
                    },
                }
            },
        }
    }
    assert(rs.take(rs.len() as int) =~= rs);
    if lookups.len() < prs.len() {
        return PlanProgress::Lookup { pr_number: prs[lookups.len()].number };
    }
    match found {
        None => PlanProgress::Decided(decide_without_stack(prs)),
        Some(j) => PlanProgress::Decided(decide_with_stack(prs, lookups[j].as_ref().unwrap())),
    }
}


/// The dry-run line for an action.
pub open spec fn action_text(a: StackActionView) -> Seq<char> {
    match a {
        StackActionView::Create(prs) => "create native stack: "@ + hash_list(prs, " → "@),
        StackActionView::Add(n, delta) => "add "@ + hash_list(delta, ", "@) + " to stack "@
            + hash_number(n),
        StackActionView::NoOp(n) => "stack "@ + hash_number(n) + " already up to date"@,
        StackActionView::Skip(reason) => "skip stack registration ("@ + reason + ")"@,
        StackActionView::ReorderConflict(message) => "stack conflict: "@ + message,
    }
}

/// Format a stack action for dry-run output.
pub fn format_stack_action(action: &StackAction) -> (res: String)
    ensures
        res@ == action_text(action@),
{
    match action {
        StackAction::Create { prs } => {
            let list = hash_list_text(prs, " → ");
            String::from_str("create native stack: ").concat(list.as_str())
        },
        StackAction::Add { stack_number, delta } => {
            let list = hash_list_text(delta, ", ");
            let mut m = String::from_str("add ").concat(list.as_str()).concat(" to stack ");
            push_hash_number(&mut m, *stack_number);
            assert(m@ =~= action_text(action@));
            m
        },
        StackAction::NoOp { stack_number } => {
            let mut m = String::from_str("stack ");
            push_hash_number(&mut m, *stack_number);
            m.append(" already up to date");
            assert(m@ =~= action_text(action@));
            m
        },
        StackAction::Skip { reason } => {
            let m = String::from_str("skip stack registration (").concat(reason.as_str()).concat(
                ")",
            );
            assert(m@ =~= action_text(action@));
            m
        },
        StackAction::ReorderConflict { message } => String::from_str("stack conflict: ").concat(
            message.as_str(),
        ),
    }
}

// ---------------------------------------------------------------------------
// Laws of the decision

/// Extending a registered stack appends exactly the missing top of ours: when the
/// decision is `Add`, the stack's open PRs followed by the delta are our PRs, and
/// the delta is not empty.
pub proof fn add_completes_remote(prs: Seq<PullRequest>, stack: PrStack)
    requires
        decide_stacked(prs, stack) is Add,
    ensures
        ({
            let (n, delta) = (decide_stacked(prs, stack)->Add_0, decide_stacked(prs, stack)->Add_1);
            &&& n == stack.number
            &&& delta.len() > 0
            &&& open_numbers(stack) + delta == pr_numbers(prs)
        }),
{
    let remote = open_numbers(stack);
    let ours = pr_numbers(prs);
    assert(ours =~= ours.take(remote.len() as int) + ours.skip(remote.len() as int));
}

/// Keeping a registered stack never drops one of our PRs: when the decision is
/// `NoOp`, our PRs are the bottom of the stack's open PRs, in order.
pub proof fn noop_keeps_ours(prs: Seq<PullRequest>, stack: PrStack)
    requires
        decide_stacked(prs, stack) is NoOp,
    ensures
        decide_stacked(prs, stack)->NoOp_0 == stack.number,
        is_prefix(pr_numbers(prs), open_numbers(stack)),
{
    let remote = open_numbers(stack);
    let ours = pr_numbers(prs);
    if remote == ours {
        assert(remote.take(ours.len() as int) =~= ours);
    }
}

/// Planning skips exactly when registration does not apply (fewer than two PRs,
/// or no native stacks), and otherwise looks the PRs up one by one from the
/// bottom: the PR asked for next is the first one not yet looked up.
pub proof fn plan_skips_or_looks_up_in_order(
    prs: Seq<PullRequest>,
    supports_native_stacks: bool,
    rs: Seq<Option<PrStack>>,
)
    requires
        rs.len() <= prs.len(),
    ensures
        (spec_plan_progress(prs, supports_native_stacks, rs) matches PlanProgressView::Decided(
            StackActionView::Skip(_),
        )) <==> (prs.len() < 2 || !supports_native_stacks),
        spec_plan_progress(prs, supports_native_stacks, rs) matches PlanProgressView::Lookup(n)
            ==> rs.len() < prs.len() && n == prs[rs.len() as int].number,
        prs.len() >= 2 && supports_native_stacks && rs.len() < prs.len() && (forall|i: int|
            0 <= i < rs.len() ==> rs[i] is None) ==> spec_plan_progress(
            prs,
            supports_native_stacks,
            rs,
        ) == PlanProgressView::Lookup(prs[rs.len() as int].number),
{
    lookups_agree(rs);
    if prs.len() >= 2 && supports_native_stacks {
        match lookup_fold(rs) {
            LookupState::Found(Some(st)) => {
                assert(decide_stacked(prs, st) !is Skip);
                if forall|i: int| 0 <= i < rs.len() ==> rs[i] is None {
                    lemma_fold_all_none(rs);
                }
            },
            LookupState::Found(None) => {},
            LookupState::Span(a, b) => {
                if forall|i: int| 0 <= i < rs.len() ==> rs[i] is None {
                    lemma_fold_all_none(rs);
                }
            },
        }
    }
}

proof fn lemma_fold_all_none(rs: Seq<Option<PrStack>>)
    requires
        forall|i: int| 0 <= i < rs.len() ==> rs[i] is None,
    ensures
        lookup_fold(rs) == LookupState::Found(None),
    decreases rs.len(),
{
    if rs.len() > 0 {
        assert forall|i: int| 0 <= i < rs.drop_last().len() implies rs.drop_last()[i] is None by {
            assert(rs.drop_last()[i] == rs[i]);
        }
        lemma_fold_all_none(rs.drop_last());
        assert(rs[rs.len() - 1] is None);
    }
}

/// A registered stack is refused exactly when neither it nor our PRs are a
/// prefix of the other (a reorder or a removal); otherwise it is kept or
/// extended.
pub proof fn stacked_conflict_exactly_on_divergence(prs: Seq<PullRequest>, stack: PrStack)
    ensures
        decide_stacked(prs, stack) is ReorderConflict <==> (!is_prefix(
            pr_numbers(prs),
            open_numbers(stack),
        ) && !is_prefix(open_numbers(stack), pr_numbers(prs))),
        decide_stacked(prs, stack) is Create == false,
        decide_stacked(prs, stack) is Skip == false,
{
    let remote = open_numbers(stack);
    let ours = pr_numbers(prs);
    if remote == ours {
        assert(remote.take(ours.len() as int) =~= ours);
    }
    assert(remote.take(remote.len() as int) =~= remote);
    assert(ours.take(ours.len() as int) =~= ours);
    if is_prefix(ours, remote) && is_prefix(remote, ours) {
        assert(remote =~= ours);
    }
}

/// Submitting a bottom slice of a taller registered stack (e.g. with `--upto`)
/// keeps the stack, whatever the height difference: when our PR numbers are the
/// bottom of the stack's open PRs and the stack has more, the decision is `NoOp`
/// for that stack.
pub proof fn bottom_slice_is_kept(prs: Seq<PullRequest>, stack: PrStack)
    requires
        open_numbers(stack).len() > pr_numbers(prs).len(),
        open_numbers(stack).take(pr_numbers(prs).len() as int) == pr_numbers(prs),
    ensures
        decide_stacked(prs, stack) == StackActionView::NoOp(stack.number),
{
    assert(open_numbers(stack) != pr_numbers(prs));
}

/// The stack has an unmerged entry in state "open" for PR `n`.
pub open spec fn has_unmerged_open_entry(stack: PrStack, n: u64) -> bool {
    exists|i: int|
        0 <= i < stack.pull_requests@.len() && (#[trigger] stack.pull_requests@[i]).merged_at is None
            && stack.pull_requests@[i].state@ == "open"@ && stack.pull_requests@[i].number == n
}

/// The registered PRs of a stack are its unmerged entries whose state is
/// "open", drafts included: each such entry's number is among them, and each of
/// them is the number of such an entry.
pub proof fn open_numbers_are_unmerged_open_entries(stack: PrStack)
    ensures
        forall|i: int|
            0 <= i < stack.pull_requests@.len() && (#[trigger] stack.pull_requests@[i]).merged_at is None
                && stack.pull_requests@[i].state@ == "open"@ ==> open_numbers(stack).contains(
                stack.pull_requests@[i].number,
            ),
        forall|k: int|
            0 <= k < open_numbers(stack).len() ==> has_unmerged_open_entry(
                stack,
                #[trigger] open_numbers(stack)[k],
            ),
{
    let entries = stack.pull_requests@;
    let f = entries.filter(is_open_entry());
    assert forall|i: int|
        0 <= i < entries.len() && (#[trigger] entries[i]).merged_at is None && entries[i].state@
            == "open"@ implies open_numbers(stack).contains(entries[i].number) by {
        entries.lemma_filter_contains(is_open_entry(), i);
        let j = choose|j: int| 0 <= j < f.len() && f[j] == entries[i];
        assert(open_numbers(stack)[j] == entries[i].number);
    }
    assert forall|k: int| 0 <= k < open_numbers(stack).len() implies has_unmerged_open_entry(
        stack,
        #[trigger] open_numbers(stack)[k],
    ) by {
        entries.lemma_filter_pred(is_open_entry(), k);
        entries.lemma_filter_contains_rev(is_open_entry(), f[k]);
        let i = choose|i: int| 0 <= i < entries.len() && entries[i] == f[k];
        assert(entries[i].merged_at is None && entries[i].state@ == "open"@);
        assert(open_numbers(stack)[k] == f[k].number);
        assert(entries[i].number == open_numbers(stack)[k]);
    }
}

/// A stack whose entries are all unmerged and open, drafts or not, and are
/// exactly our PRs in order, is kept as it is.
pub proof fn open_stack_of_ours_is_kept(prs: Seq<PullRequest>, stack: PrStack)
    requires
        forall|i: int|
            0 <= i < stack.pull_requests@.len() ==> (#[trigger] stack.pull_requests@[i]).merged_at
                is None && stack.pull_requests@[i].state@ == "open"@,
        stack.pull_requests@.map_values(|e: PrStackEntry| e.number) == pr_numbers(prs),
    ensures
        decide_stacked(prs, stack) == StackActionView::NoOp(stack.number),
{
    let entries = stack.pull_requests@;
    crate::lemmas::lemma_filter_all(entries, is_open_entry());
    assert(open_numbers(stack) == pr_numbers(prs));
}

/// Registration converges: once the stack's open PRs are ours (as `Create` or
/// `Add` leave them), planning again keeps the stack.
pub proof fn registered_stack_is_kept(prs: Seq<PullRequest>, stack: PrStack)
    requires
        open_numbers(stack) == pr_numbers(prs),
    ensures
        decide_stacked(prs, stack) == StackActionView::NoOp(stack.number),
{
}

/// `Create` registers exactly our PRs, bottom to top, and only when each PR's base
/// is the previous PR's head.
pub proof fn create_registers_ours(prs: Seq<PullRequest>)
    ensures
        decide_unstacked(prs) is Create <==> chained(prs),
        decide_unstacked(prs) is Create ==> decide_unstacked(prs)->Create_0 == pr_numbers(prs),
{
    if chained(prs) {
        assert forall|i: int| !is_first_break(prs, i) by {
            if is_first_break(prs, i) {
                assert(prs[i + 1].base_ref@ == prs[i].head_ref@);
            }
        }
    } else {
        let j = choose|j: int| 0 <= j && j + 1 < prs.len() && prs[j + 1].base_ref@ != prs[j].head_ref@;
        lemma_some_break(prs, j);
    }
}

proof fn lemma_some_break(prs: Seq<PullRequest>, j: int)
    requires
        0 <= j && j + 1 < prs.len(),
        prs[j + 1].base_ref@ != prs[j].head_ref@,
    ensures
        exists|i: int| is_first_break(prs, i),
    decreases j,
{
    if forall|k: int| 0 <= k < j ==> prs[k + 1].base_ref@ == prs[k].head_ref@ {
        assert(is_first_break(prs, j));
    } else {
        let k = choose|k: int| 0 <= k < j && prs[k + 1].base_ref@ != prs[k].head_ref@;
        lemma_some_break(prs, k);
    }
}


/// The stacks found by the lookups all are one stack: when planning has not
/// stopped at a conflict, every PR that the lookups found stacked is in the
/// stack that decides, and when none was found, no PR is stacked.
pub proof fn lookups_agree(rs: Seq<Option<PrStack>>)
    ensures
        lookup_fold(rs) matches LookupState::Found(f) ==> forall|i: int|
            0 <= i < rs.len() && #[trigger] rs[i] is Some ==> f is Some && rs[i]->0.number
                == f->0.number,
    decreases rs.len(),
{
    if rs.len() > 0 {
        lookups_agree(rs.drop_last());
        if lookup_fold(rs.drop_last()) is Span {
        } else {
            assert forall|i: int|
                0 <= i < rs.len() - 1 && #[trigger] rs[i] is Some implies rs.drop_last()[i]
                is Some by {
                assert(rs.drop_last()[i] == rs[i]);
            }
        }
    }
}


/// Planning never registers over another stack: it decides `Create` only when
/// none of our PRs was found in a stack, and `Add` or `NoOp` only for the stack
/// that the lookups found our stacked PRs in.
pub proof fn plan_respects_found_stacks(prs: Seq<PullRequest>, rs: Seq<Option<PrStack>>)
    requires
        rs.len() <= prs.len(),
        prs.len() >= 2,
    ensures
        spec_plan_progress(prs, true, rs) matches PlanProgressView::Decided(StackActionView::Create(_))
            ==> forall|i: int| 0 <= i < rs.len() ==> rs[i] is None,
        spec_plan_progress(prs, true, rs) matches PlanProgressView::Decided(StackActionView::Add(n, _))
            ==> forall|i: int| 0 <= i < rs.len() && #[trigger] rs[i] is Some ==> rs[i]->0.number == n,
        spec_plan_progress(prs, true, rs) matches PlanProgressView::Decided(StackActionView::NoOp(n))
            ==> forall|i: int| 0 <= i < rs.len() && #[trigger] rs[i] is Some ==> rs[i]->0.number == n,
{
    lookups_agree(rs);
    match lookup_fold(rs) {
        LookupState::Found(None) => {
            assert forall|i: int| 0 <= i < rs.len() implies rs[i] is None by {
                if rs[i] is Some {
                }
            }
        },
        _ => {},
    }
}

// ---------------------------------------------------------------------------
// Driving registration

/// Waits before retrying after a concurrent modification, by attempt.
pub open spec fn backoff_ms(attempt: nat) -> u64 {
    if attempt == 0 {
        250
    } else if attempt == 1 {
        500
    } else if attempt == 2 {
        1000
    } else {
        0
    }
}

fn backoff_for(attempt: usize) -> (ms: u64)
    ensures
        ms == backoff_ms(attempt as nat),
{
    if attempt == 0 {
        250
    } else if attempt == 1 {
        500
    } else if attempt == 2 {
        1000
    } else {
        0
    }
}

/// Where a registration run stands.
#[derive(Debug)]
pub enum RegistrationPhase {
    /// Planning; the stacks found for the first PRs so far.
    Planning(Vec<Option<PrStack>>),
    /// Waiting for a stack of this many PRs to be created.
    Creating(usize),
    /// Waiting for this many PRs to be added to the stack.
    Adding(u64, usize),
    /// Waiting out a backoff before planning again.
    Sleeping,
    /// Done.
    Finished,
}

/// A registration run: the PRs to register (bottom to top), whether the platform
/// has native stacks, the attempt (0-based), and the phase.
#[derive(Debug)]
pub struct StackRegistration {
    pub prs: Vec<PullRequest>,
    pub supports_native_stacks: bool,
    pub attempt: usize,
    pub phase: RegistrationPhase,
}

/// What a registration run asks its driver to do next.
#[derive(Debug)]
pub enum RegistrationCommand {
    /// Look up the native stack containing this PR; answer with `Looked`.
    Lookup { pr_number: u64 },
    /// Create a stack of these PRs; answer with `Created`.
    CreateStack { prs: Vec<u64> },
    /// Append these PRs to the stack; answer with `Added`.
    AddToStack { stack_number: u64, prs: Vec<u64> },
    /// Wait this many milliseconds; answer with `Slept`.
    Sleep { ms: u64 },
    /// Registration is over: `Some(message)` is a soft failure to record.
    Finish(Option<String>),
}

/// A progress message to show (if any), then a command to carry out.
#[derive(Debug)]
pub struct RegistrationStep {
    pub message: Option<String>,
    pub command: RegistrationCommand,
}

/// The answer of the platform to the last command.
#[derive(Debug)]
pub enum RegistrationEvent {
    Looked(Result<Option<PrStack>, Error>),
    Created(Result<PrStack, Error>),
    Added(Result<PrStack, Error>),
    Slept,
}

/// The mathematical content of a [`RegistrationPhase`].
pub enum RegistrationPhaseView {
    Planning(Seq<Option<PrStack>>),
    Creating(nat),
    Adding(u64, nat),
    Sleeping,
    Finished,
}

/// The mathematical content of a [`StackRegistration`].
pub struct RegistrationView {
    pub prs: Seq<PullRequest>,
    pub supports_native_stacks: bool,
    pub attempt: nat,
    pub phase: RegistrationPhaseView,
}

/// The mathematical content of a [`RegistrationCommand`].
pub enum RegistrationCommandView {
    Lookup(u64),
    CreateStack(Seq<u64>),
    AddToStack(u64, Seq<u64>),
    Sleep(u64),
    Finish(Option<Seq<char>>),
}

/// The mathematical content of a [`RegistrationStep`].
pub struct RegistrationStepView {
    pub message: Option<Seq<char>>,
    pub command: RegistrationCommandView,
}

impl View for StackRegistration {
    type V = RegistrationView;

    open spec fn view(&self) -> RegistrationView {
        RegistrationView {
            prs: self.prs@,
            supports_native_stacks: self.supports_native_stacks,
            attempt: self.attempt as nat,
            phase: match self.phase {
                RegistrationPhase::Planning(rs) => RegistrationPhaseView::Planning(rs@),
                RegistrationPhase::Creating(c) => RegistrationPhaseView::Creating(c as nat),
                RegistrationPhase::Adding(n, c) => RegistrationPhaseView::Adding(n, c as nat),
                RegistrationPhase::Sleeping => RegistrationPhaseView::Sleeping,
                RegistrationPhase::Finished => RegistrationPhaseView::Finished,
            },
        }
    }
}

impl View for RegistrationStep {
    type V = RegistrationStepView;

    open spec fn view(&self) -> RegistrationStepView {
        RegistrationStepView {
            message: match self.message {
                Some(m) => Some(m@),
                None => None,
            },
            command: match self.command {
                RegistrationCommand::Lookup { pr_number } => RegistrationCommandView::Lookup(
                    pr_number,
                ),
                RegistrationCommand::CreateStack { prs } => RegistrationCommandView::CreateStack(
                    prs@,
                ),
                RegistrationCommand::AddToStack { stack_number, prs } =>
                    RegistrationCommandView::AddToStack(stack_number, prs@),
                RegistrationCommand::Sleep { ms } => RegistrationCommandView::Sleep(ms),
                RegistrationCommand::Finish(m) => RegistrationCommandView::Finish(
                    match m {
                        Some(t) => Some(t@),
                        None => None,
                    },
                ),
            },
        }
    }
}

/// A well-formed run: at most the last attempt, and planning only while a lookup
/// is outstanding.
pub open spec fn registration_wf(s: RegistrationView) -> bool {
    &&& s.attempt <= 3
    &&& s.phase matches RegistrationPhaseView::Planning(rs) ==> {
        &&& rs.len() < s.prs.len()
        &&& spec_plan_progress(s.prs, s.supports_native_stacks, rs) is Lookup
    }
    &&& s.phase is Sleeping ==> s.attempt < 3
}

/// The event answers the run's outstanding command.
pub open spec fn answers(s: RegistrationView, ev: RegistrationEvent) -> bool {
    match s.phase {
        RegistrationPhaseView::Planning(_) => ev is Looked,
        RegistrationPhaseView::Creating(_) => ev is Created,
        RegistrationPhaseView::Adding(_, _) => ev is Added,
        RegistrationPhaseView::Sleeping => ev is Slept,
        RegistrationPhaseView::Finished => false,
    }
}

/// The run in another phase.
pub open spec fn with_phase(s: RegistrationView, phase: RegistrationPhaseView) -> RegistrationView {
    RegistrationView { phase, ..s }
}

/// End the run, showing `message` and recording `outcome`.
pub open spec fn finish_with(
    s: RegistrationView,
    message: Option<Seq<char>>,
    outcome: Option<Seq<char>>,
) -> (RegistrationView, RegistrationStepView) {
    (
        with_phase(s, RegistrationPhaseView::Finished),
        RegistrationStepView { message, command: RegistrationCommandView::Finish(outcome) },
    )
}

/// Soft-failure text for a failed lookup or write.
pub open spec fn failure_text(e: Error) -> Seq<char> {
    match e {
        Error::StacksUnavailable(m) => "Stack registration skipped: "@ + m@,
        _ => "Stack registration failed: "@ + e.spec_message(),
    }
}

/// Carry out a decided action.
pub open spec fn spec_act(s: RegistrationView, a: StackActionView) -> (
    RegistrationView,
    RegistrationStepView,
) {
    match a {
        StackActionView::Skip(reason) => finish_with(
            s,
            Some("Stack registration skipped ("@ + reason + ")"@),
            None,
        ),
        StackActionView::NoOp(n) => finish_with(
            s,
            Some("Stack "@ + hash_number(n) + " already up to date"@),
            None,
        ),
        StackActionView::ReorderConflict(m) => finish_with(s, None, Some(m)),
        StackActionView::Create(prs) => (
            with_phase(s, RegistrationPhaseView::Creating(prs.len())),
            RegistrationStepView {
                message: None,
                command: RegistrationCommandView::CreateStack(prs),
            },
        ),
        StackActionView::Add(n, delta) => (
            with_phase(s, RegistrationPhaseView::Adding(n, delta.len())),
            RegistrationStepView {
                message: None,
                command: RegistrationCommandView::AddToStack(n, delta),
            },
        ),
    }
}

/// Plan with the given lookup results.
pub open spec fn spec_plan_step(s: RegistrationView, rs: Seq<Option<PrStack>>) -> (
    RegistrationView,
    RegistrationStepView,
) {
    match spec_plan_progress(s.prs, s.supports_native_stacks, rs) {
        PlanProgressView::Lookup(n) => (
            with_phase(s, RegistrationPhaseView::Planning(rs)),
            RegistrationStepView { message: None, command: RegistrationCommandView::Lookup(n) },
        ),
        PlanProgressView::Decided(a) => spec_act(s, a),
    }
}

/// Settle the outcome of a write: report success; on a concurrent modification
/// wait and plan again unless this was the last attempt; otherwise fail softly.
pub open spec fn spec_settle(s: RegistrationView, r: Result<Seq<char>, Error>) -> (
    RegistrationView,
    RegistrationStepView,
) {
    match r {
        Ok(m) => finish_with(s, Some(m), None),
        Err(e) => if e is StackConflict && s.attempt < 3 {
            (
                with_phase(s, RegistrationPhaseView::Sleeping),
                RegistrationStepView {
                    message: Some(
                        "Stack concurrently modified, retrying: "@ + e->StackConflict_0@,
                    ),
                    command: RegistrationCommandView::Sleep(backoff_ms(s.attempt)),
                },
            )
        } else {
            finish_with(s, None, Some(failure_text(e)))
        },
    }
}

/// Text reported when a stack was created.
pub open spec fn registered_text(stack_number: u64, count: nat) -> Seq<char> {
    "Registered stack "@ + hash_number(stack_number) + " ("@ + decimal(count) + " PRs)"@
}

/// Text reported when PRs were added to a stack.
pub open spec fn added_text(stack_number: u64, count: nat) -> Seq<char> {
    "Added "@ + decimal(count) + " PR(s) to stack "@ + hash_number(stack_number)
}

/// The run's next state and step on an event.
pub open spec fn spec_resume(s: RegistrationView, ev: RegistrationEvent) -> (
    RegistrationView,
    RegistrationStepView,
) {
    match s.phase {
        RegistrationPhaseView::Planning(rs) => match ev {
            RegistrationEvent::Looked(Ok(r)) => spec_plan_step(s, rs.push(r)),
            RegistrationEvent::Looked(Err(e)) => finish_with(s, None, Some(failure_text(e))),
            _ => (s, RegistrationStepView { message: None, command: RegistrationCommandView::Finish(None) }),
        },
        RegistrationPhaseView::Creating(c) => match ev {
            RegistrationEvent::Created(Ok(st)) => spec_settle(s, Ok(registered_text(st.number, c))),
            RegistrationEvent::Created(Err(e)) => spec_settle(s, Err(e)),
            _ => (s, RegistrationStepView { message: None, command: RegistrationCommandView::Finish(None) }),
        },
        RegistrationPhaseView::Adding(n, c) => match ev {
            RegistrationEvent::Added(Ok(_)) => spec_settle(s, Ok(added_text(n, c))),
            RegistrationEvent::Added(Err(Error::StackNotFound(_))) => (
                with_phase(s, RegistrationPhaseView::Creating(s.prs.len())),
                RegistrationStepView {
                    message: None,
                    command: RegistrationCommandView::CreateStack(pr_numbers(s.prs)),
                },
            ),
            RegistrationEvent::Added(Err(e)) => spec_settle(s, Err(e)),
            _ => (s, RegistrationStepView { message: None, command: RegistrationCommandView::Finish(None) }),
        },
        RegistrationPhaseView::Sleeping => spec_plan_step(
            RegistrationView { attempt: s.attempt + 1, ..s },
            Seq::empty(),
        ),
        RegistrationPhaseView::Finished => (s, RegistrationStepView { message: None, command: RegistrationCommandView::Finish(None) }),
    }
}

/// The start of a run for these PRs: nothing to do without PRs, otherwise plan.
pub open spec fn spec_start(prs: Seq<PullRequest>, supports_native_stacks: bool) -> (
    RegistrationView,
    RegistrationStepView,
) {
    let s = RegistrationView {
        prs,
        supports_native_stacks,
        attempt: 0,
        phase: RegistrationPhaseView::Planning(Seq::empty()),
    };
    if prs.len() == 0 {
        finish_with(s, None, None)
    } else {
        spec_plan_step(s, Seq::empty())
    }
}

fn finish(message: Option<String>, outcome: Option<String>) -> (res: RegistrationStep)
    ensures
        res@ == (RegistrationStepView {
            message: match message {
                Some(m) => Some(m@),
                None => None,
            },
            command: RegistrationCommandView::Finish(
                match outcome {
                    Some(m) => Some(m@),
                    None => None,
                },
            ),
        }),
{
    RegistrationStep { message, command: RegistrationCommand::Finish(outcome) }
}

fn failure_message(e: &Error) -> (res: String)
    ensures
        res@ == failure_text(*e),
{
    match e {
        Error::StacksUnavailable(m) => String::from_str("Stack registration skipped: ").concat(
            m.as_str(),
        ),
        _ => {
            let t = e.message();
            String::from_str("Stack registration failed: ").concat(t.as_str())
        },
    }
}

impl StackRegistration {
    /// Begin registering `plan`'s PRs (those of `bookmark_to_pr`, in segment order).
    pub fn start(
        plan: &SubmissionPlan,
        bookmark_to_pr: &StringHashMap<PullRequest>,
        supports_native_stacks: bool,
    ) -> (res: (StackRegistration, RegistrationStep))
        ensures
            (res.0@, res.1@) == spec_start(
                prs_for_names(segment_names(plan.segments@), bookmark_to_pr@),
                supports_native_stacks,
            ),
            registration_wf(res.0@),
    {
        let prs = ordered_prs(plan, bookmark_to_pr);
        let mut run = StackRegistration {
            prs,
            supports_native_stacks,
            attempt: 0,
            phase: RegistrationPhase::Planning(Vec::new()),
        };
        if run.prs.len() == 0 {
            run.phase = RegistrationPhase::Finished;
            return (run, finish(None, None));
        }
        let step = run.plan(Vec::new());
        (run, step)
    }

    /// Plan with `lookups` and carry out what planning decides.
    fn plan(&mut self, lookups: Vec<Option<PrStack>>) -> (step: RegistrationStep)
        requires
            lookups.len() <= old(self).prs.len(),
            old(self).attempt <= 3,
        ensures
            (final(self)@, step@) == spec_plan_step(old(self)@, lookups@),
            registration_wf(final(self)@),
    {
        let progress = plan_stack_action(&self.prs, self.supports_native_stacks, &lookups);
        match progress {
            PlanProgress::Lookup { pr_number } => {
                self.phase = RegistrationPhase::Planning(lookups);
                RegistrationStep { message: None, command: RegistrationCommand::Lookup { pr_number } }
            },
            PlanProgress::Decided(action) => self.act(action),
        }
    }

    fn act(&mut self, action: StackAction) -> (step: RegistrationStep)
        requires
            old(self).attempt <= 3,
        ensures
            (final(self)@, step@) == spec_act(old(self)@, action@),
            registration_wf(final(self)@),
    {
        match action {
            StackAction::Skip { reason } => {
                self.phase = RegistrationPhase::Finished;
                let m = String::from_str("Stack registration skipped (").concat(reason.as_str()).concat(")");
                finish(Some(m), None)
            },
            StackAction::NoOp { stack_number } => {
                self.phase = RegistrationPhase::Finished;
                let mut m = String::from_str("Stack ");
                push_hash_number(&mut m, stack_number);
                m.append(" already up to date");
                finish(Some(m), None)
            },
            StackAction::ReorderConflict { message } => {
                self.phase = RegistrationPhase::Finished;
                finish(None, Some(message))
            },
            StackAction::Create { prs } => {
                self.phase = RegistrationPhase::Creating(prs.len());
                RegistrationStep { message: None, command: RegistrationCommand::CreateStack { prs } }
            },
            StackAction::Add { stack_number, delta } => {
                self.phase = RegistrationPhase::Adding(stack_number, delta.len());
                RegistrationStep {
                    message: None,
                    command: RegistrationCommand::AddToStack { stack_number, prs: delta },
                }
            },
        }
    }

    fn settle(&mut self, r: Result<String, Error>) -> (step: RegistrationStep)
        requires
            old(self).attempt <= 3,
        ensures
            (final(self)@, step@) == spec_settle(
                old(self)@,
                match r {
                    Ok(m) => Ok(m@),
                    Err(e) => Err(e),
                },
            ),
            registration_wf(final(self)@),
    {
        match r {
            Ok(m) => {
                self.phase = RegistrationPhase::Finished;
                finish(Some(m), None)
            },
            Err(e) => {
                if self.attempt < 3 {
                    if let Error::StackConflict(msg) = &e {
                        self.phase = RegistrationPhase::Sleeping;
                        let m = String::from_str("Stack concurrently modified, retrying: ").concat(
                            msg.as_str(),
                        );
                        return RegistrationStep {
                            message: Some(m),
                            command: RegistrationCommand::Sleep { ms: backoff_for(self.attempt) },
                        };
                    }
                }
                self.phase = RegistrationPhase::Finished;
                finish(None, Some(failure_message(&e)))
            },
        }
    }

    /// Whether `event` answers the run's outstanding command.
    pub fn accepts(&self, event: &RegistrationEvent) -> (res: bool)
        ensures
            res == answers(self@, *event),
    {
        match (&self.phase, event) {
            (RegistrationPhase::Planning(_), RegistrationEvent::Looked(_)) => true,
            (RegistrationPhase::Creating(_), RegistrationEvent::Created(_)) => true,
            (RegistrationPhase::Adding(_, _), RegistrationEvent::Added(_)) => true,
            (RegistrationPhase::Sleeping, RegistrationEvent::Slept) => true,
            _ => false,
        }
    }

    /// Advance the run with the answer to its outstanding command.
    pub fn resume(&mut self, event: RegistrationEvent) -> (step: RegistrationStep)
        requires
            registration_wf(old(self)@),
            answers(old(self)@, event),
        ensures
            (final(self)@, step@) == spec_resume(old(self)@, event),
            registration_wf(final(self)@),
    {
        let mut phase = RegistrationPhase::Finished;
        std::mem::swap(&mut phase, &mut self.phase);
        match phase {
            RegistrationPhase::Planning(lookups) => {
                self.phase = RegistrationPhase::Planning(Vec::new());
                match event {
                    RegistrationEvent::Looked(Ok(r)) => {
                        let mut lookups = lookups;
                        lookups.push(r);
                        self.plan(lookups)
                    },
                    RegistrationEvent::Looked(Err(e)) => {
                        self.phase = RegistrationPhase::Finished;
                        finish(None, Some(failure_message(&e)))
                    },
                    _ => finish(None, None),
                }
            },
            RegistrationPhase::Creating(c) => {
                self.phase = RegistrationPhase::Creating(c);
                match event {
                    RegistrationEvent::Created(Ok(st)) => {
                        let mut m = String::from_str("Registered stack ");
                        push_hash_number(&mut m, st.number);
                        m.append(" (");
                        push_decimal(&mut m, c as u64);
                        m.append(" PRs)");
                        assert(m@ =~= registered_text(st.number, c as nat));
                        self.settle(Ok(m))
                    },
                    RegistrationEvent::Created(Err(e)) => self.settle(Err(e)),
                    _ => finish(None, None),
                }
            },
            RegistrationPhase::Adding(n, c) => {
                self.phase = RegistrationPhase::Adding(n, c);
                match event {
                    RegistrationEvent::Added(Ok(_)) => {
                        let mut m = String::from_str("Added ");
                        push_decimal(&mut m, c as u64);
                        m.append(" PR(s) to stack ");
                        push_hash_number(&mut m, n);
                        assert(m@ =~= added_text(n, c as nat));
                        self.settle(Ok(m))
                    },
                    RegistrationEvent::Added(Err(Error::StackNotFound(_))) => {
                        let all = pr_number_list(&self.prs);
                        self.phase = RegistrationPhase::Creating(self.prs.len());
                        RegistrationStep {
                            message: None,
                            command: RegistrationCommand::CreateStack { prs: all },
                        }
                    },
                    RegistrationEvent::Added(Err(e)) => self.settle(Err(e)),
                    _ => finish(None, None),
                }
            },
            RegistrationPhase::Sleeping => {
                self.attempt = self.attempt + 1;
                self.phase = RegistrationPhase::Planning(Vec::new());
                self.plan(Vec::new())
            },
            RegistrationPhase::Finished => finish(None, None),
        }
    }
}


/// A concurrent modification (409) answering a write, create or add alike, is
/// retried on the first three attempts: the run shows the retry message and
/// waits 250, 500 and then 1000 ms before planning again; it does not finish.
pub proof fn write_conflicts_are_retried(s: RegistrationView, ev: RegistrationEvent, m: String)
    requires
        registration_wf(s),
        s.attempt < 3,
        (s.phase is Creating && ev == RegistrationEvent::Created(Err(Error::StackConflict(m))))
            || (s.phase is Adding && ev == RegistrationEvent::Added(Err(Error::StackConflict(m)))),
    ensures
        spec_resume(s, ev).1.command == RegistrationCommandView::Sleep(
            if s.attempt == 0 {
                250u64
            } else if s.attempt == 1 {
                500u64
            } else {
                1000u64
            },
        ),
        spec_resume(s, ev).1.message == Some("Stack concurrently modified, retrying: "@ + m@),
        spec_resume(s, ev).0.phase is Sleeping,
        spec_resume(s, ev).0.attempt == s.attempt,
{
}

/// A run without PRs does nothing and reports nothing; a run with PRs starts
/// by planning on its first attempt with no lookups made; with at least two PRs
/// on a platform with native stacks, its first step looks up the bottom PR.
pub proof fn registration_starts_by_planning(prs: Seq<PullRequest>, supports_native_stacks: bool)
    ensures
        prs.len() == 0 ==> spec_start(prs, supports_native_stacks).1 == (RegistrationStepView {
            message: None,
            command: RegistrationCommandView::Finish(None),
        }),
        prs.len() >= 2 && supports_native_stacks ==> spec_start(prs, supports_native_stacks).1
            == (RegistrationStepView {
            message: None,
            command: RegistrationCommandView::Lookup(prs[0].number),
        }) && spec_start(prs, supports_native_stacks).0.attempt == 0,
{
    if prs.len() >= 2 && supports_native_stacks {
        plan_skips_or_looks_up_in_order(prs, true, Seq::empty());
    }
}

/// A write that fails otherwise than by a concurrent modification on an early
/// attempt ends the run at once with a soft failure, and so does a concurrent
/// modification on the last attempt; a stack that vanished before an add is
/// created anew from all our PRs; a successful write ends the run without a
/// failure.
pub proof fn write_outcomes(s: RegistrationView, ev: RegistrationEvent)
    requires
        registration_wf(s),
        answers(s, ev),
        s.phase is Creating || s.phase is Adding,
    ensures
        (ev matches RegistrationEvent::Created(Ok(_))) || (ev matches RegistrationEvent::Added(Ok(_)))
            ==> spec_resume(s, ev).1.command == RegistrationCommandView::Finish(None)
            && spec_resume(s, ev).1.message is Some,
        ev matches RegistrationEvent::Added(Err(Error::StackNotFound(_))) ==> spec_resume(s, ev).1.command
            == RegistrationCommandView::CreateStack(pr_numbers(s.prs)),
        ev matches RegistrationEvent::Created(Err(e)) ==> !(e is StackConflict && s.attempt < 3)
            ==> spec_resume(s, ev).1.command is Finish && spec_resume(s, ev).1.command->Finish_0 is Some,
        ev matches RegistrationEvent::Added(Err(e)) ==> !(e is StackConflict && s.attempt < 3) ==> !(e is StackNotFound)
            ==> spec_resume(s, ev).1.command is Finish && spec_resume(s, ev).1.command->Finish_0 is Some,
{
}

/// A failed lookup ends the run with a soft failure: a skip when stacks are
/// unavailable, a failure otherwise, both naming the platform's message.
pub proof fn lookup_failures_are_soft(s: RegistrationView, e: Error)
    requires
        registration_wf(s),
        s.phase is Planning,
    ensures
        spec_resume(s, RegistrationEvent::Looked(Err(e))).1.command
            == RegistrationCommandView::Finish(Some(
            match e {
                Error::StacksUnavailable(m) => "Stack registration skipped: "@ + m@,
                _ => "Stack registration failed: "@ + e.spec_message(),
            },
        )),
{
}

/// After a wait, the run plans again from scratch on the next attempt.
pub proof fn retry_replans(s: RegistrationView)
    requires
        registration_wf(s),
        s.phase is Sleeping,
    ensures
        spec_resume(s, RegistrationEvent::Slept) == spec_plan_step(
            RegistrationView { attempt: s.attempt + 1, ..s },
            Seq::empty(),
        ),
{
}

/// How far a phase is from the end of its attempt.
pub open spec fn phase_rank(s: RegistrationView) -> nat {
    match s.phase {
        RegistrationPhaseView::Planning(rs) => (s.prs.len() + 3 - rs.len()) as nat,
        RegistrationPhaseView::Adding(_, _) => 2,
        RegistrationPhaseView::Creating(_) => 1,
        RegistrationPhaseView::Sleeping => 0,
        RegistrationPhaseView::Finished => 0,
    }
}

/// A bound on the steps a run has left.
pub open spec fn registration_measure(s: RegistrationView) -> nat {
    let per_attempt = s.prs.len() + 4;
    let attempts_left = if s.attempt == 0 {
        3 * per_attempt
    } else if s.attempt == 1 {
        2 * per_attempt
    } else if s.attempt == 2 {
        per_attempt
    } else {
        0
    };
    attempts_left + phase_rank(s)
}

/// Registration always ends, and retries are bounded: every answer either
/// finishes the run or strictly decreases a bound on the steps left, which is
/// finite for a well-formed run; a wait happens only after a concurrent
/// modification on one of the first three attempts, for 250, 500 and then
/// 1000 ms; and runs stay well formed.
pub proof fn registration_terminates(s: RegistrationView, ev: RegistrationEvent)
    requires
        registration_wf(s),
        answers(s, ev),
    ensures
        registration_wf(spec_resume(s, ev).0),
        spec_resume(s, ev).1.command is Finish || registration_measure(spec_resume(s, ev).0)
            < registration_measure(s),
        spec_resume(s, ev).1.command matches RegistrationCommandView::Sleep(ms) ==> {
            &&& s.attempt < 3
            &&& ms == backoff_ms(s.attempt)
            &&& ms > 0
            &&& (ev matches RegistrationEvent::Created(Err(Error::StackConflict(_))))
                || (ev matches RegistrationEvent::Added(Err(Error::StackConflict(_))))
        },
{
    let n = s.prs.len();
    let next = spec_resume(s, ev).0;
    assert(next.prs == s.prs);
    assert(s.attempt == 0 || s.attempt == 1 || s.attempt == 2 || s.attempt == 3);
    assert(next.attempt == s.attempt || next.attempt == s.attempt + 1);
    if s.phase is Planning {
        let rs = s.phase->Planning_0;
        assert(rs.len() < n);
    }
}


// ---------------------------------------------------------------------------
// Dry run

/// What a dry run reports.
#[derive(Debug)]
pub enum DryRunStart {
    /// Every bookmark has a PR: plan with these PRs, then report with [`dry_run_line`].
    PlanWith(Vec<PullRequest>),
    /// Report this line (if any) without planning.
    Report(Option<String>),
}

/// The bookmark names joined by arrows, bottom to top.
pub open spec fn arrow_names(segments: Seq<NarrowedBookmarkSegment>) -> Seq<char> {
    join(segment_names(segments), " → "@)
}

/// The start of a dry run: with a PR for every bookmark (and at least one), plan
/// with those PRs; otherwise, for two or more bookmarks, report the bookmark
/// names; otherwise report nothing.
pub fn dry_run_start(plan: &SubmissionPlan) -> (res: DryRunStart)
    ensures
        ({
            let prs = prs_for_names(segment_names(plan.segments@), plan.existing_prs@);
            if prs.len() == plan.segments@.len() && prs.len() > 0 {
                res matches DryRunStart::PlanWith(v) && v@ == prs
            } else if plan.segments@.len() >= 2 {
                res matches DryRunStart::Report(Some(line)) && line@ == "  → register native stack: "@
                    + arrow_names(plan.segments@)
            } else {
                res matches DryRunStart::Report(None)
            }
        }),
{
    let prs = ordered_prs(plan, &plan.existing_prs);
    if prs.len() == plan.segments.len() && prs.len() > 0 {
        return DryRunStart::PlanWith(prs);
    }
    if plan.segments.len() >= 2 {
        let ghost names = segment_names(plan.segments@);
        let mut joined = String::new();
        for i in 0..plan.segments.len()
            invariant
                names == segment_names(plan.segments@),
                joined@ == join(names.take(i as int), " → "@),
        {
            proof {
                assert(names.take(i + 1).drop_last() =~= names.take(i as int));
                assert(names.take(i + 1).last() == plan.segments@[i as int].bookmark.name@);
            }
            if i > 0 {
                joined.append(" → ");
            }
            joined.append(plan.segments[i].bookmark.name.as_str());
            assert(joined@ =~= join(names.take(i + 1), " → "@));
        }
        assert(names.take(names.len() as int) =~= names);
        let line = String::from_str("  → register native stack: ").concat(joined.as_str());
        return DryRunStart::Report(Some(line));
    }
    DryRunStart::Report(None)
}

/// The dry-run line for the outcome of planning.
pub open spec fn dry_run_text(outcome: Result<StackActionView, Error>) -> Seq<char> {
    match outcome {
        Ok(a) => "  → "@ + action_text(a),
        Err(Error::StacksUnavailable(_)) => "  → skip stack registration (stacks unavailable)"@,
        Err(e) => "  → stack registration unknown (lookup failed: "@ + e.spec_message() + ")"@,
    }
}

/// The dry-run line for the outcome of planning (the action, or the lookup error).
pub fn dry_run_line(outcome: &Result<StackAction, Error>) -> (res: String)
    ensures
        res@ == dry_run_text(
            match outcome {
                Ok(a) => Ok(a@),
                Err(e) => Err(*e),
            },
        ),
{
    match outcome {
        Ok(action) => {
            let t = format_stack_action(action);
            String::from_str("  → ").concat(t.as_str())
        },
        Err(Error::StacksUnavailable(_)) => String::from_str(
            "  → skip stack registration (stacks unavailable)",
        ),
        Err(e) => {
            let t = e.message();
            String::from_str("  → stack registration unknown (lookup failed: ").concat(
                t.as_str(),
            ).concat(")")
        },
    }
}

} // verus!
