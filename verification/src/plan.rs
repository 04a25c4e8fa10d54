//! The parts of a submission plan that stack registration reads: the bookmark
//! segments bottom to top, and the pull requests that already exist for them.

use vstd::prelude::*;
use vstd::hash_map::StringHashMap;
use crate::types::PullRequest;

verus! {

/// A local bookmark.
#[derive(Debug)]
pub struct Bookmark {
    pub name: String,
}

/// One segment of the submitted stack, identified by its bookmark.
#[derive(Debug)]
pub struct NarrowedBookmarkSegment {
    pub bookmark: Bookmark,
}

/// The segments to submit, bottom to top, and the PRs that already exist,
/// keyed by bookmark name.
pub struct SubmissionPlan {
    pub segments: Vec<NarrowedBookmarkSegment>,
    pub existing_prs: StringHashMap<PullRequest>,
}

/// The bookmark names of the segments, bottom to top.
pub open spec fn segment_names(segments: Seq<NarrowedBookmarkSegment>) -> Seq<Seq<char>> {
    segments.map_values(|s: NarrowedBookmarkSegment| s.bookmark.name@)
}

/// The PRs known for the named bookmarks, in the order of the names; names
/// without a PR are left out.
pub open spec fn prs_for_names(names: Seq<Seq<char>>, m: Map<Seq<char>, PullRequest>) -> Seq<
    PullRequest,
>
    decreases names.len(),
{
    if names.len() == 0 {
        Seq::empty()
    } else if m.contains_key(names.last()) {
        prs_for_names(names.drop_last(), m).push(m[names.last()])
    } else {
        prs_for_names(names.drop_last(), m)
    }
}

/// `pr` is the PR of one of the names.
pub open spec fn is_pr_of_a_name(names: Seq<Seq<char>>, m: Map<Seq<char>, PullRequest>, pr: PullRequest) -> bool {
    exists|i: int| 0 <= i < names.len() && m.contains_key(names[i]) && m[names[i]] == pr
}

/// Registration takes, bottom to top, the PR of every bookmark that has one and
/// nothing else: each bookmark with a PR contributes its PR, and every PR taken
/// is the PR of one of the bookmarks.
pub proof fn prs_for_names_takes_known(names: Seq<Seq<char>>, m: Map<Seq<char>, PullRequest>)
    ensures
        forall|i: int|
            0 <= i < names.len() && m.contains_key(#[trigger] names[i]) ==> prs_for_names(names, m).contains(
                m[names[i]],
            ),
        forall|k: int|
            0 <= k < prs_for_names(names, m).len() ==> is_pr_of_a_name(
                names,
                m,
                #[trigger] prs_for_names(names, m)[k],
            ),
        prs_for_names(names, m).len() <= names.len(),
    decreases names.len(),
{
    if names.len() > 0 {
        let init = names.drop_last();
        prs_for_names_takes_known(init, m);
        let r0 = prs_for_names(init, m);
        let r = prs_for_names(names, m);
        assert forall|i: int| 0 <= i < names.len() && m.contains_key(#[trigger] names[i]) implies r.contains(m[names[i]]) by {
            if i < names.len() - 1 {
                assert(init[i] == names[i]);
                let j = choose|j: int| 0 <= j < r0.len() && r0[j] == m[init[i]];
                assert(r[j] == r0[j]);
            } else {
                assert(r[r.len() - 1] == m[names[i]]);
            }
        }
        assert forall|k: int| 0 <= k < r.len() implies is_pr_of_a_name(names, m, #[trigger] r[k]) by {
            if k < r0.len() {
                assert(r[k] == r0[k]);
                assert(is_pr_of_a_name(init, m, r0[k]));
                let i = choose|i: int| 0 <= i < init.len() && m.contains_key(init[i]) && m[init[i]] == r0[k];
                assert(names[i] == init[i]);
            } else {
                let i = names.len() - 1;
                assert(m.contains_key(names[i]) && m[names[i]] == r[k]);
            }
        }
    }
}

/// PRs for the submitted bookmarks, ordered bottom to top (plan segment order);
/// bookmarks without a PR are skipped.
pub fn ordered_prs(plan: &SubmissionPlan, bookmark_to_pr: &StringHashMap<PullRequest>) -> (res: Vec<
    PullRequest,
>)
    ensures
        res@ == prs_for_names(segment_names(plan.segments@), bookmark_to_pr@),
{
    let ghost names = segment_names(plan.segments@);
    let mut res: Vec<PullRequest> = Vec::new();
    for i in 0..plan.segments.len()
        invariant
            names == segment_names(plan.segments@),
            res@ == prs_for_names(names.take(i as int), bookmark_to_pr@),
    {
        proof {
            assert(names.take(i + 1).drop_last() =~= names.take(i as int));
            assert(names.take(i + 1).last() == plan.segments@[i as int].bookmark.name@);
        }
        match bookmark_to_pr.get(plan.segments[i].bookmark.name.as_str()) {
            Some(pr) => {
                res.push(pr.clone());
            },
            None => {},
        }
    }
    assert(names.take(names.len() as int) =~= names);
    res
}

} // verus!
