use jj_ryu::error::Error;
use jj_ryu::merge::{
    bookmark_pr_number, bottom_unmerged_pr, first_submitted_pr, forget_merged_layers,
    merge_options, merge_prompt, merge_request_error, plan_merge, poll_merge_step,
    resolve_merge, stack_for_merge, MergeResolution, PollStep,
};
use jj_ryu::tracking::{CachedPr, PrCache};
use jj_ryu::types::{
    MergeAsyncState, MergeMethod, PrStack, PrStackEntry, PrStackHead, PullRequest, StackRef,
};

fn entry(n: u64, merged: bool) -> PrStackEntry {
    PrStackEntry {
        number: n,
        state: if merged { "closed".to_string() } else { "open".to_string() },
        draft: false,
        merged_at: if merged { Some("2026-08-01T00:00:00Z".to_string()) } else { None },
        head: PrStackHead { ref_field: format!("feat-{n}"), sha: format!("sha_{n}") },
    }
}

fn stack(number: u64, entries: Vec<PrStackEntry>) -> PrStack {
    PrStack {
        id: number * 1000,
        number,
        node_id: None,
        url: format!("https://api.github.com/repos/test/repo/stacks/{number}"),
        base: StackRef { ref_field: "main".to_string() },
        open: true,
        created_at: None,
        pull_requests: entries,
    }
}

fn numbers(entries: &[PrStackEntry]) -> Vec<u64> {
    entries.iter().map(|e| e.number).collect()
}

#[test]
fn plan_merge_takes_unmerged_layers_through_target() {
    let s = stack(7, vec![entry(1, true), entry(2, false), entry(3, false), entry(4, false)]);
    let plan = plan_merge(s, 3).unwrap();
    assert_eq!(numbers(&plan.layers), vec![2, 3]);
    let remaining: Vec<u64> = plan.remaining().iter().map(|e| e.number).collect();
    assert_eq!(remaining, vec![4]);
    assert_eq!(plan.stack.number, 7);
}

#[test]
fn plan_merge_bottom_target_has_single_layer() {
    let s = stack(1, vec![entry(10, false), entry(11, false)]);
    let plan = plan_merge(s, 10).unwrap();
    assert_eq!(numbers(&plan.layers), vec![10]);
    let remaining: Vec<u64> = plan.remaining().iter().map(|e| e.number).collect();
    assert_eq!(remaining, vec![11]);
}

#[test]
fn plan_merge_top_target_leaves_nothing() {
    let s = stack(1, vec![entry(10, false), entry(11, false), entry(12, false)]);
    let plan = plan_merge(s, 12).unwrap();
    assert_eq!(numbers(&plan.layers), vec![10, 11, 12]);
    assert!(plan.remaining().is_empty());
}

#[test]
fn plan_merge_missing_pr_is_internal_error() {
    let s = stack(5, vec![entry(1, false), entry(2, false)]);
    match plan_merge(s, 9) {
        Err(Error::Internal(m)) => assert_eq!(m, "PR #9 not found in stack #5"),
        other => panic!("unexpected {other:?}"),
    }
}

#[test]
fn plan_merge_merged_target_is_invalid_argument() {
    let s = stack(5, vec![entry(1, true), entry(2, false)]);
    match plan_merge(s, 1) {
        Err(Error::InvalidArgument(m)) => assert_eq!(
            m,
            "PR #1 is already merged; run `ryu sync` to update your local stack"
        ),
        other => panic!("unexpected {other:?}"),
    }
}

#[test]
fn plan_and_remaining_partition_unmerged() {
    let s = stack(3, vec![entry(1, false), entry(2, true), entry(3, false), entry(4, true), entry(5, false)]);
    let plan = plan_merge(s, 3).unwrap();
    let mut all = numbers(&plan.layers);
    all.extend(plan.remaining().iter().map(|e| e.number));
    assert_eq!(all, vec![1, 3, 5]);
    assert_eq!(plan.layers.last().unwrap().number, 3);
}

#[test]
fn poll_keeps_waiting_only_while_processing_and_in_time() {
    assert_eq!(poll_merge_step(MergeAsyncState::Pending, true), PollStep::Wait);
    assert_eq!(poll_merge_step(MergeAsyncState::Enqueued, true), PollStep::Wait);
    assert_eq!(
        poll_merge_step(MergeAsyncState::Pending, false),
        PollStep::Finish(MergeAsyncState::Pending)
    );
    assert_eq!(
        poll_merge_step(MergeAsyncState::Merged, true),
        PollStep::Finish(MergeAsyncState::Merged)
    );
    assert_eq!(
        poll_merge_step(MergeAsyncState::Failed, true),
        PollStep::Finish(MergeAsyncState::Failed)
    );
}

#[test]
fn bottom_unmerged_pr_skips_merged() {
    let s = stack(2, vec![entry(1, true), entry(2, false), entry(3, false)]);
    assert_eq!(bottom_unmerged_pr(&s).unwrap(), 2);
    let done = stack(2, vec![entry(1, true)]);
    match bottom_unmerged_pr(&done) {
        Err(Error::InvalidArgument(m)) => {
            assert_eq!(m, "every PR in stack #2 is already merged; run `ryu sync`")
        }
        other => panic!("unexpected {other:?}"),
    }
}

#[test]
fn first_submitted_pr_needs_a_cached_pr() {
    let empty = PrCache { prs: vec![] };
    match first_submitted_pr(&empty) {
        Err(Error::InvalidArgument(m)) => {
            assert_eq!(m, "no submitted PRs found; run `ryu submit` first")
        }
        other => panic!("unexpected {other:?}"),
    }
    let cache = PrCache {
        prs: vec![
            CachedPr { bookmark: "a".into(), number: 4, url: String::new() },
            CachedPr { bookmark: "b".into(), number: 5, url: String::new() },
        ],
    };
    assert_eq!(first_submitted_pr(&cache).unwrap(), 4);
}

#[test]
fn bookmark_without_open_pr_is_reported() {
    match bookmark_pr_number("feat-x", None) {
        Err(Error::InvalidArgument(m)) => {
            assert_eq!(m, "no open PR found for bookmark 'feat-x'")
        }
        other => panic!("unexpected {other:?}"),
    }
    let pr = PullRequest {
        number: 42,
        html_url: String::new(),
        base_ref: "main".into(),
        head_ref: "feat-x".into(),
        title: "t".into(),
        node_id: None,
        is_draft: false,
    };
    assert_eq!(bookmark_pr_number("feat-x", Some(pr)).unwrap(), 42);
}

#[test]
fn stack_for_merge_errors_are_actionable() {
    match stack_for_merge(8, Ok(None)) {
        Err(Error::InvalidArgument(m)) => {
            assert_eq!(m, "PR #8 is not in a native stack; merge it with `gh pr merge`")
        }
        other => panic!("unexpected {other:?}"),
    }
    match stack_for_merge(8, Err(Error::StacksUnavailable("gone".into()))) {
        Err(Error::StacksUnavailable(m)) => assert_eq!(
            m,
            "gone; merge the bottom PR with a regular merge (`gh pr merge`) and rebase manually"
        ),
        other => panic!("unexpected {other:?}"),
    }
    match stack_for_merge(8, Err(Error::Platform("boom".into()))) {
        Err(Error::Platform(m)) => assert_eq!(m, "boom"),
        other => panic!("unexpected {other:?}"),
    }
    let s = stack_for_merge(8, Ok(Some(stack(4, vec![entry(8, false)])))).unwrap();
    assert_eq!(s.number, 4);
}

#[test]
fn merge_in_progress_gets_advice() {
    match merge_request_error(Error::MergeInProgress("busy".into())) {
        Error::MergeInProgress(m) => {
            assert_eq!(m, "busy; wait for it to finish or check the stack on GitHub")
        }
        other => panic!("unexpected {other:?}"),
    }
    match merge_request_error(Error::GitHubApi("x".into())) {
        Error::GitHubApi(m) => assert_eq!(m, "x"),
        other => panic!("unexpected {other:?}"),
    }
}

#[test]
fn merge_resolution_by_final_state() {
    assert!(matches!(resolve_merge(3, Ok(MergeAsyncState::Merged)), MergeResolution::Merged));
    match resolve_merge(3, Ok(MergeAsyncState::Failed)) {
        MergeResolution::Failed(Error::GitHubApi(m)) => {
            assert_eq!(m, "async merge of PR #3 failed; check the PR on GitHub")
        }
        other => panic!("unexpected {other:?}"),
    }
    assert!(matches!(
        resolve_merge(3, Ok(MergeAsyncState::Enqueued)),
        MergeResolution::StillProcessing(MergeAsyncState::Enqueued)
    ));
    assert!(matches!(
        resolve_merge(3, Err(Error::Http("down".into()))),
        MergeResolution::Unknown(Error::Http(_))
    ));
}

#[test]
fn merge_prompt_and_options_follow_the_plan() {
    let s = stack(12, vec![entry(1, false), entry(2, false), entry(3, false)]);
    let plan = plan_merge(s, 2).unwrap();
    assert_eq!(merge_prompt(&plan), "Merge 2 PR(s) from the bottom of stack #12?");
    let options = merge_options(MergeMethod::Squash, &plan);
    assert_eq!(options.merge_method, MergeMethod::Squash);
    assert_eq!(options.sha.as_deref(), Some("sha_2"));
    assert!(options.commit_title.is_none());
}

#[test]
fn merged_layers_leave_the_cache() {
    let s = stack(12, vec![entry(1, false), entry(2, false), entry(3, false)]);
    let plan = plan_merge(s, 2).unwrap();
    let mut cache = PrCache {
        prs: vec![
            CachedPr { bookmark: "feat-1".into(), number: 1, url: String::new() },
            CachedPr { bookmark: "other".into(), number: 9, url: String::new() },
            CachedPr { bookmark: "feat-2".into(), number: 2, url: String::new() },
            CachedPr { bookmark: "feat-3".into(), number: 3, url: String::new() },
        ],
    };
    forget_merged_layers(&mut cache, &plan);
    let left: Vec<&str> = cache.prs.iter().map(|p| p.bookmark.as_str()).collect();
    assert_eq!(left, vec!["other", "feat-3"]);
}
