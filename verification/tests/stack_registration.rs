use jj_ryu::error::Error;
use jj_ryu::plan::{Bookmark, NarrowedBookmarkSegment, SubmissionPlan};
use jj_ryu::stack_register::{
    dry_run_line, dry_run_start, format_stack_action, ordered_prs, plan_stack_action,
    DryRunStart, PlanProgress, RegistrationCommand, RegistrationEvent, StackAction,
    StackRegistration,
};
use jj_ryu::types::{PrStack, PrStackEntry, PrStackHead, PullRequest, StackRef};
use jj_ryu::StringHashMap;

fn pr(n: u64, base: &str, head: &str) -> PullRequest {
    PullRequest {
        number: n,
        html_url: format!("https://github.com/test/repo/pull/{n}"),
        base_ref: base.to_string(),
        head_ref: head.to_string(),
        title: format!("PR {n}"),
        node_id: None,
        is_draft: false,
    }
}

/// A chain of PRs, each based on the previous one's head.
fn chain(nums: &[u64]) -> Vec<PullRequest> {
    let mut base = "main".to_string();
    let mut out = Vec::new();
    for n in nums {
        let head = format!("feat-{n}");
        out.push(pr(*n, &base, &head));
        base = head;
    }
    out
}

fn stack(number: u64, nums: &[u64]) -> PrStack {
    PrStack {
        id: number * 1000,
        number,
        node_id: None,
        url: String::new(),
        base: StackRef { ref_field: "main".to_string() },
        open: true,
        created_at: None,
        pull_requests: nums
            .iter()
            .map(|n| PrStackEntry {
                number: *n,
                state: "open".to_string(),
                draft: false,
                merged_at: None,
                head: PrStackHead { ref_field: format!("feat-{n}"), sha: format!("sha_{n}") },
            })
            .collect(),
    }
}

/// Plan with lookups answered from `answer`, as a driver does.
fn plan_with(prs: &Vec<PullRequest>, answer: &dyn Fn(u64) -> Option<PrStack>) -> (StackAction, Vec<u64>) {
    let mut lookups = Vec::new();
    let mut asked = Vec::new();
    loop {
        match plan_stack_action(prs, true, &lookups) {
            PlanProgress::Lookup { pr_number } => {
                asked.push(pr_number);
                lookups.push(answer(pr_number));
            }
            PlanProgress::Decided(action) => return (action, asked),
        }
    }
}

#[test]
fn format_each_action() {
    assert_eq!(
        format_stack_action(&StackAction::Create { prs: vec![1, 2, 3] }),
        "create native stack: #1 → #2 → #3"
    );
    assert_eq!(
        format_stack_action(&StackAction::Add { stack_number: 7, delta: vec![4, 5] }),
        "add #4, #5 to stack #7"
    );
    assert_eq!(
        format_stack_action(&StackAction::NoOp { stack_number: 7 }),
        "stack #7 already up to date"
    );
    assert_eq!(
        format_stack_action(&StackAction::Skip { reason: "why".into() }),
        "skip stack registration (why)"
    );
    assert_eq!(
        format_stack_action(&StackAction::ReorderConflict { message: "bad".into() }),
        "stack conflict: bad"
    );
}

#[test]
fn fewer_than_two_prs_skip() {
    let prs = chain(&[1]);
    match plan_stack_action(&prs, true, &vec![]) {
        PlanProgress::Decided(StackAction::Skip { reason }) => {
            assert_eq!(reason, "native stacks require at least 2 PRs")
        }
        other => panic!("unexpected {other:?}"),
    }
}

#[test]
fn unsupported_platform_skips() {
    let prs = chain(&[1, 2]);
    match plan_stack_action(&prs, false, &vec![]) {
        PlanProgress::Decided(StackAction::Skip { reason }) => {
            assert_eq!(reason, "platform does not support native stacks")
        }
        other => panic!("unexpected {other:?}"),
    }
}

#[test]
fn no_stack_creates_after_checking_every_pr() {
    let prs = chain(&[1, 2, 3]);
    let (action, asked) = plan_with(&prs, &|_| None);
    assert_eq!(asked, vec![1, 2, 3]);
    assert_eq!(action, StackAction::Create { prs: vec![1, 2, 3] });
}

#[test]
fn broken_base_chain_is_a_conflict() {
    let prs = vec![pr(1, "main", "a"), pr(2, "main", "b")];
    let (action, _) = plan_with(&prs, &|_| None);
    assert_eq!(
        action,
        StackAction::ReorderConflict {
            message: "PR #2 base (main) does not match PR #1 head (a); update PR bases first"
                .to_string()
        }
    );
}

#[test]
fn matching_stack_is_noop() {
    let prs = chain(&[1, 2]);
    let (action, _) = plan_with(&prs, &|_| Some(stack(9, &[1, 2])));
    assert_eq!(action, StackAction::NoOp { stack_number: 9 });
}

#[test]
fn bottom_slice_of_taller_stack_is_noop() {
    let prs = chain(&[1, 2]);
    let (action, _) = plan_with(&prs, &|n| if n <= 2 { Some(stack(9, &[1, 2, 3])) } else { None });
    assert_eq!(action, StackAction::NoOp { stack_number: 9 });
}

#[test]
fn remote_prefix_is_extended() {
    let prs = chain(&[1, 2, 3, 4]);
    let (action, _) = plan_with(&prs, &|n| if n <= 2 { Some(stack(9, &[1, 2])) } else { None });
    assert_eq!(action, StackAction::Add { stack_number: 9, delta: vec![3, 4] });
}

#[test]
fn merged_entries_do_not_count_as_registered() {
    let prs = chain(&[2, 3]);
    let mut s = stack(9, &[1, 2, 3]);
    s.pull_requests[0].merged_at = Some("2026-08-01".into());
    s.pull_requests[0].state = "closed".into();
    let (action, _) = plan_with(&prs, &|_| Some(s.clone()));
    assert_eq!(action, StackAction::NoOp { stack_number: 9 });
}

#[test]
fn reordered_stack_is_a_conflict() {
    let prs = chain(&[1, 2]);
    let (action, _) = plan_with(&prs, &|_| Some(stack(9, &[2, 1])));
    assert_eq!(
        action,
        StackAction::ReorderConflict {
            message: "local stack does not match stack #9 (remote: [2, 1], local: [1, 2]); run `ryu unstack` and resubmit to recreate".to_string()
        }
    );
}

#[test]
fn prs_in_two_stacks_stop_lookups() {
    let prs = chain(&[1, 2, 3]);
    let (action, asked) = plan_with(&prs, &|n| if n == 1 { Some(stack(4, &[1])) } else { Some(stack(5, &[2, 3])) });
    assert_eq!(asked, vec![1, 2]);
    assert_eq!(
        action,
        StackAction::ReorderConflict {
            message: "PRs span multiple stacks (#4 and #5); run `ryu unstack` and resubmit"
                .to_string()
        }
    );
}

fn submission(names: &[&str], prs: &[(&str, PullRequest)]) -> (SubmissionPlan, StringHashMap<PullRequest>) {
    let mut map = StringHashMap::new();
    let mut existing = StringHashMap::new();
    for (name, p) in prs {
        map.insert(name.to_string(), p.clone());
        existing.insert(name.to_string(), p.clone());
    }
    let plan = SubmissionPlan {
        segments: names
            .iter()
            .map(|n| NarrowedBookmarkSegment { bookmark: Bookmark { name: n.to_string() } })
            .collect(),
        existing_prs: existing,
    };
    (plan, map)
}

#[test]
fn ordered_prs_follow_segments_and_skip_missing() {
    let c = chain(&[1, 2]);
    let (plan, map) = submission(&["b", "x", "a"], &[("a", c[0].clone()), ("b", c[1].clone())]);
    let got: Vec<u64> = ordered_prs(&plan, &map).iter().map(|p| p.number).collect();
    assert_eq!(got, vec![2, 1]);
}

/// Drive a registration with scripted answers; returns messages and outcome.
fn run_registration(
    plan: &SubmissionPlan,
    map: &StringHashMap<PullRequest>,
    answer: &mut dyn FnMut(&RegistrationCommand) -> RegistrationEvent,
) -> (Vec<String>, Option<String>, Vec<u64>) {
    let (mut run, mut step) = StackRegistration::start(plan, map, true);
    let mut messages = Vec::new();
    let mut sleeps = Vec::new();
    loop {
        if let Some(m) = step.message.take() {
            messages.push(m);
        }
        if let RegistrationCommand::Finish(outcome) = step.command {
            return (messages, outcome, sleeps);
        }
        if let RegistrationCommand::Sleep { ms } = &step.command {
            sleeps.push(*ms);
        }
        let event = answer(&step.command);
        assert!(run.accepts(&event));
        step = run.resume(event);
    }
}

#[test]
fn registration_creates_a_new_stack() {
    let c = chain(&[1, 2]);
    let (plan, map) = submission(&["a", "b"], &[("a", c[0].clone()), ("b", c[1].clone())]);
    let (messages, outcome, _) = run_registration(&plan, &map, &mut |cmd| match cmd {
        RegistrationCommand::Lookup { .. } => RegistrationEvent::Looked(Ok(None)),
        RegistrationCommand::CreateStack { prs } => {
            assert_eq!(prs, &vec![1, 2]);
            RegistrationEvent::Created(Ok(stack(3, prs)))
        }
        other => panic!("unexpected {other:?}"),
    });
    assert_eq!(messages, vec!["Registered stack #3 (2 PRs)".to_string()]);
    assert_eq!(outcome, None);
}

#[test]
fn registration_retries_conflicts_with_backoff() {
    let c = chain(&[1, 2, 3]);
    let (plan, map) = submission(&["a", "b", "c"], &[("a", c[0].clone()), ("b", c[1].clone()), ("c", c[2].clone())]);
    let mut conflicts = 2;
    let (messages, outcome, sleeps) = run_registration(&plan, &map, &mut |cmd| match cmd {
        RegistrationCommand::Lookup { pr_number } => {
            RegistrationEvent::Looked(Ok(if *pr_number <= 2 { Some(stack(9, &[1, 2])) } else { None }))
        }
        RegistrationCommand::AddToStack { stack_number, prs } => {
            assert_eq!((*stack_number, prs.clone()), (9, vec![3]));
            if conflicts > 0 {
                conflicts -= 1;
                RegistrationEvent::Added(Err(Error::StackConflict("busy".into())))
            } else {
                RegistrationEvent::Added(Ok(stack(9, &[1, 2, 3])))
            }
        }
        RegistrationCommand::Sleep { .. } => RegistrationEvent::Slept,
        other => panic!("unexpected {other:?}"),
    });
    assert_eq!(sleeps, vec![250, 500]);
    assert_eq!(
        messages,
        vec![
            "Stack concurrently modified, retrying: busy".to_string(),
            "Stack concurrently modified, retrying: busy".to_string(),
            "Added 1 PR(s) to stack #9".to_string(),
        ]
    );
    assert_eq!(outcome, None);
}

#[test]
fn registration_gives_up_after_three_retries() {
    let c = chain(&[1, 2, 3]);
    let (plan, map) = submission(&["a", "b", "c"], &[("a", c[0].clone()), ("b", c[1].clone()), ("c", c[2].clone())]);
    let (_, outcome, sleeps) = run_registration(&plan, &map, &mut |cmd| match cmd {
        RegistrationCommand::Lookup { pr_number } => {
            RegistrationEvent::Looked(Ok(if *pr_number <= 2 { Some(stack(9, &[1, 2])) } else { None }))
        }
        RegistrationCommand::AddToStack { .. } => {
            RegistrationEvent::Added(Err(Error::StackConflict("busy".into())))
        }
        RegistrationCommand::Sleep { .. } => RegistrationEvent::Slept,
        other => panic!("unexpected {other:?}"),
    });
    assert_eq!(sleeps, vec![250, 500, 1000]);
    assert_eq!(outcome, Some("Stack registration failed: stack conflict: busy".to_string()));
}

#[test]
fn dissolved_stack_falls_back_to_create() {
    let c = chain(&[1, 2, 3]);
    let (plan, map) = submission(&["a", "b", "c"], &[("a", c[0].clone()), ("b", c[1].clone()), ("c", c[2].clone())]);
    let (messages, outcome, _) = run_registration(&plan, &map, &mut |cmd| match cmd {
        RegistrationCommand::Lookup { pr_number } => {
            RegistrationEvent::Looked(Ok(if *pr_number == 1 { Some(stack(9, &[1])) } else { None }))
        }
        RegistrationCommand::AddToStack { .. } => {
            RegistrationEvent::Added(Err(Error::StackNotFound("gone".into())))
        }
        RegistrationCommand::CreateStack { prs } => {
            assert_eq!(prs, &vec![1, 2, 3]);
            RegistrationEvent::Created(Ok(stack(11, prs)))
        }
        other => panic!("unexpected {other:?}"),
    });
    assert_eq!(messages, vec!["Registered stack #11 (3 PRs)".to_string()]);
    assert_eq!(outcome, None);
}

#[test]
fn unavailable_stacks_are_a_soft_skip() {
    let c = chain(&[1, 2]);
    let (plan, map) = submission(&["a", "b"], &[("a", c[0].clone()), ("b", c[1].clone())]);
    let (messages, outcome, _) = run_registration(&plan, &map, &mut |_| {
        RegistrationEvent::Looked(Err(Error::StacksUnavailable("no stacks".into())))
    });
    assert!(messages.is_empty());
    assert_eq!(outcome, Some("Stack registration skipped: no stacks".to_string()));
}

#[test]
fn noop_registration_reports_up_to_date() {
    let c = chain(&[1, 2]);
    let (plan, map) = submission(&["a", "b"], &[("a", c[0].clone()), ("b", c[1].clone())]);
    let (messages, outcome, _) = run_registration(&plan, &map, &mut |_| {
        RegistrationEvent::Looked(Ok(Some(stack(5, &[1, 2]))))
    });
    assert_eq!(messages, vec!["Stack #5 already up to date".to_string()]);
    assert_eq!(outcome, None);
}

#[test]
fn registration_without_prs_does_nothing() {
    let (plan, map) = submission(&["a", "b"], &[]);
    let (messages, outcome, _) = run_registration(&plan, &map, &mut |cmd| panic!("unexpected {cmd:?}"));
    assert!(messages.is_empty());
    assert_eq!(outcome, None);
}

#[test]
fn dry_run_plans_only_with_a_pr_per_bookmark() {
    let c = chain(&[1, 2]);
    let (plan, _) = submission(&["a", "b"], &[("a", c[0].clone()), ("b", c[1].clone())]);
    match dry_run_start(&plan) {
        DryRunStart::PlanWith(prs) => assert_eq!(prs.len(), 2),
        other => panic!("unexpected {other:?}"),
    }
    let (plan, _) = submission(&["a", "b"], &[("a", c[0].clone())]);
    match dry_run_start(&plan) {
        DryRunStart::Report(Some(line)) => assert_eq!(line, "  → register native stack: a → b"),
        other => panic!("unexpected {other:?}"),
    }
    let (plan, _) = submission(&["a"], &[]);
    assert!(matches!(dry_run_start(&plan), DryRunStart::Report(None)));
}

#[test]
fn dry_run_lines() {
    assert_eq!(
        dry_run_line(&Ok(StackAction::NoOp { stack_number: 3 })),
        "  → stack #3 already up to date"
    );
    assert_eq!(
        dry_run_line(&Err(Error::StacksUnavailable("x".into()))),
        "  → skip stack registration (stacks unavailable)"
    );
    assert_eq!(
        dry_run_line(&Err(Error::Platform("boom".into()))),
        "  → stack registration unknown (lookup failed: platform error: boom)"
    );
}

#[test]
fn registration_skips_on_platform_without_stacks() {
    let c = chain(&[1, 2]);
    let (plan, map) = submission(&["a", "b"], &[("a", c[0].clone()), ("b", c[1].clone())]);
    let (_run, step) = StackRegistration::start(&plan, &map, false);
    assert_eq!(
        step.message.as_deref(),
        Some("Stack registration skipped (platform does not support native stacks)")
    );
    assert!(matches!(step.command, RegistrationCommand::Finish(None)));
}

#[test]
fn registration_write_failure_is_soft() {
    let c = chain(&[1, 2]);
    let (plan, map) = submission(&["a", "b"], &[("a", c[0].clone()), ("b", c[1].clone())]);
    let (messages, outcome, _) = run_registration(&plan, &map, &mut |cmd| match cmd {
        RegistrationCommand::Lookup { .. } => RegistrationEvent::Looked(Ok(None)),
        RegistrationCommand::CreateStack { .. } => {
            RegistrationEvent::Created(Err(Error::GitHubApi("create stack failed (422 Unprocessable Entity): x".into())))
        }
        other => panic!("unexpected {other:?}"),
    });
    assert!(messages.is_empty());
    assert_eq!(
        outcome,
        Some("Stack registration failed: GitHub API error: create stack failed (422 Unprocessable Entity): x".to_string())
    );
}

#[test]
fn registration_lookup_failure_is_soft() {
    let c = chain(&[1, 2]);
    let (plan, map) = submission(&["a", "b"], &[("a", c[0].clone()), ("b", c[1].clone())]);
    let (_, outcome, _) = run_registration(&plan, &map, &mut |_| {
        RegistrationEvent::Looked(Err(Error::Http("timeout".into())))
    });
    assert_eq!(outcome, Some("Stack registration failed: HTTP error: timeout".to_string()));
}

#[test]
fn registration_conflict_is_reported_as_is() {
    let c = chain(&[1, 2]);
    let (plan, map) = submission(&["a", "b"], &[("a", c[0].clone()), ("b", c[1].clone())]);
    let (messages, outcome, _) = run_registration(&plan, &map, &mut |_| {
        RegistrationEvent::Looked(Ok(Some(stack(5, &[2, 1]))))
    });
    assert!(messages.is_empty());
    assert_eq!(
        outcome,
        Some("local stack does not match stack #5 (remote: [2, 1], local: [1, 2]); run `ryu unstack` and resubmit to recreate".to_string())
    );
}
