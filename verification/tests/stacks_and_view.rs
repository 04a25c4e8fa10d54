use jj_ryu::analyze::{
    annotation_pr, bookmark_mark, count_tracked, description_display, plural, short_id,
    stack_annotation, stack_label, BookmarkMark, StackLabel,
};
use jj_ryu::error::Error;
use jj_ryu::stacks::{
    current_stack, merge_async_accepted, response_reading, stacks_failure, stacks_unavailable,
    ResponseReading, StacksEndpoint,
};
use jj_ryu::text::{debug_list_text, decimal_text, hash_list_text};
use jj_ryu::tracking::{CachedPr, PrCache, TrackedBookmark, TrackingState};
use jj_ryu::types::{MergeAsyncOutcome, PrStack, PrStackEntry, PrStackHead, StackRef};

fn stack(number: u64, merged: &[bool]) -> PrStack {
    PrStack {
        id: number,
        number,
        node_id: None,
        url: String::new(),
        base: StackRef { ref_field: "main".to_string() },
        open: true,
        created_at: None,
        pull_requests: merged
            .iter()
            .enumerate()
            .map(|(i, m)| PrStackEntry {
                number: i as u64 + 1,
                state: "open".to_string(),
                draft: false,
                merged_at: if *m { Some("t".to_string()) } else { None },
                head: PrStackHead { ref_field: format!("feat-{}", i + 1), sha: String::new() },
            })
            .collect(),
    }
}

#[test]
fn decimal_rendering() {
    assert_eq!(decimal_text(0), "0");
    assert_eq!(decimal_text(7), "7");
    assert_eq!(decimal_text(1203), "1203");
    assert_eq!(decimal_text(u64::MAX), u64::MAX.to_string());
    assert_eq!(hash_list_text(&vec![], ", "), "");
    assert_eq!(hash_list_text(&vec![5], ", "), "#5");
    assert_eq!(debug_list_text(&vec![]), "[]");
    assert_eq!(debug_list_text(&vec![1, 22]), format!("{:?}", vec![1, 22]));
}

#[test]
fn readings_by_endpoint_and_status() {
    assert_eq!(response_reading(StacksEndpoint::FindForPr, 200), ResponseReading::Json);
    assert_eq!(response_reading(StacksEndpoint::FindForPr, 404), ResponseReading::Unavailable);
    assert_eq!(response_reading(StacksEndpoint::FindForPr, 403), ResponseReading::Unavailable);
    assert_eq!(response_reading(StacksEndpoint::FindForPr, 500), ResponseReading::ErrorFromBody);
    assert_eq!(response_reading(StacksEndpoint::Create, 201), ResponseReading::Json);
    assert_eq!(response_reading(StacksEndpoint::Create, 200), ResponseReading::ErrorFromBody);
    assert_eq!(response_reading(StacksEndpoint::Add, 200), ResponseReading::Json);
    assert_eq!(response_reading(StacksEndpoint::Unstack, 204), ResponseReading::Empty);
    assert_eq!(response_reading(StacksEndpoint::MergeAsync, 200), ResponseReading::Empty);
    assert_eq!(response_reading(StacksEndpoint::MergeAsync, 202), ResponseReading::Json);
    assert_eq!(response_reading(StacksEndpoint::PollMergeAsync, 200), ResponseReading::Json);
}

#[test]
fn failures_map_to_structured_errors() {
    match stacks_failure(StacksEndpoint::Add, 404, "nope") {
        Error::StackNotFound(m) => assert_eq!(m, "add to stack: nope"),
        other => panic!("unexpected {other:?}"),
    }
    match stacks_failure(StacksEndpoint::Add, 409, "busy") {
        Error::StackConflict(m) => assert_eq!(m, "add to stack: busy"),
        other => panic!("unexpected {other:?}"),
    }
    match stacks_failure(StacksEndpoint::Create, 422, "bad base") {
        Error::GitHubApi(m) => {
            assert_eq!(m, "create stack failed (422 Unprocessable Entity): bad base")
        }
        other => panic!("unexpected {other:?}"),
    }
    match stacks_failure(StacksEndpoint::MergeAsync, 409, "running") {
        Error::MergeInProgress(m) => assert_eq!(m, "running"),
        other => panic!("unexpected {other:?}"),
    }
    match stacks_unavailable() {
        Error::StacksUnavailable(m) => {
            assert_eq!(m, "stacks endpoint not available for this repository")
        }
        other => panic!("unexpected {other:?}"),
    }
}

#[test]
fn newest_listed_stack_is_current() {
    assert!(current_stack(vec![]).is_none());
    let s = current_stack(vec![stack(8, &[false]), stack(3, &[false])]).unwrap();
    assert_eq!(s.number, 8);
}

#[test]
fn accepted_merge_needs_uuid() {
    match merge_async_accepted(Some("u-1".into())).unwrap() {
        MergeAsyncOutcome::Accepted { uuid } => assert_eq!(uuid, "u-1"),
        other => panic!("unexpected {other:?}"),
    }
    match merge_async_accepted(None) {
        Err(Error::GitHubApi(m)) => assert_eq!(m, "merge-async response missing uuid"),
        other => panic!("unexpected {other:?}"),
    }
}

#[test]
fn annotation_positions_are_one_based() {
    let s = stack(7, &[true, false, false]);
    let a = Some(stack_annotation(&s));
    assert_eq!(a.as_ref().unwrap().total, 3);
    assert_eq!(stack_label(&a, "feat-1"), StackLabel::Merged);
    assert_eq!(stack_label(&a, "feat-3"), StackLabel::Position("stack #7 3/3".to_string()));
    assert_eq!(stack_label(&a, "other"), StackLabel::Absent);
    assert_eq!(stack_label(&None, "feat-3"), StackLabel::Absent);
}

#[test]
fn annotation_pr_is_first_cached() {
    let cache = PrCache {
        prs: vec![
            CachedPr { bookmark: "b".into(), number: 2, url: String::new() },
            CachedPr { bookmark: "c".into(), number: 3, url: String::new() },
        ],
    };
    let names = vec!["a".to_string(), "c".to_string(), "b".to_string()];
    assert_eq!(annotation_pr(&cache, &names), Some(3));
    assert_eq!(annotation_pr(&cache, &vec!["z".to_string()]), None);
}

#[test]
fn descriptions_and_ids_are_shortened() {
    assert_eq!(description_display(""), "(no description)");
    assert_eq!(description_display("fix bug"), "fix bug");
    let fifty = "x".repeat(50);
    assert_eq!(description_display(&fifty), fifty);
    let long = "é".repeat(60);
    assert_eq!(description_display(&long), format!("{}...", "é".repeat(47)));
    assert_eq!(short_id("0123456789abcdef"), "01234567");
    assert_eq!(short_id("abc"), "abc");
}

#[test]
fn bookmark_marks_and_counts() {
    assert_eq!(bookmark_mark(true, true), BookmarkMark::Synced);
    assert_eq!(bookmark_mark(true, false), BookmarkMark::NeedsPush);
    assert_eq!(bookmark_mark(false, true), BookmarkMark::Untracked);
    let tracking = TrackingState {
        bookmarks: vec![TrackedBookmark { name: "a".into(), remote: None }],
    };
    assert_eq!(count_tracked(&tracking, &vec!["a".to_string(), "b".to_string()]), 1);
    assert_eq!(plural(1), "");
    assert_eq!(plural(2), "s");
}

#[test]
fn error_messages() {
    let cases = vec![
        (Error::Internal("a".into()), "internal error: a"),
        (Error::InvalidArgument("a".into()), "invalid argument: a"),
        (Error::StacksUnavailable("a".into()), "native stacks unavailable: a"),
        (Error::StackNotFound("a".into()), "stack not found: a"),
        (Error::StackConflict("a".into()), "stack conflict: a"),
        (Error::GitHubApi("a".into()), "GitHub API error: a"),
        (Error::MergeInProgress("a".into()), "merge already in progress: a"),
        (Error::Platform("a".into()), "platform error: a"),
        (Error::Http("a".into()), "HTTP error: a"),
    ];
    for (e, text) in cases {
        assert_eq!(e.message(), text);
    }
    assert_eq!(
        Error::RemoteNotFound("up".into()).message(),
        "remote 'up' not found"
    );
    assert_eq!(
        Error::Unsupported { feature: "native stacks".into(), platform: jj_ryu::types::Platform::GitLab }.message(),
        "native stacks is not supported on GitLab"
    );
}
