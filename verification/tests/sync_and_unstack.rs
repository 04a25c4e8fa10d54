use jj_ryu::error::Error;
use jj_ryu::sync_merged::{
    detect_merged_layers, merged_layer_lookup, CleanupCommand, CleanupEvent, LayerCleanup,
    MergedLayer,
};
use jj_ryu::tracking::{CachedPr, PrCache, TrackedBookmark, TrackingState};
use jj_ryu::types::{PrStack, PrStackEntry, PrStackHead, StackRef};
use jj_ryu::unstack::{
    entry_status, find_submitted_stack, merged_count, unstack_lookup_error, unstack_outcome,
    unstack_report, EntryStatus, StackSearch, UnstackOutcome,
};
use jj_ryu::StringHashMap;

fn entry(n: u64, merged: bool, draft: bool) -> PrStackEntry {
    PrStackEntry {
        number: n,
        state: "open".to_string(),
        draft,
        merged_at: if merged { Some("2026-08-01".to_string()) } else { None },
        head: PrStackHead { ref_field: format!("feat-{n}"), sha: format!("sha_{n}") },
    }
}

fn stack(number: u64, entries: Vec<PrStackEntry>) -> PrStack {
    PrStack {
        id: number,
        number,
        node_id: None,
        url: String::new(),
        base: StackRef { ref_field: "main".to_string() },
        open: true,
        created_at: None,
        pull_requests: entries,
    }
}

fn names(v: &[&str]) -> Vec<String> {
    v.iter().map(|s| s.to_string()).collect()
}

#[test]
fn lookup_uses_first_bookmark_with_a_pr() {
    let mut numbers = StringHashMap::new();
    numbers.insert("feat-2".to_string(), 2u64);
    numbers.insert("feat-3".to_string(), 3u64);
    let bookmarks = names(&["feat-1", "feat-2", "feat-3"]);
    assert_eq!(merged_layer_lookup(true, &bookmarks, &numbers), Some(2));
    assert_eq!(merged_layer_lookup(false, &bookmarks, &numbers), None);
    assert_eq!(merged_layer_lookup(true, &vec![], &numbers), None);
    assert_eq!(merged_layer_lookup(true, &names(&["x"]), &numbers), None);
}

#[test]
fn merged_layers_are_tracked_bookmarks_with_merged_heads() {
    let mut numbers = StringHashMap::new();
    numbers.insert("feat-1".to_string(), 1u64);
    let bookmarks = names(&["feat-1", "feat-2", "feat-3"]);
    let s = stack(5, vec![entry(1, true, false), entry(2, true, false), entry(3, false, false)]);
    let layers = detect_merged_layers(&bookmarks, &numbers, Ok(Some(s))).unwrap();
    assert_eq!(
        layers,
        vec![
            MergedLayer { bookmark: "feat-1".into(), pr_number: Some(1) },
            MergedLayer { bookmark: "feat-2".into(), pr_number: None },
        ]
    );
}

#[test]
fn merged_layer_detection_tolerates_missing_stacks() {
    let numbers = StringHashMap::new();
    let bookmarks = names(&["feat-1"]);
    assert!(detect_merged_layers(&bookmarks, &numbers, Ok(None)).unwrap().is_empty());
    assert!(detect_merged_layers(&bookmarks, &numbers, Err(Error::StacksUnavailable("x".into())))
        .unwrap()
        .is_empty());
    assert!(matches!(
        detect_merged_layers(&bookmarks, &numbers, Err(Error::Http("down".into()))),
        Err(Error::Http(_))
    ));
}

#[test]
fn tracking_and_cache_bookkeeping() {
    let mut tracking = TrackingState {
        bookmarks: vec![
            TrackedBookmark { name: "a".into(), remote: None },
            TrackedBookmark { name: "b".into(), remote: Some("origin".into()) },
        ],
    };
    assert!(tracking.is_tracked("a"));
    tracking.untrack("a");
    assert!(!tracking.is_tracked("a"));
    assert!(tracking.is_tracked("b"));
    let mut cache = PrCache {
        prs: vec![
            CachedPr { bookmark: "a".into(), number: 1, url: String::new() },
            CachedPr { bookmark: "b".into(), number: 2, url: String::new() },
        ],
    };
    assert_eq!(cache.get("b").map(|p| p.number), Some(2));
    cache.remove("b");
    assert!(cache.get("b").is_none());
    assert_eq!(cache.numbers(), vec![1]);
}

#[test]
fn cleanup_drops_each_merged_layer_then_rebases() {
    let layers = vec![
        MergedLayer { bookmark: "feat-1".into(), pr_number: Some(1) },
        MergedLayer { bookmark: "feat-2".into(), pr_number: Some(2) },
    ];
    let mut tracking = TrackingState {
        bookmarks: vec![
            TrackedBookmark { name: "feat-1".into(), remote: None },
            TrackedBookmark { name: "feat-2".into(), remote: None },
            TrackedBookmark { name: "feat-3".into(), remote: None },
        ],
    };
    let mut cache = PrCache {
        prs: vec![
            CachedPr { bookmark: "feat-1".into(), number: 1, url: String::new() },
            CachedPr { bookmark: "feat-3".into(), number: 3, url: String::new() },
        ],
    };
    let (mut cleanup, mut cmd) = LayerCleanup::begin(&layers, &tracking, &cache);
    let mut log = Vec::new();
    loop {
        let event = match &cmd {
            CleanupCommand::ReadBookmarkTip { bookmark } => {
                log.push(format!("read {bookmark}"));
                CleanupEvent::TipRead(if bookmark == "feat-1" { Some("c1".into()) } else { None })
            }
            CleanupCommand::DeleteBookmark { bookmark } => {
                log.push(format!("delete {bookmark}"));
                CleanupEvent::Done
            }
            CleanupCommand::AbandonCommit { commit_id } => {
                log.push(format!("abandon {commit_id}"));
                CleanupEvent::Done
            }
            CleanupCommand::RebaseStackOntoTrunk => {
                log.push("rebase".to_string());
                CleanupEvent::Done
            }
            CleanupCommand::Finished => break,
        };
        assert!(cleanup.accepts(&event));
        cmd = cleanup.advance(&layers, &mut tracking, &mut cache, event);
    }
    assert_eq!(
        log,
        vec!["read feat-1", "delete feat-1", "abandon c1", "read feat-2", "delete feat-2", "rebase"]
    );
    let left: Vec<&str> = tracking.bookmarks.iter().map(|b| b.name.as_str()).collect();
    assert_eq!(left, vec!["feat-3"]);
    assert_eq!(cache.numbers(), vec![3]);
}

#[test]
fn cleanup_without_layers_only_rebases() {
    let tracking = TrackingState { bookmarks: vec![] };
    let cache = PrCache { prs: vec![] };
    let (_, cmd) = LayerCleanup::begin(&vec![], &tracking, &cache);
    assert!(matches!(cmd, CleanupCommand::RebaseStackOntoTrunk));
}

#[test]
fn unstack_outcomes() {
    let s = stack(4, vec![entry(1, true, false)]);
    let o = unstack_outcome(4, Some(s));
    assert_eq!(o, UnstackOutcome::Remaining { stack_number: 4, remaining: 1 });
    assert_eq!(unstack_report(&o), "Removed unmerged PRs; 1 PR(s) remain in stack #4");
    let d = unstack_outcome(4, None);
    assert_eq!(d, UnstackOutcome::Dissolved { stack_number: 4 });
    assert_eq!(unstack_report(&d), "Stack #4 dissolved");
}

#[test]
fn submitted_stack_is_the_first_found() {
    let prs = vec![10, 11, 12];
    assert!(matches!(
        find_submitted_stack(&prs, &vec![]),
        StackSearch::Lookup { pr_number: 10 }
    ));
    assert!(matches!(
        find_submitted_stack(&prs, &vec![None]),
        StackSearch::Lookup { pr_number: 11 }
    ));
    assert!(matches!(
        find_submitted_stack(&prs, &vec![None, Some(stack(2, vec![]))]),
        StackSearch::Found { index: 1 }
    ));
    assert!(matches!(
        find_submitted_stack(&prs, &vec![None, None, None]),
        StackSearch::NotFound
    ));
}

#[test]
fn unstack_lookup_errors_get_advice() {
    match unstack_lookup_error(Error::StacksUnavailable("off".into())) {
        Error::StacksUnavailable(m) => {
            assert_eq!(m, "off; unstack manually from the GitHub UI if needed")
        }
        other => panic!("unexpected {other:?}"),
    }
}

#[test]
fn summary_counts_and_labels() {
    let s = stack(3, vec![entry(1, true, false), entry(2, false, true), entry(3, false, false)]);
    assert_eq!(merged_count(&s), 1);
    assert_eq!(entry_status(&s.pull_requests[0]), EntryStatus::Merged);
    assert_eq!(entry_status(&s.pull_requests[1]), EntryStatus::Draft);
    assert_eq!(entry_status(&s.pull_requests[2]), EntryStatus::Open);
}
