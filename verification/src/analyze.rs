//! The stack view's decisions: native stack annotations, shortened ids and
//! descriptions, and bookmark status marks.

use vstd::prelude::*;
use vstd::hash_map::StringHashMap;
use vstd::string::{StrSliceExecFns, StringSliceAdditionalSpecFns};
use crate::text::{decimal, hash_number, push_decimal, push_hash_number};
use crate::tracking::{PrCache, TrackingState, is_first_entry};
use crate::types::{PrStack, PrStackEntry};

verus! {

/// Native stack membership, keyed by branch name: 1-based position and whether
/// the entry merged.
pub struct StackAnnotation {
    pub number: u64,
    pub total: usize,
    pub entries: StringHashMap<(usize, bool)>,
}

/// Branch name to (1-based position, merged) for the entries; a branch listed
/// twice keeps its upper entry.
pub open spec fn annotation_map(entries: Seq<PrStackEntry>) -> Map<Seq<char>, (usize, bool)>
    decreases entries.len(),
{
    if entries.len() == 0 {
        Map::empty()
    } else {
        annotation_map(entries.drop_last()).insert(
            entries.last().head.ref_field@,
            (entries.len() as usize, entries.last().merged_at is Some),
        )
    }
}

/// The annotation lists exactly the stack's branches, each with the 1-based
/// position of its (topmost) entry and whether that entry merged.
pub proof fn annotation_positions(entries: Seq<PrStackEntry>)
    requires
        entries.len() <= usize::MAX,
    ensures
        forall|i: int|
            0 <= i < entries.len() && (forall|j: int|
                i < j < entries.len() ==> entries[j].head.ref_field@ != entries[i].head.ref_field@)
                ==> #[trigger] annotation_map(entries).contains_key(entries[i].head.ref_field@)
                && annotation_map(entries)[entries[i].head.ref_field@] == ((i + 1) as usize, entries[i].merged_at is Some),
        forall|name: Seq<char>|
            #[trigger] annotation_map(entries).contains_key(name) ==> exists|i: int|
                0 <= i < entries.len() && entries[i].head.ref_field@ == name,
    decreases entries.len(),
{
    if entries.len() > 0 {
        let init = entries.drop_last();
        annotation_positions(init);
        let last = entries.len() - 1;
        assert forall|i: int|
            0 <= i < entries.len() && (forall|j: int|
                i < j < entries.len() ==> entries[j].head.ref_field@ != entries[i].head.ref_field@)
                implies #[trigger] annotation_map(entries).contains_key(entries[i].head.ref_field@)
                && annotation_map(entries)[entries[i].head.ref_field@] == ((i + 1) as usize, entries[i].merged_at is Some) by {
            if i < last {
                assert(init[i] == entries[i]);
                assert(entries[last].head.ref_field@ != entries[i].head.ref_field@);
                assert forall|j: int| i < j < init.len() implies init[j].head.ref_field@ != init[i].head.ref_field@ by {
                    assert(init[j] == entries[j]);
                }
                assert(annotation_map(init).contains_key(init[i].head.ref_field@));
                assert(annotation_map(entries) == annotation_map(init).insert(
                    entries[last].head.ref_field@,
                    (entries.len() as usize, entries[last].merged_at is Some),
                ));
            } else {
                assert(annotation_map(entries) == annotation_map(init).insert(
                    entries[last].head.ref_field@,
                    (entries.len() as usize, entries[last].merged_at is Some),
                ));
            }
        }
        assert forall|name: Seq<char>| #[trigger] annotation_map(entries).contains_key(name) implies exists|i: int|
            0 <= i < entries.len() && entries[i].head.ref_field@ == name by {
            if name != entries[last].head.ref_field@ {
                assert(annotation_map(init).contains_key(name));
                let i = choose|i: int| 0 <= i < init.len() && init[i].head.ref_field@ == name;
                assert(entries[i] == init[i]);
            }
        }
    }
}

/// The annotation of a native stack.
pub fn stack_annotation(stack: &PrStack) -> (res: StackAnnotation)
    ensures
        res.number == stack.number,
        res.total == stack.pull_requests@.len(),
        res.entries@ == annotation_map(stack.pull_requests@),
{
    let ghost entries = stack.pull_requests@;
    let mut map: StringHashMap<(usize, bool)> = StringHashMap::new();
    for i in 0..stack.pull_requests.len()
        invariant
            entries == stack.pull_requests@,
            map@ == annotation_map(entries.take(i as int)),
    {
        let e = &stack.pull_requests[i];
        assert(entries.take(i + 1).drop_last() =~= entries.take(i as int));
        map.insert(e.head.ref_field.clone(), (i + 1, e.merged_at.is_some()));
    }
    assert(entries.take(entries.len() as int) =~= entries);
    StackAnnotation { number: stack.number, total: stack.pull_requests.len(), entries: map }
}

/// The PR whose stack annotates the view: the cached PR of the first bookmark
/// (bottom to top) that has one.
pub open spec fn first_cached_number(names: Seq<String>, cache: Seq<crate::tracking::CachedPr>) -> Option<u64>
    decreases names.len(),
{
    if names.len() == 0 {
        None
    } else if exists|i: int| is_first_entry(cache, names[0]@, i) {
        Some(cache[choose|i: int| is_first_entry(cache, names[0]@, i)].number)
    } else {
        first_cached_number(names.skip(1), cache)
    }
}

proof fn lemma_first_entry_unique(cache: Seq<crate::tracking::CachedPr>, name: Seq<char>, i: int)
    requires
        is_first_entry(cache, name, i),
    ensures
        (choose|k: int| is_first_entry(cache, name, k)) == i,
{
    let k = choose|k: int| is_first_entry(cache, name, k);
    assert(is_first_entry(cache, name, k));
    if k < i {
        assert(cache[k].bookmark@ != name);
    } else if i < k {
        assert(cache[i].bookmark@ != name);
    }
}

/// The PR whose stack annotates the view: the cached PR of the first of the
/// bookmarks (bottom to top) that has one.
pub fn annotation_pr(pr_cache: &PrCache, names: &Vec<String>) -> (res: Option<u64>)
    ensures
        res == first_cached_number(names@, pr_cache.prs@),
{
    let ghost t = names@;
    let mut i: usize = 0;
    assert(t.skip(0) =~= t);
    while i < names.len()
        invariant
            t == names@,
            i <= t.len(),
            first_cached_number(t, pr_cache.prs@) == first_cached_number(t.skip(i as int), pr_cache.prs@),
        decreases t.len() - i,
    {
        assert(t.skip(i as int)[0] == t[i as int]);
        assert(t.skip(i as int).skip(1) =~= t.skip(i + 1));
        match pr_cache.get(names[i].as_str()) {
            Some(p) => {
                proof {
                    let k = choose|k: int| is_first_entry(pr_cache.prs@, names@[i as int]@, k) && pr_cache.prs@[k] == *p;
                    lemma_first_entry_unique(pr_cache.prs@, names@[i as int]@, k);
                }
                return Some(p.number);
            },
            None => {
                proof {
                    assert forall|k: int| !is_first_entry(pr_cache.prs@, t[i as int]@, k) by {
                        if 0 <= k < pr_cache.prs@.len() {
                            assert(pr_cache.prs@[k].bookmark@ != t[i as int]@);
                        }
                    }
                }
            },
        }
        i = i + 1;
    }
    assert(t.skip(i as int).len() == 0);
    None
}

/// How a bookmark's native stack membership is shown.
#[derive(Debug, PartialEq, Eq)]
pub enum StackLabel {
    /// Not in the annotated stack (or no annotation).
    Absent,
    /// Its PR merged.
    Merged,
    /// Its position in the stack, as `stack #n p/t`.
    Position(String),
}

/// The position label `stack #n p/t`.
pub open spec fn position_text(number: u64, position: usize, total: usize) -> Seq<char> {
    "stack "@ + hash_number(number) + " "@ + decimal(position as nat) + "/"@ + decimal(total as nat)
}

/// The stack label of the bookmark `name`.
pub fn stack_label(annotation: &Option<StackAnnotation>, name: &str) -> (res: StackLabel)
    ensures
        match annotation {
            None => res == StackLabel::Absent,
            Some(a) => if !a.entries@.contains_key(name@) {
                res == StackLabel::Absent
            } else if a.entries@[name@].1 {
                res == StackLabel::Merged
            } else {
                res matches StackLabel::Position(t) && t@ == position_text(a.number, a.entries@[name@].0, a.total)
            },
        },
{
    match annotation {
        None => StackLabel::Absent,
        Some(a) => match a.entries.get(name) {
            None => StackLabel::Absent,
            Some(entry) => {
                let (pos, merged) = *entry;
                if merged {
                    StackLabel::Merged
                } else {
                    let mut t = String::from_str("stack ");
                    push_hash_number(&mut t, a.number);
                    t.append(" ");
                    push_decimal(&mut t, pos as u64);
                    t.append("/");
                    push_decimal(&mut t, a.total as u64);
                    assert(t@ =~= position_text(a.number, pos, a.total));
                    StackLabel::Position(t)
                }
            },
        },
    }
}

/// The longest description shown, in characters.
pub open spec fn max_description() -> nat {
    50
}

/// The description as shown: a placeholder when empty; cut to 47 characters
/// followed by `...` when longer than 50 characters; otherwise unchanged.
pub open spec fn description_text(desc: Seq<char>) -> Seq<char> {
    if desc.len() == 0 {
        "(no description)"@
    } else if desc.len() > max_description() {
        desc.take(47) + "..."@
    } else {
        desc
    }
}

/// The first line of a change description as shown in the view.
pub fn description_display(desc: &str) -> (res: String)
    ensures
        res@ == description_text(desc@),
{
    let len = desc.unicode_len();
    if len == 0 {
        return String::from_str("(no description)");
    }
    if len > 50 {
        let head = desc.substring_char(0, 47);
        return String::from_str(head).concat("...");
    }
    String::from_str(desc)
}

/// Bytes kept of an id of `len` bytes.
pub open spec fn short_id_len(len: usize) -> int {
    if len < 8 {
        len as int
    } else {
        8
    }
}

/// The short form of a commit or change id: its first 8 bytes (all of it when shorter).
pub fn short_id(id: &str) -> (res: &str)
    requires
        vstd::utf8::is_char_boundary(id.spec_bytes(), short_id_len(id.len())),
    ensures
        res.spec_bytes() =~= id.spec_bytes().take(short_id_len(id.len())),
{
    let n = id.len();
    let cut = if n < 8 {
        n
    } else {
        8
    };
    let (head, _) = id.split_at(cut);
    head
}

/// The mark shown after a bookmark.
#[derive(Debug, Clone, Copy, PartialEq, Eq, Structural)]
pub enum BookmarkMark {
    /// Tracked and pushed.
    Synced,
    /// Tracked, needs a push.
    NeedsPush,
    /// Not tracked.
    Untracked,
}

/// The mark of a bookmark.
pub fn bookmark_mark(is_tracked: bool, is_synced: bool) -> (res: BookmarkMark)
    ensures
        is_tracked && is_synced ==> res == BookmarkMark::Synced,
        is_tracked && !is_synced ==> res == BookmarkMark::NeedsPush,
        !is_tracked ==> res == BookmarkMark::Untracked,
{
    if is_tracked {
        if is_synced {
            BookmarkMark::Synced
        } else {
            BookmarkMark::NeedsPush
        }
    } else {
        BookmarkMark::Untracked
    }
}

/// How many of the names are tracked.
pub open spec fn tracked_count_of(tracking: TrackingState, names: Seq<String>) -> nat
    decreases names.len(),
{
    if names.len() == 0 {
        0
    } else {
        tracked_count_of(tracking, names.drop_last()) + if tracking.tracks(names.last()@) {
            1nat
        } else {
            0nat
        }
    }
}

/// How many of the bookmarks are tracked.
pub fn count_tracked(tracking: &TrackingState, names: &Vec<String>) -> (res: usize)
    ensures
        res == tracked_count_of(*tracking, names@),
        res <= names@.len(),
{
    let ghost t = names@;
    let mut count: usize = 0;
    for i in 0..names.len()
        invariant
            t == names@,
            count == tracked_count_of(*tracking, t.take(i as int)),
            count <= i,
    {
        assert(t.take(i + 1).drop_last() =~= t.take(i as int));
        if tracking.is_tracked(names[i].as_str()) {
            count = count + 1;
        }
    }
    assert(t.take(t.len() as int) =~= t);
    count
}

/// The plural ending for a count.
pub fn plural(n: usize) -> (res: &'static str)
    ensures
        n == 1 ==> res@ == ""@,
        n != 1 ==> res@ == "s"@,
{
    if n == 1 {
        ""
    } else {
        "s"
    }
}

} // verus!
