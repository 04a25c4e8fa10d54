//! Merged-layer handling for sync (native GitHub stacks).
//!
//! After the platform merges the bottom of a stack it retargets the remaining
//! PRs and rebases their branches server-side. Locally, sync drops the merged
//! layers (bookmark, tracking entry, PR cache entry) and rebases the remaining
//! stack onto trunk.

use vstd::prelude::*;
use vstd::hash_map::StringHashMap;
use crate::error::Error;
use crate::tracking::{CachedPr, PrCache, TrackedBookmark, TrackingState, not_for, not_named};
use crate::types::PrStack;
use crate::lemmas::{lemma_filter_all, lemma_filter_twice};

verus! {

/// A tracked bookmark whose PR has merged.
#[derive(Debug, PartialEq, Eq)]
pub struct MergedLayer {
    /// Bookmark name.
    pub bookmark: String,
    /// Merged PR number, when known.
    pub pr_number: Option<u64>,
}

impl Clone for MergedLayer {
    fn clone(&self) -> (res: Self)
        ensures
            res == *self,
    {
        MergedLayer { bookmark: self.bookmark.clone(), pr_number: self.pr_number }
    }
}

/// The PR number of the first of `bookmarks` that has one.
pub open spec fn first_known_pr(bookmarks: Seq<String>, m: Map<Seq<char>, u64>) -> Option<u64>
    decreases bookmarks.len(),
{
    if bookmarks.len() == 0 {
        None
    } else if m.contains_key(bookmarks[0]@) {
        Some(m[bookmarks[0]@])
    } else {
        first_known_pr(bookmarks.skip(1), m)
    }
}

/// The PR through which merged layers are detected is the PR of the first
/// bookmark that has one; none when no bookmark has one.
pub proof fn lookup_pr_is_first_known(bookmarks: Seq<String>, m: Map<Seq<char>, u64>)
    ensures
        first_known_pr(bookmarks, m) matches Some(p) ==> exists|i: int|
            0 <= i < bookmarks.len() && m.contains_key((#[trigger] bookmarks[i])@) && m[bookmarks[i]@] == p
                && forall|j: int| 0 <= j < i ==> !m.contains_key(bookmarks[j]@),
        first_known_pr(bookmarks, m) is None <==> forall|i: int|
            0 <= i < bookmarks.len() ==> !m.contains_key((#[trigger] bookmarks[i])@),
    decreases bookmarks.len(),
{
    if bookmarks.len() > 0 {
        let rest = bookmarks.skip(1);
        lookup_pr_is_first_known(rest, m);
        assert forall|i: int| 0 <= i < rest.len() implies rest[i] == bookmarks[i + 1] by {}
        if !m.contains_key(bookmarks[0]@) {
            if first_known_pr(rest, m) is Some {
                let p = first_known_pr(rest, m)->0;
                let i = choose|i: int|
                    0 <= i < rest.len() && m.contains_key((#[trigger] rest[i])@) && m[rest[i]@] == p
                        && forall|j: int| 0 <= j < i ==> !m.contains_key(rest[j]@);
                assert(bookmarks[i + 1] == rest[i]);
                assert forall|j: int| 0 <= j < i + 1 implies !m.contains_key(bookmarks[j]@) by {
                    if j > 0 {
                        assert(bookmarks[j] == rest[j - 1]);
                    }
                }
            } else {
                assert forall|i: int| 0 <= i < bookmarks.len() implies !m.contains_key((#[trigger] bookmarks[i])@) by {
                    if i > 0 {
                        assert(bookmarks[i] == rest[i - 1]);
                    }
                }
            }
        } else {
            assert(m.contains_key(bookmarks[0]@));
        }
    }
}

/// The PR through which merged layers are detected: the PR of the first tracked
/// bookmark that has one. `None` (nothing to detect) when the platform has no
/// native stacks, nothing is tracked, or no tracked bookmark has a known PR.
pub fn merged_layer_lookup(
    supports_native_stacks: bool,
    bookmarks: &Vec<String>,
    pr_numbers: &StringHashMap<u64>,
) -> (res: Option<u64>)
    ensures
        res == if !supports_native_stacks || bookmarks@.len() == 0 {
            None
        } else {
            first_known_pr(bookmarks@, pr_numbers@)
        },
{
    if !supports_native_stacks || bookmarks.len() == 0 {
        return None;
    }
    let ghost t = bookmarks@;
    let mut i: usize = 0;
    assert(t.skip(0) =~= t);
    while i < bookmarks.len()
        invariant
            t == bookmarks@,
            supports_native_stacks,
            t.len() > 0,
            i <= t.len(),
            first_known_pr(t, pr_numbers@) == first_known_pr(t.skip(i as int), pr_numbers@),
        decreases t.len() - i,
    {
        assert(t.skip(i as int)[0] == t[i as int]);
        assert(t.skip(i as int).skip(1) =~= t.skip(i + 1));
        match pr_numbers.get(bookmarks[i].as_str()) {
            Some(n) => {
                return Some(*n);
            },
            None => {},
        }
        i = i + 1;
    }
    assert(t.skip(i as int).len() == 0);
    None
}

/// `name` is the head branch of a merged entry of `stack`.
pub open spec fn is_merged_head(stack: PrStack, name: Seq<char>) -> bool {
    exists|i: int|
        0 <= i < stack.pull_requests@.len() && (#[trigger] stack.pull_requests@[i]).merged_at is Some
            && stack.pull_requests@[i].head.ref_field@ == name
}

/// Tracked bookmarks whose branch merged in `stack`.
pub open spec fn merged_in(stack: PrStack) -> spec_fn(String) -> bool {
    |b: String| is_merged_head(stack, b@)
}

/// The merged layer of a tracked bookmark.
pub open spec fn layer_of(m: Map<Seq<char>, u64>) -> spec_fn(String) -> MergedLayer {
    |b: String|
        MergedLayer {
            bookmark: b,
            pr_number: if m.contains_key(b@) {
                Some(m[b@])
            } else {
                None
            },
        }
}

/// The merged layers: tracked bookmarks (in order) whose branch is the head of a
/// merged entry of the stack, each with its known PR number.
pub open spec fn spec_merged_layers(bookmarks: Seq<String>, m: Map<Seq<char>, u64>, stack: PrStack) -> Seq<
    MergedLayer,
> {
    bookmarks.filter(merged_in(stack)).map_values(layer_of(m))
}

/// Every tracked bookmark whose branch merged is a merged layer, wherever it
/// stands among the tracked bookmarks, and nothing else is: a layer is reported
/// for a bookmark exactly when the bookmark is the head of a merged entry of the
/// stack, each with its known PR number, in tracked order.
pub proof fn merged_layers_are_exactly_merged_heads(
    bookmarks: Seq<String>,
    m: Map<Seq<char>, u64>,
    stack: PrStack,
)
    ensures
        forall|i: int|
            0 <= i < bookmarks.len() && is_merged_head(stack, (#[trigger] bookmarks[i])@)
                ==> spec_merged_layers(bookmarks, m, stack).contains(layer_of(m)(bookmarks[i])),
        forall|k: int|
            0 <= k < spec_merged_layers(bookmarks, m, stack).len() ==> is_merged_head(
                stack,
                (#[trigger] spec_merged_layers(bookmarks, m, stack)[k]).bookmark@,
            ) && bookmarks.contains(spec_merged_layers(bookmarks, m, stack)[k].bookmark),
        spec_merged_layers(bookmarks, m, stack).len() <= bookmarks.len(),
{
    let f = bookmarks.filter(merged_in(stack));
    let r = spec_merged_layers(bookmarks, m, stack);
    assert forall|i: int|
        0 <= i < bookmarks.len() && is_merged_head(stack, (#[trigger] bookmarks[i])@) implies r.contains(
        layer_of(m)(bookmarks[i]),
    ) by {
        bookmarks.lemma_filter_contains(merged_in(stack), i);
        let j = choose|j: int| 0 <= j < f.len() && f[j] == bookmarks[i];
        assert(r[j] == layer_of(m)(bookmarks[i]));
    }
    assert forall|k: int| 0 <= k < r.len() implies is_merged_head(stack, (#[trigger] r[k]).bookmark@)
        && bookmarks.contains(r[k].bookmark) by {
        bookmarks.lemma_filter_pred(merged_in(stack), k);
        bookmarks.lemma_filter_contains_rev(merged_in(stack), f[k]);
        assert(r[k].bookmark == f[k]);
    }
    bookmarks.lemma_filter_len(merged_in(stack));
}

fn head_merged(stack: &PrStack, name: &String) -> (res: bool)
    ensures
        res == is_merged_head(*stack, name@),
{
    for i in 0..stack.pull_requests.len()
        invariant
            forall|j: int|
                0 <= j < i ==> !((#[trigger] stack.pull_requests@[j]).merged_at is Some
                    && stack.pull_requests@[j].head.ref_field@ == name@),
    {
        if stack.pull_requests[i].merged_at.is_some() && stack.pull_requests[i].head.ref_field == *name {
            return true;
        }
    }
    false
}

/// Detect tracked bookmarks whose PRs have merged, from the lookup of the stack
/// of the PR chosen by [`merged_layer_lookup`]: none when the PR is not stacked
/// or stacks are unavailable; lookup errors otherwise pass through.
pub fn detect_merged_layers(
    bookmarks: &Vec<String>,
    pr_numbers: &StringHashMap<u64>,
    lookup: Result<Option<PrStack>, Error>,
) -> (res: Result<Vec<MergedLayer>, Error>)
    ensures
        lookup matches Ok(Some(stack)) ==> (res matches Ok(v) && v@ == spec_merged_layers(
            bookmarks@,
            pr_numbers@,
            stack,
        )),
        lookup matches Ok(None) ==> (res matches Ok(v) && v@.len() == 0),
        lookup matches Err(Error::StacksUnavailable(_)) ==> (res matches Ok(v) && v@.len() == 0),
        lookup matches Err(e) ==> !(e is StacksUnavailable) ==> res == Err::<Vec<MergedLayer>, Error>(e),
{
    let stack = match lookup {
        Ok(Some(stack)) => stack,
        Ok(None) => {
            return Ok(Vec::new());
        },
        Err(Error::StacksUnavailable(_)) => {
            return Ok(Vec::new());
        },
        Err(e) => {
            return Err(e);
        },
    };
    let ghost t = bookmarks@;
    let mut res: Vec<MergedLayer> = Vec::new();
    for i in 0..bookmarks.len()
        invariant
            t == bookmarks@,
            res@ == t.take(i as int).filter(merged_in(stack)).map_values(layer_of(pr_numbers@)),
    {
        proof {
            assert(t.take(i + 1) =~= t.take(i as int).push(t[i as int]));
            t.take(i as int).lemma_filter_push(t[i as int], merged_in(stack));
        }
        let b = &bookmarks[i];
        if head_merged(&stack, b) {
            let pr_number = match pr_numbers.get(b.as_str()) {
                Some(n) => Some(*n),
                None => None,
            };
            res.push(MergedLayer { bookmark: b.clone(), pr_number });
        }
        assert(res@ =~= t.take(i + 1).filter(merged_in(stack)).map_values(layer_of(pr_numbers@)));
    }
    assert(t.take(t.len() as int) =~= t);
    Ok(res)
}


// ---------------------------------------------------------------------------
// Dropping merged layers

/// Work on the local repository that dropping merged layers asks for.
#[derive(Debug)]
pub enum CleanupCommand {
    /// Read the commit the local bookmark points at (none if it is gone); answer
    /// with `TipRead`. Read it fresh for each layer: abandoning a lower layer
    /// rewrites the commits of the layers above it.
    ReadBookmarkTip { bookmark: String },
    /// Delete the local bookmark; answer with `Done`.
    DeleteBookmark { bookmark: String },
    /// Abandon the merged commit (its changes landed in trunk); answer with `Done`.
    AbandonCommit { commit_id: String },
    /// Rebase the remaining stack onto trunk; answer with `Done`.
    RebaseStackOntoTrunk,
    /// Nothing is left to do.
    Finished,
}

/// The repository's answer to the last command. A failure of the repository
/// ends the cleanup with that failure, without an event.
#[derive(Debug)]
pub enum CleanupEvent {
    TipRead(Option<String>),
    Done,
}

/// Where the cleanup of one layer stands.
#[derive(Debug)]
pub enum CleanupPhase {
    ReadingTip,
    Deleting(Option<String>),
    Abandoning,
    Rebasing,
    Finished,
}

/// Dropping merged layers: the layer at hand and its phase, with the
/// bookkeeping as it stood at the start.
pub struct LayerCleanup {
    pub index: usize,
    pub phase: CleanupPhase,
    pub initial_bookmarks: Ghost<Seq<TrackedBookmark>>,
    pub initial_cache: Ghost<Seq<CachedPr>>,
}

/// The layers' bookmark names, in order.
pub open spec fn layer_names(layers: Seq<MergedLayer>) -> Seq<Seq<char>> {
    layers.map_values(|l: MergedLayer| l.bookmark@)
}

/// Tracked bookmarks that are not among `names`.
pub open spec fn unnamed_in(names: Seq<Seq<char>>) -> spec_fn(TrackedBookmark) -> bool {
    |b: TrackedBookmark| !names.contains(b.name@)
}

/// Cache entries whose bookmark is not among `names`.
pub open spec fn uncached_in(names: Seq<Seq<char>>) -> spec_fn(CachedPr) -> bool {
    |p: CachedPr| !names.contains(p.bookmark@)
}

impl LayerCleanup {
    /// The bookkeeping matches the layers handled so far, and the phase fits the layer.
    pub open spec fn wf(
        &self,
        layers: Seq<MergedLayer>,
        tracking: TrackingState,
        pr_cache: PrCache,
    ) -> bool {
        let done = layer_names(layers).take(self.index as int);
        &&& self.index <= layers.len()
        &&& (self.phase is ReadingTip || self.phase is Deleting || self.phase is Abandoning)
            ==> self.index < layers.len()
        &&& (self.phase is Rebasing || self.phase is Finished) ==> self.index == layers.len()
        &&& tracking.bookmarks@ == self.initial_bookmarks@.filter(unnamed_in(done))
        &&& pr_cache.prs@ == self.initial_cache@.filter(uncached_in(done))
    }

    /// Begin dropping `layers`, bottom to top.
    pub fn begin(layers: &Vec<MergedLayer>, tracking: &TrackingState, pr_cache: &PrCache) -> (res: (
        LayerCleanup,
        CleanupCommand,
    ))
        ensures
            res.0.wf(layers@, *tracking, *pr_cache),
            res.0.initial_bookmarks@ == tracking.bookmarks@,
            res.0.initial_cache@ == pr_cache.prs@,
            layers@.len() > 0 ==> res.0.index == 0 && res.0.phase is ReadingTip && (res.1 matches CleanupCommand::ReadBookmarkTip { bookmark } && bookmark@ == layers@[0].bookmark@),
            layers@.len() == 0 ==> res.0.phase is Rebasing && res.1 is RebaseStackOntoTrunk,
    {
        proof {
            lemma_filter_all(tracking.bookmarks@, unnamed_in(layer_names(layers@).take(0)));
            lemma_filter_all(pr_cache.prs@, uncached_in(layer_names(layers@).take(0)));
        }
        let phase = if layers.len() == 0 {
            CleanupPhase::Rebasing
        } else {
            CleanupPhase::ReadingTip
        };
        let cleanup = LayerCleanup {
            index: 0,
            phase,
            initial_bookmarks: Ghost(tracking.bookmarks@),
            initial_cache: Ghost(pr_cache.prs@),
        };
        if layers.len() == 0 {
            (cleanup, CleanupCommand::RebaseStackOntoTrunk)
        } else {
            (cleanup, CleanupCommand::ReadBookmarkTip { bookmark: layers[0].bookmark.clone() })
        }
    }

    /// Whether `event` answers the outstanding command.
    pub open spec fn expects(&self, event: CleanupEvent) -> bool {
        match self.phase {
            CleanupPhase::ReadingTip => event is TipRead,
            CleanupPhase::Deleting(_) => event is Done,
            CleanupPhase::Abandoning => event is Done,
            CleanupPhase::Rebasing => event is Done,
            CleanupPhase::Finished => false,
        }
    }

    /// Whether `event` answers the outstanding command.
    pub fn accepts(&self, event: &CleanupEvent) -> (res: bool)
        ensures
            res == self.expects(*event),
    {
        match (&self.phase, event) {
            (CleanupPhase::ReadingTip, CleanupEvent::TipRead(_)) => true,
            (CleanupPhase::Deleting(_), CleanupEvent::Done) => true,
            (CleanupPhase::Abandoning, CleanupEvent::Done) => true,
            (CleanupPhase::Rebasing, CleanupEvent::Done) => true,
            _ => false,
        }
    }

    /// Advance with the repository's answer. For each layer: read its tip, delete
    /// its bookmark, abandon the tip if there was one, then untrack it and forget
    /// its cached PR; after the last layer, rebase onto trunk.
    pub fn advance(
        &mut self,
        layers: &Vec<MergedLayer>,
        tracking: &mut TrackingState,
        pr_cache: &mut PrCache,
        event: CleanupEvent,
    ) -> (cmd: CleanupCommand)
        requires
            old(self).wf(layers@, *old(tracking), *old(pr_cache)),
            old(self).expects(event),
        ensures
            final(self).wf(layers@, *final(tracking), *final(pr_cache)),
            final(self).initial_bookmarks == old(self).initial_bookmarks,
            final(self).initial_cache == old(self).initial_cache,
            ({
                let i = old(self).index as int;
                let name = layers@[i].bookmark@;
                match old(self).phase {
                    CleanupPhase::ReadingTip => final(self).index == i && final(self).phase == CleanupPhase::Deleting(event->TipRead_0)
                        && (cmd matches CleanupCommand::DeleteBookmark { bookmark } && bookmark@ == name)
                        && *final(tracking) == *old(tracking) && *final(pr_cache) == *old(pr_cache),
                    CleanupPhase::Deleting(Some(tip)) => final(self).index == i && final(self).phase is Abandoning
                        && cmd == CleanupCommand::AbandonCommit { commit_id: tip }
                        && *final(tracking) == *old(tracking) && *final(pr_cache) == *old(pr_cache),
                    CleanupPhase::Rebasing => final(self).phase is Finished && cmd is Finished
                        && *final(tracking) == *old(tracking) && *final(pr_cache) == *old(pr_cache),
                    CleanupPhase::Finished => false,
                    _ => {
                        &&& final(self).index == i + 1
                        &&& final(tracking).bookmarks@ == old(tracking).bookmarks@.filter(not_named(name))
                        &&& final(pr_cache).prs@ == old(pr_cache).prs@.filter(not_for(name))
                        &&& i + 1 < layers@.len() ==> final(self).phase is ReadingTip
                            && (cmd matches CleanupCommand::ReadBookmarkTip { bookmark } && bookmark@ == layers@[i + 1].bookmark@)
                        &&& i + 1 == layers@.len() ==> final(self).phase is Rebasing
                            && cmd is RebaseStackOntoTrunk
                    },
                }
            }),
    {
        let mut phase = CleanupPhase::Finished;
        std::mem::swap(&mut phase, &mut self.phase);
        match phase {
            CleanupPhase::ReadingTip => {
                let tip = match event {
                    CleanupEvent::TipRead(t) => t,
                    CleanupEvent::Done => None,
                };
                self.phase = CleanupPhase::Deleting(tip);
                CleanupCommand::DeleteBookmark { bookmark: layers[self.index].bookmark.clone() }
            },
            CleanupPhase::Deleting(Some(tip)) => {
                self.phase = CleanupPhase::Abandoning;
                CleanupCommand::AbandonCommit { commit_id: tip }
            },
            CleanupPhase::Deleting(None) | CleanupPhase::Abandoning => {
                self.finish_layer(layers, tracking, pr_cache)
            },
            CleanupPhase::Rebasing => {
                self.phase = CleanupPhase::Finished;
                CleanupCommand::Finished
            },
            CleanupPhase::Finished => CleanupCommand::Finished,
        }
    }

    fn finish_layer(
        &mut self,
        layers: &Vec<MergedLayer>,
        tracking: &mut TrackingState,
        pr_cache: &mut PrCache,
    ) -> (cmd: CleanupCommand)
        requires
            old(self).index < layers@.len(),
            tracking_matches(old(self).initial_bookmarks@, layers@, old(self).index as int, *old(tracking)),
            cache_matches(old(self).initial_cache@, layers@, old(self).index as int, *old(pr_cache)),
        ensures
            final(self).index == old(self).index + 1,
            final(self).initial_bookmarks == old(self).initial_bookmarks,
            final(self).initial_cache == old(self).initial_cache,
            final(self).wf(layers@, *final(tracking), *final(pr_cache)),
            final(tracking).bookmarks@ == old(tracking).bookmarks@.filter(not_named(layers@[old(self).index as int].bookmark@)),
            final(pr_cache).prs@ == old(pr_cache).prs@.filter(not_for(layers@[old(self).index as int].bookmark@)),
            old(self).index + 1 < layers@.len() ==> final(self).phase is ReadingTip
                && (cmd matches CleanupCommand::ReadBookmarkTip { bookmark } && bookmark@ == layers@[old(self).index + 1].bookmark@),
            old(self).index + 1 == layers@.len() ==> final(self).phase is Rebasing && cmd is RebaseStackOntoTrunk,
    {
        let i = self.index;
        let n = layers.len();
        let name = layers[i].bookmark.as_str();
        tracking.untrack(name);
        pr_cache.remove(name);
        proof {
            let names = layer_names(layers@);
            let t0 = names.take(i as int);
            let t1 = names.take(i + 1);
            let nm = layers@[i as int].bookmark@;
            assert(t1 =~= t0.push(nm));
            assert forall|x: TrackedBookmark| #[trigger] unnamed_in(t1)(x) == (unnamed_in(t0)(x) && not_named(nm)(x)) by {
                lemma_push_contains(t0, nm, x.name@);
            }
            assert forall|x: CachedPr| #[trigger] uncached_in(t1)(x) == (uncached_in(t0)(x) && not_for(nm)(x)) by {
                lemma_push_contains(t0, nm, x.bookmark@);
            }
            lemma_filter_twice(self.initial_bookmarks@, unnamed_in(t0), not_named(nm), unnamed_in(t1));
            lemma_filter_twice(self.initial_cache@, uncached_in(t0), not_for(nm), uncached_in(t1));
        }
        self.index = i + 1;
        if self.index < n {
            self.phase = CleanupPhase::ReadingTip;
            CleanupCommand::ReadBookmarkTip { bookmark: layers[self.index].bookmark.clone() }
        } else {
            self.phase = CleanupPhase::Rebasing;
            CleanupCommand::RebaseStackOntoTrunk
        }
    }
}

/// The bookmarks are the initial ones without the first `i` layers.
pub open spec fn tracking_matches(
    initial: Seq<TrackedBookmark>,
    layers: Seq<MergedLayer>,
    i: int,
    tracking: TrackingState,
) -> bool {
    tracking.bookmarks@ == initial.filter(unnamed_in(layer_names(layers).take(i)))
}

/// The cache is the initial one without the first `i` layers.
pub open spec fn cache_matches(
    initial: Seq<CachedPr>,
    layers: Seq<MergedLayer>,
    i: int,
    pr_cache: PrCache,
) -> bool {
    pr_cache.prs@ == initial.filter(uncached_in(layer_names(layers).take(i)))
}

proof fn lemma_push_contains(s: Seq<Seq<char>>, x: Seq<char>, y: Seq<char>)
    ensures
        s.push(x).contains(y) == (s.contains(y) || y == x),
{
    if s.contains(y) {
        let j = choose|j: int| 0 <= j < s.len() && s[j] == y;
        assert(s.push(x)[j] == y);
    }
    if y == x {
        assert(s.push(x)[s.len() as int] == y);
    }
    if s.push(x).contains(y) {
        let j = choose|j: int| 0 <= j < s.push(x).len() && s.push(x)[j] == y;
        if j < s.len() {
            assert(s[j] == y);
        }
    }
}

/// Dropping merged layers drops exactly them: once the cleanup reaches the
/// rebase, the tracked bookmarks and the PR cache are the initial ones without
/// the entries of the merged layers' bookmarks, the others kept in order.
pub proof fn cleanup_drops_exactly_merged(
    cleanup: LayerCleanup,
    layers: Seq<MergedLayer>,
    tracking: TrackingState,
    pr_cache: PrCache,
)
    requires
        cleanup.wf(layers, tracking, pr_cache),
        cleanup.phase is Rebasing || cleanup.phase is Finished,
    ensures
        tracking.bookmarks@ == cleanup.initial_bookmarks@.filter(unnamed_in(layer_names(layers))),
        pr_cache.prs@ == cleanup.initial_cache@.filter(uncached_in(layer_names(layers))),
{
    assert(layer_names(layers).take(layers.len() as int) =~= layer_names(layers));
}

} // verus!
