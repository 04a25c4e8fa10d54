//! Local bookkeeping: which bookmarks are tracked, and the cache of the PRs
//! submitted for them.

use vstd::prelude::*;

verus! {

/// A bookmark that ryu manages.
#[derive(Debug)]
pub struct TrackedBookmark {
    pub name: String,
    pub remote: Option<String>,
}

/// The tracked bookmarks.
#[derive(Debug)]
pub struct TrackingState {
    pub bookmarks: Vec<TrackedBookmark>,
}

/// A submitted PR remembered for a bookmark.
#[derive(Debug)]
pub struct CachedPr {
    pub bookmark: String,
    pub number: u64,
    pub url: String,
}

/// The PRs submitted for bookmarks.
#[derive(Debug)]
pub struct PrCache {
    pub prs: Vec<CachedPr>,
}

impl Clone for TrackedBookmark {
    fn clone(&self) -> (res: Self)
        ensures
            res == *self,
    {
        TrackedBookmark {
            name: self.name.clone(),
            remote: match &self.remote {
                Some(r) => Some(r.clone()),
                None => None,
            },
        }
    }
}

impl Clone for CachedPr {
    fn clone(&self) -> (res: Self)
        ensures
            res == *self,
    {
        CachedPr { bookmark: self.bookmark.clone(), number: self.number, url: self.url.clone() }
    }
}

/// Tracked bookmarks other than `name`.
pub open spec fn not_named(name: Seq<char>) -> spec_fn(TrackedBookmark) -> bool {
    |b: TrackedBookmark| b.name@ != name
}

/// Cache entries for bookmarks other than `name`.
pub open spec fn not_for(name: Seq<char>) -> spec_fn(CachedPr) -> bool {
    |p: CachedPr| p.bookmark@ != name
}

/// `i` is the first cache entry for bookmark `name`.
pub open spec fn is_first_entry(prs: Seq<CachedPr>, name: Seq<char>, i: int) -> bool {
    &&& 0 <= i < prs.len()
    &&& prs[i].bookmark@ == name
    &&& forall|j: int| 0 <= j < i ==> prs[j].bookmark@ != name
}

/// Untracking drops exactly the bookmark's entries: none of them remains, and
/// every entry of another bookmark remains.
pub proof fn untrack_drops_exactly(bookmarks: Seq<TrackedBookmark>, name: Seq<char>)
    ensures
        forall|k: int|
            0 <= k < bookmarks.filter(not_named(name)).len() ==> (#[trigger] bookmarks.filter(
                not_named(name),
            )[k]).name@ != name,
        forall|i: int|
            0 <= i < bookmarks.len() && (#[trigger] bookmarks[i]).name@ != name ==> bookmarks.filter(
                not_named(name),
            ).contains(bookmarks[i]),
{
    assert forall|k: int| 0 <= k < bookmarks.filter(not_named(name)).len() implies (#[trigger] bookmarks.filter(
        not_named(name),
    )[k]).name@ != name by {
        bookmarks.lemma_filter_pred(not_named(name), k);
    }
    assert forall|i: int| 0 <= i < bookmarks.len() && (#[trigger] bookmarks[i]).name@ != name implies bookmarks.filter(
        not_named(name),
    ).contains(bookmarks[i]) by {
        bookmarks.lemma_filter_contains(not_named(name), i);
    }
}

/// Forgetting a bookmark's PR drops exactly its cache entries: none of them
/// remains, and every entry of another bookmark remains.
pub proof fn forget_drops_exactly(prs: Seq<CachedPr>, name: Seq<char>)
    ensures
        forall|k: int|
            0 <= k < prs.filter(not_for(name)).len() ==> (#[trigger] prs.filter(not_for(name))[k]).bookmark@
                != name,
        forall|i: int|
            0 <= i < prs.len() && (#[trigger] prs[i]).bookmark@ != name ==> prs.filter(not_for(name)).contains(
                prs[i],
            ),
{
    assert forall|k: int| 0 <= k < prs.filter(not_for(name)).len() implies (#[trigger] prs.filter(
        not_for(name),
    )[k]).bookmark@ != name by {
        prs.lemma_filter_pred(not_for(name), k);
    }
    assert forall|i: int| 0 <= i < prs.len() && (#[trigger] prs[i]).bookmark@ != name implies prs.filter(
        not_for(name),
    ).contains(prs[i]) by {
        prs.lemma_filter_contains(not_for(name), i);
    }
}

impl TrackingState {
    /// Whether `name` is tracked.
    pub open spec fn tracks(&self, name: Seq<char>) -> bool {
        exists|i: int| 0 <= i < self.bookmarks@.len() && self.bookmarks@[i].name@ == name
    }

    /// Whether the bookmark `name` is tracked.
    pub fn is_tracked(&self, name: &str) -> (res: bool)
        ensures
            res == self.tracks(name@),
    {
        let wanted = String::from_str(name);
        for i in 0..self.bookmarks.len()
            invariant
                wanted@ == name@,
                forall|j: int| 0 <= j < i ==> self.bookmarks@[j].name@ != name@,
        {
            if self.bookmarks[i].name == wanted {
                return true;
            }
        }
        false
    }

    /// Stop tracking the bookmark `name`; the other bookmarks stay, in order.
    pub fn untrack(&mut self, name: &str)
        ensures
            final(self).bookmarks@ == old(self).bookmarks@.filter(not_named(name@)),
    {
        let wanted = String::from_str(name);
        let ghost before = self.bookmarks@;
        let mut kept: Vec<TrackedBookmark> = Vec::new();
        for i in 0..self.bookmarks.len()
            invariant
                before == self.bookmarks@,
                wanted@ == name@,
                kept@ == before.take(i as int).filter(not_named(name@)),
        {
            proof {
                assert(before.take(i + 1) =~= before.take(i as int).push(before[i as int]));
                before.take(i as int).lemma_filter_push(before[i as int], not_named(name@));
            }
            if self.bookmarks[i].name != wanted {
                kept.push(self.bookmarks[i].clone());
            }
        }
        assert(before.take(before.len() as int) =~= before);
        self.bookmarks = kept;
    }
}

impl PrCache {
    /// The cached PR of the bookmark `name`: the first entry for it.
    pub fn get(&self, name: &str) -> (res: Option<&CachedPr>)
        ensures
            match res {
                Some(p) => exists|i: int| is_first_entry(self.prs@, name@, i) && self.prs@[i] == *p,
                None => forall|i: int| 0 <= i < self.prs@.len() ==> self.prs@[i].bookmark@ != name@,
            },
    {
        let wanted = String::from_str(name);
        for i in 0..self.prs.len()
            invariant
                wanted@ == name@,
                forall|j: int| 0 <= j < i ==> self.prs@[j].bookmark@ != name@,
        {
            if self.prs[i].bookmark == wanted {
                assert(is_first_entry(self.prs@, name@, i as int));
                return Some(&self.prs[i]);
            }
        }
        None
    }

    /// Forget the PR of the bookmark `name`; the other entries stay, in order.
    pub fn remove(&mut self, name: &str)
        ensures
            final(self).prs@ == old(self).prs@.filter(not_for(name@)),
    {
        let wanted = String::from_str(name);
        let ghost before = self.prs@;
        let mut kept: Vec<CachedPr> = Vec::new();
        for i in 0..self.prs.len()
            invariant
                before == self.prs@,
                wanted@ == name@,
                kept@ == before.take(i as int).filter(not_for(name@)),
        {
            proof {
                assert(before.take(i + 1) =~= before.take(i as int).push(before[i as int]));
                before.take(i as int).lemma_filter_push(before[i as int], not_for(name@));
            }
            if self.prs[i].bookmark != wanted {
                kept.push(self.prs[i].clone());
            }
        }
        assert(before.take(before.len() as int) =~= before);
        self.prs = kept;
    }

    /// The cached PR numbers, in cache order.
    pub fn numbers(&self) -> (res: Vec<u64>)
        ensures
            res@ == self.prs@.map_values(|p: CachedPr| p.number),
    {
        let mut res: Vec<u64> = Vec::new();
        for i in 0..self.prs.len()
            invariant
                res@ == self.prs@.take(i as int).map_values(|p: CachedPr| p.number),
        {
            res.push(self.prs[i].number);
            assert(res@ =~= self.prs@.take(i + 1).map_values(|p: CachedPr| p.number));
        }
        assert(self.prs@.take(self.prs.len() as int) =~= self.prs@);
        res
    }
}

} // verus!
