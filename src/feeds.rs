//! The feed cache: what was last fetched from each configured source.
use vstd::prelude::*;

verus! {

/// The entry of one source after a refresh: the fetched content where the
/// fetch succeeded, the earlier entry where it failed.
pub open spec fn refreshed_entry(old: Option<Seq<char>>, fetched: Option<Seq<char>>) -> Option<Seq<char>> {
    match fetched {
        Some(c) => Some(c),
        None => old,
    }
}

pub open spec fn refreshed(old: Seq<Option<Seq<char>>>, fetched: Seq<Option<Seq<char>>>) -> Seq<Option<Seq<char>>> {
    Seq::new(old.len(), |i: int| refreshed_entry(old[i], fetched[i]))
}

pub open spec fn opt_view(o: Option<String>) -> Option<Seq<char>> {
    match o {
        Some(s) => Some(s@),
        None => None,
    }
}

/// The content last fetched from each source, one entry per source.
pub struct FeedCache {
    sources: Vec<String>,
    entries: Vec<Option<String>>,
}

impl FeedCache {
    pub closed spec fn sources_view(&self) -> Seq<Seq<char>> {
        self.sources@.map_values(|s: String| s@)
    }

    pub closed spec fn entries_view(&self) -> Seq<Option<Seq<char>>> {
        self.entries@.map_values(|e: Option<String>| opt_view(e))
    }

    pub open spec fn wf(&self) -> bool {
        self.entries_view().len() == self.sources_view().len()
    }

    /// A cache over `sources` with nothing fetched yet.
    pub fn new(sources: Vec<String>) -> (r: FeedCache)
        ensures
            r.wf(),
            r.sources_view() == sources@.map_values(|s: String| s@),
            forall|i: int| 0 <= i < r.entries_view().len() ==> #[trigger] r.entries_view()[i] is None,
    {
        let mut entries: Vec<Option<String>> = Vec::new();
        let mut i: usize = 0;
        while i < sources.len()
            invariant
                i <= sources@.len(),
                entries@.len() == i,
                forall|k: int| 0 <= k < i ==> #[trigger] entries@[k] is None,
            decreases sources@.len() - i,
        {
            entries.push(None);
            i = i + 1;
        }
        let r = FeedCache { sources, entries };
        assert forall|k: int| 0 <= k < r.entries_view().len() implies #[trigger] r.entries_view()[k] is None by {
            assert(r.entries@[k] is None);
        }
        r
    }

    /// How many sources the cache follows.
    pub fn len(&self) -> (r: usize)
        requires
            self.wf(),
        ensures
            r == self.sources_view().len(),
    {
        self.sources.len()
    }

    /// The address of source `i`.
    pub fn source(&self, i: usize) -> (r: &String)
        requires
            i < self.sources_view().len(),
        ensures
            r@ == self.sources_view()[i as int],
    {
        &self.sources[i]
    }

    /// What was last fetched from source `i`.
    pub fn entry(&self, i: usize) -> (r: Option<String>)
        requires
            self.wf(),
            i < self.entries_view().len(),
        ensures
            opt_view(r) == self.entries_view()[i as int],
    {
        match &self.entries[i] {
            Some(s) => Some(s.clone()),
            None => None,
        }
    }

    /// Takes in one refresh: `fetched[i]` is what source `i` gave, `None`
    /// where its fetch failed. A failed source keeps its earlier content.
    pub fn apply_refresh(&mut self, fetched: Vec<Option<String>>)
        requires
            old(self).wf(),
            fetched@.len() == old(self).sources_view().len(),
        ensures
            final(self).wf(),
            final(self).sources_view() == old(self).sources_view(),
            final(self).entries_view() == refreshed(old(self).entries_view(), fetched@.map_values(|e: Option<String>| opt_view(e))),
    {
        let ghost before = self.entries_view();
        let ghost fv = fetched@.map_values(|e: Option<String>| opt_view(e));
        let mut entries: Vec<Option<String>> = Vec::new();
        let mut i: usize = 0;
        while i < fetched.len()
            invariant
                self.wf(),
                fetched@.len() == before.len(),
                self.entries_view() == before,
                fv == fetched@.map_values(|e: Option<String>| opt_view(e)),
                i <= fetched@.len(),
                entries@.len() == i,
                forall|k: int| 0 <= k < i ==> #[trigger] opt_view(entries@[k]) == refreshed_entry(before[k], fv[k]),
            decreases fetched@.len() - i,
        {
            assert(opt_view(fetched@[i as int]) == fv[i as int]);
            assert(opt_view(self.entries@[i as int]) == before[i as int]);
            let e = match &fetched[i] {
                Some(c) => Some(c.clone()),
                None => match &self.entries[i] {
                    Some(o) => Some(o.clone()),
                    None => None,
                },
            };
            entries.push(e);
            i = i + 1;
        }
        self.entries = entries;
        assert(self.entries_view() =~= refreshed(before, fv));
    }
}

/// Refreshes take effect in the order they complete: after two of them each
/// source shows what the later one fetched, or, where that one failed, what
/// the earlier one left.
pub proof fn lemma_latest_refresh_wins(
    start: Seq<Option<Seq<char>>>,
    first: Seq<Option<Seq<char>>>,
    second: Seq<Option<Seq<char>>>,
    i: int,
)
    requires
        first.len() == start.len(),
        second.len() == start.len(),
        0 <= i < start.len(),
    ensures
        refreshed(refreshed(start, first), second)[i] == (match second[i] {
            Some(c) => Some(c),
            None => refreshed(start, first)[i],
        }),
        second[i] is None && first[i] is None ==> refreshed(refreshed(start, first), second)[i] == start[i],
{
}

} // verus!
