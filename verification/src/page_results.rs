//! Search results as the user interface pages through them: slices of the
//! results, and how many come from each browser and each kind of source.

use vstd::prelude::*;
use crate::model::BrowserType;
use crate::search::{items_view, ItemModel, SearchResultItem, SearchResultSource, SearchResults};

verus! {

/// The kind of record that a page was found in.
#[derive(Clone, Copy, Debug, PartialEq, Eq, Structural)]
pub enum PageRawSourceType {
    ActiveTab,
    Bookmark,
    ClosedTab,
    ArchivedContent,
}

/// The kind of record behind a search source; none for unified pages.
pub open spec fn page_source_of(source: SearchResultSource) -> Option<PageRawSourceType> {
    match source {
        SearchResultSource::ActiveTab => Some(PageRawSourceType::ActiveTab),
        SearchResultSource::Bookmark => Some(PageRawSourceType::Bookmark),
        SearchResultSource::History => Some(PageRawSourceType::ClosedTab),
        SearchResultSource::Archive => Some(PageRawSourceType::ArchivedContent),
        SearchResultSource::UnifiedPage => None,
    }
}

/// The kind of record behind a search source.
pub fn search_source_to_page_source(source: SearchResultSource) -> (r: Option<PageRawSourceType>)
    ensures
        r == page_source_of(source),
{
    match source {
        SearchResultSource::ActiveTab => Some(PageRawSourceType::ActiveTab),
        SearchResultSource::Bookmark => Some(PageRawSourceType::Bookmark),
        SearchResultSource::History => Some(PageRawSourceType::ClosedTab),
        SearchResultSource::Archive => Some(PageRawSourceType::ArchivedContent),
        SearchResultSource::UnifiedPage => None,
    }
}

/// The number of results from one browser.
#[derive(Clone, Copy, Debug)]
pub struct BrowserTally {
    pub browser_type: BrowserType,
    pub count: usize,
}

/// The number of results from one kind of record.
#[derive(Clone, Copy, Debug)]
pub struct SourceTally {
    pub source_type: PageRawSourceType,
    pub count: usize,
}

/// The values present in a sequence of optional values, each once, in
/// order of first occurrence.
pub open spec fn present_keys<K>(ks: Seq<Option<K>>) -> Seq<K>
    decreases ks.len(),
{
    if ks.len() == 0 {
        seq![]
    } else {
        let d = present_keys(ks.drop_last());
        match ks.last() {
            Some(k) => if d.contains(k) {
                d
            } else {
                d.push(k)
            },
            None => d,
        }
    }
}

/// How often a value occurs.
pub open spec fn key_count<K>(ks: Seq<Option<K>>, k: K) -> nat {
    ks.filter(|x: Option<K>| x == Some(k)).len()
}

/// The browsers of results.
pub open spec fn browser_keys(items: Seq<ItemModel>) -> Seq<Option<BrowserType>> {
    items.map_values(|i: ItemModel| i.browser)
}

/// The kinds of record of results.
pub open spec fn source_keys(items: Seq<ItemModel>) -> Seq<Option<PageRawSourceType>> {
    items.map_values(|i: ItemModel| page_source_of(i.source))
}

/// Search results held for paging.
#[derive(Clone, Debug)]
pub struct PageSearchResults {
    pages: Vec<SearchResultItem>,
    search_time_ms: u64,
}

impl View for PageSearchResults {
    type V = (Seq<ItemModel>, u64);

    closed spec fn view(&self) -> (Seq<ItemModel>, u64) {
        (items_view(self.pages@), self.search_time_ms)
    }
}

/// Copies of results.
fn copy_items(v: &[SearchResultItem]) -> (r: Vec<SearchResultItem>)
    ensures
        items_view(r@) == items_view(v@),
{
    let mut r: Vec<SearchResultItem> = Vec::new();
    let mut i: usize = 0;
    while i < v.len()
        invariant
            i <= v@.len(),
            items_view(r@) == items_view(v@).take(i as int),
        decreases v@.len() - i,
    {
        let ghost o = items_view(r@);
        let d = v[i].duplicate();
        r.push(d);
        assert(items_view(r@) =~= o.push(d@));
        assert(items_view(v@).take(i as int + 1) =~= items_view(v@).take(i as int).push(v@[i as int]@));
        i += 1;
    }
    assert(items_view(v@).take(v@.len() as int) =~= items_view(v@));
    r
}

impl PageSearchResults {
    /// The results of a search, for paging.
    pub fn new(search_results: SearchResults) -> (r: Self)
        ensures
            r@ == (items_view(search_results.items@), search_results.search_time_ms),
    {
        PageSearchResults { pages: search_results.items, search_time_ms: search_results.search_time_ms }
    }

    /// The results.
    pub fn pages(&self) -> (r: &[SearchResultItem])
        ensures
            items_view(r@) == self@.0,
    {
        self.pages.as_slice()
    }

    /// The number of results.
    pub fn total_results(&self) -> (r: usize)
        ensures
            r == self@.0.len(),
    {
        self.pages.len()
    }

    /// How long the search took, in milliseconds.
    pub fn search_time_ms(&self) -> (r: u64)
        ensures
            r == self@.1,
    {
        self.search_time_ms
    }

    /// The results from `start` on, at most `len` of them; both ends are
    /// clamped to the results.
    pub fn ranges(&self, start: usize, len: usize) -> (r: Option<&[SearchResultItem]>)
        requires
            (if start < self@.0.len() {
                start as int
            } else {
                self@.0.len() as int
            }) + len <= usize::MAX,
        ensures
            ({
                let n = self@.0.len() as int;
                let s = if start < n {
                    start as int
                } else {
                    n
                };
                let e = if s + len < n {
                    s + len
                } else {
                    n
                };
                r matches Some(x) && items_view(x@) == self@.0.subrange(s, e)
            }),
    {
        let n = self.pages.len();
        let s = if start < n {
            start
        } else {
            n
        };
        let e = if s + len < n {
            s + len
        } else {
            n
        };
        let x = vstd::slice::slice_subrange(self.pages.as_slice(), s, e);
        assert(items_view(x@) =~= items_view(self.pages@).subrange(s as int, e as int));
        Some(x)
    }

    /// For each browser of the results, in order of its first result, the
    /// number of results from it; results without a browser are not
    /// counted.
    pub fn count_by_browser(&self) -> (r: Vec<BrowserTally>)
        ensures
            r@.len() == present_keys(browser_keys(self@.0)).len(),
            forall|x: int|
                0 <= x < r@.len() ==> (#[trigger] r@[x]).browser_type == present_keys(
                    browser_keys(self@.0),
                )[x] && r@[x].count == key_count(browser_keys(self@.0), r@[x].browser_type),
    {
        let ghost ks = browser_keys(self@.0);
        let mut keys: Vec<BrowserType> = Vec::new();
        let mut i: usize = 0;
        while i < self.pages.len()
            invariant
                i <= self.pages@.len(),
                ks == browser_keys(items_view(self.pages@)),
                keys@ == present_keys(ks.take(i as int)),
            decreases self.pages@.len() - i,
        {
            assert(ks.take(i as int + 1).drop_last() == ks.take(i as int));
            assert(ks[i as int] == self.pages@[i as int].browser_type);
            if let Some(b) = self.pages[i].browser_type {
                let mut found = false;
                let mut j: usize = 0;
                while j < keys.len()
                    invariant
                        j <= keys@.len(),
                        found == exists|y: int| 0 <= y < j && keys@[y] == b,
                    decreases keys@.len() - j,
                {
                    if keys[j] == b {
                        found = true;
                    }
                    j += 1;
                }
                if !found {
                    keys.push(b);
                }
            }
            i += 1;
        }
        assert(ks.take(ks.len() as int) == ks);
        let mut r: Vec<BrowserTally> = Vec::new();
        let mut k: usize = 0;
        while k < keys.len()
            invariant
                k <= keys@.len(),
                keys@ == present_keys(ks),
                ks == browser_keys(items_view(self.pages@)),
                r@.len() == k,
                forall|x: int|
                    0 <= x < k ==> (#[trigger] r@[x]).browser_type == keys@[x] && r@[x].count == key_count(
                        ks,
                        keys@[x],
                    ),
            decreases keys@.len() - k,
        {
            let b = keys[k];
            let ghost p = |x: Option<BrowserType>| x == Some(b);
            let mut n: usize = 0;
            let mut i: usize = 0;
            assert(ks.take(0).filter(p) =~= seq![]) by {
                reveal(Seq::filter);
            }
            while i < self.pages.len()
                invariant
                    i <= self.pages@.len(),
                    ks == browser_keys(items_view(self.pages@)),
                    p == (|x: Option<BrowserType>| x == Some(b)),
                    n <= i,
                    n == ks.take(i as int).filter(p).len(),
                decreases self.pages@.len() - i,
            {
                assert(ks.take(i as int + 1) == ks.take(i as int).push(ks[i as int]));
                proof {
                    ks.take(i as int).lemma_filter_push(ks[i as int], p);
                }
                assert(ks[i as int] == self.pages@[i as int].browser_type);
                if self.pages[i].browser_type == Some(b) {
                    n += 1;
                }
                i += 1;
            }
            assert(ks.take(ks.len() as int) == ks);
            r.push(BrowserTally { browser_type: b, count: n });
            k += 1;
        }
        r
    }

    /// For each kind of record of the results, in order of its first
    /// result, the number of results from it; unified pages are not
    /// counted.
    pub fn count_by_source(&self) -> (r: Vec<SourceTally>)
        ensures
            r@.len() == present_keys(source_keys(self@.0)).len(),
            forall|x: int|
                0 <= x < r@.len() ==> (#[trigger] r@[x]).source_type == present_keys(
                    source_keys(self@.0),
                )[x] && r@[x].count == key_count(source_keys(self@.0), r@[x].source_type),
    {
        let ghost ks = source_keys(self@.0);
        let mut keys: Vec<PageRawSourceType> = Vec::new();
        let mut i: usize = 0;
        while i < self.pages.len()
            invariant
                i <= self.pages@.len(),
                ks == source_keys(items_view(self.pages@)),
                keys@ == present_keys(ks.take(i as int)),
            decreases self.pages@.len() - i,
        {
            assert(ks.take(i as int + 1).drop_last() == ks.take(i as int));
            assert(ks[i as int] == page_source_of(self.pages@[i as int].source_type));
            if let Some(b) = search_source_to_page_source(self.pages[i].source_type) {
                let mut found = false;
                let mut j: usize = 0;
                while j < keys.len()
                    invariant
                        j <= keys@.len(),
                        found == exists|y: int| 0 <= y < j && keys@[y] == b,
                    decreases keys@.len() - j,
                {
                    if keys[j] == b {
                        found = true;
                    }
                    j += 1;
                }
                if !found {
                    keys.push(b);
                }
            }
            i += 1;
        }
        assert(ks.take(ks.len() as int) == ks);
        let mut r: Vec<SourceTally> = Vec::new();
        let mut k: usize = 0;
        while k < keys.len()
            invariant
                k <= keys@.len(),
                keys@ == present_keys(ks),
                ks == source_keys(items_view(self.pages@)),
                r@.len() == k,
                forall|x: int|
                    0 <= x < k ==> (#[trigger] r@[x]).source_type == keys@[x] && r@[x].count == key_count(
                        ks,
                        keys@[x],
                    ),
            decreases keys@.len() - k,
        {
            let b = keys[k];
            let ghost p = |x: Option<PageRawSourceType>| x == Some(b);
            let mut n: usize = 0;
            let mut i: usize = 0;
            assert(ks.take(0).filter(p) =~= seq![]) by {
                reveal(Seq::filter);
            }
            while i < self.pages.len()
                invariant
                    i <= self.pages@.len(),
                    ks == source_keys(items_view(self.pages@)),
                    p == (|x: Option<PageRawSourceType>| x == Some(b)),
                    n <= i,
                    n == ks.take(i as int).filter(p).len(),
                decreases self.pages@.len() - i,
            {
                assert(ks.take(i as int + 1) == ks.take(i as int).push(ks[i as int]));
                proof {
                    ks.take(i as int).lemma_filter_push(ks[i as int], p);
                }
                assert(ks[i as int] == page_source_of(self.pages@[i as int].source_type));
                if search_source_to_page_source(self.pages[i].source_type) == Some(b) {
                    n += 1;
                }
                i += 1;
            }
            assert(ks.take(ks.len() as int) == ks);
            r.push(SourceTally { source_type: b, count: n });
            k += 1;
        }
        r
    }

    /// A copy of these results.
    pub fn duplicate(&self) -> (r: Self)
        ensures
            r@ == self@,
    {
        PageSearchResults { pages: copy_items(self.pages.as_slice()), search_time_ms: self.search_time_ms }
    }
}

} // verus!
