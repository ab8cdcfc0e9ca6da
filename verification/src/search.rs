//! Search over tabs, bookmarks, unified pages, closed-tab history and
//! archives: relevance, filters, deduplication, ordering, pagination, the
//! history of queries and suggestions.
//!
//! Relevance is measured in basis points: 10000 is full relevance.

use vstd::prelude::*;
use crate::history::{HistoryEntry, HistoryModel, entries_view};
use crate::matcher::tabs_view;
use crate::model::{
    BookmarkInfo, BookmarkModel, BrowserType, ContentArchive, PageModel, PageSourceType,
    SourceModel, TabInfo, TabModel, UnifiedPageInfo,
};
use crate::sort::{Precedes, sort_stable, stable_sorted};
use crate::text::{
    chars_of, contains, copy_opt_string, copy_string, copy_strings, lowercase, opt_view,
    starts_with, str_contains, str_eq, string_from_chars, strings_view, to_lowercase, words,
};

verus! {

/// Where a search result comes from.
#[derive(Clone, Copy, Debug, PartialEq, Eq, Hash, Structural)]
pub enum SearchResultSource {
    ActiveTab,
    Bookmark,
    History,
    Archive,
    UnifiedPage,
}

/// One search result.
#[derive(Clone, Debug)]
pub struct SearchResultItem {
    pub id: String,
    pub url: String,
    pub title: String,
    pub favicon_url: Option<String>,
    pub source_type: SearchResultSource,
    /// Relevance in basis points (10000 is full relevance).
    pub relevance_score: u32,
    pub snippet: Option<String>,
    pub keywords: Vec<String>,
    pub last_accessed: i64,
    pub browser_type: Option<BrowserType>,
}

/// The mathematical value of a [`SearchResultItem`].
pub ghost struct ItemModel {
    pub id: Seq<char>,
    pub url: Seq<char>,
    pub title: Seq<char>,
    pub favicon_url: Option<Seq<char>>,
    pub source: SearchResultSource,
    pub score: u32,
    pub snippet: Option<Seq<char>>,
    pub keywords: Seq<Seq<char>>,
    pub last_accessed: i64,
    pub browser: Option<BrowserType>,
}

impl View for SearchResultItem {
    type V = ItemModel;

    open spec fn view(&self) -> ItemModel {
        ItemModel {
            id: self.id@,
            url: self.url@,
            title: self.title@,
            favicon_url: opt_view(self.favicon_url),
            source: self.source_type,
            score: self.relevance_score,
            snippet: opt_view(self.snippet),
            keywords: strings_view(self.keywords@),
            last_accessed: self.last_accessed,
            browser: self.browser_type,
        }
    }
}

impl SearchResultItem {
    /// A copy of this result.
    pub fn duplicate(&self) -> (r: SearchResultItem)
        ensures
            r@ == self@,
    {
        SearchResultItem {
            id: copy_string(&self.id),
            url: copy_string(&self.url),
            title: copy_string(&self.title),
            favicon_url: copy_opt_string(&self.favicon_url),
            source_type: self.source_type,
            relevance_score: self.relevance_score,
            snippet: copy_opt_string(&self.snippet),
            keywords: copy_strings(&self.keywords),
            last_accessed: self.last_accessed,
            browser_type: self.browser_type,
        }
    }
}

/// The views of results.
pub open spec fn items_view(v: Seq<SearchResultItem>) -> Seq<ItemModel> {
    v.map_values(|x: SearchResultItem| x@)
}

/// Which results a search keeps.
#[derive(Clone, Debug)]
pub struct SearchFilter {
    /// The sources kept; none means all.
    pub source_types: Vec<SearchResultSource>,
    pub browser_type: Option<BrowserType>,
    pub from_date: Option<i64>,
    pub to_date: Option<i64>,
    pub category: Option<String>,
    /// Keywords of which a result must match one.
    pub keywords: Vec<String>,
}

/// Whether a source is among the kept ones (all are where none is listed).
pub open spec fn source_kept(sources: Seq<SearchResultSource>, s: SearchResultSource) -> bool {
    sources.len() == 0 || sources.contains(s)
}

/// Whether a filter keeps a result: its source, its browser, its access
/// time within the range, and, where keywords are given, one of its own
/// keywords containing one of them, ignoring case.
pub open spec fn filter_admits(f: SearchFilter, x: ItemModel) -> bool {
    &&& filter_admits_basic(f, x)
    &&& (f.keywords@.len() > 0 ==> exists|i: int, j: int|
        0 <= i < f.keywords@.len() && 0 <= j < x.keywords.len() && contains(
            lowercase(#[trigger] x.keywords[j]),
            lowercase(#[trigger] f.keywords@[i]@),
        ))
}

/// Whether a filter keeps a result by source, browser and access time.
pub open spec fn filter_admits_basic(f: SearchFilter, x: ItemModel) -> bool {
    &&& source_kept(f.source_types@, x.source)
    &&& (f.browser_type matches Some(b) ==> x.browser == Some(b))
    &&& (f.from_date matches Some(from) ==> x.last_accessed >= from)
    &&& (f.to_date matches Some(to) ==> x.last_accessed <= to)
}

/// Whether `s` is in `v`.
fn has_source(v: &Vec<SearchResultSource>, s: SearchResultSource) -> (r: bool)
    ensures
        r == v@.contains(s),
{
    let mut i: usize = 0;
    while i < v.len()
        invariant
            i <= v@.len(),
            forall|k: int| 0 <= k < i ==> v@[k] != s,
        decreases v@.len() - i,
    {
        if v[i] == s {
            return true;
        }
        i += 1;
    }
    false
}

impl SearchFilter {
    /// A filter that keeps everything.
    pub fn new() -> (r: Self)
        ensures
            r.source_types@.len() == 0,
            r.browser_type is None,
            r.from_date is None,
            r.to_date is None,
            r.category is None,
            r.keywords@.len() == 0,
    {
        SearchFilter {
            source_types: Vec::new(),
            browser_type: None,
            from_date: None,
            to_date: None,
            category: None,
            keywords: Vec::new(),
        }
    }

    /// A filter that keeps one source.
    fn only(s: SearchResultSource) -> (r: Self)
        ensures
            r.source_types@ == seq![s],
            r.browser_type is None,
            r.from_date is None,
            r.to_date is None,
            r.category is None,
            r.keywords@.len() == 0,
    {
        let mut f = Self::new();
        f.source_types.push(s);
        assert(f.source_types@ =~= seq![s]);
        f
    }

    /// Only active tabs.
    pub fn tabs_only() -> (r: Self)
        ensures
            r.source_types@ == seq![SearchResultSource::ActiveTab],
            r.browser_type is None,
            r.from_date is None && r.to_date is None && r.keywords@.len() == 0,
    {
        Self::only(SearchResultSource::ActiveTab)
    }

    /// Only bookmarks.
    pub fn bookmarks_only() -> (r: Self)
        ensures
            r.source_types@ == seq![SearchResultSource::Bookmark],
            r.browser_type is None,
            r.from_date is None && r.to_date is None && r.keywords@.len() == 0,
    {
        Self::only(SearchResultSource::Bookmark)
    }

    /// Only closed-tab history.
    pub fn history_only() -> (r: Self)
        ensures
            r.source_types@ == seq![SearchResultSource::History],
            r.browser_type is None,
            r.from_date is None && r.to_date is None && r.keywords@.len() == 0,
    {
        Self::only(SearchResultSource::History)
    }

    /// Only archives.
    pub fn archives_only() -> (r: Self)
        ensures
            r.source_types@ == seq![SearchResultSource::Archive],
            r.browser_type is None,
            r.from_date is None && r.to_date is None && r.keywords@.len() == 0,
    {
        Self::only(SearchResultSource::Archive)
    }

    /// This filter also keeping a source.
    pub fn with_source(self, source: SearchResultSource) -> (r: Self)
        ensures
            r.source_types@ == self.source_types@.push(source),
            r.browser_type == self.browser_type,
            r.from_date == self.from_date,
            r.to_date == self.to_date,
            r.keywords@ == self.keywords@,
    {
        let mut f = self;
        f.source_types.push(source);
        f
    }

    /// This filter keeping only a browser.
    pub fn with_browser(self, browser: BrowserType) -> (r: Self)
        ensures
            r.browser_type == Some(browser),
            r.source_types@ == self.source_types@,
            r.from_date == self.from_date,
            r.to_date == self.to_date,
            r.keywords@ == self.keywords@,
    {
        let mut f = self;
        f.browser_type = Some(browser);
        f
    }

    /// This filter keeping only a range of access times.
    pub fn with_date_range(self, from: Option<i64>, to: Option<i64>) -> (r: Self)
        ensures
            r.from_date == from,
            r.to_date == to,
            r.browser_type == self.browser_type,
            r.source_types@ == self.source_types@,
            r.keywords@ == self.keywords@,
    {
        let mut f = self;
        f.from_date = from;
        f.to_date = to;
        f
    }

    /// Whether this filter keeps a result.
    pub fn matches(&self, result: &SearchResultItem) -> (r: bool)
        ensures
            r == filter_admits(*self, result@),
    {
        if self.source_types.len() > 0 && !has_source(&self.source_types, result.source_type) {
            return false;
        }
        if let Some(b) = self.browser_type {
            match result.browser_type {
                Some(rb) => {
                    if rb != b {
                        return false;
                    }
                },
                None => {
                    return false;
                },
            }
        }
        if let Some(from) = self.from_date {
            if result.last_accessed < from {
                return false;
            }
        }
        if let Some(to) = self.to_date {
            if result.last_accessed > to {
                return false;
            }
        }
        if self.keywords.len() > 0 {
            let ghost rk = result@.keywords;
            let mut i: usize = 0;
            while i < self.keywords.len()
                invariant
                    i <= self.keywords@.len(),
                    rk == strings_view(result.keywords@),
                    filter_admits_basic(*self, result@),
                    self.keywords@.len() > 0,
                    forall|a: int, b: int|
                        0 <= a < i && 0 <= b < rk.len() ==> !contains(
                            lowercase(#[trigger] rk[b]),
                            lowercase(#[trigger] self.keywords@[a]@),
                        ),
                decreases self.keywords@.len() - i,
            {
                let kl = to_lowercase(&self.keywords[i]);
                let mut j: usize = 0;
                while j < result.keywords.len()
                    invariant
                        j <= result.keywords@.len(),
                        rk == strings_view(result.keywords@),
                        rk == result@.keywords,
                        self.keywords@.len() > 0,
                        filter_admits_basic(*self, result@),
                        kl@ == lowercase(self.keywords@[i as int]@),
                        i < self.keywords@.len(),
                        forall|b: int|
                            0 <= b < j ==> !contains(lowercase(#[trigger] rk[b]), lowercase(self.keywords@[i as int]@)),
                    decreases result.keywords@.len() - j,
                {
                    assert(rk[j as int] == result.keywords@[j as int]@);
                    if str_contains(&to_lowercase(&result.keywords[j]), &kl) {
                        assert(contains(lowercase(rk[j as int]), lowercase(self.keywords@[i as int]@)));
                        assert(contains(
                            lowercase(result@.keywords[j as int]),
                            lowercase(self.keywords@[i as int]@),
                        ));
                        assert(filter_admits(*self, result@));
                        return true;
                    }
                    j += 1;
                }
                i += 1;
            }
            return false;
        }
        true
    }
}

impl Default for SearchFilter {
    fn default() -> (r: Self)
        ensures
            r.source_types@.len() == 0,
            r.browser_type is None,
            r.from_date is None,
            r.to_date is None,
            r.keywords@.len() == 0,
    {
        Self::new()
    }
}

// ---------------------------------------------------------------------------
// Relevance
// ---------------------------------------------------------------------------

/// The number of query words that some title word contains.
pub open spec fn matching_words(qw: Seq<Seq<char>>, tw: Seq<Seq<char>>) -> nat {
    qw.filter(|w: Seq<char>| exists|j: int| 0 <= j < tw.len() && contains(#[trigger] tw[j], w)).len()
}

/// The relevance of a page to a query, in basis points, ignoring case: a
/// title equal to the query gives 10000, one containing it 8000, else 5000
/// times the share of query words that title words contain (rounded down);
/// a URL containing the query adds 3000 and a keyword containing it 2000;
/// the total is at most 10000.
pub open spec fn relevance(query: Seq<char>, url: Seq<char>, title: Seq<char>, keywords: Seq<Seq<char>>) -> int {
    let ql = lowercase(query);
    let tl = lowercase(title);
    let title_part = if tl == ql {
        10000int
    } else if contains(tl, ql) {
        8000
    } else {
        let qw = words(ql);
        let m = matching_words(qw, words(tl));
        if m > 0 {
            (5000 * m / qw.len()) as int
        } else {
            0int
        }
    };
    let url_part = if contains(lowercase(url), ql) {
        3000int
    } else {
        0
    };
    let kw_part = if exists|k: int| 0 <= k < keywords.len() && contains(lowercase(#[trigger] keywords[k]), ql) {
        2000int
    } else {
        0
    };
    let total = title_part + url_part + kw_part;
    if total > 10000 {
        10000
    } else {
        total
    }
}

/// Whether some word of `tw` contains `w`.
fn some_word_contains(tw: &Vec<Vec<char>>, w: &[char]) -> (r: bool)
    ensures
        r == exists|j: int|
            0 <= j < tw@.len() && contains(#[trigger] crate::change_detector::char_vecs(tw@)[j], w@),
{
    let mut j: usize = 0;
    while j < tw.len()
        invariant
            j <= tw@.len(),
            forall|x: int|
                0 <= x < j ==> !contains(#[trigger] crate::change_detector::char_vecs(tw@)[x], w@),
        decreases tw@.len() - j,
    {
        assert(crate::change_detector::char_vecs(tw@)[j as int] == tw@[j as int]@);
        if crate::text::contains_chars(&tw[j], w) {
            return true;
        }
        j += 1;
    }
    false
}

/// The relevance of a page to a query.
pub fn calculate_relevance(query: &str, url: &str, title: &str, keywords: &[String]) -> (r: u32)
    ensures
        r as int == relevance(query@, url@, title@, strings_view(keywords@)),
{
    let ql = to_lowercase(query);
    let tl = to_lowercase(title);
    let ul = to_lowercase(url);
    let title_part: u64 = if str_eq(&tl, &ql) {
        10000
    } else if str_contains(&tl, &ql) {
        8000
    } else {
        let qw = crate::text::split_words(&chars_of(&ql));
        let tw = crate::text::split_words(&chars_of(&tl));
        let ghost qv = crate::change_detector::char_vecs(qw@);
        let ghost tv = crate::change_detector::char_vecs(tw@);
        assert(qv == words(lowercase(query@)));
        assert(tv == words(lowercase(title@)));
        let ghost p = |w: Seq<char>| exists|j: int| 0 <= j < tv.len() && contains(#[trigger] tv[j], w);
        let mut m: u64 = 0;
        let mut i: usize = 0;
        proof {
            reveal(Seq::filter);
        }
        assert(qv.take(0) =~= Seq::<Seq<char>>::empty());
        while i < qw.len()
            invariant
                i <= qw@.len(),
                qv == crate::change_detector::char_vecs(qw@),
                tv == crate::change_detector::char_vecs(tw@),
                p == |w: Seq<char>| exists|j: int| 0 <= j < tv.len() && contains(#[trigger] tv[j], w),
                m == qv.take(i as int).filter(p).len(),
                m <= i,
            decreases qw@.len() - i,
        {
            assert(qv.take(i as int + 1) == qv.take(i as int).push(qw@[i as int]@));
            proof {
                qv.take(i as int).lemma_filter_push(qw@[i as int]@, p);
            }
            if some_word_contains(&tw, &qw[i]) {
                m += 1;
            }
            i += 1;
        }
        assert(qv.take(qv.len() as int) == qv);
        if m > 0 {
            let len = qw.len() as u128;
            let mm = m as u128;
            assert((5000 * mm) / (len as int) <= 5000 && 5000 * mm <= 5000 * len) by (nonlinear_arith)
                requires
                    0 < mm <= len,
            ;
            ((5000 * mm) / len) as u64
        } else {
            0
        }
    };
    let url_part: u64 = if str_contains(&ul, &ql) {
        3000
    } else {
        0
    };
    let mut kw_part: u64 = 0;
    let mut k: usize = 0;
    while k < keywords.len()
        invariant_except_break
            kw_part == 0,
        invariant
            k <= keywords@.len(),
            ql@ == lowercase(query@),
            forall|x: int|
                0 <= x < k ==> !contains(lowercase(#[trigger] strings_view(keywords@)[x]), lowercase(query@)),
        ensures
            kw_part == 0 || kw_part == 2000,
            kw_part == 2000 <==> exists|x: int|
                0 <= x < keywords@.len() && contains(
                    lowercase(#[trigger] strings_view(keywords@)[x]),
                    lowercase(query@),
                ),
        decreases keywords@.len() - k,
    {
        assert(strings_view(keywords@)[k as int] == keywords@[k as int]@);
        if str_contains(&to_lowercase(&keywords[k]), &ql) {
            kw_part = 2000;
            assert(contains(lowercase(strings_view(keywords@)[k as int]), lowercase(query@)));
            break;
        }
        k += 1;
    }
    let total = title_part + url_part + kw_part;
    if total > 10000 {
        10000u32
    } else {
        total as u32
    }
}

// ---------------------------------------------------------------------------
// Results of each source
// ---------------------------------------------------------------------------

/// The longest prefix of `s` whose UTF-8 encoding has at most `n` bytes.
pub open spec fn bytes_prefix(s: Seq<char>, n: nat) -> Seq<char>
    decreases s.len(),
{
    if s.len() == 0 || crate::digest::utf8_char(s[0]).len() > n {
        seq![]
    } else {
        seq![s[0]] + bytes_prefix(s.drop_first(), (n - crate::digest::utf8_char(s[0]).len()) as nat)
    }
}

/// A summary shortened for display: texts of more than 200 UTF-8 bytes are
/// cut to at most 200 bytes (at a character boundary) and end in `...`.
pub open spec fn snippet_text(t: Seq<char>) -> Seq<char> {
    if crate::digest::utf8(t).len() > 200 {
        bytes_prefix(t, 200) + "..."@
    } else {
        t
    }
}

/// The longest prefix of `s[from..]` of at most `n` bytes.
fn bytes_prefix_exec(s: &[char], n: usize) -> (r: Vec<char>)
    ensures
        r@ == bytes_prefix(s@, n as nat),
{
    let mut r: Vec<char> = Vec::new();
    let mut i: usize = 0;
    let mut left = n;
    assert(s@.skip(0) == s@);
    while i < s.len()
        invariant
            i <= s@.len(),
            left <= n,
            r@ + bytes_prefix(s@.skip(i as int), left as nat) == bytes_prefix(s@, n as nat),
        decreases s@.len() - i,
    {
        let c = s[i];
        let b = crate::digest::utf8_len(c);
        assert(s@.skip(i as int)[0] == c);
        assert(s@.skip(i as int).drop_first() == s@.skip(i as int + 1));
        if b > left {
            assert(bytes_prefix(s@.skip(i as int), left as nat) == Seq::<char>::empty());
            assert(r@ + seq![] == r@);
            return r;
        }
        let ghost o = r@;
        r.push(c);
        assert(o + (seq![c] + bytes_prefix(s@.skip(i as int + 1), (left - b) as nat)) =~= r@
            + bytes_prefix(s@.skip(i as int + 1), (left - b) as nat));
        left = left - b;
        i += 1;
    }
    assert(s@.skip(i as int).len() == 0);
    assert(r@ + seq![] == r@);
    r
}

/// A summary shortened for display.
pub fn snippet_of(t: &str) -> (r: String)
    ensures
        r@ == snippet_text(t@),
{
    let bytes = crate::digest::utf8_bytes(t);
    if bytes.len() > 200 {
        let c = chars_of(t);
        let mut p = bytes_prefix_exec(&c, 200);
        crate::matcher::push_str_chars(&mut p, "...");
        string_from_chars(&p)
    } else {
        string_from_chars(&chars_of(t))
    }
}

/// The result for an active tab.
pub open spec fn tab_item(t: TabModel, score: u32) -> ItemModel {
    ItemModel {
        id: t.id,
        url: t.url,
        title: t.title,
        favicon_url: t.favicon_url,
        source: SearchResultSource::ActiveTab,
        score,
        snippet: None,
        keywords: seq![],
        last_accessed: t.last_accessed,
        browser: Some(t.browser_type),
    }
}

/// The results among tabs: the relevant tabs that are not private, in order.
pub open spec fn tab_items(tabs: Seq<TabModel>, q: Seq<char>) -> Seq<ItemModel>
    decreases tabs.len(),
{
    if tabs.len() == 0 {
        seq![]
    } else {
        let prev = tab_items(tabs.drop_last(), q);
        let t = tabs.last();
        let score = relevance(q, t.url, t.title, seq![]);
        if !t.is_private && score > 0 {
            prev.push(tab_item(t, score as u32))
        } else {
            prev
        }
    }
}

/// The result for a bookmark.
pub open spec fn bookmark_item(b: BookmarkModel, score: u32) -> ItemModel {
    ItemModel {
        id: b.id,
        url: b.url,
        title: b.title,
        favicon_url: b.favicon_url,
        source: SearchResultSource::Bookmark,
        score,
        snippet: None,
        keywords: b.folder_path,
        last_accessed: match b.last_accessed {
            Some(t) => t,
            None => b.created_at,
        },
        browser: Some(b.browser_type),
    }
}

/// The results among bookmarks: the relevant ones, in order.
pub open spec fn bookmark_items(bms: Seq<BookmarkModel>, q: Seq<char>) -> Seq<ItemModel>
    decreases bms.len(),
{
    if bms.len() == 0 {
        seq![]
    } else {
        let prev = bookmark_items(bms.drop_last(), q);
        let b = bms.last();
        let score = relevance(q, b.url, b.title, seq![]);
        if score > 0 {
            prev.push(bookmark_item(b, score as u32))
        } else {
            prev
        }
    }
}

/// The browser of a unified page: that of its source where it is a tab or
/// bookmark, else that of its browser record.
pub open spec fn page_browser(p: PageModel) -> Option<BrowserType> {
    match p.source_type {
        SourceModel::ActiveTab { browser, .. } => Some(browser),
        SourceModel::Bookmark { browser, .. } => Some(browser),
        _ => match p.browser_info {
            Some(b) => Some(b.browser_type),
            None => None,
        },
    }
}

/// The result for a unified page found in the database.
pub open spec fn page_item(p: PageModel) -> ItemModel {
    ItemModel {
        id: crate::text::uuid_text(p.id),
        url: p.url,
        title: p.title,
        favicon_url: p.favicon_url,
        source: SearchResultSource::UnifiedPage,
        score: 8000,
        snippet: match p.content_summary {
            Some(s) => Some(snippet_text(s.summary_text)),
            None => None,
        },
        keywords: p.keywords,
        last_accessed: p.last_accessed,
        browser: page_browser(p),
    }
}

/// The result for a closed tab found in the database.
pub open spec fn history_item(e: HistoryModel) -> ItemModel {
    ItemModel {
        id: e.id,
        url: e.page.url,
        title: e.page.title,
        favicon_url: e.page.favicon_url,
        source: SearchResultSource::History,
        score: 6000,
        snippet: match e.page.content_summary {
            Some(s) => Some(snippet_text(s.summary_text)),
            None => None,
        },
        keywords: e.page.keywords,
        last_accessed: e.closed_at,
        browser: Some(e.browser_type),
    }
}

/// The result for an archive found in the database.
pub open spec fn archive_item(a: ContentArchive) -> ItemModel {
    ItemModel {
        id: crate::text::uuid_text(a.id),
        url: a.url@,
        title: a.title@,
        favicon_url: None,
        source: SearchResultSource::Archive,
        score: 7000,
        snippet: if crate::digest::utf8(a.content_text@).len() > 200 {
            Some(snippet_text(a.content_text@))
        } else if a.content_text@.len() > 0 {
            Some(a.content_text@)
        } else {
            None
        },
        keywords: seq![],
        last_accessed: a.archived_at,
        browser: None,
    }
}

/// A text is empty exactly when its encoding is.
pub proof fn lemma_utf8_empty(s: Seq<char>)
    ensures
        (crate::digest::utf8(s).len() == 0) == (s.len() == 0),
    decreases s.len(),
{
    if s.len() > 0 {
        lemma_utf8_empty(s.drop_last());
    }
}

/// The result for a unified page.
pub fn page_result(p: &UnifiedPageInfo) -> (r: SearchResultItem)
    ensures
        r@ == page_item(p@),
{
    let mut idv: Vec<char> = Vec::new();
    crate::text::push_uuid(&mut idv, p.id);
    let browser = match &p.source_type {
        PageSourceType::ActiveTab { browser, .. } => Some(*browser),
        PageSourceType::Bookmark { browser, .. } => Some(*browser),
        _ => match &p.browser_info {
            Some(b) => Some(b.browser_type),
            None => None,
        },
    };
    SearchResultItem {
        id: string_from_chars(&idv),
        url: copy_string(&p.url),
        title: copy_string(&p.title),
        favicon_url: copy_opt_string(&p.favicon_url),
        source_type: SearchResultSource::UnifiedPage,
        relevance_score: 8000,
        snippet: match &p.content_summary {
            Some(s) => Some(snippet_of(&s.summary_text)),
            None => None,
        },
        keywords: copy_strings(&p.keywords),
        last_accessed: p.last_accessed,
        browser_type: browser,
    }
}

/// The result for a closed tab.
pub fn history_result(e: &HistoryEntry) -> (r: SearchResultItem)
    ensures
        r@ == history_item(e@),
{
    SearchResultItem {
        id: copy_string(&e.id),
        url: copy_string(&e.page_info.url),
        title: copy_string(&e.page_info.title),
        favicon_url: copy_opt_string(&e.page_info.favicon_url),
        source_type: SearchResultSource::History,
        relevance_score: 6000,
        snippet: match &e.page_info.content_summary {
            Some(s) => Some(snippet_of(&s.summary_text)),
            None => None,
        },
        keywords: copy_strings(&e.page_info.keywords),
        last_accessed: e.closed_at,
        browser_type: Some(e.browser_type),
    }
}

/// The result for an archive.
pub fn archive_result(a: &ContentArchive) -> (r: SearchResultItem)
    ensures
        r@ == archive_item(*a),
{
    let mut idv: Vec<char> = Vec::new();
    crate::text::push_uuid(&mut idv, a.id);
    let bytes = crate::digest::utf8_bytes(&a.content_text);
    let snippet = if bytes.len() > 200 {
        Some(snippet_of(&a.content_text))
    } else if bytes.len() > 0 {
        proof {
            lemma_utf8_empty(a.content_text@);
        }
        Some(copy_string(&a.content_text))
    } else {
        proof {
            lemma_utf8_empty(a.content_text@);
        }
        None
    };
    let kws: Vec<String> = Vec::new();
    assert(strings_view(kws@) =~= seq![]);
    SearchResultItem {
        id: string_from_chars(&idv),
        url: copy_string(&a.url),
        title: copy_string(&a.title),
        favicon_url: None,
        source_type: SearchResultSource::Archive,
        relevance_score: 7000,
        snippet,
        keywords: kws,
        last_accessed: a.archived_at,
        browser_type: None,
    }
}

// ---------------------------------------------------------------------------
// Deduplication and order
// ---------------------------------------------------------------------------

/// The priority of a source when results tie: tabs, then bookmarks, unified
/// pages, history and archives.
pub open spec fn source_rank(s: SearchResultSource) -> u8 {
    match s {
        SearchResultSource::ActiveTab => 5,
        SearchResultSource::Bookmark => 4,
        SearchResultSource::UnifiedPage => 3,
        SearchResultSource::History => 2,
        SearchResultSource::Archive => 1,
    }
}

/// The priority of a source.
pub fn source_priority(s: SearchResultSource) -> (r: u8)
    ensures
        r == source_rank(s),
{
    match s {
        SearchResultSource::ActiveTab => 5,
        SearchResultSource::Bookmark => 4,
        SearchResultSource::UnifiedPage => 3,
        SearchResultSource::History => 2,
        SearchResultSource::Archive => 1,
    }
}

/// The index of the result whose URL is `key` ignoring case.
pub open spec fn url_index(acc: Seq<ItemModel>, key: Seq<char>) -> Option<int>
    decreases acc.len(),
{
    if acc.len() == 0 {
        None
    } else {
        match url_index(acc.drop_last(), key) {
            Some(j) => Some(j),
            None => if lowercase(acc.last().url) == key {
                Some(acc.len() - 1)
            } else {
                None
            },
        }
    }
}

/// The results with one per URL (ignoring case): a later result replaces
/// the kept one where it is more relevant, or as relevant from a source of
/// higher priority; results stay in order of their URL's first occurrence.
pub open spec fn deduped(items: Seq<ItemModel>) -> Seq<ItemModel>
    decreases items.len(),
{
    if items.len() == 0 {
        seq![]
    } else {
        let acc = deduped(items.drop_last());
        let x = items.last();
        match url_index(acc, lowercase(x.url)) {
            Some(j) => if x.score > acc[j].score || (x.score == acc[j].score && source_rank(x.source)
                > source_rank(acc[j].source)) {
                acc.update(j, x)
            } else {
                acc
            },
            None => acc.push(x),
        }
    }
}

/// Keeps one result per URL.
pub fn deduplicate_results(results: Vec<SearchResultItem>) -> (r: Vec<SearchResultItem>)
    ensures
        items_view(r@) == deduped(items_view(results@)),
{
    let ghost iv = items_view(results@);
    let mut acc: Vec<SearchResultItem> = Vec::new();
    let mut keys: Vec<String> = Vec::new();
    let mut i: usize = 0;
    assert(iv.take(0) =~= Seq::<ItemModel>::empty());
    assert(items_view(acc@) =~= seq![]);
    while i < results.len()
        invariant
            i <= results@.len(),
            iv == items_view(results@),
            items_view(acc@) == deduped(iv.take(i as int)),
            keys@.len() == acc@.len(),
            forall|j: int| 0 <= j < acc@.len() ==> (#[trigger] keys@[j])@ == lowercase(acc@[j].url@),
        decreases results@.len() - i,
    {
        let x = &results[i];
        assert(iv.take(i as int + 1).drop_last() == iv.take(i as int));
        assert(iv.take(i as int + 1).last() == x@);
        let key = to_lowercase(&x.url);
        let ghost av = items_view(acc@);
        let mut j: usize = 0;
        while j < keys.len() && !str_eq(&keys[j], &key)
            invariant
                j <= keys@.len(),
                keys@.len() == acc@.len(),
                av == items_view(acc@),
                forall|t: int| 0 <= t < acc@.len() ==> (#[trigger] keys@[t])@ == lowercase(acc@[t].url@),
                url_index(av.take(j as int), key@) is None,
            decreases keys@.len() - j,
        {
            assert(av.take(j as int + 1).drop_last() == av.take(j as int));
            assert(av.take(j as int + 1).last() == acc@[j as int]@);
            j += 1;
        }
        if j < keys.len() {
            proof {
                assert(av.take(j as int + 1).drop_last() == av.take(j as int));
                assert(av.take(j as int + 1).last() == acc@[j as int]@);
                lemma_url_index_prefix(av, key@, j as int + 1);
            }
            let replace = x.relevance_score > acc[j].relevance_score || (x.relevance_score
                == acc[j].relevance_score && source_priority(x.source_type) > source_priority(
                acc[j].source_type,
            ));
            if replace {
                acc.set(j, x.duplicate());
                assert(items_view(acc@) =~= av.update(j as int, x@));
            }
        } else {
            assert(av.take(av.len() as int) == av);
            acc.push(x.duplicate());
            keys.push(key);
            assert(items_view(acc@) =~= av.push(x@));
        }
        i += 1;
    }
    assert(iv.take(iv.len() as int) == iv);
    acc
}

/// `url_index` on a prefix that ends in a match.
pub proof fn lemma_url_index_prefix(v: Seq<ItemModel>, key: Seq<char>, n: int)
    requires
        0 < n <= v.len(),
        url_index(v.take(n - 1), key) is None,
        lowercase(v[n - 1].url) == key,
    ensures
        url_index(v, key) == Some(n - 1),
    decreases v.len(),
{
    assert(v.take(n).drop_last() == v.take(n - 1));
    assert(url_index(v.take(n), key) == Some(n - 1));
    if v.len() > n {
        assert(v.drop_last().take(n) == v.take(n));
        assert(v.drop_last().take(n - 1) == v.take(n - 1));
        lemma_url_index_prefix(v.drop_last(), key, n);
    } else {
        assert(v.take(n) == v);
    }
}

/// How results are ordered.
#[derive(Clone, Copy, Debug, PartialEq, Eq, Structural)]
pub enum SearchSortOrder {
    Relevance,
    RecentFirst,
    OldestFirst,
    TitleAsc,
    TitleDesc,
}

/// Whether `a` sorts before `b` by character codes.
pub open spec fn lex_less(a: Seq<char>, b: Seq<char>) -> bool
    decreases a.len(),
{
    if a.len() == 0 {
        b.len() > 0
    } else if b.len() == 0 {
        false
    } else if a[0] != b[0] {
        (a[0] as u32) < (b[0] as u32)
    } else {
        lex_less(a.drop_first(), b.drop_first())
    }
}

/// Whether `a` sorts before `b` by character codes.
pub fn lex_less_exec(a: &[char], b: &[char]) -> (r: bool)
    ensures
        r == lex_less(a@, b@),
{
    let mut i: usize = 0;
    assert(a@.skip(0) == a@ && b@.skip(0) == b@);
    while i < a.len() && i < b.len() && a[i] == b[i]
        invariant
            i <= a@.len(),
            i <= b@.len(),
            lex_less(a@, b@) == lex_less(a@.skip(i as int), b@.skip(i as int)),
        decreases a@.len() - i,
    {
        assert(a@.skip(i as int).drop_first() == a@.skip(i as int + 1));
        assert(b@.skip(i as int).drop_first() == b@.skip(i as int + 1));
        i += 1;
    }
    if i == a.len() {
        i < b.len()
    } else if i == b.len() {
        false
    } else {
        (a[i] as u32) < (b[i] as u32)
    }
}

/// The sort key of a result.
pub struct ItemKey {
    pub order: SearchSortOrder,
    pub score: u32,
    pub time: i64,
    pub title: Vec<char>,
    pub idx: usize,
}

impl Precedes for ItemKey {
    open spec fn precedes(&self, other: &Self) -> bool {
        match self.order {
            SearchSortOrder::Relevance => self.score > other.score,
            SearchSortOrder::RecentFirst => self.time > other.time,
            SearchSortOrder::OldestFirst => self.time < other.time,
            SearchSortOrder::TitleAsc => lex_less(self.title@, other.title@),
            SearchSortOrder::TitleDesc => lex_less(other.title@, self.title@),
        }
    }

    fn precedes_exec(&self, other: &Self) -> (r: bool) {
        match self.order {
            SearchSortOrder::Relevance => self.score > other.score,
            SearchSortOrder::RecentFirst => self.time > other.time,
            SearchSortOrder::OldestFirst => self.time < other.time,
            SearchSortOrder::TitleAsc => lex_less_exec(&self.title, &other.title),
            SearchSortOrder::TitleDesc => lex_less_exec(&other.title, &self.title),
        }
    }
}

/// The sort keys of results.
pub open spec fn item_keys(items: Seq<ItemModel>, order: SearchSortOrder) -> Seq<(SearchSortOrder, u32, i64, Seq<char>, usize)> {
    Seq::new(
        items.len(),
        |i: int| (order, items[i].score, items[i].last_accessed, lowercase(items[i].title), i as usize),
    )
}

/// The view of an item key.
pub open spec fn key_view(k: ItemKey) -> (SearchSortOrder, u32, i64, Seq<char>, usize) {
    (k.order, k.score, k.time, k.title@, k.idx)
}

/// Results ordered stably: by relevance (highest first), access time
/// (newest or oldest first) or lower-case title (ascending or descending).
pub open spec fn sorted_items(items: Seq<ItemModel>, order: SearchSortOrder, keys: Seq<ItemKey>) -> bool {
    keys.map_values(|k: ItemKey| key_view(k)) == item_keys(items, order)
}

/// `items` ordered by `keys`.
pub open spec fn ordered_by(items: Seq<ItemModel>, keys: Seq<ItemKey>) -> Seq<ItemModel> {
    stable_sorted(keys).map_values(|k: ItemKey| items[k.idx as int])
}

/// Orders results stably.
pub fn sort_results(results: Vec<SearchResultItem>, order: SearchSortOrder) -> (r: Vec<SearchResultItem>)
    ensures
        exists|keys: Seq<ItemKey>|
            sorted_items(items_view(results@), order, keys) && items_view(r@) == #[trigger] ordered_by(
                items_view(results@),
                keys,
            ),
{
    let ghost iv = items_view(results@);
    let mut keys: Vec<ItemKey> = Vec::new();
    let mut i: usize = 0;
    while i < results.len()
        invariant
            i <= results@.len(),
            iv == items_view(results@),
            keys@.len() == i,
            keys@.map_values(|k: ItemKey| key_view(k)) == item_keys(iv, order).take(i as int),
            forall|j: int| 0 <= j < i ==> (#[trigger] keys@[j]).idx == j,
        decreases results@.len() - i,
    {
        let title = chars_of(&to_lowercase(&results[i].title));
        let k = ItemKey {
            order,
            score: results[i].relevance_score,
            time: results[i].last_accessed,
            title,
            idx: i,
        };
        let ghost o = keys@;
        keys.push(k);
        assert(keys@.map_values(|k: ItemKey| key_view(k)) =~= item_keys(iv, order).take(i as int + 1));
        i += 1;
    }
    assert(item_keys(iv, order).take(iv.len() as int) == item_keys(iv, order));
    let ghost ks = keys@;
    let sorted = sort_stable(keys);
    let ghost sk = stable_sorted(ks);
    proof {
        crate::sort::lemma_stable_sorted_len(ks);
        crate::sort::lemma_sorted_members(ks);
        assert forall|k: int| 0 <= k < sk.len() implies (#[trigger] sk[k]).idx < iv.len() by {
            assert(ks.contains(sk[k]));
            let j = choose|j: int| 0 <= j < ks.len() && ks[j] == sk[k];
            assert(ks[j].idx == j);
        }
    }
    let mut r: Vec<SearchResultItem> = Vec::new();
    let mut j: usize = 0;
    while j < sorted.len()
        invariant
            j <= sorted@.len(),
            sorted@ == sk,
            iv == items_view(results@),
            forall|k: int| 0 <= k < sk.len() ==> (#[trigger] sk[k]).idx < iv.len(),
            items_view(r@) == sk.take(j as int).map_values(|k: ItemKey| iv[k.idx as int]),
        decreases sorted@.len() - j,
    {
        let ghost o = items_view(r@);
        assert(sk[j as int].idx < iv.len());
        let d = results[sorted[j].idx].duplicate();
        r.push(d);
        assert(items_view(r@) =~= o.push(d@));
        assert(sk.take(j as int + 1) =~= sk.take(j as int).push(sk[j as int]));
        assert(items_view(r@) =~= sk.take(j as int + 1).map_values(|k: ItemKey| iv[k.idx as int]));
        j += 1;
    }
    assert(sk.take(sk.len() as int) == sk);
    assert(sorted_items(iv, order, ks));
    assert(items_view(r@) == ordered_by(iv, ks));
    r
}

// ---------------------------------------------------------------------------
// Results
// ---------------------------------------------------------------------------

/// How a search is run.
#[derive(Clone, Debug)]
pub struct SearchOptions {
    pub limit: usize,
    pub offset: usize,
    pub sort_order: SearchSortOrder,
    pub filter: SearchFilter,
    pub include_snippets: bool,
}

impl Default for SearchOptions {
    fn default() -> (r: Self)
        ensures
            r.limit == 50,
            r.offset == 0,
            r.sort_order == SearchSortOrder::Relevance,
            r.filter.source_types@.len() == 0,
            r.filter.browser_type is None,
            r.filter.from_date is None && r.filter.to_date is None && r.filter.keywords@.len() == 0,
            r.include_snippets,
    {
        SearchOptions {
            limit: 50,
            offset: 0,
            sort_order: SearchSortOrder::Relevance,
            filter: SearchFilter::new(),
            include_snippets: true,
        }
    }
}

/// A past query.
#[derive(Clone, Debug)]
pub struct SearchHistoryEntry {
    pub query: String,
    pub searched_at: i64,
    pub result_count: usize,
}

/// What kind of text a suggestion is.
#[derive(Clone, Copy, Debug, PartialEq, Eq, Structural)]
pub enum SuggestionType {
    History,
    Title,
    Keyword,
    Url,
}

/// A suggested query.
#[derive(Clone, Debug)]
pub struct SearchSuggestion {
    pub query: String,
    pub suggestion_type: SuggestionType,
    /// The rank of the suggestion, in percent.
    pub score: u32,
}

/// The results of one source.
#[derive(Clone, Debug)]
pub struct SourceGroup {
    pub source: SearchResultSource,
    pub items: Vec<SearchResultItem>,
}

/// The outcome of a search.
#[derive(Clone, Debug)]
pub struct SearchResults {
    pub query: String,
    /// The number of results before paging.
    pub total_count: usize,
    pub items: Vec<SearchResultItem>,
    pub search_time_ms: u64,
    pub filter: SearchFilter,
}

/// The sources of results, each once, in order of first occurrence.
pub open spec fn sources_in(items: Seq<ItemModel>) -> Seq<SearchResultSource>
    decreases items.len(),
{
    if items.len() == 0 {
        seq![]
    } else {
        let d = sources_in(items.drop_last());
        if d.contains(items.last().source) {
            d
        } else {
            d.push(items.last().source)
        }
    }
}

impl SearchResults {
    /// Whether results remain beyond a page that starts at `offset` and holds
    /// `limit` results.
    pub fn has_more(&self, offset: usize, limit: usize) -> (r: bool)
        requires
            offset + limit <= usize::MAX,
        ensures
            r == (offset + limit < self.total_count),
    {
        offset + limit < self.total_count
    }

    /// The results grouped by source, sources in order of first occurrence.
    pub fn group_by_source(&self) -> (r: Vec<SourceGroup>)
        ensures
            r@.len() == sources_in(items_view(self.items@)).len(),
            forall|k: int|
                0 <= k < r@.len() ==> (#[trigger] r@[k]).source == sources_in(items_view(self.items@))[k]
                    && items_view(r@[k].items@) == items_view(self.items@).filter(
                    |x: ItemModel| x.source == sources_in(items_view(self.items@))[k],
                ),
    {
        let ghost iv = items_view(self.items@);
        let mut sources: Vec<SearchResultSource> = Vec::new();
        let mut i: usize = 0;
        assert(iv.take(0) =~= Seq::<ItemModel>::empty());
        while i < self.items.len()
            invariant
                i <= self.items@.len(),
                iv == items_view(self.items@),
                sources@ == sources_in(iv.take(i as int)),
            decreases self.items@.len() - i,
        {
            assert(iv.take(i as int + 1).drop_last() == iv.take(i as int));
            let s = self.items[i].source_type;
            if !has_source(&sources, s) {
                sources.push(s);
            }
            i += 1;
        }
        assert(iv.take(iv.len() as int) == iv);
        let mut groups: Vec<SourceGroup> = Vec::new();
        let mut k: usize = 0;
        while k < sources.len()
            invariant
                k <= sources@.len(),
                sources@ == sources_in(iv),
                iv == items_view(self.items@),
                groups@.len() == k,
                forall|x: int|
                    0 <= x < k ==> (#[trigger] groups@[x]).source == sources@[x] && items_view(
                        groups@[x].items@,
                    ) == iv.filter(|y: ItemModel| y.source == sources@[x]),
            decreases sources@.len() - k,
        {
            let s = sources[k];
            let mut items: Vec<SearchResultItem> = Vec::new();
            let mut t: usize = 0;
            proof {
                reveal(Seq::filter);
            }
            assert(iv.take(0) =~= Seq::<ItemModel>::empty());
            while t < self.items.len()
                invariant
                    t <= self.items@.len(),
                    iv == items_view(self.items@),
                    items_view(items@) == iv.take(t as int).filter(|y: ItemModel| y.source == s),
                decreases self.items@.len() - t,
            {
                assert(iv.take(t as int + 1) == iv.take(t as int).push(iv[t as int]));
                proof {
                    iv.take(t as int).lemma_filter_push(iv[t as int], |y: ItemModel| y.source == s);
                }
                if self.items[t].source_type == s {
                    let ghost o = items_view(items@);
                    let d = self.items[t].duplicate();
                    items.push(d);
                    assert(items_view(items@) =~= o.push(iv[t as int]));
                }
                t += 1;
            }
            assert(iv.take(iv.len() as int) == iv);
            groups.push(SourceGroup { source: s, items });
            k += 1;
        }
        groups
    }
}

// ---------------------------------------------------------------------------
// The search manager
// ---------------------------------------------------------------------------

/// The most queries kept.
pub const MAX_SEARCH_HISTORY: usize = 100;

/// The most suggestions returned.
pub const MAX_SUGGESTIONS: usize = 10;

/// The views of past queries.
pub open spec fn queries_view(v: Seq<SearchHistoryEntry>) -> Seq<(Seq<char>, i64, usize)> {
    v.map_values(|e: SearchHistoryEntry| (e.query@, e.searched_at, e.result_count))
}

/// The mathematical state of a [`UnifiedSearchManager`].
pub ghost struct SearchState {
    pub history: Seq<(Seq<char>, i64, usize)>,
    pub tabs: Seq<TabModel>,
    pub bookmarks: Seq<BookmarkModel>,
}

/// Search over cached tabs and bookmarks and over results found elsewhere.
pub struct UnifiedSearchManager {
    search_history: Vec<SearchHistoryEntry>,
    cached_tabs: Vec<TabInfo>,
    cached_bookmarks: Vec<BookmarkInfo>,
}

impl View for UnifiedSearchManager {
    type V = SearchState;

    closed spec fn view(&self) -> SearchState {
        SearchState {
            history: queries_view(self.search_history@),
            tabs: tabs_view(self.cached_tabs@),
            bookmarks: crate::matcher::bookmarks_view(self.cached_bookmarks@),
        }
    }
}

/// The past queries once `q` is recorded at `now` with `count` results:
/// earlier entries with the same query (ignoring case) leave, the new entry
/// comes last, and only the newest hundred stay.
pub open spec fn recorded(h: Seq<(Seq<char>, i64, usize)>, q: Seq<char>, count: usize, now: i64) -> Seq<
    (Seq<char>, i64, usize),
> {
    let kept = h.filter(|e: (Seq<char>, i64, usize)| lowercase(e.0) != lowercase(q)).push(
        (q, now, count),
    );
    if kept.len() > 100 {
        kept.skip(kept.len() - 100)
    } else {
        kept
    }
}

/// The suggestions before duplicates are dropped: past queries that start
/// with the text (newest first, rank 100), then titles of tabs (rank 80) and
/// of bookmarks (rank 70) that contain it, ignoring case.
pub open spec fn raw_suggestions(st: SearchState, partial: Seq<char>) -> Seq<(Seq<char>, SuggestionType, u32)> {
    let ql = lowercase(partial);
    let h = st.history.reverse().filter(|e: (Seq<char>, i64, usize)| starts_with(lowercase(e.0), ql)).map_values(
        |e: (Seq<char>, i64, usize)| (e.0, SuggestionType::History, 100u32),
    );
    let t = st.tabs.filter(|x: TabModel| contains(lowercase(x.title), ql)).map_values(
        |x: TabModel| (x.title, SuggestionType::Title, 80u32),
    );
    let b = st.bookmarks.filter(|x: BookmarkModel| contains(lowercase(x.title), ql)).map_values(
        |x: BookmarkModel| (x.title, SuggestionType::Title, 70u32),
    );
    h + t + b
}

/// The suggestions with only the first of each text (ignoring case).
pub open spec fn first_of_each(s: Seq<(Seq<char>, SuggestionType, u32)>) -> Seq<(Seq<char>, SuggestionType, u32)>
    decreases s.len(),
{
    if s.len() == 0 {
        seq![]
    } else {
        let d = first_of_each(s.drop_last());
        if exists|j: int| 0 <= j < d.len() && lowercase((#[trigger] d[j]).0) == lowercase(s.last().0) {
            d
        } else {
            d.push(s.last())
        }
    }
}

/// The suggestions for a partial query: the first ten of the distinct
/// suggestions, which are already ranked highest first.
pub open spec fn suggestions_for(st: SearchState, partial: Seq<char>) -> Seq<(Seq<char>, SuggestionType, u32)> {
    let d = first_of_each(raw_suggestions(st, partial));
    if d.len() > 10 {
        d.take(10)
    } else {
        d
    }
}

/// The views of suggestions.
pub open spec fn suggestions_view(v: Seq<SearchSuggestion>) -> Seq<(Seq<char>, SuggestionType, u32)> {
    v.map_values(|x: SearchSuggestion| (x.query@, x.suggestion_type, x.score))
}

/// What searching did: from state `st` to `st2`, for `query` with `options`
/// over the database's `pages`, `history` and `archives`: the results are the
/// candidates ordered by some keys that sort them, counted, then paged; the
/// query and time are reported, and the query is recorded.
pub open spec fn search_outcome(
    st: SearchState,
    st2: SearchState,
    query: Seq<char>,
    options: SearchOptions,
    pages: Seq<PageModel>,
    history: Seq<HistoryModel>,
    archives: Seq<ContentArchive>,
    now: i64,
    search_time_ms: u64,
    r: SearchResults,
) -> bool {
    let c = search_candidates(st, query, options.filter, pages, history, archives);
    &&& exists|keys: Seq<ItemKey>|
        {
            &&& sorted_items(c, options.sort_order, keys)
            &&& #[trigger] ordered_by(c, keys).len() == r.total_count
            &&& items_view(r.items@) == crate::history::paged(
                ordered_by(c, keys),
                Some(options.offset),
                Some(options.limit),
            )
        }
    &&& r.query@ == query
    &&& r.search_time_ms == search_time_ms
    &&& st2 == (SearchState { history: recorded(st.history, query, r.total_count, now), ..st })
}

/// What the database answered for a source, or nothing where it failed.
pub open spec fn answer_or_empty<T, E>(a: Result<Vec<T>, E>) -> Seq<T> {
    match a {
        Ok(v) => v@,
        Err(_) => seq![],
    }
}

/// The first failure among the database's answers for the sources that
/// `src` keeps, in the order unified pages, history, archives.
pub open spec fn first_failure<E>(
    src: Seq<SearchResultSource>,
    pages: Result<Vec<UnifiedPageInfo>, E>,
    history: Result<Vec<HistoryEntry>, E>,
    archives: Result<Vec<ContentArchive>, E>,
) -> Option<E> {
    if source_kept(src, SearchResultSource::UnifiedPage) && pages is Err {
        Some(pages->Err_0)
    } else if source_kept(src, SearchResultSource::History) && history is Err {
        Some(history->Err_0)
    } else if source_kept(src, SearchResultSource::Archive) && archives is Err {
        Some(archives->Err_0)
    } else {
        None
    }
}

/// The results of a search before paging: for each kept source, in the
/// order tabs, bookmarks, unified pages, history, archives, its results;
/// then one per URL, those the filter keeps, ordered by `keys`.
pub open spec fn search_candidates(
    st: SearchState,
    query: Seq<char>,
    f: SearchFilter,
    pages: Seq<PageModel>,
    history: Seq<HistoryModel>,
    archives: Seq<ContentArchive>,
) -> Seq<ItemModel> {
    let ql = lowercase(query);
    let src = f.source_types@;
    let a = if source_kept(src, SearchResultSource::ActiveTab) {
        tab_items(st.tabs, ql)
    } else {
        seq![]
    };
    let b = if source_kept(src, SearchResultSource::Bookmark) {
        bookmark_items(st.bookmarks, ql)
    } else {
        seq![]
    };
    let c = if source_kept(src, SearchResultSource::UnifiedPage) {
        pages.map_values(|p: PageModel| page_item(p))
    } else {
        seq![]
    };
    let d = if source_kept(src, SearchResultSource::History) {
        history.map_values(|e: HistoryModel| history_item(e))
    } else {
        seq![]
    };
    let e = if source_kept(src, SearchResultSource::Archive) {
        archives.map_values(|x: ContentArchive| archive_item(x))
    } else {
        seq![]
    };
    deduped(a + b + c + d + e).filter(|x: ItemModel| filter_admits(f, x))
}

/// Copies of results.
fn copy_items(v: &[SearchResultItem]) -> (r: Vec<SearchResultItem>)
    ensures
        items_view(r@) == items_view(v@),
{
    let mut r: Vec<SearchResultItem> = Vec::new();
    let mut i: usize = 0;
    while i < v.len()
        invariant
            i <= v@.len(),
            items_view(r@) == items_view(v@).take(i as int),
        decreases v@.len() - i,
    {
        let ghost o = items_view(r@);
        let d = v[i].duplicate();
        r.push(d);
        assert(items_view(r@) =~= o.push(d@));
        assert(items_view(v@).take(i as int + 1) =~= items_view(v@).take(i as int).push(v@[i as int]@));
        i += 1;
    }
    assert(items_view(v@).take(v@.len() as int) == items_view(v@));
    r
}

/// Appends results.
fn append_items(acc: &mut Vec<SearchResultItem>, v: Vec<SearchResultItem>)
    ensures
        items_view(final(acc)@) == items_view(old(acc)@) + items_view(v@),
{
    let mut i: usize = 0;
    while i < v.len()
        invariant
            i <= v@.len(),
            items_view(acc@) == items_view(old(acc)@) + items_view(v@).take(i as int),
        decreases v@.len() - i,
    {
        let ghost o = items_view(acc@);
        let d = v[i].duplicate();
        acc.push(d);
        assert(items_view(acc@) =~= o.push(d@));
        assert(items_view(v@).take(i as int + 1) =~= items_view(v@).take(i as int).push(v@[i as int]@));
        i += 1;
    }
    assert(items_view(v@).take(v@.len() as int) == items_view(v@));
}

impl UnifiedSearchManager {
    /// A manager with nothing cached and no past queries.
    pub fn new() -> (r: Self)
        ensures
            r@ == (SearchState { history: seq![], tabs: seq![], bookmarks: seq![] }),
    {
        let r = UnifiedSearchManager {
            search_history: Vec::new(),
            cached_tabs: Vec::new(),
            cached_bookmarks: Vec::new(),
        };
        assert(queries_view(r.search_history@) =~= seq![]);
        assert(tabs_view(r.cached_tabs@) =~= seq![]);
        assert(crate::matcher::bookmarks_view(r.cached_bookmarks@) =~= seq![]);
        r
    }

    /// Replaces the cached tabs.
    pub fn update_tabs(&mut self, tabs: Vec<TabInfo>)
        ensures
            final(self)@ == (SearchState { tabs: tabs_view(tabs@), ..old(self)@ }),
    {
        self.cached_tabs = tabs;
    }

    /// Replaces the cached bookmarks.
    pub fn update_bookmarks(&mut self, bookmarks: Vec<BookmarkInfo>)
        ensures
            final(self)@ == (SearchState {
                bookmarks: crate::matcher::bookmarks_view(bookmarks@),
                ..old(self)@
            }),
    {
        self.cached_bookmarks = bookmarks;
    }

    /// The results among the cached tabs for a lower-case query.
    pub fn search_tabs(&self, query: &str) -> (r: Vec<SearchResultItem>)
        ensures
            items_view(r@) == tab_items(self@.tabs, query@),
    {
        let ghost tv = tabs_view(self.cached_tabs@);
        let mut r: Vec<SearchResultItem> = Vec::new();
        let mut i: usize = 0;
        assert(tv.take(0) =~= Seq::<TabModel>::empty());
        assert(items_view(r@) =~= seq![]);
        while i < self.cached_tabs.len()
            invariant
                i <= self.cached_tabs@.len(),
                tv == tabs_view(self.cached_tabs@),
                items_view(r@) == tab_items(tv.take(i as int), query@),
            decreases self.cached_tabs@.len() - i,
        {
            let t = &self.cached_tabs[i];
            assert(tv.take(i as int + 1).drop_last() == tv.take(i as int));
            assert(tv.take(i as int + 1).last() == t@);
            let empty: Vec<String> = Vec::new();
            assert(strings_view(empty@) =~= seq![]);
            if !t.is_private {
                let score = calculate_relevance(query, &t.url, &t.title, &empty);
                if score > 0 {
                    let kws: Vec<String> = Vec::new();
                    assert(strings_view(kws@) =~= seq![]);
                    let item = SearchResultItem {
                        id: copy_string(&t.id),
                        url: copy_string(&t.url),
                        title: copy_string(&t.title),
                        favicon_url: copy_opt_string(&t.favicon_url),
                        source_type: SearchResultSource::ActiveTab,
                        relevance_score: score,
                        snippet: None,
                        keywords: kws,
                        last_accessed: t.last_accessed,
                        browser_type: Some(t.browser_type),
                    };
                    let ghost o = items_view(r@);
                    assert(item@ == tab_item(t@, score));
                    r.push(item);
                    assert(items_view(r@) =~= o.push(tab_item(t@, score)));
                }
            }
            i += 1;
        }
        assert(tv.take(tv.len() as int) == tv);
        r
    }

    /// The results among the cached bookmarks for a lower-case query.
    pub fn search_bookmarks(&self, query: &str) -> (r: Vec<SearchResultItem>)
        ensures
            items_view(r@) == bookmark_items(self@.bookmarks, query@),
    {
        let ghost bv = crate::matcher::bookmarks_view(self.cached_bookmarks@);
        let mut r: Vec<SearchResultItem> = Vec::new();
        let mut i: usize = 0;
        assert(bv.take(0) =~= Seq::<BookmarkModel>::empty());
        assert(items_view(r@) =~= seq![]);
        while i < self.cached_bookmarks.len()
            invariant
                i <= self.cached_bookmarks@.len(),
                bv == crate::matcher::bookmarks_view(self.cached_bookmarks@),
                items_view(r@) == bookmark_items(bv.take(i as int), query@),
            decreases self.cached_bookmarks@.len() - i,
        {
            let b = &self.cached_bookmarks[i];
            assert(bv.take(i as int + 1).drop_last() == bv.take(i as int));
            assert(bv.take(i as int + 1).last() == b@);
            let empty: Vec<String> = Vec::new();
            assert(strings_view(empty@) =~= seq![]);
            let score = calculate_relevance(query, &b.url, &b.title, &empty);
            if score > 0 {
                let item = SearchResultItem {
                    id: copy_string(&b.id),
                    url: copy_string(&b.url),
                    title: copy_string(&b.title),
                    favicon_url: copy_opt_string(&b.favicon_url),
                    source_type: SearchResultSource::Bookmark,
                    relevance_score: score,
                    snippet: None,
                    keywords: copy_strings(&b.folder_path),
                    last_accessed: match b.last_accessed {
                        Some(t) => t,
                        None => b.created_at,
                    },
                    browser_type: Some(b.browser_type),
                };
                let ghost o = items_view(r@);
                assert(item@ == bookmark_item(b@, score));
                r.push(item);
                assert(items_view(r@) =~= o.push(bookmark_item(b@, score)));
            }
            i += 1;
        }
        assert(bv.take(bv.len() as int) == bv);
        r
    }

    /// Records a query run at `now` that found `result_count` results.
    pub fn record_search_at(&mut self, query: &str, result_count: usize, now: i64)
        ensures
            final(self)@ == (SearchState {
                history: recorded(old(self)@.history, query@, result_count, now),
                ..old(self)@
            }),
    {
        let ql = to_lowercase(query);
        let ghost hv = queries_view(self.search_history@);
        let ghost p = |e: (Seq<char>, i64, usize)| lowercase(e.0) != lowercase(query@);
        let mut kept: Vec<SearchHistoryEntry> = Vec::new();
        let mut i: usize = 0;
        proof {
            reveal(Seq::filter);
        }
        assert(hv.take(0) =~= Seq::<(Seq<char>, i64, usize)>::empty());
        assert(queries_view(kept@) =~= seq![]);
        while i < self.search_history.len()
            invariant
                i <= self.search_history@.len(),
                hv == queries_view(self.search_history@),
                ql@ == lowercase(query@),
                p == |e: (Seq<char>, i64, usize)| lowercase(e.0) != lowercase(query@),
                queries_view(kept@) == hv.take(i as int).filter(p),
            decreases self.search_history@.len() - i,
        {
            let e = &self.search_history[i];
            let ghost ev = (e.query@, e.searched_at, e.result_count);
            assert(hv.take(i as int + 1) == hv.take(i as int).push(ev));
            proof {
                hv.take(i as int).lemma_filter_push(ev, p);
            }
            if !str_eq(&to_lowercase(&e.query), &ql) {
                let ghost o = queries_view(kept@);
                kept.push(
                    SearchHistoryEntry {
                        query: copy_string(&e.query),
                        searched_at: e.searched_at,
                        result_count: e.result_count,
                    },
                );
                assert(queries_view(kept@) =~= o.push(ev));
            }
            i += 1;
        }
        assert(hv.take(hv.len() as int) == hv);
        let ghost o = queries_view(kept@);
        kept.push(
            SearchHistoryEntry {
                query: string_from_chars(&chars_of(query)),
                searched_at: now,
                result_count,
            },
        );
        assert(queries_view(kept@) =~= o.push((query@, now, result_count)));
        if kept.len() > MAX_SEARCH_HISTORY {
            let drop = kept.len() - MAX_SEARCH_HISTORY;
            let ghost kv = queries_view(kept@);
            let mut trimmed: Vec<SearchHistoryEntry> = Vec::new();
            let mut j = drop;
            while j < kept.len()
                invariant
                    drop <= j <= kept@.len(),
                    kv == queries_view(kept@),
                    queries_view(trimmed@) == kv.subrange(drop as int, j as int),
                decreases kept@.len() - j,
            {
                let ghost o2 = queries_view(trimmed@);
                let e = &kept[j];
                trimmed.push(
                    SearchHistoryEntry {
                        query: copy_string(&e.query),
                        searched_at: e.searched_at,
                        result_count: e.result_count,
                    },
                );
                assert(queries_view(trimmed@) =~= o2.push(kv[j as int]));
                assert(kv.subrange(drop as int, j + 1) =~= kv.subrange(drop as int, j as int).push(kv[j as int]));
                j += 1;
            }
            assert(kv.subrange(drop as int, kv.len() as int) == kv.skip(drop as int));
            self.search_history = trimmed;
        } else {
            self.search_history = kept;
        }
    }

    /// The newest past queries, newest first, at most `limit`.
    pub fn get_search_history(&self, limit: usize) -> (r: Vec<SearchHistoryEntry>)
        ensures
            queries_view(r@) == if limit < self@.history.len() {
                self@.history.reverse().take(limit as int)
            } else {
                self@.history.reverse()
            },
    {
        let ghost hv = queries_view(self.search_history@);
        let n = self.search_history.len();
        let m = if limit < n {
            limit
        } else {
            n
        };
        let mut r: Vec<SearchHistoryEntry> = Vec::new();
        let mut i: usize = 0;
        while i < m
            invariant
                i <= m,
                m <= n,
                n == self.search_history@.len(),
                hv == queries_view(self.search_history@),
                queries_view(r@) == hv.reverse().take(i as int),
            decreases m - i,
        {
            let e = &self.search_history[n - 1 - i];
            let ghost o = queries_view(r@);
            r.push(
                SearchHistoryEntry {
                    query: copy_string(&e.query),
                    searched_at: e.searched_at,
                    result_count: e.result_count,
                },
            );
            assert(hv.reverse()[i as int] == hv[n - 1 - i]);
            assert(queries_view(r@) =~= o.push(hv[n - 1 - i]));
            assert(hv.reverse().take(i as int + 1) =~= hv.reverse().take(i as int).push(hv.reverse()[i as int]));
            assert(queries_view(r@) =~= hv.reverse().take(i as int + 1));
            i += 1;
        }
        assert(hv.reverse().take(n as int) == hv.reverse());
        r
    }

    /// Forgets all past queries.
    pub fn clear_search_history(&mut self)
        ensures
            final(self)@ == (SearchState { history: seq![], ..old(self)@ }),
    {
        self.search_history = Vec::new();
        assert(queries_view(self.search_history@) =~= seq![]);
    }
}

impl UnifiedSearchManager {
    /// Suggestions for a partial query: see [`suggestions_for`].
    pub fn get_suggestions(&self, partial_query: &str) -> (r: Vec<SearchSuggestion>)
        ensures
            suggestions_view(r@) == suggestions_for(self@, partial_query@),
    {
        let ql = to_lowercase(partial_query);
        let ghost st = self@;
        let ghost hv = queries_view(self.search_history@);
        let ghost ph = |e: (Seq<char>, i64, usize)| starts_with(lowercase(e.0), lowercase(partial_query@));
        let ghost fh = |e: (Seq<char>, i64, usize)| (e.0, SuggestionType::History, 100u32);
        let mut raw: Vec<SearchSuggestion> = Vec::new();
        let n = self.search_history.len();
        let mut i: usize = 0;
        proof {
            reveal(Seq::filter);
        }
        assert(hv.reverse().take(0) =~= Seq::<(Seq<char>, i64, usize)>::empty());
        assert(suggestions_view(raw@) =~= seq![]);
        while i < n
            invariant
                i <= n,
                n == self.search_history@.len(),
                hv == queries_view(self.search_history@),
                ql@ == lowercase(partial_query@),
                ph == |e: (Seq<char>, i64, usize)| starts_with(lowercase(e.0), lowercase(partial_query@)),
                fh == |e: (Seq<char>, i64, usize)| (e.0, SuggestionType::History, 100u32),
                suggestions_view(raw@) == hv.reverse().take(i as int).filter(ph).map_values(fh),
            decreases n - i,
        {
            let e = &self.search_history[n - 1 - i];
            let ghost ev = hv.reverse()[i as int];
            assert(ev == hv[n - 1 - i]);
            assert(hv.reverse().take(i as int + 1) == hv.reverse().take(i as int).push(ev));
            proof {
                hv.reverse().take(i as int).lemma_filter_push(ev, ph);
            }
            if crate::text::str_starts_with(&to_lowercase(&e.query), &ql) {
                let ghost o = suggestions_view(raw@);
                raw.push(
                    SearchSuggestion {
                        query: copy_string(&e.query),
                        suggestion_type: SuggestionType::History,
                        score: 100,
                    },
                );
                assert(suggestions_view(raw@) =~= o.push(fh(ev)));
                assert(hv.reverse().take(i as int).filter(ph).push(ev).map_values(fh) =~= hv.reverse().take(
                    i as int,
                ).filter(ph).map_values(fh).push(fh(ev)));
            }
            i += 1;
        }
        assert(hv.reverse().take(n as int) == hv.reverse());
        let ghost part1 = suggestions_view(raw@);
        let ghost tv = tabs_view(self.cached_tabs@);
        let ghost pt = |x: TabModel| contains(lowercase(x.title), lowercase(partial_query@));
        let ghost ft = |x: TabModel| (x.title, SuggestionType::Title, 80u32);
        let mut j: usize = 0;
        assert(tv.take(0) =~= Seq::<TabModel>::empty());
        assert(tv.take(0).filter(pt).map_values(ft) =~= seq![]);
        while j < self.cached_tabs.len()
            invariant
                j <= self.cached_tabs@.len(),
                tv == tabs_view(self.cached_tabs@),
                ql@ == lowercase(partial_query@),
                pt == |x: TabModel| contains(lowercase(x.title), lowercase(partial_query@)),
                ft == |x: TabModel| (x.title, SuggestionType::Title, 80u32),
                suggestions_view(raw@) == part1 + tv.take(j as int).filter(pt).map_values(ft),
            decreases self.cached_tabs@.len() - j,
        {
            let t = &self.cached_tabs[j];
            assert(tv.take(j as int + 1) == tv.take(j as int).push(t@));
            proof {
                tv.take(j as int).lemma_filter_push(t@, pt);
            }
            if str_contains(&to_lowercase(&t.title), &ql) {
                let ghost o = suggestions_view(raw@);
                raw.push(
                    SearchSuggestion {
                        query: copy_string(&t.title),
                        suggestion_type: SuggestionType::Title,
                        score: 80,
                    },
                );
                assert(suggestions_view(raw@) =~= o.push(ft(t@)));
                assert(tv.take(j as int).filter(pt).push(t@).map_values(ft) =~= tv.take(j as int).filter(
                    pt,
                ).map_values(ft).push(ft(t@)));
            }
            j += 1;
        }
        assert(tv.take(tv.len() as int) == tv);
        let ghost part2 = suggestions_view(raw@);
        let ghost bv = crate::matcher::bookmarks_view(self.cached_bookmarks@);
        let ghost pb = |x: BookmarkModel| contains(lowercase(x.title), lowercase(partial_query@));
        let ghost fb = |x: BookmarkModel| (x.title, SuggestionType::Title, 70u32);
        let mut k: usize = 0;
        assert(bv.take(0) =~= Seq::<BookmarkModel>::empty());
        assert(bv.take(0).filter(pb).map_values(fb) =~= seq![]);
        while k < self.cached_bookmarks.len()
            invariant
                k <= self.cached_bookmarks@.len(),
                bv == crate::matcher::bookmarks_view(self.cached_bookmarks@),
                ql@ == lowercase(partial_query@),
                pb == |x: BookmarkModel| contains(lowercase(x.title), lowercase(partial_query@)),
                fb == |x: BookmarkModel| (x.title, SuggestionType::Title, 70u32),
                suggestions_view(raw@) == part2 + bv.take(k as int).filter(pb).map_values(fb),
            decreases self.cached_bookmarks@.len() - k,
        {
            let b = &self.cached_bookmarks[k];
            assert(bv.take(k as int + 1) == bv.take(k as int).push(b@));
            proof {
                bv.take(k as int).lemma_filter_push(b@, pb);
            }
            if str_contains(&to_lowercase(&b.title), &ql) {
                let ghost o = suggestions_view(raw@);
                raw.push(
                    SearchSuggestion {
                        query: copy_string(&b.title),
                        suggestion_type: SuggestionType::Title,
                        score: 70,
                    },
                );
                assert(suggestions_view(raw@) =~= o.push(fb(b@)));
                assert(bv.take(k as int).filter(pb).push(b@).map_values(fb) =~= bv.take(k as int).filter(
                    pb,
                ).map_values(fb).push(fb(b@)));
            }
            k += 1;
        }
        assert(bv.take(bv.len() as int) == bv);
        assert(suggestions_view(raw@) == raw_suggestions(st, partial_query@));
        let ghost rv = suggestions_view(raw@);
        let mut out: Vec<SearchSuggestion> = Vec::new();
        let mut keys: Vec<String> = Vec::new();
        let mut t: usize = 0;
        assert(rv.take(0) =~= Seq::<(Seq<char>, SuggestionType, u32)>::empty());
        assert(suggestions_view(out@) =~= seq![]);
        while t < raw.len()
            invariant
                t <= raw@.len(),
                rv == suggestions_view(raw@),
                suggestions_view(out@) == first_of_each(rv.take(t as int)),
                keys@.len() == out@.len(),
                forall|x: int| 0 <= x < out@.len() ==> (#[trigger] keys@[x])@ == lowercase(out@[x].query@),
            decreases raw@.len() - t,
        {
            let x = &raw[t];
            let ghost xv = (x.query@, x.suggestion_type, x.score);
            assert(rv.take(t as int + 1).drop_last() == rv.take(t as int));
            assert(rv.take(t as int + 1).last() == xv);
            let key = to_lowercase(&x.query);
            let ghost ov = suggestions_view(out@);
            let mut found = false;
            let mut y: usize = 0;
            while y < keys.len()
                invariant
                    y <= keys@.len(),
                    keys@.len() == out@.len(),
                    ov == suggestions_view(out@),
                    forall|z: int| 0 <= z < out@.len() ==> (#[trigger] keys@[z])@ == lowercase(out@[z].query@),
                    found == exists|z: int| 0 <= z < y && lowercase((#[trigger] ov[z]).0) == key@,
                decreases keys@.len() - y,
            {
                assert(ov[y as int].0 == out@[y as int].query@);
                if str_eq(&keys[y], &key) {
                    found = true;
                }
                y += 1;
            }
            if !found {
                out.push(
                    SearchSuggestion {
                        query: copy_string(&x.query),
                        suggestion_type: x.suggestion_type,
                        score: x.score,
                    },
                );
                keys.push(key);
                assert(suggestions_view(out@) =~= ov.push(xv));
            }
            t += 1;
        }
        assert(rv.take(rv.len() as int) == rv);
        if out.len() > MAX_SUGGESTIONS {
            let ghost full = suggestions_view(out@);
            out.truncate(MAX_SUGGESTIONS);
            assert(suggestions_view(out@) =~= full.take(10));
        }
        out
    }

    /// Searches at time `now` with what the database answered for the
    /// unified pages, the history and the archives. Where the filter keeps a
    /// source whose answer is a failure, the first such failure (pages, then
    /// history, then archives) is returned and nothing is recorded; else the
    /// search is that of [`Self::search_at`] on the answers.
    pub fn search_sources_at<E>(
        &mut self,
        query: &str,
        options: SearchOptions,
        pages: Result<Vec<UnifiedPageInfo>, E>,
        history: Result<Vec<HistoryEntry>, E>,
        archives: Result<Vec<ContentArchive>, E>,
        now: i64,
        search_time_ms: u64,
    ) -> (r: Result<SearchResults, E>)
        ensures
            match first_failure(options.filter.source_types@, pages, history, archives) {
                Some(e) => r == Err::<SearchResults, E>(e) && final(self)@ == old(self)@,
                None => r matches Ok(res) && search_outcome(
                    old(self)@,
                    final(self)@,
                    query@,
                    options,
                    crate::sync::pages_view(answer_or_empty(pages)),
                    entries_view(answer_or_empty(history)),
                    answer_or_empty(archives),
                    now,
                    search_time_ms,
                    res,
                ),
            },
    {
        let src = &options.filter.source_types;
        let none = src.len() == 0;
        let want_pages = none || has_source(src, SearchResultSource::UnifiedPage);
        let want_history = none || has_source(src, SearchResultSource::History);
        let want_archives = none || has_source(src, SearchResultSource::Archive);
        let p = match pages {
            Ok(v) => v,
            Err(e) => {
                if want_pages {
                    return Err(e);
                }
                Vec::new()
            },
        };
        let h = match history {
            Ok(v) => v,
            Err(e) => {
                if want_history {
                    return Err(e);
                }
                Vec::new()
            },
        };
        let a = match archives {
            Ok(v) => v,
            Err(e) => {
                if want_archives {
                    return Err(e);
                }
                Vec::new()
            },
        };
        proof {
            assert(crate::sync::pages_view(p@) =~= crate::sync::pages_view(answer_or_empty(pages)));
            assert(entries_view(h@) =~= entries_view(answer_or_empty(history)));
            assert(a@ =~= answer_or_empty(archives));
        }
        Ok(self.search_at(query, options, &p, &h, &a, now, search_time_ms))
    }

    /// Searches at time `now`: the cached tabs and bookmarks are searched
    /// here; `pages`, `history` and `archives` are what the database found
    /// for the query and are used only for the sources the filter keeps. The
    /// results are deduplicated, filtered, ordered, counted and paged, and
    /// the query is recorded. `search_time_ms` is how long it took.
    pub fn search_at(
        &mut self,
        query: &str,
        options: SearchOptions,
        pages: &[UnifiedPageInfo],
        history: &[HistoryEntry],
        archives: &[ContentArchive],
        now: i64,
        search_time_ms: u64,
    ) -> (r: SearchResults)
        ensures
            search_outcome(
                old(self)@,
                final(self)@,
                query@,
                options,
                crate::sync::pages_view(pages@),
                entries_view(history@),
                archives@,
                now,
                search_time_ms,
                r,
            ),
    {
        let ql = to_lowercase(query);
        let f = &options.filter;
        let src = &f.source_types;
        let mut all: Vec<SearchResultItem> = Vec::new();
        assert(items_view(all@) =~= seq![]);
        let none = src.len() == 0;
        let ghost a0 = items_view(all@);
        if none || has_source(src, SearchResultSource::ActiveTab) {
            let t = self.search_tabs(&ql);
            append_items(&mut all, t);
        }
        let ghost a1 = items_view(all@);
        if none || has_source(src, SearchResultSource::Bookmark) {
            let b = self.search_bookmarks(&ql);
            append_items(&mut all, b);
        }
        let ghost a2 = items_view(all@);
        if none || has_source(src, SearchResultSource::UnifiedPage) {
            let mut v: Vec<SearchResultItem> = Vec::new();
            let mut i: usize = 0;
            while i < pages.len()
                invariant
                    i <= pages@.len(),
                    items_view(v@) == crate::sync::pages_view(pages@).take(i as int).map_values(
                        |p: PageModel| page_item(p),
                    ),
                decreases pages@.len() - i,
            {
                let ghost o = items_view(v@);
                let x = page_result(&pages[i]);
                let ghost xv = x@;
                v.push(x);
                assert(items_view(v@) =~= o.push(xv));
                assert(crate::sync::pages_view(pages@).take(i as int + 1) =~= crate::sync::pages_view(pages@).take(i as int).push(pages@[i as int]@));
                assert(items_view(v@) =~= crate::sync::pages_view(pages@).take(i as int + 1).map_values(
                    |p: PageModel| page_item(p),
                ));
                i += 1;
            }
            assert(crate::sync::pages_view(pages@).take(pages@.len() as int) == crate::sync::pages_view(
                pages@,
            ));
            append_items(&mut all, v);
        }
        let ghost a3 = items_view(all@);
        if none || has_source(src, SearchResultSource::History) {
            let mut v: Vec<SearchResultItem> = Vec::new();
            let mut i: usize = 0;
            while i < history.len()
                invariant
                    i <= history@.len(),
                    items_view(v@) == entries_view(history@).take(i as int).map_values(
                        |e: HistoryModel| history_item(e),
                    ),
                decreases history@.len() - i,
            {
                let ghost o = items_view(v@);
                let x = history_result(&history[i]);
                let ghost xv = x@;
                v.push(x);
                assert(items_view(v@) =~= o.push(xv));
                assert(entries_view(history@).take(i as int + 1) =~= entries_view(history@).take(i as int).push(history@[i as int]@));
                assert(items_view(v@) =~= entries_view(history@).take(i as int + 1).map_values(
                    |e: HistoryModel| history_item(e),
                ));
                i += 1;
            }
            assert(entries_view(history@).take(history@.len() as int) == entries_view(history@));
            append_items(&mut all, v);
        }
        let ghost a4 = items_view(all@);
        if none || has_source(src, SearchResultSource::Archive) {
            let mut v: Vec<SearchResultItem> = Vec::new();
            let mut i: usize = 0;
            while i < archives.len()
                invariant
                    i <= archives@.len(),
                    items_view(v@) == archives@.take(i as int).map_values(
                        |x: ContentArchive| archive_item(x),
                    ),
                decreases archives@.len() - i,
            {
                let ghost o = items_view(v@);
                let x = archive_result(&archives[i]);
                let ghost xv = x@;
                v.push(x);
                assert(items_view(v@) =~= o.push(xv));
                assert(archives@.take(i as int + 1) =~= archives@.take(i as int).push(archives@[i as int]));
                assert(items_view(v@) =~= archives@.take(i as int + 1).map_values(
                    |x: ContentArchive| archive_item(x),
                ));
                i += 1;
            }
            assert(archives@.take(archives@.len() as int) == archives@);
            append_items(&mut all, v);
        }
        let deduped_items = deduplicate_results(all);
        let ghost dv = items_view(deduped_items@);
        let mut kept: Vec<SearchResultItem> = Vec::new();
        let mut i: usize = 0;
        proof {
            reveal(Seq::filter);
        }
        assert(dv.take(0) =~= Seq::<ItemModel>::empty());
        assert(items_view(kept@) =~= seq![]);
        while i < deduped_items.len()
            invariant
                i <= deduped_items@.len(),
                dv == items_view(deduped_items@),
                items_view(kept@) == dv.take(i as int).filter(|x: ItemModel| filter_admits(*f, x)),
            decreases deduped_items@.len() - i,
        {
            let x = &deduped_items[i];
            assert(dv.take(i as int + 1) == dv.take(i as int).push(x@));
            proof {
                dv.take(i as int).lemma_filter_push(x@, |y: ItemModel| filter_admits(*f, y));
            }
            if f.matches(x) {
                let ghost o = items_view(kept@);
                let d = x.duplicate();
                kept.push(d);
                assert(items_view(kept@) =~= o.push(x@));
            }
            i += 1;
        }
        assert(dv.take(dv.len() as int) == dv);
        assert(items_view(kept@) == search_candidates(
            old(self)@,
            query@,
            options.filter,
            crate::sync::pages_view(pages@),
            entries_view(history@),
            archives@,
        ));
        let sorted = sort_results(kept, options.sort_order);
        let total = sorted.len();
        let ghost sv = items_view(sorted@);
        let start = if options.offset < total {
            options.offset
        } else {
            total
        };
        let avail = total - start;
        let n = if options.limit < avail {
            options.limit
        } else {
            avail
        };
        let mut items: Vec<SearchResultItem> = Vec::new();
        let mut t: usize = 0;
        while t < n
            invariant
                t <= n,
                start + n <= total,
                total == sorted@.len(),
                sv == items_view(sorted@),
                items_view(items@) == sv.subrange(start as int, start + t),
            decreases n - t,
        {
            let ghost o = items_view(items@);
            let d = sorted[start + t].duplicate();
            items.push(d);
            assert(items_view(items@) =~= o.push(d@));
            assert(items_view(items@) =~= sv.subrange(start as int, start + t + 1));
            t += 1;
        }
        assert(items_view(items@) =~= crate::history::paged(sv, Some(options.offset), Some(options.limit)));
        self.record_search_at(query, total, now);
        SearchResults {
            query: string_from_chars(&chars_of(query)),
            total_count: total,
            items,
            search_time_ms,
            filter: options.filter,
        }
    }
}

impl Default for UnifiedSearchManager {
    fn default() -> (r: Self)
        ensures
            r@ == (SearchState { history: seq![], tabs: seq![], bookmarks: seq![] }),
    {
        Self::new()
    }
}


/// What `url_index` finds: an index whose URL has the key, or no index
/// where none has it.
proof fn lemma_url_index_finds(acc: Seq<ItemModel>, key: Seq<char>)
    ensures
        url_index(acc, key) matches Some(j) ==> 0 <= j < acc.len() && lowercase(acc[j].url) == key,
        url_index(acc, key) is None ==> forall|k: int| 0 <= k < acc.len() ==> lowercase(#[trigger] acc[k].url) != key,
    decreases acc.len(),
{
    if acc.len() > 0 {
        lemma_url_index_finds(acc.drop_last(), key);
        assert forall|k: int| 0 <= k < acc.len() - 1 implies acc.drop_last()[k] == acc[k] by {}
    }
}

/// Deduplicated results hold each URL, ignoring case, once.
pub proof fn law_deduplicated_urls_distinct(items: Seq<ItemModel>)
    ensures
        forall|i: int, j: int|
            0 <= i < j < deduped(items).len() ==> lowercase(#[trigger] deduped(items)[i].url) != lowercase(
                #[trigger] deduped(items)[j].url,
            ),
    decreases items.len(),
{
    if items.len() > 0 {
        let acc = deduped(items.drop_last());
        let x = items.last();
        law_deduplicated_urls_distinct(items.drop_last());
        lemma_url_index_finds(acc, lowercase(x.url));
        let d = deduped(items);
        assert forall|i: int, j: int| 0 <= i < j < d.len() implies lowercase(#[trigger] d[i].url) != lowercase(
            #[trigger] d[j].url,
        ) by {
            match url_index(acc, lowercase(x.url)) {
                Some(jj) => {
                    if j < acc.len() {
                        assert(lowercase(acc[i].url) != lowercase(acc[j].url));
                    }
                },
                None => {
                    if j < acc.len() {
                        assert(lowercase(acc[i].url) != lowercase(acc[j].url));
                    } else {
                        assert(d[j] == x);
                        assert(d[i] == acc[i]);
                    }
                },
            }
        }
    }
}

} // verus!
