//! The history of closed tabs: which closed tabs are kept, the bounded cache
//! of entries, and queries over it.

use vstd::prelude::*;
use crate::matcher::tabs_view;
use crate::model::{
    BrowserInstance, BrowserType, ContentSummary, PageModel, PageSourceType, SourceModel,
    SummaryModel, TabInfo, TabModel, UnifiedPageInfo, instance_of_type, opt_model,
};
use crate::sort::{lemma_sorted_members, Precedes, sort_stable, stable_sorted};
use crate::text::{
    chars_of, contains, copy_opt_string, copy_string, lowercase, opt_view, starts_with,
    str_contains, str_eq, string_from_chars, to_lowercase,
};

verus! {

/// How long history is kept.
#[derive(Clone, Copy, Debug)]
pub struct RetentionPolicy {
    /// Entries closed more days ago than this are removed.
    pub max_age_days: u32,
    /// The most entries kept.
    pub max_entries: usize,
    /// Whether the most important entries are the ones kept.
    pub preserve_important: bool,
    /// The importance, in percent, below which an entry counts as unimportant.
    pub importance_threshold_percent: u32,
}

impl Default for RetentionPolicy {
    fn default() -> (r: Self)
        ensures
            r.max_age_days == 90,
            r.max_entries == 10000,
            r.preserve_important,
            r.importance_threshold_percent == 50,
    {
        RetentionPolicy {
            max_age_days: 90,
            max_entries: 10000,
            preserve_important: true,
            importance_threshold_percent: 50,
        }
    }
}

/// Settings of a [`TabHistoryManager`].
#[derive(Clone, Copy, Debug)]
pub struct TabHistoryManagerConfig {
    /// The most entries kept in the cache.
    pub max_cache_entries: usize,
    pub auto_save_closed_tabs: bool,
    /// The seconds a tab must have been open to be kept.
    pub min_tab_lifetime_secs: u64,
    /// Whether browser-internal pages are kept.
    pub save_internal_pages: bool,
    pub default_retention_policy: RetentionPolicy,
}

impl Default for TabHistoryManagerConfig {
    fn default() -> (r: Self)
        ensures
            r.max_cache_entries == 1000,
            r.auto_save_closed_tabs,
            r.min_tab_lifetime_secs == 5,
            !r.save_internal_pages,
    {
        TabHistoryManagerConfig {
            max_cache_entries: 1000,
            auto_save_closed_tabs: true,
            min_tab_lifetime_secs: 5,
            save_internal_pages: false,
            default_retention_policy: RetentionPolicy::default(),
        }
    }
}

/// Where a closed tab sat in its session.
#[derive(Clone, Debug)]
pub struct SessionInfo {
    pub session_id: String,
    pub window_id: Option<u64>,
    pub tab_index: Option<u64>,
    pub scroll_position: Option<u64>,
}

/// A closed tab kept in history.
#[derive(Clone, Debug)]
pub struct HistoryEntry {
    pub id: String,
    pub page_info: UnifiedPageInfo,
    pub browser_type: BrowserType,
    pub tab_id: Option<String>,
    pub closed_at: i64,
    pub session_info: Option<SessionInfo>,
}

/// The mathematical value of a [`HistoryEntry`].
pub ghost struct HistoryModel {
    pub id: Seq<char>,
    pub page: PageModel,
    pub browser_type: BrowserType,
    pub tab_id: Option<Seq<char>>,
    pub closed_at: i64,
    pub session_id: Option<Seq<char>>,
}

impl View for HistoryEntry {
    type V = HistoryModel;

    open spec fn view(&self) -> HistoryModel {
        HistoryModel {
            id: self.id@,
            page: self.page_info@,
            browser_type: self.browser_type,
            tab_id: opt_view(self.tab_id),
            closed_at: self.closed_at,
            session_id: match self.session_info {
                Some(s) => Some(s.session_id@),
                None => None,
            },
        }
    }
}

impl HistoryEntry {
    /// A copy of this entry.
    pub fn duplicate(&self) -> (r: HistoryEntry)
        ensures
            r@ == self@,
    {
        HistoryEntry {
            id: copy_string(&self.id),
            page_info: self.page_info.duplicate(),
            browser_type: self.browser_type,
            tab_id: copy_opt_string(&self.tab_id),
            closed_at: self.closed_at,
            session_info: match &self.session_info {
                Some(s) => Some(
                    SessionInfo {
                        session_id: copy_string(&s.session_id),
                        window_id: s.window_id,
                        tab_index: s.tab_index,
                        scroll_position: s.scroll_position,
                    },
                ),
                None => None,
            },
        }
    }
}

/// The views of entries.
pub open spec fn entries_view(v: Seq<HistoryEntry>) -> Seq<HistoryModel> {
    v.map_values(|e: HistoryEntry| e@)
}

/// Which entries a query wants.
#[derive(Clone, Debug)]
pub struct HistoryFilter {
    pub browser_type: Option<BrowserType>,
    pub from_date: Option<i64>,
    pub to_date: Option<i64>,
    /// A text that the URL must contain, ignoring case.
    pub url_pattern: Option<String>,
    /// A text that the title must contain, ignoring case.
    pub title_pattern: Option<String>,
    pub limit: Option<usize>,
    pub offset: Option<usize>,
}

impl HistoryFilter {
    /// A filter that keeps everything.
    pub fn new() -> (r: Self)
        ensures
            r.browser_type is None,
            r.from_date is None,
            r.to_date is None,
            r.url_pattern is None,
            r.title_pattern is None,
            r.limit is None,
            r.offset is None,
    {
        HistoryFilter {
            browser_type: None,
            from_date: None,
            to_date: None,
            url_pattern: None,
            title_pattern: None,
            limit: None,
            offset: None,
        }
    }
}

impl Default for HistoryFilter {
    fn default() -> (r: Self)
        ensures
            r.browser_type is None,
            r.from_date is None,
            r.to_date is None,
            r.url_pattern is None,
            r.title_pattern is None,
            r.limit is None,
            r.offset is None,
    {
        Self::new()
    }
}

/// Whether an entry passes a filter: its browser, its close time within the
/// range, and its URL and title containing the patterns, ignoring case.
pub open spec fn filter_accepts(f: HistoryFilter, e: HistoryModel) -> bool {
    &&& (f.browser_type matches Some(b) ==> e.browser_type == b)
    &&& (f.from_date matches Some(from) ==> e.closed_at >= from)
    &&& (f.to_date matches Some(to) ==> e.closed_at <= to)
    &&& (f.url_pattern matches Some(p) ==> contains(lowercase(e.page.url), lowercase(p@)))
    &&& (f.title_pattern matches Some(p) ==> contains(lowercase(e.page.title), lowercase(p@)))
}

/// Sorts entries by close time, newest first.
pub struct ClosedKey {
    pub closed_at: i64,
    pub idx: usize,
}

impl Precedes for ClosedKey {
    open spec fn precedes(&self, other: &Self) -> bool {
        self.closed_at > other.closed_at
    }

    fn precedes_exec(&self, other: &Self) -> (r: bool) {
        self.closed_at > other.closed_at
    }
}

/// The keys of entries, in order.
pub open spec fn closed_keys(es: Seq<HistoryModel>) -> Seq<ClosedKey> {
    Seq::new(es.len(), |i: int| ClosedKey { closed_at: es[i].closed_at, idx: i as usize })
}

/// Entries newest first; entries closed at the same time keep their order.
pub open spec fn newest_first(es: Seq<HistoryModel>) -> Seq<HistoryModel> {
    stable_sorted(closed_keys(es)).map_values(|k: ClosedKey| es[k.idx as int])
}

/// `s` without its first `offset` elements and then cut to `limit`.
pub open spec fn paged<T>(s: Seq<T>, offset: Option<usize>, limit: Option<usize>) -> Seq<T> {
    let a = match offset {
        Some(o) => if o < s.len() {
            s.skip(o as int)
        } else {
            seq![]
        },
        None => s,
    };
    match limit {
        Some(l) => if l < a.len() {
            a.take(l as int)
        } else {
            a
        },
        None => a,
    }
}

/// What a query over the cache returns: the entries that pass the filter,
/// newest first, then the requested page of them.
pub open spec fn history_query(cache: Seq<HistoryModel>, f: HistoryFilter) -> Seq<HistoryModel> {
    paged(newest_first(cache.filter(|e: HistoryModel| filter_accepts(f, e))), f.offset, f.limit)
}

/// The prefixes of browser-internal pages.
pub open spec fn internal_prefixes() -> Seq<Seq<char>> {
    seq![
        "chrome://"@,
        "edge://"@,
        "about:"@,
        "chrome-extension://"@,
        "moz-extension://"@,
        "file://"@,
    ]
}

/// Whether a URL is a browser-internal page: its lower-case form starts
/// with one of [`internal_prefixes`].
pub open spec fn internal_page(url: Seq<char>) -> bool {
    exists|k: int| 0 <= k < 6 && starts_with(lowercase(url), #[trigger] internal_prefixes()[k])
}

/// Whole seconds from `from` to `to` (milliseconds), truncated toward zero.
pub open spec fn whole_seconds(from: i64, to: i64) -> int {
    let d = to - from;
    if d >= 0 {
        d / 1000
    } else {
        -((-d) / 1000)
    }
}

/// Whether a closed tab is kept at time `now`: not private, not an internal
/// page (unless those are kept), and open at least the minimum lifetime.
pub open spec fn keeps_tab(cfg: TabHistoryManagerConfig, tab: TabModel, now: i64) -> bool {
    &&& !tab.is_private
    &&& (cfg.save_internal_pages || !internal_page(tab.url))
    &&& whole_seconds(tab.created_at, now) >= (cfg.min_tab_lifetime_secs as i64) as int
}

/// The entry kept for a tab closed at `closed_at`, with history id `hid`,
/// page id `pid` and session id `sid`, enriched with `summary`.
pub open spec fn closed_entry(
    tab: TabModel,
    closed_at: i64,
    hid: Seq<char>,
    pid: u128,
    sid: Seq<char>,
    summary: Option<SummaryModel>,
) -> HistoryModel {
    HistoryModel {
        id: hid,
        page: PageModel {
            id: pid,
            url: tab.url,
            title: tab.title,
            favicon_url: tab.favicon_url,
            content_summary: summary,
            keywords: seq![],
            category: None,
            source_type: SourceModel::ClosedTab { history_id: hid },
            browser_info: Some(instance_of_type(tab.browser_type)),
            tab_info: Some(tab),
            bookmark_info: None,
            created_at: tab.created_at,
            last_accessed: closed_at,
            access_count: 0,
        },
        browser_type: tab.browser_type,
        tab_id: Some(tab.id),
        closed_at,
        session_id: Some(sid),
    }
}

/// The cache once `e` is added: the oldest entries leave while there are
/// more than `max`.
pub open spec fn cache_with(cache: Seq<HistoryModel>, e: HistoryModel, max: nat) -> Seq<HistoryModel> {
    let c = cache.push(e);
    if c.len() > max {
        c.skip(c.len() - max)
    } else {
        c
    }
}

/// The summary registered for a URL: the last registration wins.
pub open spec fn summary_for(sums: Seq<(Seq<char>, SummaryModel)>, url: Seq<char>) -> Option<SummaryModel>
    decreases sums.len(),
{
    if sums.len() == 0 {
        None
    } else if sums.last().0 == url {
        Some(sums.last().1)
    } else {
        summary_for(sums.drop_last(), url)
    }
}

/// A content summary registered for a URL.
#[derive(Clone, Debug)]
pub struct UrlSummary {
    pub url: String,
    pub summary: ContentSummary,
}

/// The views of registered summaries.
pub open spec fn summaries_view(v: Seq<UrlSummary>) -> Seq<(Seq<char>, SummaryModel)> {
    v.map_values(|u: UrlSummary| (u.url@, u.summary@))
}

/// The mathematical state of a [`TabHistoryManager`].
pub ghost struct HistoryState {
    pub cache: Seq<HistoryModel>,
    pub summaries: Seq<(Seq<char>, SummaryModel)>,
    pub saves: nat,
}

/// The closed-tab history.
pub struct TabHistoryManager {
    config: TabHistoryManagerConfig,
    history_cache: Vec<HistoryEntry>,
    content_summaries: Vec<UrlSummary>,
    session_saves: usize,
}

impl View for TabHistoryManager {
    type V = HistoryState;

    closed spec fn view(&self) -> HistoryState {
        HistoryState {
            cache: entries_view(self.history_cache@),
            summaries: summaries_view(self.content_summaries@),
            saves: self.session_saves as nat,
        }
    }
}

/// Copies of entries.
pub fn copy_entries(v: &[HistoryEntry]) -> (r: Vec<HistoryEntry>)
    ensures
        entries_view(r@) == entries_view(v@),
{
    let mut r: Vec<HistoryEntry> = Vec::new();
    let mut i: usize = 0;
    while i < v.len()
        invariant
            i <= v@.len(),
            entries_view(r@) == entries_view(v@).take(i as int),
        decreases v@.len() - i,
    {
        let ghost o = entries_view(r@);
        let d = v[i].duplicate();
        r.push(d);
        assert(entries_view(r@) =~= o.push(d@));
        assert(entries_view(v@).take(i as int + 1) =~= entries_view(v@).take(i as int).push(v@[i as int]@));
        i += 1;
    }
    assert(entries_view(v@).take(v@.len() as int) == entries_view(v@));
    r
}

/// Entries newest first.
fn sort_newest_first(v: Vec<HistoryEntry>) -> (r: Vec<HistoryEntry>)
    ensures
        entries_view(r@) == newest_first(entries_view(v@)),
{
    let ghost ev = entries_view(v@);
    let mut keys: Vec<ClosedKey> = Vec::new();
    let mut i: usize = 0;
    while i < v.len()
        invariant
            i <= v@.len(),
            ev == entries_view(v@),
            keys@ == closed_keys(ev).take(i as int),
        decreases v@.len() - i,
    {
        keys.push(ClosedKey { closed_at: v[i].closed_at, idx: i });
        assert(keys@ =~= closed_keys(ev).take(i as int + 1));
        i += 1;
    }
    assert(closed_keys(ev).take(v@.len() as int) == closed_keys(ev));
    let sorted = sort_stable(keys);
    let ghost sk = stable_sorted(closed_keys(ev));
    proof {
        crate::sort::lemma_stable_sorted_len(closed_keys(ev));
        lemma_sorted_closed_keys_idx(ev);
    }
    let mut r: Vec<HistoryEntry> = Vec::new();
    let mut j: usize = 0;
    while j < sorted.len()
        invariant
            j <= sorted@.len(),
            sorted@ == sk,
            ev == entries_view(v@),
            forall|k: int| 0 <= k < sk.len() ==> (#[trigger] sk[k]).idx < ev.len(),
            entries_view(r@) == sk.take(j as int).map_values(|k: ClosedKey| ev[k.idx as int]),
        decreases sorted@.len() - j,
    {
        let ghost o = entries_view(r@);
        assert(sk[j as int].idx < ev.len());
        let d = v[sorted[j].idx].duplicate();
        assert(d@ == ev[sk[j as int].idx as int]);
        r.push(d);
        assert(entries_view(r@) =~= o.push(d@));
        assert(sk.take(j as int + 1) =~= sk.take(j as int).push(sk[j as int]));
        assert(entries_view(r@) =~= sk.take(j as int + 1).map_values(|k: ClosedKey| ev[k.idx as int]));
        j += 1;
    }
    assert(sk.take(sk.len() as int) == sk);
    r
}

/// The keys of a sorted sequence of closed keys point into the entries.
pub proof fn lemma_sorted_closed_keys_idx(ev: Seq<HistoryModel>)
    ensures
        forall|k: int|
            0 <= k < stable_sorted(closed_keys(ev)).len() ==> (#[trigger] stable_sorted(
                closed_keys(ev),
            )[k]).idx < ev.len(),
{
    lemma_sorted_members(closed_keys(ev));
    assert forall|k: int| 0 <= k < stable_sorted(closed_keys(ev)).len() implies (#[trigger] stable_sorted(
        closed_keys(ev),
    )[k]).idx < ev.len() by {
        let x = stable_sorted(closed_keys(ev))[k];
        assert(closed_keys(ev).contains(x));
    }
}


/// Whether a URL is a browser-internal page.
pub fn is_internal_url(url: &str) -> (r: bool)
    ensures
        r == internal_page(url@),
{
    let low = to_lowercase(url);
    let lc = chars_of(&low);
    let prefixes = ["chrome://", "edge://", "about:", "chrome-extension://", "moz-extension://", "file://"];
    assert(prefixes@.map_values(|p: &str| p@) =~= internal_prefixes());
    let mut k: usize = 0;
    while k < 6
        invariant
            k <= 6,
            prefixes@.len() == 6,
            prefixes@.map_values(|p: &str| p@) == internal_prefixes(),
            lc@ == lowercase(url@),
            forall|j: int| 0 <= j < k ==> !starts_with(lowercase(url@), #[trigger] internal_prefixes()[j]),
        decreases 6 - k,
    {
        assert(prefixes@.map_values(|p: &str| p@)[k as int] == prefixes@[k as int]@);
        if crate::content_archiver::starts_with_str(&lc, prefixes[k]) {
            assert(starts_with(lowercase(url@), internal_prefixes()[k as int]));
            return true;
        }
        k += 1;
    }
    false
}

/// Whether `h`, ignoring case, contains `p`.
fn contains_ignoring_case(h: &str, p: &str) -> (r: bool)
    ensures
        r == contains(lowercase(h@), lowercase(p@)),
{
    let hl = to_lowercase(h);
    let pl = to_lowercase(p);
    str_contains(&hl, &pl)
}

/// Whether an entry passes a filter.
pub fn matches_filter(entry: &HistoryEntry, filter: &HistoryFilter) -> (r: bool)
    ensures
        r == filter_accepts(*filter, entry@),
{
    if let Some(b) = filter.browser_type {
        if entry.browser_type != b {
            return false;
        }
    }
    if let Some(from) = filter.from_date {
        if entry.closed_at < from {
            return false;
        }
    }
    if let Some(to) = filter.to_date {
        if entry.closed_at > to {
            return false;
        }
    }
    if let Some(p) = &filter.url_pattern {
        if !contains_ignoring_case(&entry.page_info.url, p) {
            return false;
        }
    }
    if let Some(p) = &filter.title_pattern {
        if !contains_ignoring_case(&entry.page_info.title, p) {
            return false;
        }
    }
    true
}

/// The requested page of `v`.
fn page_of(v: Vec<HistoryEntry>, offset: Option<usize>, limit: Option<usize>) -> (r: Vec<HistoryEntry>)
    ensures
        entries_view(r@) == paged(entries_view(v@), offset, limit),
{
    let ghost ev = entries_view(v@);
    let start = match offset {
        Some(o) => if o < v.len() {
            o
        } else {
            v.len()
        },
        None => 0,
    };
    let avail = v.len() - start;
    let n = match limit {
        Some(l) => if l < avail {
            l
        } else {
            avail
        },
        None => avail,
    };
    let mut r: Vec<HistoryEntry> = Vec::new();
    let mut i: usize = 0;
    let total = v.len();
    while i < n
        invariant
            i <= n,
            start + n <= total,
            total == v@.len(),
            ev == entries_view(v@),
            entries_view(r@) == ev.subrange(start as int, start + i),
        decreases n - i,
    {
        let ghost o = entries_view(r@);
        let d = v[start + i].duplicate();
        r.push(d);
        assert(entries_view(r@) =~= o.push(d@));
        assert(entries_view(r@) =~= ev.subrange(start as int, start + i + 1));
        i += 1;
    }
    assert(entries_view(r@) =~= paged(ev, offset, limit));
    r
}

impl TabHistoryManager {
    /// The settings.
    pub closed spec fn settings(self) -> TabHistoryManagerConfig {
        self.config
    }

    /// A history with default settings and no entries.
    pub fn new() -> (r: Self)
        ensures
            r.settings().max_cache_entries == 1000,
            r.settings().min_tab_lifetime_secs == 5,
            !r.settings().save_internal_pages,
            r@ == (HistoryState { cache: seq![], summaries: seq![], saves: 0 }),
    {
        Self::with_config(TabHistoryManagerConfig::default())
    }

    /// A history with the given settings and no entries.
    pub fn with_config(config: TabHistoryManagerConfig) -> (r: Self)
        ensures
            r.settings() == config,
            r@ == (HistoryState { cache: seq![], summaries: seq![], saves: 0 }),
    {
        let r = TabHistoryManager {
            config,
            history_cache: Vec::new(),
            content_summaries: Vec::new(),
            session_saves: 0,
        };
        assert(entries_view(r.history_cache@) =~= seq![]);
        assert(summaries_view(r.content_summaries@) =~= seq![]);
        r
    }

    /// The settings.
    pub fn config(&self) -> (r: &TabHistoryManagerConfig)
        ensures
            *r == self.settings(),
    {
        &self.config
    }

    /// Whether a tab closed at time `now` is kept.
    pub fn should_save_tab_at(&self, tab: &TabInfo, now: i64) -> (r: bool)
        ensures
            r == keeps_tab(self.settings(), tab@, now),
    {
        if tab.is_private {
            return false;
        }
        if !self.config.save_internal_pages && is_internal_url(&tab.url) {
            return false;
        }
        let d: i128 = now as i128 - tab.created_at as i128;
        let secs: i128 = if d >= 0 {
            d / 1000
        } else {
            -((-d) / 1000)
        };
        secs >= (self.config.min_tab_lifetime_secs as i64) as i128
    }

    /// Whether a tab closed now is kept.
    pub fn should_save_tab(&self, tab: &TabInfo) -> (r: bool)
        ensures
            exists|now: i64| r == #[trigger] keeps_tab(self.settings(), tab@, now),
    {
        let now = crate::platform::now_millis();
        self.should_save_tab_at(tab, now)
    }

    /// Whether a URL is a browser-internal page.
    pub fn is_internal_page(&self, url: &str) -> (r: bool)
        ensures
            r == internal_page(url@),
    {
        is_internal_url(url)
    }

    fn find_summary(&self, url: &str) -> (r: Option<ContentSummary>)
        ensures
            opt_model(r) == summary_for(self@.summaries, url@),
    {
        let ghost sv = summaries_view(self.content_summaries@);
        let mut i = self.content_summaries.len();
        assert(sv.take(i as int) == sv);
        while i > 0
            invariant
                i <= self.content_summaries@.len(),
                sv == summaries_view(self.content_summaries@),
                sv == self@.summaries,
                summary_for(sv, url@) == summary_for(sv.take(i as int), url@),
            decreases i,
        {
            assert(sv.take(i as int).drop_last() == sv.take(i as int - 1));
            assert(sv.take(i as int).last() == (self.content_summaries@[i - 1].url@, self.content_summaries@[i - 1].summary@));
            if str_eq(&self.content_summaries[i - 1].url, url) {
                return Some(self.content_summaries[i - 1].summary.duplicate());
            }
            i -= 1;
        }
        None
    }

    /// Keeps a tab closed at `close_time` as entry `history_id`, its page
    /// named `page_id` and its session `session_id`, with the summary
    /// registered for its URL; returns the entry's id.
    pub fn save_closed_tab_with_ids(
        &mut self,
        tab: TabInfo,
        close_time: i64,
        history_id: String,
        page_id: u128,
        session_id: String,
    ) -> (r: String)
        ensures
            r@ == history_id@,
            final(self).settings() == old(self).settings(),
            final(self)@ == (HistoryState {
                cache: cache_with(
                    old(self)@.cache,
                    closed_entry(
                        tab@,
                        close_time,
                        history_id@,
                        page_id,
                        session_id@,
                        summary_for(old(self)@.summaries, tab@.url),
                    ),
                    old(self).settings().max_cache_entries as nat,
                ),
                saves: if old(self)@.saves < usize::MAX {
                    old(self)@.saves + 1
                } else {
                    old(self)@.saves
                },
                ..old(self)@
            }),
    {
        let summary = self.find_summary(&tab.url);
        let page_info = UnifiedPageInfo {
            id: page_id,
            url: copy_string(&tab.url),
            title: copy_string(&tab.title),
            favicon_url: copy_opt_string(&tab.favicon_url),
            content_summary: summary,
            keywords: Vec::new(),
            category: None,
            source_type: PageSourceType::ClosedTab { history_id: copy_string(&history_id) },
            browser_info: Some(
                BrowserInstance {
                    browser_type: tab.browser_type,
                    version: String::new(),
                    process_id: 0,
                    debug_port: None,
                    profile_path: None,
                },
            ),
            tab_info: Some(tab.duplicate()),
            bookmark_info: None,
            created_at: tab.created_at,
            last_accessed: close_time,
            access_count: 0,
        };
        assert(crate::text::strings_view(page_info.keywords@) =~= seq![]);
        let entry = HistoryEntry {
            id: copy_string(&history_id),
            page_info,
            browser_type: tab.browser_type,
            tab_id: Some(copy_string(&tab.id)),
            closed_at: close_time,
            session_info: Some(
                SessionInfo { session_id, window_id: None, tab_index: None, scroll_position: None },
            ),
        };
        let ghost ev = entry@;
        let ghost oc = entries_view(self.history_cache@);
        self.history_cache.push(entry);
        assert(entries_view(self.history_cache@) =~= oc.push(ev));
        let max = self.config.max_cache_entries;
        if self.history_cache.len() > max {
            let drop = self.history_cache.len() - max;
            let mut kept: Vec<HistoryEntry> = Vec::new();
            let mut i = drop;
            let ghost cv = entries_view(self.history_cache@);
            while i < self.history_cache.len()
                invariant
                    drop <= i <= self.history_cache@.len(),
                    cv == entries_view(self.history_cache@),
                    entries_view(kept@) == cv.subrange(drop as int, i as int),
                decreases self.history_cache@.len() - i,
            {
                let ghost o = entries_view(kept@);
                let d = self.history_cache[i].duplicate();
                kept.push(d);
                assert(entries_view(kept@) =~= o.push(d@));
                assert(entries_view(kept@) =~= cv.subrange(drop as int, i + 1));
                i += 1;
            }
            assert(cv.subrange(drop as int, cv.len() as int) == cv.skip(drop as int));
            self.history_cache = kept;
        }
        if self.session_saves < usize::MAX {
            self.session_saves = self.session_saves + 1;
        }
        history_id
    }

    /// Keeps a tab closed at `close_time`, with fresh identifiers.
    pub fn save_closed_tab(&mut self, tab: TabInfo, close_time: i64) -> (r: String)
        ensures
            final(self).settings() == old(self).settings(),
            exists|page_id: u128, session_id: Seq<char>|
                final(self)@ == (HistoryState {
                    cache: cache_with(
                        old(self)@.cache,
                        #[trigger] closed_entry(
                            tab@,
                            close_time,
                            r@,
                            page_id,
                            session_id,
                            summary_for(old(self)@.summaries, tab@.url),
                        ),
                        old(self).settings().max_cache_entries as nat,
                    ),
                    saves: if old(self)@.saves < usize::MAX {
                        old(self)@.saves + 1
                    } else {
                        old(self)@.saves
                    },
                    ..old(self)@
                }),
    {
        let hid = crate::platform::new_id_string();
        let pid = crate::platform::new_uuid();
        let sid = crate::platform::new_id_string();
        self.save_closed_tab_with_ids(tab, close_time, hid, pid, sid)
    }

    /// Registers the summary of a page, used for tabs later closed on it.
    pub fn register_content_summary(&mut self, url: &str, summary: ContentSummary)
        ensures
            final(self).settings() == old(self).settings(),
            final(self)@ == (HistoryState {
                summaries: old(self)@.summaries.push((url@, summary@)),
                ..old(self)@
            }),
    {
        let ghost o = summaries_view(self.content_summaries@);
        let ghost sv = summary@;
        self.content_summaries.push(UrlSummary { url: string_from_chars(&chars_of(url)), summary });
        assert(summaries_view(self.content_summaries@) =~= o.push((url@, sv)));
    }

    /// The entries that pass a filter, newest first, then the requested page.
    pub fn get_history(&self, filter: &HistoryFilter) -> (r: Vec<HistoryEntry>)
        ensures
            entries_view(r@) == history_query(self@.cache, *filter),
    {
        let ghost cv = entries_view(self.history_cache@);
        let mut kept: Vec<HistoryEntry> = Vec::new();
        let mut i: usize = 0;
        proof {
            reveal(Seq::filter);
        }
        assert(cv.take(0) =~= Seq::<HistoryModel>::empty());
        while i < self.history_cache.len()
            invariant
                i <= self.history_cache@.len(),
                cv == entries_view(self.history_cache@),
                entries_view(kept@) == cv.take(i as int).filter(
                    |e: HistoryModel| filter_accepts(*filter, e),
                ),
            decreases self.history_cache@.len() - i,
        {
            let x = &self.history_cache[i];
            assert(cv.take(i as int + 1) == cv.take(i as int).push(x@));
            proof {
                cv.take(i as int).lemma_filter_push(x@, |e: HistoryModel| filter_accepts(*filter, e));
            }
            if matches_filter(x, filter) {
                let ghost o = entries_view(kept@);
                let d = x.duplicate();
                kept.push(d);
                assert(entries_view(kept@) =~= o.push(x@));
            }
            i += 1;
        }
        assert(cv.take(cv.len() as int) == cv);
        let sorted = sort_newest_first(kept);
        page_of(sorted, filter.offset, filter.limit)
    }

    /// The first entry with an id.
    pub fn get_by_id(&self, id: &str) -> (r: Option<HistoryEntry>)
        ensures
            match r {
                Some(e) => exists|k: int|
                    0 <= k < self@.cache.len() && self@.cache[k] == e@ && e@.id == id@ && forall|
                        j: int,
                    | 0 <= j < k ==> (#[trigger] self@.cache[j]).id != id@,
                None => forall|j: int| 0 <= j < self@.cache.len() ==> (#[trigger] self@.cache[j]).id != id@,
            },
    {
        let mut i: usize = 0;
        while i < self.history_cache.len()
            invariant
                i <= self.history_cache@.len(),
                forall|j: int| 0 <= j < i ==> (#[trigger] self@.cache[j]).id != id@,
            decreases self.history_cache@.len() - i,
        {
            assert(self@.cache[i as int] == self.history_cache@[i as int]@);
            if str_eq(&self.history_cache[i].id, id) {
                return Some(self.history_cache[i].duplicate());
            }
            i += 1;
        }
        None
    }

    /// The `count` most recently closed entries.
    pub fn get_recent(&self, count: usize) -> (r: Vec<HistoryEntry>)
        ensures
            entries_view(r@) == history_query(
                self@.cache,
                HistoryFilter { limit: Some(count), ..HistoryFilter::spec_new() },
            ),
    {
        let mut f = HistoryFilter::new();
        f.limit = Some(count);
        self.get_history(&f)
    }
}

impl HistoryFilter {
    /// A filter that keeps everything.
    pub open spec fn spec_new() -> HistoryFilter {
        HistoryFilter {
            browser_type: None,
            from_date: None,
            to_date: None,
            url_pattern: None,
            title_pattern: None,
            limit: None,
            offset: None,
        }
    }
}

/// Whether an entry matches a text query: its title, URL, summary or a
/// keyword contains the query, ignoring case.
pub open spec fn query_matches(e: HistoryModel, q: Seq<char>) -> bool {
    let ql = lowercase(q);
    ||| contains(lowercase(e.page.title), ql)
    ||| contains(lowercase(e.page.url), ql)
    ||| (e.page.content_summary matches Some(s) && contains(lowercase(s.summary_text), ql))
    ||| exists|k: int|
        0 <= k < e.page.keywords.len() && contains(lowercase(#[trigger] e.page.keywords[k]), ql)
}

/// Sorts search results: title matches first, then newest first.
pub struct SearchKey {
    pub title_match: bool,
    pub closed_at: i64,
    pub idx: usize,
}

impl Precedes for SearchKey {
    open spec fn precedes(&self, other: &Self) -> bool {
        (self.title_match && !other.title_match) || (self.title_match == other.title_match
            && self.closed_at > other.closed_at)
    }

    fn precedes_exec(&self, other: &Self) -> (r: bool) {
        (self.title_match && !other.title_match) || (self.title_match == other.title_match
            && self.closed_at > other.closed_at)
    }
}

/// The keys of search results.
pub open spec fn search_keys(es: Seq<HistoryModel>, q: Seq<char>) -> Seq<SearchKey> {
    Seq::new(
        es.len(),
        |i: int|
            SearchKey {
                title_match: contains(lowercase(es[i].page.title), lowercase(q)),
                closed_at: es[i].closed_at,
                idx: i as usize,
            },
    )
}

/// The result of a text search: the matching entries, title matches first
/// and newest first, cut to `limit`.
pub open spec fn search_result(cache: Seq<HistoryModel>, q: Seq<char>, limit: usize) -> Seq<HistoryModel> {
    let m = cache.filter(|e: HistoryModel| query_matches(e, q));
    let sorted = stable_sorted(search_keys(m, q)).map_values(|k: SearchKey| m[k.idx as int]);
    if limit < sorted.len() {
        sorted.take(limit as int)
    } else {
        sorted
    }
}

/// In a text search's result, every entry whose title contains the query
/// (ignoring case) comes before every entry whose title does not; among
/// entries alike in that, newer ones come first. Every entry returned
/// matches the query.
pub proof fn law_history_search_title_matches_first(cache: Seq<HistoryModel>, q: Seq<char>, limit: usize)
    requires
        cache.len() <= usize::MAX,
    ensures
        forall|i: int, j: int|
            #![trigger search_result(cache, q, limit)[i], search_result(cache, q, limit)[j]]
            0 <= i < j < search_result(cache, q, limit).len() ==> {
                let r = search_result(cache, q, limit);
                let ti = contains(lowercase(r[i].page.title), lowercase(q));
                let tj = contains(lowercase(r[j].page.title), lowercase(q));
                &&& tj ==> ti
                &&& ti == tj ==> r[i].closed_at >= r[j].closed_at
            },
        forall|i: int|
            0 <= i < search_result(cache, q, limit).len() ==> query_matches(
                #[trigger] search_result(cache, q, limit)[i],
                q,
            ),
{
    let pm = |e: HistoryModel| query_matches(e, q);
    let m = cache.filter(pm);
    let ks = search_keys(m, q);
    let t = stable_sorted(ks);
    let f = |k: SearchKey| m[k.idx as int];
    let sorted = t.map_values(f);
    cache.lemma_filter_len(pm);
    crate::sort::lemma_stable_sorted_len(ks);
    crate::sort::lemma_stable_sorted_sorted(ks);
    lemma_sorted_members(ks);
    assert forall|i: int| 0 <= i < t.len() implies 0 <= (#[trigger] t[i]).idx < m.len() && t[i] == ks[
        t[i].idx as int] by {
        assert(ks.contains(t[i]));
        let w = choose|w: int| 0 <= w < ks.len() && ks[w] == t[i];
        assert(ks[w].idx == w);
    }
    let r = search_result(cache, q, limit);
    assert forall|i: int, j: int|
        #![trigger r[i], r[j]]
        0 <= i < j < r.len() implies ({
            let ti = contains(lowercase(r[i].page.title), lowercase(q));
            let tj = contains(lowercase(r[j].page.title), lowercase(q));
            &&& tj ==> ti
            &&& ti == tj ==> r[i].closed_at >= r[j].closed_at
        }) by {
        assert(r[i] == sorted[i]);
        assert(r[j] == sorted[j]);
        assert(sorted[i] == m[t[i].idx as int]);
        assert(sorted[j] == m[t[j].idx as int]);
        assert(t[i] == ks[t[i].idx as int]);
        assert(t[j] == ks[t[j].idx as int]);
        assert(!t[j].precedes(&t[i]));
    }
    assert forall|i: int| 0 <= i < r.len() implies query_matches(#[trigger] r[i], q) by {
        assert(r[i] == sorted[i]);
        assert(sorted[i] == m[t[i].idx as int]);
        cache.lemma_filter_pred(pm, t[i].idx as int);
    }
}

/// Whether an entry matches a text query.
fn entry_matches_query(e: &HistoryEntry, ql: &str) -> (r: bool)
    ensures
        r == (contains(lowercase(e@.page.title), ql@) || contains(lowercase(e@.page.url), ql@) || (
        e@.page.content_summary matches Some(s) && contains(lowercase(s.summary_text), ql@))
            || exists|k: int|
            0 <= k < e@.page.keywords.len() && contains(lowercase(#[trigger] e@.page.keywords[k]), ql@)),
{
    if str_contains(&to_lowercase(&e.page_info.title), ql) {
        return true;
    }
    if str_contains(&to_lowercase(&e.page_info.url), ql) {
        return true;
    }
    if let Some(s) = &e.page_info.content_summary {
        if str_contains(&to_lowercase(&s.summary_text), ql) {
            return true;
        }
    }
    let kws = &e.page_info.keywords;
    let mut k: usize = 0;
    while k < kws.len()
        invariant
            k <= kws@.len(),
            e@.page.keywords == crate::text::strings_view(kws@),
            forall|j: int| 0 <= j < k ==> !contains(lowercase(#[trigger] e@.page.keywords[j]), ql@),
        decreases kws@.len() - k,
    {
        assert(e@.page.keywords[k as int] == kws@[k as int]@);
        if str_contains(&to_lowercase(&kws[k]), ql) {
            return true;
        }
        k += 1;
    }
    false
}

/// A browser and how many entries it has.
#[derive(Clone, Copy, Debug)]
pub struct BrowserCount {
    pub browser_type: BrowserType,
    pub count: usize,
}

/// Counts describing the history.
#[derive(Clone, Debug)]
pub struct HistoryManagerStats {
    pub cached_entries: usize,
    /// For each browser with entries, in order of its first entry.
    pub entries_by_browser: Vec<BrowserCount>,
    pub session_saves: usize,
    pub session_restores: usize,
    pub oldest_entry: Option<i64>,
    pub newest_entry: Option<i64>,
}

/// The number of entries of a browser.
pub open spec fn browser_entries(cache: Seq<HistoryModel>, b: BrowserType) -> nat {
    cache.filter(|e: HistoryModel| e.browser_type == b).len()
}

/// The browsers of the entries, each once, in order of their first entry.
pub open spec fn browsers_in(cache: Seq<HistoryModel>) -> Seq<BrowserType>
    decreases cache.len(),
{
    if cache.len() == 0 {
        seq![]
    } else {
        let d = browsers_in(cache.drop_last());
        if d.contains(cache.last().browser_type) {
            d
        } else {
            d.push(cache.last().browser_type)
        }
    }
}

/// Where an entry's URL is hosted, as the `url` crate parses it, or
/// `unknown`.
pub open spec fn host_of(url: Seq<char>) -> Seq<char> {
    match crate::platform::parsed_url(url) {
        Some(m) => match m.1 {
            Some(h) => h,
            None => "unknown"@,
        },
        None => "unknown"@,
    }
}

/// The host of a URL, or `unknown`.
pub fn host_or_unknown(url: &str) -> (r: String)
    ensures
        r@ == host_of(url@),
{
    match crate::platform::parse_url_parts(url) {
        Some(p) => match p.host {
            Some(h) => h,
            None => "unknown".to_string(),
        },
        None => "unknown".to_string(),
    }
}

/// The importance of an entry, as a fraction `num / den` (`den > 0`), or
/// unbounded: 3/10 for a summary, 2/10 for keywords, and 1/2 over one plus a
/// 24th of its age in whole hours.
pub open spec fn importance(e: HistoryModel, now: i64) -> (bool, int, int) {
    let h = {
        let d = now - e.closed_at;
        if d >= 0 {
            d / 3_600_000
        } else {
            -((-d) / 3_600_000)
        }
    };
    let base = (if e.page.content_summary is Some {
        3int
    } else {
        0int
    }) + (if e.page.keywords.len() > 0 {
        2int
    } else {
        0int
    });
    let d = 24 + h;
    if d == 0 {
        (false, 1, 1)
    } else if d > 0 {
        (true, base * d + 120, 10 * d)
    } else {
        (true, -(base * d + 120), -10 * d)
    }
}

/// Whether importance `a` exceeds importance `b`.
pub open spec fn importance_gt(a: (bool, int, int), b: (bool, int, int)) -> bool {
    if !a.0 {
        b.0
    } else if !b.0 {
        false
    } else {
        a.1 * b.2 > b.1 * a.2
    }
}

/// Sorts entries by importance, highest first.
pub struct ImportanceKey {
    pub finite: bool,
    pub num: i64,
    pub den: i64,
    pub idx: usize,
}

impl Precedes for ImportanceKey {
    open spec fn precedes(&self, other: &Self) -> bool {
        importance_gt((self.finite, self.num as int, self.den as int), (other.finite, other.num as int, other.den as int))
    }

    fn precedes_exec(&self, other: &Self) -> (r: bool) {
        if !self.finite {
            other.finite
        } else if !other.finite {
            false
        } else {
            let a = self.num as i128;
            let b = other.den as i128;
            let c = other.num as i128;
            let d = self.den as i128;
            assert(-0x4000_0000_0000_0000_0000_0000_0000_0000 <= a * b <= 0x4000_0000_0000_0000_0000_0000_0000_0000)
                by (nonlinear_arith)
                requires
                    -0x8000_0000_0000_0000 <= a <= 0x7fff_ffff_ffff_ffff,
                    -0x8000_0000_0000_0000 <= b <= 0x7fff_ffff_ffff_ffff,
            ;
            assert(-0x4000_0000_0000_0000_0000_0000_0000_0000 <= c * d <= 0x4000_0000_0000_0000_0000_0000_0000_0000)
                by (nonlinear_arith)
                requires
                    -0x8000_0000_0000_0000 <= c <= 0x7fff_ffff_ffff_ffff,
                    -0x8000_0000_0000_0000 <= d <= 0x7fff_ffff_ffff_ffff,
            ;
            a * b > c * d
        }
    }
}

/// The keys that sort entries by importance at time `now`.
pub open spec fn importance_keys(es: Seq<HistoryModel>, now: i64) -> Seq<ImportanceKey> {
    Seq::new(
        es.len(),
        |i: int|
            ImportanceKey {
                finite: importance(es[i], now).0,
                num: importance(es[i], now).1 as i64,
                den: importance(es[i], now).2 as i64,
                idx: i as usize,
            },
    )
}

/// Entries by importance at `now`, most important first; ties keep order.
pub open spec fn most_important_first(es: Seq<HistoryModel>, now: i64) -> Seq<HistoryModel> {
    stable_sorted(importance_keys(es, now)).map_values(|k: ImportanceKey| es[k.idx as int])
}

/// The cache after a retention policy at `now`, and how many entries left:
/// entries closed before the cutoff leave; then, where more than the maximum
/// remain, only that many are kept: the most important where the policy
/// preserves important entries, else the most recently closed. The kept
/// entries come in that order.
pub open spec fn retained(cache: Seq<HistoryModel>, policy: RetentionPolicy, now: i64) -> (
    Seq<HistoryModel>,
    int,
) {
    let cutoff = now - policy.max_age_days * 86_400_000;
    let c1 = cache.filter(|e: HistoryModel| e.closed_at >= cutoff);
    let d1 = cache.len() - c1.len();
    if c1.len() > policy.max_entries {
        let ordered = if policy.preserve_important {
            most_important_first(c1, now)
        } else {
            newest_first(c1)
        };
        (ordered.take(policy.max_entries as int), d1 + c1.len() - policy.max_entries)
    } else {
        (c1, d1)
    }
}

/// A domain and the entries hosted there.
#[derive(Clone, Debug)]
pub struct DomainEntries {
    pub domain: String,
    pub entries: Vec<HistoryEntry>,
}

/// A domain and how many entries are hosted there.
#[derive(Clone, Debug)]
pub struct DomainCount {
    pub domain: String,
    pub count: usize,
}

/// The hosts of the entries, each once, in order of their first entry.
pub open spec fn hosts_in(cache: Seq<HistoryModel>) -> Seq<Seq<char>>
    decreases cache.len(),
{
    if cache.len() == 0 {
        seq![]
    } else {
        let d = hosts_in(cache.drop_last());
        let h = host_of(cache.last().page.url);
        if d.contains(h) {
            d
        } else {
            d.push(h)
        }
    }
}

/// The entries hosted at `h`.
pub open spec fn hosted_at(cache: Seq<HistoryModel>, h: Seq<char>) -> Seq<HistoryModel> {
    cache.filter(|e: HistoryModel| host_of(e.page.url) == h)
}

/// Sorts domains by entry count, highest first.
pub struct CountKey {
    pub count: usize,
    pub idx: usize,
}

impl Precedes for CountKey {
    open spec fn precedes(&self, other: &Self) -> bool {
        self.count > other.count
    }

    fn precedes_exec(&self, other: &Self) -> (r: bool) {
        self.count > other.count
    }
}

impl TabHistoryManager {
    /// The entries of a browser, newest first.
    pub fn get_by_browser(&self, browser_type: BrowserType) -> (r: Vec<HistoryEntry>)
        ensures
            entries_view(r@) == history_query(
                self@.cache,
                HistoryFilter { browser_type: Some(browser_type), ..HistoryFilter::spec_new() },
            ),
    {
        let mut f = HistoryFilter::new();
        f.browser_type = Some(browser_type);
        self.get_history(&f)
    }

    /// The entries closed from `from` to `to`, newest first.
    pub fn get_in_time_range(&self, from: i64, to: i64) -> (r: Vec<HistoryEntry>)
        ensures
            entries_view(r@) == history_query(
                self@.cache,
                HistoryFilter { from_date: Some(from), to_date: Some(to), ..HistoryFilter::spec_new() },
            ),
    {
        let mut f = HistoryFilter::new();
        f.from_date = Some(from);
        f.to_date = Some(to);
        self.get_history(&f)
    }

    /// The entries closed at most `within_minutes` before `now`.
    pub fn get_recently_closed_at(&self, within_minutes: i64, now: i64) -> (r: Vec<HistoryEntry>)
        requires
            i64::MIN <= now - within_minutes * 60_000 <= i64::MAX,
        ensures
            entries_view(r@) == history_query(
                self@.cache,
                HistoryFilter {
                    from_date: Some((now - within_minutes * 60_000) as i64),
                    ..HistoryFilter::spec_new()
                },
            ),
    {
        let cutoff = (now as i128 - within_minutes as i128 * 60_000) as i64;
        let mut f = HistoryFilter::new();
        f.from_date = Some(cutoff);
        self.get_history(&f)
    }

    /// The entries that match a text query: title matches first, then newest
    /// first, at most `limit`.
    pub fn search(&self, query: &str, limit: usize) -> (r: Vec<HistoryEntry>)
        ensures
            entries_view(r@) == search_result(self@.cache, query@, limit),
    {
        let ql = to_lowercase(query);
        let ghost cv = entries_view(self.history_cache@);
        let ghost p = |e: HistoryModel| query_matches(e, query@);
        let mut kept: Vec<HistoryEntry> = Vec::new();
        let mut i: usize = 0;
        proof {
            reveal(Seq::filter);
        }
        assert(cv.take(0) =~= Seq::<HistoryModel>::empty());
        while i < self.history_cache.len()
            invariant
                i <= self.history_cache@.len(),
                cv == entries_view(self.history_cache@),
                ql@ == lowercase(query@),
                p == |e: HistoryModel| query_matches(e, query@),
                entries_view(kept@) == cv.take(i as int).filter(p),
            decreases self.history_cache@.len() - i,
        {
            let x = &self.history_cache[i];
            assert(cv.take(i as int + 1) == cv.take(i as int).push(x@));
            proof {
                cv.take(i as int).lemma_filter_push(x@, p);
            }
            if entry_matches_query(x, &ql) {
                let ghost o = entries_view(kept@);
                let d = x.duplicate();
                kept.push(d);
                assert(entries_view(kept@) =~= o.push(x@));
            }
            i += 1;
        }
        assert(cv.take(cv.len() as int) == cv);
        let ghost m = entries_view(kept@);
        let mut keys: Vec<SearchKey> = Vec::new();
        let mut j: usize = 0;
        while j < kept.len()
            invariant
                j <= kept@.len(),
                m == entries_view(kept@),
                ql@ == lowercase(query@),
                keys@ == search_keys(m, query@).take(j as int),
            decreases kept@.len() - j,
        {
            let tm = str_contains(&to_lowercase(&kept[j].page_info.title), &ql);
            keys.push(SearchKey { title_match: tm, closed_at: kept[j].closed_at, idx: j });
            assert(keys@ =~= search_keys(m, query@).take(j as int + 1));
            j += 1;
        }
        assert(search_keys(m, query@).take(kept@.len() as int) == search_keys(m, query@));
        let sorted = sort_stable(keys);
        let ghost sk = stable_sorted(search_keys(m, query@));
        proof {
            crate::sort::lemma_stable_sorted_len(search_keys(m, query@));
            lemma_sorted_members(search_keys(m, query@));
            assert forall|k: int| 0 <= k < sk.len() implies (#[trigger] sk[k]).idx < m.len() by {
                assert(search_keys(m, query@).contains(sk[k]));
            }
        }
        let n = if limit < sorted.len() {
            limit
        } else {
            sorted.len()
        };
        let mut r: Vec<HistoryEntry> = Vec::new();
        let mut t: usize = 0;
        while t < n
            invariant
                t <= n,
                n <= sorted@.len(),
                sorted@ == sk,
                m == entries_view(kept@),
                forall|k: int| 0 <= k < sk.len() ==> (#[trigger] sk[k]).idx < m.len(),
                entries_view(r@) == sk.take(t as int).map_values(|k: SearchKey| m[k.idx as int]),
            decreases n - t,
        {
            let ghost o = entries_view(r@);
            assert(sk[t as int].idx < m.len());
            let d = kept[sorted[t].idx].duplicate();
            r.push(d);
            assert(entries_view(r@) =~= o.push(d@));
            assert(sk.take(t as int + 1) =~= sk.take(t as int).push(sk[t as int]));
            assert(entries_view(r@) =~= sk.take(t as int + 1).map_values(|k: SearchKey| m[k.idx as int]));
            t += 1;
        }
        proof {
            let full = sk.map_values(|k: SearchKey| m[k.idx as int]);
            assert(sk.take(n as int).map_values(|k: SearchKey| m[k.idx as int]) =~= if limit
                < full.len() {
                full.take(limit as int)
            } else {
                full
            });
        }
        r
    }

    /// The number of entries that pass a filter (its page bounds aside).
    pub fn count(&self, filter: &HistoryFilter) -> (r: usize)
        ensures
            r == self@.cache.filter(|e: HistoryModel| filter_accepts(*filter, e)).len(),
    {
        let ghost cv = entries_view(self.history_cache@);
        let mut n: usize = 0;
        let mut i: usize = 0;
        proof {
            reveal(Seq::filter);
        }
        assert(cv.take(0) =~= Seq::<HistoryModel>::empty());
        while i < self.history_cache.len()
            invariant
                i <= self.history_cache@.len(),
                cv == entries_view(self.history_cache@),
                n == cv.take(i as int).filter(|e: HistoryModel| filter_accepts(*filter, e)).len(),
                n <= i,
            decreases self.history_cache@.len() - i,
        {
            let x = &self.history_cache[i];
            assert(cv.take(i as int + 1) == cv.take(i as int).push(x@));
            proof {
                cv.take(i as int).lemma_filter_push(x@, |e: HistoryModel| filter_accepts(*filter, e));
            }
            if matches_filter(x, filter) {
                n += 1;
            }
            i += 1;
        }
        assert(cv.take(cv.len() as int) == cv);
        n
    }

    /// The number of entries.
    pub fn total_count(&self) -> (r: usize)
        ensures
            r == self@.cache.len(),
    {
        self.history_cache.len()
    }

    /// Keeps only the entries for which `keep` holds of their position.
    fn retain_entries(&mut self, drop_id: Option<&str>, cutoff: Option<i128>) -> (r: usize)
        requires
            drop_id is Some != cutoff is Some,
        ensures
            final(self).settings() == old(self).settings(),
            final(self)@.summaries == old(self)@.summaries,
            final(self)@.saves == old(self)@.saves,
            drop_id matches Some(id) ==> final(self)@.cache == old(self)@.cache.filter(
                |e: HistoryModel| e.id != id@,
            ),
            cutoff matches Some(c) ==> final(self)@.cache == old(self)@.cache.filter(
                |e: HistoryModel| e.closed_at >= c,
            ),
            r == old(self)@.cache.len() - final(self)@.cache.len(),
    {
        let ghost cv = entries_view(self.history_cache@);
        let ghost p = |e: HistoryModel|
            match drop_id {
                Some(id) => e.id != id@,
                None => e.closed_at >= cutoff->0,
            };
        let mut kept: Vec<HistoryEntry> = Vec::new();
        let mut i: usize = 0;
        proof {
            reveal(Seq::filter);
        }
        assert(cv.take(0) =~= Seq::<HistoryModel>::empty());
        while i < self.history_cache.len()
            invariant
                i <= self.history_cache@.len(),
                cv == entries_view(self.history_cache@),
                drop_id is Some != cutoff is Some,
                p == |e: HistoryModel|
                    match drop_id {
                        Some(id) => e.id != id@,
                        None => e.closed_at >= cutoff->0,
                    },
                entries_view(kept@) == cv.take(i as int).filter(p),
            decreases self.history_cache@.len() - i,
        {
            let x = &self.history_cache[i];
            assert(cv.take(i as int + 1) == cv.take(i as int).push(x@));
            proof {
                cv.take(i as int).lemma_filter_push(x@, p);
            }
            let keep = match drop_id {
                Some(id) => !str_eq(&x.id, id),
                None => (x.closed_at as i128) >= cutoff.unwrap(),
            };
            if keep {
                let ghost o = entries_view(kept@);
                let d = x.duplicate();
                kept.push(d);
                assert(entries_view(kept@) =~= o.push(x@));
            }
            i += 1;
        }
        assert(cv.take(cv.len() as int) == cv);
        proof {
            cv.lemma_filter_len(p);
            if let Some(id) = drop_id {
                assert(p =~= |e: HistoryModel| e.id != id@);
            } else {
                assert(p =~= |e: HistoryModel| e.closed_at >= cutoff->0);
            }
        }
        let before = self.history_cache.len();
        let after = kept.len();
        self.history_cache = kept;
        before - after
    }

    /// Removes the entries with an id; whether there were any.
    pub fn delete(&mut self, id: &str) -> (r: bool)
        ensures
            final(self).settings() == old(self).settings(),
            final(self)@ == (HistoryState {
                cache: without_id(old(self)@.cache, id@),
                ..old(self)@
            }),
            r == (final(self)@.cache.len() < old(self)@.cache.len()),
    {
        let n = self.retain_entries(Some(id), None);
        proof {
            old(self)@.cache.lemma_filter_len(|e: HistoryModel| e.id != id@);
        }
        n > 0
    }

    /// Removes the entries closed before `timestamp`; how many left.
    pub fn delete_older_than(&mut self, timestamp: i64) -> (r: usize)
        ensures
            final(self).settings() == old(self).settings(),
            final(self)@ == (HistoryState {
                cache: old(self)@.cache.filter(|e: HistoryModel| e.closed_at >= timestamp),
                ..old(self)@
            }),
            r == old(self)@.cache.len() - final(self)@.cache.len(),
    {
        let r = self.retain_entries(None, Some(timestamp as i128));
        assert(old(self)@.cache.filter(|e: HistoryModel| e.closed_at >= timestamp as i128)
            =~= old(self)@.cache.filter(|e: HistoryModel| e.closed_at >= timestamp));
        r
    }

    /// Removes all entries.
    pub fn clear(&mut self)
        ensures
            final(self).settings() == old(self).settings(),
            final(self)@ == (HistoryState { cache: seq![], ..old(self)@ }),
    {
        self.history_cache = Vec::new();
        assert(entries_view(self.history_cache@) =~= seq![]);
    }
}

/// The importance key of an entry at `now`.
fn importance_key(e: &HistoryEntry, now: i64, idx: usize) -> (r: ImportanceKey)
    ensures
        r.finite == importance(e@, now).0,
        r.num as int == importance(e@, now).1,
        r.den as int == importance(e@, now).2,
        r.idx == idx,
{
    let d: i128 = now as i128 - e.closed_at as i128;
    let h: i128 = if d >= 0 {
        d / 3_600_000
    } else {
        -((-d) / 3_600_000)
    };
    assert(-0x1_0000_0000_0000_0000 <= d <= 0x1_0000_0000_0000_0000);
    assert(-6_000_000_000_000 <= h <= 6_000_000_000_000);
    let base: i128 = (if e.page_info.content_summary.is_some() {
        3
    } else {
        0
    }) + (if e.page_info.keywords.len() > 0 {
        2
    } else {
        0
    });
    let dd = 24 + h;
    if dd == 0 {
        ImportanceKey { finite: false, num: 1, den: 1, idx }
    } else if dd > 0 {
        assert(0 <= base * dd <= 5 * 6_000_000_000_024) by (nonlinear_arith)
            requires
                0 <= base <= 5,
                0 < dd <= 6_000_000_000_024,
        ;
        ImportanceKey { finite: true, num: (base * dd + 120) as i64, den: (10 * dd) as i64, idx }
    } else {
        assert(-5 * 6_000_000_000_024 <= base * dd <= 0) by (nonlinear_arith)
            requires
                0 <= base <= 5,
                -6_000_000_000_024 <= dd < 0,
        ;
        ImportanceKey { finite: true, num: (-(base * dd + 120)) as i64, den: (-10 * dd) as i64, idx }
    }
}

/// Entries by importance at `now`.
fn sort_by_importance(v: Vec<HistoryEntry>, now: i64) -> (r: Vec<HistoryEntry>)
    ensures
        entries_view(r@) == most_important_first(entries_view(v@), now),
{
    let ghost ev = entries_view(v@);
    let mut keys: Vec<ImportanceKey> = Vec::new();
    let mut i: usize = 0;
    while i < v.len()
        invariant
            i <= v@.len(),
            ev == entries_view(v@),
            keys@ == importance_keys(ev, now).take(i as int),
        decreases v@.len() - i,
    {
        keys.push(importance_key(&v[i], now, i));
        assert(keys@ =~= importance_keys(ev, now).take(i as int + 1));
        i += 1;
    }
    assert(importance_keys(ev, now).take(v@.len() as int) == importance_keys(ev, now));
    let sorted = sort_stable(keys);
    let ghost sk = stable_sorted(importance_keys(ev, now));
    proof {
        crate::sort::lemma_stable_sorted_len(importance_keys(ev, now));
        lemma_sorted_members(importance_keys(ev, now));
        assert forall|k: int| 0 <= k < sk.len() implies (#[trigger] sk[k]).idx < ev.len() by {
            assert(importance_keys(ev, now).contains(sk[k]));
        }
    }
    let mut r: Vec<HistoryEntry> = Vec::new();
    let mut j: usize = 0;
    while j < sorted.len()
        invariant
            j <= sorted@.len(),
            sorted@ == sk,
            ev == entries_view(v@),
            forall|k: int| 0 <= k < sk.len() ==> (#[trigger] sk[k]).idx < ev.len(),
            entries_view(r@) == sk.take(j as int).map_values(|k: ImportanceKey| ev[k.idx as int]),
        decreases sorted@.len() - j,
    {
        let ghost o = entries_view(r@);
        assert(sk[j as int].idx < ev.len());
        let d = v[sorted[j].idx].duplicate();
        r.push(d);
        assert(entries_view(r@) =~= o.push(d@));
        assert(sk.take(j as int + 1) =~= sk.take(j as int).push(sk[j as int]));
        assert(entries_view(r@) =~= sk.take(j as int + 1).map_values(|k: ImportanceKey| ev[k.idx as int]));
        j += 1;
    }
    assert(sk.take(sk.len() as int) == sk);
    r
}

impl TabHistoryManager {
    /// Applies a retention policy at time `now`; how many entries left.
    pub fn apply_retention_policy_at(&mut self, policy: &RetentionPolicy, now: i64) -> (r: usize)
        ensures
            final(self).settings() == old(self).settings(),
            final(self)@ == (HistoryState {
                cache: retained(old(self)@.cache, *policy, now).0,
                ..old(self)@
            }),
            r == retained(old(self)@.cache, *policy, now).1,
    {
        let cutoff: i128 = now as i128 - (policy.max_age_days as i128) * 86_400_000;
        let old_n = self.history_cache.len();
        let deleted = self.retain_entries(None, Some(cutoff));
        let ghost c1 = self@.cache;
        proof {
            old(self)@.cache.lemma_filter_len(|e: HistoryModel| e.closed_at >= cutoff);
        }
        let n = self.history_cache.len();
        if n > policy.max_entries {
            let all = copy_entries(&self.history_cache);
            let ordered = if policy.preserve_important {
                sort_by_importance(all, now)
            } else {
                sort_newest_first(all)
            };
            let max = policy.max_entries;
            let ghost ov = entries_view(ordered@);
            proof {
                if policy.preserve_important {
                    crate::sort::lemma_stable_sorted_len(importance_keys(c1, now));
                } else {
                    crate::sort::lemma_stable_sorted_len(closed_keys(c1));
                }
                assert(ov.len() == c1.len());
            }
            let mut kept: Vec<HistoryEntry> = Vec::new();
            let mut i: usize = 0;
            while i < max
                invariant
                    i <= max,
                    max < ov.len(),
                    ov == entries_view(ordered@),
                    entries_view(kept@) == ov.take(i as int),
                decreases max - i,
            {
                let ghost o = entries_view(kept@);
                let d = ordered[i].duplicate();
                kept.push(d);
                assert(entries_view(kept@) =~= o.push(d@));
                assert(ov.take(i as int + 1) =~= ov.take(i as int).push(ov[i as int]));
                i += 1;
            }
            self.history_cache = kept;
            let extra = n - max;
            assert(deleted + extra <= old_n);
            deleted + extra
        } else {
            deleted
        }
    }

    /// Applies a retention policy now.
    pub fn apply_retention_policy(&mut self, policy: &RetentionPolicy) -> (r: usize)
        ensures
            final(self).settings() == old(self).settings(),
            exists|now: i64|
                final(self)@ == (HistoryState {
                    cache: (#[trigger] retained(old(self)@.cache, *policy, now)).0,
                    ..old(self)@
                }) && r == retained(old(self)@.cache, *policy, now).1,
    {
        let now = crate::platform::now_millis();
        self.apply_retention_policy_at(policy, now)
    }
}

/// An event about a browser tab.
#[derive(Clone, Debug)]
pub enum TabEvent {
    Created { tab: TabInfo },
    Updated { tab: TabInfo },
    Activated { tab_id: String, browser_type: BrowserType },
    Closed {
        tab_id: String,
        browser_type: BrowserType,
        timestamp: i64,
        last_known_info: Option<TabInfo>,
    },
}

/// The closed tab that an event reports, with its close time, where it is
/// known.
pub open spec fn closed_tab_of(e: TabEvent) -> Option<(TabModel, i64)> {
    match e {
        TabEvent::Closed { timestamp, last_known_info, .. } => match last_known_info {
            Some(t) => Some((t@, timestamp)),
            None => None,
        },
        _ => None,
    }
}

/// The history after the first `k` events at `now`: each closed tab that is
/// kept is saved with the `k`-th identifiers; and the ids saved.
pub open spec fn events_processed(
    cfg: TabHistoryManagerConfig,
    st: HistoryState,
    events: Seq<TabEvent>,
    now: i64,
    hids: Seq<Seq<char>>,
    pids: Seq<u128>,
    sids: Seq<Seq<char>>,
    k: nat,
) -> (HistoryState, Seq<Seq<char>>)
    decreases k,
{
    if k == 0 {
        (st, seq![])
    } else {
        let (s, ids) = events_processed(cfg, st, events, now, hids, pids, sids, (k - 1) as nat);
        match closed_tab_of(events[k - 1]) {
            Some((t, at)) => if keeps_tab(cfg, t, now) {
                (
                    HistoryState {
                        cache: cache_with(
                            s.cache,
                            closed_entry(t, at, hids[k - 1], pids[k - 1], sids[k - 1], summary_for(s.summaries, t.url)),
                            cfg.max_cache_entries as nat,
                        ),
                        saves: if s.saves < usize::MAX {
                            s.saves + 1
                        } else {
                            s.saves
                        },
                        ..s
                    },
                    ids.push(hids[k - 1]),
                )
            } else {
                (s, ids)
            },
            None => (s, ids),
        }
    }
}

impl TabHistoryManager {
    /// Saves the closed tabs that events report and that are kept, judged at
    /// `now`; the `k`-th event's entry takes `hids[k]`, `pids[k]` and
    /// `sids[k]`. Returns the ids saved.
    pub fn process_tab_events_at(
        &mut self,
        events: &[TabEvent],
        now: i64,
        hids: &[String],
        pids: &[u128],
        sids: &[String],
    ) -> (r: Vec<String>)
        requires
            hids@.len() >= events@.len(),
            pids@.len() >= events@.len(),
            sids@.len() >= events@.len(),
        ensures
            final(self).settings() == old(self).settings(),
            ({
                let (st, ids) = events_processed(
                    old(self).settings(),
                    old(self)@,
                    events@,
                    now,
                    crate::text::strings_view(hids@),
                    pids@,
                    crate::text::strings_view(sids@),
                    events@.len(),
                );
                final(self)@ == st && crate::text::strings_view(r@) == ids
            }),
    {
        let ghost cfg = self.config;
        let ghost s0 = self@;
        let mut saved: Vec<String> = Vec::new();
        let mut k: usize = 0;
        assert(crate::text::strings_view(saved@) =~= seq![]);
        while k < events.len()
            invariant
                k <= events@.len(),
                hids@.len() >= events@.len(),
                pids@.len() >= events@.len(),
                sids@.len() >= events@.len(),
                self.settings() == cfg,
                ({
                    let (st, ids) = events_processed(
                        cfg,
                        s0,
                        events@,
                        now,
                        crate::text::strings_view(hids@),
                        pids@,
                        crate::text::strings_view(sids@),
                        k as nat,
                    );
                    self@ == st && crate::text::strings_view(saved@) == ids
                }),
            decreases events@.len() - k,
        {
            assert(crate::text::strings_view(hids@)[k as int] == hids@[k as int]@);
            assert(crate::text::strings_view(sids@)[k as int] == sids@[k as int]@);
            if let TabEvent::Closed { last_known_info: Some(info), timestamp, .. } = &events[k] {
                if self.should_save_tab_at(info, now) {
                    let id = self.save_closed_tab_with_ids(
                        info.duplicate(),
                        *timestamp,
                        copy_string(&hids[k]),
                        pids[k],
                        copy_string(&sids[k]),
                    );
                    let ghost o = crate::text::strings_view(saved@);
                    saved.push(id);
                    assert(crate::text::strings_view(saved@) =~= o.push(hids@[k as int]@));
                }
            }
            k += 1;
        }
        saved
    }

    /// Counts of entries, by browser, and of saves; the close times of the
    /// first and last entries.
    pub fn get_stats(&self) -> (r: HistoryManagerStats)
        ensures
            r.cached_entries == self@.cache.len(),
            r.session_saves == self@.saves,
            r.session_restores == 0,
            r.entries_by_browser@.len() == browsers_in(self@.cache).len(),
            forall|k: int|
                0 <= k < r.entries_by_browser@.len() ==> (#[trigger] r.entries_by_browser@[k]).browser_type
                    == browsers_in(self@.cache)[k] && r.entries_by_browser@[k].count
                    == browser_entries(self@.cache, browsers_in(self@.cache)[k]),
            r.oldest_entry == if self@.cache.len() > 0 {
                Some(self@.cache[0].closed_at)
            } else {
                None::<i64>
            },
            r.newest_entry == if self@.cache.len() > 0 {
                Some(self@.cache.last().closed_at)
            } else {
                None::<i64>
            },
    {
        let ghost cv = entries_view(self.history_cache@);
        let mut browsers: Vec<BrowserType> = Vec::new();
        let mut i: usize = 0;
        assert(cv.take(0) =~= Seq::<HistoryModel>::empty());
        while i < self.history_cache.len()
            invariant
                i <= self.history_cache@.len(),
                cv == entries_view(self.history_cache@),
                browsers@ == browsers_in(cv.take(i as int)),
            decreases self.history_cache@.len() - i,
        {
            assert(cv.take(i as int + 1).drop_last() == cv.take(i as int));
            let b = self.history_cache[i].browser_type;
            let mut found = false;
            let mut j: usize = 0;
            while j < browsers.len()
                invariant
                    j <= browsers@.len(),
                    found == exists|x: int| 0 <= x < j && browsers@[x] == b,
                decreases browsers@.len() - j,
            {
                if browsers[j] == b {
                    found = true;
                }
                j += 1;
            }
            if !found {
                browsers.push(b);
            }
            i += 1;
        }
        assert(cv.take(cv.len() as int) == cv);
        let mut counts: Vec<BrowserCount> = Vec::new();
        let mut k: usize = 0;
        while k < browsers.len()
            invariant
                k <= browsers@.len(),
                browsers@ == browsers_in(cv),
                cv == entries_view(self.history_cache@),
                cv == self@.cache,
                counts@.len() == k,
                forall|x: int|
                    0 <= x < k ==> (#[trigger] counts@[x]).browser_type == browsers@[x]
                        && counts@[x].count == browser_entries(cv, browsers@[x]),
            decreases browsers@.len() - k,
        {
            let b = browsers[k];
            let mut n: usize = 0;
            let mut t: usize = 0;
            proof {
                reveal(Seq::filter);
            }
            assert(cv.take(0) =~= Seq::<HistoryModel>::empty());
            while t < self.history_cache.len()
                invariant
                    t <= self.history_cache@.len(),
                    cv == entries_view(self.history_cache@),
                    n == cv.take(t as int).filter(|e: HistoryModel| e.browser_type == b).len(),
                    n <= t,
                decreases self.history_cache@.len() - t,
            {
                assert(cv.take(t as int + 1) == cv.take(t as int).push(cv[t as int]));
                proof {
                    cv.take(t as int).lemma_filter_push(cv[t as int], |e: HistoryModel| e.browser_type == b);
                }
                if self.history_cache[t].browser_type == b {
                    n += 1;
                }
                t += 1;
            }
            assert(cv.take(cv.len() as int) == cv);
            counts.push(BrowserCount { browser_type: b, count: n });
            k += 1;
        }
        let len = self.history_cache.len();
        HistoryManagerStats {
            cached_entries: len,
            entries_by_browser: counts,
            session_saves: self.session_saves,
            session_restores: 0,
            oldest_entry: if len > 0 {
                Some(self.history_cache[0].closed_at)
            } else {
                None
            },
            newest_entry: if len > 0 {
                Some(self.history_cache[len - 1].closed_at)
            } else {
                None
            },
        }
    }

    /// Where a URL is hosted, or `unknown`.
    pub fn extract_domain(&self, url: &str) -> (r: String)
        ensures
            r@ == host_of(url@),
    {
        host_or_unknown(url)
    }

    /// The entries grouped by host, hosts in order of their first entry.
    pub fn get_entries_by_domain(&self) -> (r: Vec<DomainEntries>)
        ensures
            r@.len() == hosts_in(self@.cache).len(),
            forall|k: int|
                0 <= k < r@.len() ==> (#[trigger] r@[k]).domain@ == hosts_in(self@.cache)[k]
                    && entries_view(r@[k].entries@) == hosted_at(self@.cache, hosts_in(self@.cache)[k]),
    {
        let ghost cv = entries_view(self.history_cache@);
        let mut hosts: Vec<Vec<char>> = Vec::new();
        let mut hostv: Vec<Vec<char>> = Vec::new();
        let mut i: usize = 0;
        assert(cv.take(0) =~= Seq::<HistoryModel>::empty());
        assert(crate::change_detector::char_vecs(hosts@) =~= seq![]);
        while i < self.history_cache.len()
            invariant
                i <= self.history_cache@.len(),
                cv == entries_view(self.history_cache@),
                crate::change_detector::char_vecs(hosts@) == hosts_in(cv.take(i as int)),
                hostv@.len() == i,
                forall|x: int| 0 <= x < i ==> (#[trigger] hostv@[x])@ == host_of(cv[x].page.url),
            decreases self.history_cache@.len() - i,
        {
            assert(cv.take(i as int + 1).drop_last() == cv.take(i as int));
            let h = chars_of(&host_or_unknown(&self.history_cache[i].page_info.url));
            if !crate::change_detector::contains_chars_vec(&hosts, &h) {
                let ghost o = crate::change_detector::char_vecs(hosts@);
                hosts.push(h.clone());
                assert(crate::change_detector::char_vecs(hosts@) =~= o.push(h@));
            }
            hostv.push(h);
            i += 1;
        }
        assert(cv.take(cv.len() as int) == cv);
        let ghost hv = crate::change_detector::char_vecs(hosts@);
        let mut groups: Vec<DomainEntries> = Vec::new();
        let mut k: usize = 0;
        while k < hosts.len()
            invariant
                k <= hosts@.len(),
                hv == crate::change_detector::char_vecs(hosts@),
                hv == hosts_in(cv),
                cv == entries_view(self.history_cache@),
                cv == self@.cache,
                hostv@.len() == cv.len(),
                forall|x: int| 0 <= x < cv.len() ==> (#[trigger] hostv@[x])@ == host_of(cv[x].page.url),
                groups@.len() == k,
                forall|x: int|
                    0 <= x < k ==> (#[trigger] groups@[x]).domain@ == hv[x] && entries_view(
                        groups@[x].entries@,
                    ) == hosted_at(cv, hv[x]),
            decreases hosts@.len() - k,
        {
            let h = &hosts[k];
            assert(hv[k as int] == h@);
            let mut es: Vec<HistoryEntry> = Vec::new();
            let mut t: usize = 0;
            proof {
                reveal(Seq::filter);
            }
            assert(cv.take(0) =~= Seq::<HistoryModel>::empty());
            while t < self.history_cache.len()
                invariant
                    t <= self.history_cache@.len(),
                    cv == entries_view(self.history_cache@),
                    hostv@.len() == cv.len(),
                    forall|x: int| 0 <= x < cv.len() ==> (#[trigger] hostv@[x])@ == host_of(cv[x].page.url),
                    entries_view(es@) == cv.take(t as int).filter(
                        |e: HistoryModel| host_of(e.page.url) == h@,
                    ),
                decreases self.history_cache@.len() - t,
            {
                assert(cv.take(t as int + 1) == cv.take(t as int).push(cv[t as int]));
                proof {
                    cv.take(t as int).lemma_filter_push(
                        cv[t as int],
                        |e: HistoryModel| host_of(e.page.url) == h@,
                    );
                }
                assert(hostv@[t as int]@ == host_of(cv[t as int].page.url));
                if crate::text::chars_eq(&hostv[t], h) {
                    let ghost o = entries_view(es@);
                    let d = self.history_cache[t].duplicate();
                    es.push(d);
                    assert(entries_view(es@) =~= o.push(cv[t as int]));
                }
                t += 1;
            }
            assert(cv.take(cv.len() as int) == cv);
            groups.push(DomainEntries { domain: string_from_chars(h), entries: es });
            k += 1;
        }
        groups
    }

    /// The hosts with the most entries, most first (ties in order of first
    /// entry), at most `count`.
    pub fn get_top_domains(&self, count: usize) -> (r: Vec<DomainCount>)
        ensures
            ({
                let hs = hosts_in(self@.cache);
                let keys = Seq::new(
                    hs.len(),
                    |i: int| CountKey { count: hosted_at(self@.cache, hs[i]).len() as usize, idx: i as usize },
                );
                let sorted = stable_sorted(keys);
                let n = if count < sorted.len() {
                    count as int
                } else {
                    sorted.len() as int
                };
                &&& r@.len() == n
                &&& forall|k: int|
                    0 <= k < n ==> (#[trigger] r@[k]).domain@ == hs[sorted[k].idx as int] && r@[k].count
                        == sorted[k].count
            }),
    {
        let groups = self.get_entries_by_domain();
        let ghost hs = hosts_in(self@.cache);
        let ghost keys_s = Seq::new(
            hs.len(),
            |i: int| CountKey { count: hosted_at(self@.cache, hs[i]).len() as usize, idx: i as usize },
        );
        let mut keys: Vec<CountKey> = Vec::new();
        let mut i: usize = 0;
        while i < groups.len()
            invariant
                i <= groups@.len(),
                groups@.len() == hs.len(),
                forall|k: int|
                    0 <= k < groups@.len() ==> (#[trigger] groups@[k]).domain@ == hs[k] && entries_view(
                        groups@[k].entries@,
                    ) == hosted_at(self@.cache, hs[k]),
                keys@ == keys_s.take(i as int),
                keys_s == Seq::new(
                    hs.len(),
                    |i: int| CountKey { count: hosted_at(self@.cache, hs[i]).len() as usize, idx: i as usize },
                ),
            decreases groups@.len() - i,
        {
            let n = groups[i].entries.len();
            assert(n == entries_view(groups@[i as int].entries@).len());
            assert(hosted_at(self@.cache, hs[i as int]).len() == n as nat);
            assert(keys_s[i as int] == CountKey { count: n, idx: i });
            keys.push(CountKey { count: n, idx: i });
            assert(keys@ =~= keys_s.take(i as int + 1));
            i += 1;
        }
        assert(keys_s.take(hs.len() as int) == keys_s);
        let sorted = sort_stable(keys);
        let ghost sk = stable_sorted(keys_s);
        proof {
            crate::sort::lemma_stable_sorted_len(keys_s);
            lemma_sorted_members(keys_s);
            assert forall|k: int| 0 <= k < sk.len() implies (#[trigger] sk[k]).idx < hs.len() by {
                assert(keys_s.contains(sk[k]));
            }
        }
        let n = if count < sorted.len() {
            count
        } else {
            sorted.len()
        };
        let mut r: Vec<DomainCount> = Vec::new();
        let mut t: usize = 0;
        while t < n
            invariant
                t <= n,
                n <= sorted@.len(),
                sorted@ == sk,
                groups@.len() == hs.len(),
                forall|k: int| 0 <= k < groups@.len() ==> (#[trigger] groups@[k]).domain@ == hs[k],
                forall|k: int| 0 <= k < sk.len() ==> (#[trigger] sk[k]).idx < hs.len(),
                r@.len() == t,
                forall|k: int|
                    0 <= k < t ==> (#[trigger] r@[k]).domain@ == hs[sk[k].idx as int] && r@[k].count
                        == sk[k].count,
            decreases n - t,
        {
            let key = &sorted[t];
            assert(sk[t as int].idx < hs.len());
            let d = copy_string(&groups[key.idx].domain);
            r.push(DomainCount { domain: d, count: key.count });
            t += 1;
        }
        r
    }
}

impl Default for TabHistoryManager {
    fn default() -> (r: Self)
        ensures
            r.settings().max_cache_entries == 1000,
            r@ == (HistoryState { cache: seq![], summaries: seq![], saves: 0 }),
    {
        Self::new()
    }
}


/// The entries without those that have an id.
pub open spec fn without_id(cache: Seq<HistoryModel>, id: Seq<char>) -> Seq<HistoryModel> {
    cache.filter(|e: HistoryModel| e.id != id)
}

/// Saving keeps the history within its limit, and the entry just saved is
/// kept, as the newest, wherever the limit allows any entry.
pub proof fn law_save_keeps_entry_within_limit(cache: Seq<HistoryModel>, e: HistoryModel, max: nat)
    requires
        cache.len() <= max,
    ensures
        cache_with(cache, e, max).len() <= max,
        max > 0 ==> cache_with(cache, e, max).last() == e,
        max > 0 ==> cache_with(cache, e, max).contains(e),
{
    if max > 0 {
        let c = cache_with(cache, e, max);
        assert(c[c.len() - 1] == e);
    }
}

/// After a deletion no entry has the deleted id.
pub proof fn law_deleted_id_is_gone(cache: Seq<HistoryModel>, id: Seq<char>)
    ensures
        forall|k: int| 0 <= k < without_id(cache, id).len() ==> (#[trigger] without_id(cache, id)[k]).id != id,
{
    let p = |e: HistoryModel| e.id != id;
    assert forall|k: int| 0 <= k < without_id(cache, id).len() implies (#[trigger] without_id(cache, id)[k]).id != id by {
        cache.lemma_filter_pred(p, k);
    }
}

/// Retention by count drops the oldest history: where the policy does not
/// preserve important entries and more entries than the maximum are recent
/// enough, the kept entries are the first of the entries reordered newest
/// first (which holds each recent entry once), and none of them was closed
/// before any entry that is dropped.
pub proof fn law_retention_drops_oldest(cache: Seq<HistoryModel>, policy: RetentionPolicy, now: i64)
    requires
        !policy.preserve_important,
        cache.len() <= usize::MAX,
        cache.filter(|e: HistoryModel| e.closed_at >= now - policy.max_age_days * 86_400_000).len()
            > policy.max_entries,
    ensures
        ({
            let recent = cache.filter(|e: HistoryModel| e.closed_at >= now - policy.max_age_days * 86_400_000);
            let o = newest_first(recent);
            &&& retained(cache, policy, now).0 == o.take(policy.max_entries as int)
            &&& o.to_multiset() == recent.to_multiset()
            &&& forall|i: int, j: int|
                #![trigger o[i], o[j]]
                0 <= i < policy.max_entries <= j < o.len() ==> o[j].closed_at <= o[i].closed_at
        }),
{
    let recent = cache.filter(|e: HistoryModel| e.closed_at >= now - policy.max_age_days * 86_400_000);
    let ks = closed_keys(recent);
    let f = |k: ClosedKey| recent[k.idx as int];
    let o = newest_first(recent);
    crate::sort::lemma_stable_sorted_permutes(ks, f);
    cache.lemma_filter_len(|e: HistoryModel| e.closed_at >= now - policy.max_age_days * 86_400_000);
    assert forall|i: int| 0 <= i < recent.len() implies #[trigger] ks.map_values(f)[i] == recent[i] by {
        assert(ks[i].idx == i);
    }
    assert(ks.map_values(f) =~= recent);
    crate::sort::lemma_stable_sorted_len(ks);
    crate::sort::lemma_stable_sorted_sorted(ks);
    let t = stable_sorted(ks);
    assert forall|i: int, j: int| #![trigger o[i], o[j]] 0 <= i < policy.max_entries <= j < o.len() implies o[j].closed_at
        <= o[i].closed_at by {
        lemma_sorted_members(ks);
        assert(ks.contains(t[i]));
        assert(ks.contains(t[j]));
        assert(!t[j].precedes(&t[i]));
        assert(o[i] == recent[t[i].idx as int]);
        assert(o[j] == recent[t[j].idx as int]);
    }
}

} // verus!
