//! Synchronization between tabs, bookmarks and unified pages: update actions
//! for bookmarks whose tabs changed, merging into unified pages, and a queue
//! of changes awaiting the user's approval.

use vstd::prelude::*;
use crate::matcher::{
    ContentChangeDetection, ContentChangeDetector, DetectionModel, TabBookmarkMatcher,
    all_changes, bookmarks_view, match_map_of, normalized_url, tabs_view,
};
use crate::model::{
    BookmarkInfo, BookmarkModel, BrowserInstance, ContentSummary, PageModel, PageSourceType,
    SourceModel, SummaryModel, TabInfo, TabModel, UnifiedPageInfo, copy_opt_summary, instance_of_type,
    opt_model,
};
use crate::platform::{new_id_string, new_uuid, now_millis};
use crate::text::{copy_opt_string, copy_string, copy_strings, opt_view, strings_view};

verus! {

// ---------------------------------------------------------------------------
// Actions and results
// ---------------------------------------------------------------------------

/// Changes to apply to a unified page; `None` leaves a field as it is.
#[derive(Clone, Debug)]
pub struct PageUpdates {
    pub title: Option<String>,
    pub favicon_url: Option<Option<String>>,
    pub content_summary: Option<Option<ContentSummary>>,
    pub keywords: Option<Vec<String>>,
    pub category: Option<Option<String>>,
}

/// The mathematical value of [`PageUpdates`].
pub ghost struct UpdatesModel {
    pub title: Option<Seq<char>>,
    pub favicon_url: Option<Option<Seq<char>>>,
    pub content_summary: Option<Option<SummaryModel>>,
    pub keywords: Option<Seq<Seq<char>>>,
    pub category: Option<Option<Seq<char>>>,
}

impl View for PageUpdates {
    type V = UpdatesModel;

    open spec fn view(&self) -> UpdatesModel {
        UpdatesModel {
            title: opt_view(self.title),
            favicon_url: match self.favicon_url {
                Some(f) => Some(opt_view(f)),
                None => None,
            },
            content_summary: match self.content_summary {
                Some(c) => Some(opt_model(c)),
                None => None,
            },
            keywords: match self.keywords {
                Some(k) => Some(strings_view(k@)),
                None => None,
            },
            category: match self.category {
                Some(c) => Some(opt_view(c)),
                None => None,
            },
        }
    }
}

impl Default for PageUpdates {
    fn default() -> (r: Self)
        ensures
            r.title is None,
            r.favicon_url is None,
            r.content_summary is None,
            r.keywords is None,
            r.category is None,
    {
        PageUpdates {
            title: None,
            favicon_url: None,
            content_summary: None,
            keywords: None,
            category: None,
        }
    }
}

impl PageUpdates {
    /// A copy of these updates.
    pub fn duplicate(&self) -> (r: PageUpdates)
        ensures
            r@ == self@,
    {
        PageUpdates {
            title: copy_opt_string(&self.title),
            favicon_url: match &self.favicon_url {
                Some(f) => Some(copy_opt_string(f)),
                None => None,
            },
            content_summary: match &self.content_summary {
                Some(c) => Some(copy_opt_summary(c)),
                None => None,
            },
            keywords: match &self.keywords {
                Some(k) => Some(copy_strings(k)),
                None => None,
            },
            category: match &self.category {
                Some(c) => Some(copy_opt_string(c)),
                None => None,
            },
        }
    }
}

/// A synchronization action.
#[derive(Clone, Debug)]
pub enum SyncAction {
    /// Update a bookmark with its tab's current title and icon.
    UpdateBookmark {
        bookmark_id: String,
        new_title: Option<String>,
        new_favicon: Option<String>,
    },
    /// Create a bookmark from a tab.
    CreateBookmark { tab_id: String, folder_path: Vec<String> },
    /// Update a unified page.
    UpdateUnifiedPage { page_id: u128, updates: PageUpdates },
}

/// The mathematical value of a [`SyncAction`].
pub ghost enum ActionModel {
    UpdateBookmark {
        bookmark_id: Seq<char>,
        new_title: Option<Seq<char>>,
        new_favicon: Option<Seq<char>>,
    },
    CreateBookmark { tab_id: Seq<char>, folder_path: Seq<Seq<char>> },
    UpdateUnifiedPage { page_id: u128, updates: UpdatesModel },
}

impl View for SyncAction {
    type V = ActionModel;

    open spec fn view(&self) -> ActionModel {
        match self {
            SyncAction::UpdateBookmark { bookmark_id, new_title, new_favicon } =>
                ActionModel::UpdateBookmark {
                bookmark_id: bookmark_id@,
                new_title: opt_view(*new_title),
                new_favicon: opt_view(*new_favicon),
            },
            SyncAction::CreateBookmark { tab_id, folder_path } => ActionModel::CreateBookmark {
                tab_id: tab_id@,
                folder_path: strings_view(folder_path@),
            },
            SyncAction::UpdateUnifiedPage { page_id, updates } => ActionModel::UpdateUnifiedPage {
                page_id: *page_id,
                updates: updates@,
            },
        }
    }
}

impl SyncAction {
    /// A copy of this action.
    pub fn duplicate(&self) -> (r: SyncAction)
        ensures
            r@ == self@,
    {
        match self {
            SyncAction::UpdateBookmark { bookmark_id, new_title, new_favicon } =>
                SyncAction::UpdateBookmark {
                bookmark_id: copy_string(bookmark_id),
                new_title: copy_opt_string(new_title),
                new_favicon: copy_opt_string(new_favicon),
            },
            SyncAction::CreateBookmark { tab_id, folder_path } => SyncAction::CreateBookmark {
                tab_id: copy_string(tab_id),
                folder_path: copy_strings(folder_path),
            },
            SyncAction::UpdateUnifiedPage { page_id, updates } => SyncAction::UpdateUnifiedPage {
                page_id: *page_id,
                updates: updates.duplicate(),
            },
        }
    }
}

/// The views of a sequence of actions.
pub open spec fn actions_view(v: Seq<SyncAction>) -> Seq<ActionModel> {
    v.map_values(|a: SyncAction| a@)
}

/// The outcome of a synchronization.
#[derive(Clone, Debug)]
pub struct SyncResult {
    pub success: bool,
    pub actions_performed: Vec<SyncAction>,
    pub errors: Vec<String>,
    pub items_synced: usize,
}

impl SyncResult {
    /// A successful result with the given actions.
    pub fn success(actions: Vec<SyncAction>) -> (r: Self)
        ensures
            r.success,
            r.actions_performed@ == actions@,
            r.errors@.len() == 0,
            r.items_synced == actions@.len(),
    {
        let items_synced = actions.len();
        SyncResult { success: true, actions_performed: actions, errors: Vec::new(), items_synced }
    }

    /// A failed result with the given errors.
    pub fn failure(errors: Vec<String>) -> (r: Self)
        ensures
            !r.success,
            r.actions_performed@.len() == 0,
            r.errors@ == errors@,
            r.items_synced == 0,
    {
        SyncResult { success: false, actions_performed: Vec::new(), errors, items_synced: 0 }
    }

    /// A result that succeeded where there are no errors.
    pub fn partial(actions: Vec<SyncAction>, errors: Vec<String>) -> (r: Self)
        ensures
            r.success == (errors@.len() == 0),
            r.actions_performed@ == actions@,
            r.errors@ == errors@,
            r.items_synced == actions@.len(),
    {
        let items_synced = actions.len();
        let success = errors.len() == 0;
        SyncResult { success, actions_performed: actions, errors, items_synced }
    }
}

// ---------------------------------------------------------------------------
// Specifications of merging
// ---------------------------------------------------------------------------

/// The action that brings a bookmark up to date with a detected change.
pub open spec fn action_for_change(d: DetectionModel) -> ActionModel {
    ActionModel::UpdateBookmark {
        bookmark_id: d.bookmark_id,
        new_title: if d.title_changed {
            Some(d.new_title)
        } else {
            None
        },
        new_favicon: if d.favicon_changed {
            d.new_favicon
        } else {
            None
        },
    }
}

/// A bookmark updated with a new title and icon at time `now`.
pub open spec fn updated_bookmark(
    b: BookmarkModel,
    new_title: Option<Seq<char>>,
    new_favicon: Option<Seq<char>>,
    now: i64,
) -> BookmarkModel {
    BookmarkModel {
        title: match new_title {
            Some(t) => t,
            None => b.title,
        },
        favicon_url: match new_favicon {
            Some(f) => Some(f),
            None => b.favicon_url,
        },
        last_accessed: Some(now),
        ..b
    }
}

/// The unified page that holds nothing: the result of merging neither a tab
/// nor a bookmark into no page.
pub open spec fn empty_page(id: u128, bookmark_id: Seq<char>, now: i64) -> PageModel {
    PageModel {
        id,
        url: seq![],
        title: seq![],
        favicon_url: None,
        content_summary: None,
        keywords: seq![],
        category: None,
        source_type: SourceModel::Bookmark { browser: crate::model::BrowserType::Chrome, bookmark_id },
        browser_info: None,
        tab_info: None,
        bookmark_info: None,
        created_at: now,
        last_accessed: now,
        access_count: 0,
    }
}

/// The merge of a tab and a bookmark into a unified page, at time `now`.
///
/// The tab's URL, title and browser take precedence over the bookmark's; the
/// tab's icon is kept where it has one. An existing page gives its id,
/// creation time and analysed content (summary, keywords, category), and its
/// access count goes up by one. With neither a tab nor a bookmark the
/// existing page is returned unchanged.
pub open spec fn merged_page(
    tab: Option<TabModel>,
    bm: Option<BookmarkModel>,
    existing: Option<PageModel>,
    fresh_id: u128,
    fresh_bookmark_id: Seq<char>,
    now: i64,
) -> PageModel {
    let id = match existing {
        Some(p) => p.id,
        None => fresh_id,
    };
    if tab is None && bm is None {
        match existing {
            Some(p) => p,
            None => empty_page(id, fresh_bookmark_id, now),
        }
    } else {
        let (url, title, favicon, browser) = match tab {
            Some(t) => (
                t.url,
                t.title,
                match t.favicon_url {
                    Some(f) => Some(f),
                    None => match bm {
                        Some(b) => b.favicon_url,
                        None => None,
                    },
                },
                t.browser_type,
            ),
            None => (bm->0.url, bm->0.title, bm->0.favicon_url, bm->0.browser_type),
        };
        let source = match tab {
            Some(t) => SourceModel::ActiveTab { browser: t.browser_type, tab_id: t.id },
            None => SourceModel::Bookmark { browser: bm->0.browser_type, bookmark_id: bm->0.id },
        };
        PageModel {
            id,
            url,
            title,
            favicon_url: favicon,
            content_summary: match existing {
                Some(p) => p.content_summary,
                None => None,
            },
            keywords: match existing {
                Some(p) => p.keywords,
                None => seq![],
            },
            category: match existing {
                Some(p) => p.category,
                None => None,
            },
            source_type: source,
            browser_info: Some(instance_of_type(browser)),
            tab_info: tab,
            bookmark_info: bm,
            created_at: match existing {
                Some(p) => p.created_at,
                None => now,
            },
            last_accessed: now,
            access_count: match existing {
                Some(p) => next_count(p.access_count),
                None => 1,
            },
        }
    }
}

/// An access count raised by one, wrapping around at the end of `u64`.
pub open spec fn next_count(c: u64) -> u64 {
    if c == u64::MAX {
        0
    } else {
        (c + 1) as u64
    }
}

/// The views of a sequence of pages.
pub open spec fn pages_view(v: Seq<UnifiedPageInfo>) -> Seq<PageModel> {
    v.map_values(|p: UnifiedPageInfo| p@)
}

/// The view of an optional page.
pub open spec fn opt_page_view(p: Option<&UnifiedPageInfo>) -> Option<PageModel> {
    match p {
        Some(x) => Some(x@),
        None => None,
    }
}

/// The view of an optional tab.
pub open spec fn opt_tab_view(t: Option<&TabInfo>) -> Option<TabModel> {
    match t {
        Some(x) => Some(x@),
        None => None,
    }
}

/// The view of an optional bookmark.
pub open spec fn opt_bookmark_view(b: Option<&BookmarkInfo>) -> Option<BookmarkModel> {
    match b {
        Some(x) => Some(x@),
        None => None,
    }
}

/// The bookmark made from a tab, and the page that records it: the page
/// keeps its analysed content (summary, keywords, category) and now refers
/// to the new bookmark.
pub open spec fn bookmark_from_tab(
    tab: TabModel,
    page: PageModel,
    folder_path: Seq<Seq<char>>,
    bookmark_id: Seq<char>,
    now: i64,
) -> (BookmarkModel, PageModel) {
    let b = BookmarkModel {
        id: bookmark_id,
        url: tab.url,
        title: tab.title,
        favicon_url: tab.favicon_url,
        browser_type: tab.browser_type,
        folder_path,
        created_at: now,
        last_accessed: None,
    };
    let p = PageModel {
        source_type: SourceModel::Bookmark { browser: tab.browser_type, bookmark_id },
        bookmark_info: Some(b),
        ..page
    };
    (b, p)
}

/// Builds a bookmark from a tab, inheriting the page's analysed content.
pub fn create_bookmark_from_tab(
    tab: &TabInfo,
    unified_page: &UnifiedPageInfo,
    folder_path: Vec<String>,
    bookmark_id: String,
    now: i64,
) -> (r: (BookmarkInfo, UnifiedPageInfo))
    ensures
        (r.0@, r.1@) == bookmark_from_tab(
            tab@,
            unified_page@,
            strings_view(folder_path@),
            bookmark_id@,
            now,
        ),
{
    let b = BookmarkInfo {
        id: bookmark_id,
        url: copy_string(&tab.url),
        title: copy_string(&tab.title),
        favicon_url: copy_opt_string(&tab.favicon_url),
        browser_type: tab.browser_type,
        folder_path,
        created_at: now,
        last_accessed: None,
    };
    let mut p = unified_page.duplicate();
    p.source_type = PageSourceType::Bookmark {
        browser: tab.browser_type,
        bookmark_id: copy_string(&b.id),
    };
    p.bookmark_info = Some(b.duplicate());
    (b, p)
}

/// The last bookmark with the given URL, as a map keyed by URL holds it.
pub open spec fn last_bookmark_with_url(bms: Seq<BookmarkModel>, url: Seq<char>) -> Option<
    BookmarkModel,
>
    decreases bms.len(),
{
    if bms.len() == 0 {
        None
    } else if bms.last().url == url {
        Some(bms.last())
    } else {
        last_bookmark_with_url(bms.drop_last(), url)
    }
}

/// The last bookmark whose normalized URL is `n`.
pub open spec fn last_bookmark_with_normalized(
    norm: bool,
    bms: Seq<BookmarkModel>,
    n: Seq<char>,
) -> Option<BookmarkModel>
    decreases bms.len(),
{
    if bms.len() == 0 {
        None
    } else if normalized_url(norm, bms.last().url) == n {
        Some(bms.last())
    } else {
        last_bookmark_with_normalized(norm, bms.drop_last(), n)
    }
}

/// The bookmark that batch merging attaches to a tab with URL `url`: the
/// last bookmark with that very URL, else the last one with the same
/// normalized URL.
pub open spec fn bookmark_for_tab(norm: bool, bms: Seq<BookmarkModel>, url: Seq<char>) -> Option<
    BookmarkModel,
> {
    match last_bookmark_with_url(bms, url) {
        Some(b) => Some(b),
        None => last_bookmark_with_normalized(norm, bms, normalized_url(norm, url)),
    }
}

/// The last page with the given URL.
pub open spec fn last_page_with_url(pages: Seq<PageModel>, url: Seq<char>) -> Option<PageModel>
    decreases pages.len(),
{
    if pages.len() == 0 {
        None
    } else if pages.last().url == url {
        Some(pages.last())
    } else {
        last_page_with_url(pages.drop_last(), url)
    }
}

/// The last bookmark with the given URL.
pub fn bookmark_with_url<'a>(bms: &'a [BookmarkInfo], url: &String) -> (r: Option<&'a BookmarkInfo>)
    ensures
        opt_bookmark_view(r) == last_bookmark_with_url(bookmarks_view(bms@), url@),
{
    let ghost bs = bookmarks_view(bms@);
    let mut n = bms.len();
    assert(bs.take(n as int) == bs);
    while n > 0
        invariant
            n <= bms@.len(),
            bs == bookmarks_view(bms@),
            last_bookmark_with_url(bs.take(n as int), url@) == last_bookmark_with_url(bs, url@),
        decreases n,
    {
        assert(bs.take(n as int).last() == bms@[n - 1]@);
        if bms[n - 1].url == *url {
            return Some(&bms[n - 1]);
        }
        assert(bs.take(n as int).drop_last() == bs.take(n - 1));
        n -= 1;
    }
    None
}

/// The last bookmark whose normalized URL, listed in `normalized`, is `n`.
fn bookmark_with_normalized<'a>(
    bms: &'a [BookmarkInfo],
    normalized: &[String],
    n: &String,
    Ghost(norm): Ghost<bool>,
) -> (r: Option<&'a BookmarkInfo>)
    requires
        normalized@.len() == bms@.len(),
        forall|i: int|
            0 <= i < bms@.len() ==> (#[trigger] normalized@[i])@ == normalized_url(norm, bms@[i].url@),
    ensures
        opt_bookmark_view(r) == last_bookmark_with_normalized(norm, bookmarks_view(bms@), n@),
{
    let ghost bs = bookmarks_view(bms@);
    let mut k = bms.len();
    assert(bs.take(k as int) == bs);
    while k > 0
        invariant
            k <= bms@.len(),
            normalized@.len() == bms@.len(),
            forall|i: int|
                0 <= i < bms@.len() ==> (#[trigger] normalized@[i])@ == normalized_url(norm, bms@[i].url@),
            bs == bookmarks_view(bms@),
            last_bookmark_with_normalized(norm, bs.take(k as int), n@) == last_bookmark_with_normalized(norm, bs, n@),
        decreases k,
    {
        assert(bs.take(k as int).last() == bms@[k - 1]@);
        assert(normalized@[k - 1]@ == normalized_url(norm, bms@[k - 1].url@));
        if normalized[k - 1] == *n {
            return Some(&bms[k - 1]);
        }
        assert(bs.take(k as int).drop_last() == bs.take(k - 1));
        k -= 1;
    }
    None
}

/// The last page with the given URL.
pub fn page_with_url<'a>(pages: &'a [UnifiedPageInfo], url: &String) -> (r: Option<&'a UnifiedPageInfo>)
    ensures
        opt_page_view(r) == last_page_with_url(pages_view(pages@), url@),
{
    let ghost ps = pages_view(pages@);
    let mut n = pages.len();
    assert(ps.take(n as int) == ps);
    while n > 0
        invariant
            n <= pages@.len(),
            ps == pages_view(pages@),
            last_page_with_url(ps.take(n as int), url@) == last_page_with_url(ps, url@),
        decreases n,
    {
        assert(ps.take(n as int).last() == pages@[n - 1]@);
        if pages[n - 1].url == *url {
            return Some(&pages[n - 1]);
        }
        assert(ps.take(n as int).drop_last() == ps.take(n - 1));
        n -= 1;
    }
    None
}

/// The state of batch merging after the tabs: the pages so far and the
/// normalized URLs already merged.
pub open spec fn tab_pass(
    normalize: bool,
    tabs: Seq<TabModel>,
    bms: Seq<BookmarkModel>,
    pages: Seq<PageModel>,
    ids: Seq<u128>,
    now: i64,
) -> (Seq<PageModel>, Set<Seq<char>>)
    decreases tabs.len(),
{
    if tabs.len() == 0 {
        (seq![], Set::empty())
    } else {
        let (r, done) = tab_pass(normalize, tabs.drop_last(), bms, pages, ids, now);
        let t = tabs.last();
        let n = normalized_url(normalize, t.url);
        if done.contains(n) {
            (r, done)
        } else {
            (
                r.push(
                    merged_page(
                        Some(t),
                        bookmark_for_tab(normalize, bms, t.url),
                        last_page_with_url(pages, t.url),
                        ids[tabs.len() - 1],
                        seq![],
                        now,
                    ),
                ),
                done.insert(n),
            )
        }
    }
}

/// The state of batch merging after the tabs and the first bookmarks.
pub open spec fn bookmark_pass(
    normalize: bool,
    tabs: Seq<TabModel>,
    bms: Seq<BookmarkModel>,
    all_bms: Seq<BookmarkModel>,
    pages: Seq<PageModel>,
    ids: Seq<u128>,
    now: i64,
) -> (Seq<PageModel>, Set<Seq<char>>)
    decreases bms.len(),
{
    if bms.len() == 0 {
        tab_pass(normalize, tabs, all_bms, pages, ids, now)
    } else {
        let (r, done) = bookmark_pass(normalize, tabs, bms.drop_last(), all_bms, pages, ids, now);
        let b = bms.last();
        let n = normalized_url(normalize, b.url);
        if done.contains(n) {
            (r, done)
        } else {
            (
                r.push(
                    merged_page(
                        None,
                        Some(b),
                        last_page_with_url(pages, b.url),
                        ids[tabs.len() + bms.len() - 1],
                        seq![],
                        now,
                    ),
                ),
                done.insert(n),
            )
        }
    }
}

/// The unified pages made by batch merging: one per normalized URL, tabs
/// first (each with its bookmark, see `bookmark_for_tab`), then the
/// bookmarks whose normalized URL no tab has.
pub open spec fn batch_merged(
    normalize: bool,
    tabs: Seq<TabModel>,
    bms: Seq<BookmarkModel>,
    pages: Seq<PageModel>,
    ids: Seq<u128>,
    now: i64,
) -> Seq<PageModel> {
    bookmark_pass(normalize, tabs, bms, bms, pages, ids, now).0
}

/// Merges tabs and bookmarks into unified pages.
pub struct DataSyncManager {
    pub matcher: TabBookmarkMatcher,
}

impl DataSyncManager {
    /// A manager with the default matcher.
    pub fn new() -> (r: Self)
        ensures
            r.matcher.config.normalize_urls,
            r.matcher.config.match_exact_url,
            r.matcher.config.match_domain,
    {
        DataSyncManager { matcher: TabBookmarkMatcher::new() }
    }

    /// A manager with the given matcher.
    pub fn with_matcher(matcher: TabBookmarkMatcher) -> (r: Self)
        ensures
            r.matcher == matcher,
    {
        DataSyncManager { matcher }
    }

    /// The matcher.
    pub fn matcher(&self) -> (r: &TabBookmarkMatcher)
        ensures
            *r == self.matcher,
    {
        &self.matcher
    }

    /// The actions that bring bookmarks up to date with the tabs that match
    /// them exactly, where matching happens at time `now`.
    pub fn generate_sync_actions_at(&self, tabs: &[TabInfo], bookmarks: &[BookmarkInfo], now: i64) -> (r:
        Vec<SyncAction>)
        ensures
            actions_view(r@) == all_changes(
                tabs_view(tabs@),
                bookmarks_view(bookmarks@),
                match_map_of(self.matcher.config, tabs_view(tabs@), bookmarks_view(bookmarks@), now),
            ).map_values(|d: DetectionModel| action_for_change(d)),
    {
        let map = self.matcher.build_match_map_at(tabs, bookmarks, now);
        let changes = ContentChangeDetector::detect_all_changes(tabs, bookmarks, &map);
        let ghost ds = crate::matcher::detections_view(changes@);
        let mut actions: Vec<SyncAction> = Vec::new();
        let mut i: usize = 0;
        while i < changes.len()
            invariant
                i <= changes@.len(),
                ds == crate::matcher::detections_view(changes@),
                actions_view(actions@) == ds.take(i as int).map_values(
                    |d: DetectionModel| action_for_change(d),
                ),
            decreases changes@.len() - i,
        {
            let c = &changes[i];
            let a = SyncAction::UpdateBookmark {
                bookmark_id: copy_string(&c.bookmark_id),
                new_title: if c.title_changed {
                    Some(copy_string(&c.new_title))
                } else {
                    None
                },
                new_favicon: if c.favicon_changed {
                    copy_opt_string(&c.new_favicon)
                } else {
                    None
                },
            };
            let ghost old_a = actions@;
            assert(a@ == action_for_change(c@));
            actions.push(a);
            assert(ds[i as int] == c@);
            assert(actions@ == old_a.push(a));
            assert(actions_view(actions@) =~= actions_view(old_a).push(a@));
            assert(ds.take(i as int + 1) == ds.take(i as int).push(ds[i as int]));
            assert(actions_view(actions@) =~= ds.take(i as int + 1).map_values(
                |d: DetectionModel| action_for_change(d),
            ));
            i += 1;
        }
        assert(ds.take(changes@.len() as int) == ds);
        actions
    }

    /// A bookmark with a new title and icon, accessed at time `now`.
    pub fn apply_bookmark_update_at(
        &self,
        bookmark: &BookmarkInfo,
        new_title: Option<String>,
        new_favicon: Option<String>,
        now: i64,
    ) -> (r: BookmarkInfo)
        ensures
            r@ == updated_bookmark(bookmark@, opt_view(new_title), opt_view(new_favicon), now),
    {
        let mut updated = bookmark.duplicate();
        if let Some(title) = new_title {
            updated.title = title;
        }
        if let Some(favicon) = new_favicon {
            updated.favicon_url = Some(favicon);
        }
        updated.last_accessed = Some(now);
        updated
    }

    /// A bookmark with a new title and icon, accessed now.
    pub fn apply_bookmark_update(
        &self,
        bookmark: &BookmarkInfo,
        new_title: Option<String>,
        new_favicon: Option<String>,
    ) -> (r: BookmarkInfo)
        ensures
            exists|now: i64|
                r@ == #[trigger] updated_bookmark(
                    bookmark@,
                    opt_view(new_title),
                    opt_view(new_favicon),
                    now,
                ),
    {
        let now = now_millis();
        self.apply_bookmark_update_at(bookmark, new_title, new_favicon, now)
    }

    /// A bookmark made from a tab, and the page that records it, now: the
    /// bookmark inherits the page's analysed content.
    pub fn create_bookmark_from_tab_with_inheritance(
        &self,
        tab: &TabInfo,
        unified_page: &UnifiedPageInfo,
        folder_path: Vec<String>,
    ) -> (r: (BookmarkInfo, UnifiedPageInfo))
        ensures
            exists|id: Seq<char>, now: i64|
                (r.0@, r.1@) == #[trigger] bookmark_from_tab(
                    tab@,
                    unified_page@,
                    strings_view(folder_path@),
                    id,
                    now,
                ),
    {
        let id = new_id_string();
        let now = now_millis();
        create_bookmark_from_tab(tab, unified_page, folder_path, id, now)
    }

    /// The merge of a tab and a bookmark into a unified page at time `now`;
    /// `fresh_id` is the page's id where there is no existing page, and
    /// `fresh_bookmark_id` names the bookmark of an empty page.
    pub fn merge_to_unified_page_at(
        &self,
        tab: Option<&TabInfo>,
        bookmark: Option<&BookmarkInfo>,
        existing_page: Option<&UnifiedPageInfo>,
        fresh_id: u128,
        fresh_bookmark_id: String,
        now: i64,
    ) -> (r: UnifiedPageInfo)
        ensures
            r@ == merged_page(
                opt_tab_view(tab),
                opt_bookmark_view(bookmark),
                opt_page_view(existing_page),
                fresh_id,
                fresh_bookmark_id@,
                now,
            ),
    {
        let id = match existing_page {
            Some(p) => p.id,
            None => fresh_id,
        };
        if tab.is_none() && bookmark.is_none() {
            let kw: Vec<String> = Vec::new();
            proof {
                assert(strings_view(kw@) =~= Seq::<Seq<char>>::empty());
            }
            return match existing_page {
                Some(p) => p.duplicate(),
                None => UnifiedPageInfo {
                    id,
                    url: String::new(),
                    title: String::new(),
                    favicon_url: None,
                    content_summary: None,
                    keywords: kw,
                    category: None,
                    source_type: PageSourceType::Bookmark {
                        browser: crate::model::BrowserType::Chrome,
                        bookmark_id: fresh_bookmark_id,
                    },
                    browser_info: None,
                    tab_info: None,
                    bookmark_info: None,
                    created_at: now,
                    last_accessed: now,
                    access_count: 0,
                },
            };
        }
        let (url, title, favicon_url, browser_type) = match tab {
            Some(t) => (
                copy_string(&t.url),
                copy_string(&t.title),
                match &t.favicon_url {
                    Some(f) => Some(copy_string(f)),
                    None => match bookmark {
                        Some(b) => copy_opt_string(&b.favicon_url),
                        None => None,
                    },
                },
                t.browser_type,
            ),
            None => {
                let b = bookmark.unwrap();
                (copy_string(&b.url), copy_string(&b.title), copy_opt_string(&b.favicon_url), b.browser_type)
            },
        };
        let source_type = match tab {
            Some(t) => PageSourceType::ActiveTab { browser: t.browser_type, tab_id: copy_string(&t.id) },
            None => {
                let b = bookmark.unwrap();
                PageSourceType::Bookmark { browser: b.browser_type, bookmark_id: copy_string(&b.id) }
            },
        };
        let (content_summary, keywords, category, created_at, access_count) = match existing_page {
            Some(p) => (
                copy_opt_summary(&p.content_summary),
                copy_strings(&p.keywords),
                copy_opt_string(&p.category),
                p.created_at,
                p.access_count.wrapping_add(1),
            ),
            None => (None, Vec::new(), None, now, 1),
        };
        let r = UnifiedPageInfo {
            id,
            url,
            title,
            favicon_url,
            content_summary,
            keywords,
            category,
            source_type,
            browser_info: Some(BrowserInstance::of_type(browser_type)),
            tab_info: match tab {
                Some(t) => Some(t.duplicate()),
                None => None,
            },
            bookmark_info: match bookmark {
                Some(b) => Some(b.duplicate()),
                None => None,
            },
            created_at,
            last_accessed: now,
            access_count,
        };
        proof {
            if existing_page is None {
                assert(strings_view(r.keywords@) =~= Seq::<Seq<char>>::empty());
            }
        }
        r
    }

    /// The merge of a tab and a bookmark into a unified page, now.
    pub fn merge_to_unified_page(
        &self,
        tab: Option<&TabInfo>,
        bookmark: Option<&BookmarkInfo>,
        existing_page: Option<&UnifiedPageInfo>,
    ) -> (r: UnifiedPageInfo)
        ensures
            exists|fresh_id: u128, fresh_bookmark_id: Seq<char>, now: i64|
                r@ == #[trigger] merged_page(
                    opt_tab_view(tab),
                    opt_bookmark_view(bookmark),
                    opt_page_view(existing_page),
                    fresh_id,
                    fresh_bookmark_id,
                    now,
                ),
    {
        let fresh_id = new_uuid();
        let fresh_bookmark_id = new_id_string();
        let now = now_millis();
        self.merge_to_unified_page_at(tab, bookmark, existing_page, fresh_id, fresh_bookmark_id, now)
    }

    /// Batch merging at time `now`: one unified page per normalized URL,
    /// tabs first (each with its bookmark, the one of the same URL or else of
    /// the same normalized URL, and the existing page of the same URL), then
    /// the bookmarks whose normalized URL no tab has. The `i`-th
    /// tab's new page takes `fresh_ids[i]`, the `j`-th bookmark's takes
    /// `fresh_ids[tabs.len() + j]`.
    pub fn batch_merge_at(
        &self,
        tabs: &[TabInfo],
        bookmarks: &[BookmarkInfo],
        existing_pages: &[UnifiedPageInfo],
        fresh_ids: &[u128],
        now: i64,
    ) -> (r: Vec<UnifiedPageInfo>)
        requires
            fresh_ids@.len() >= tabs@.len() + bookmarks@.len(),
        ensures
            pages_view(r@) == batch_merged(
                self.matcher.config.normalize_urls,
                tabs_view(tabs@),
                bookmarks_view(bookmarks@),
                pages_view(existing_pages@),
                fresh_ids@,
                now,
            ),
    {
        let ghost norm = self.matcher.config.normalize_urls;
        let ghost ts = tabs_view(tabs@);
        let ghost bs = bookmarks_view(bookmarks@);
        let ghost ps = pages_view(existing_pages@);
        let ghost ids = fresh_ids@;
        let mut bm_norms: Vec<String> = Vec::new();
        let mut q: usize = 0;
        while q < bookmarks.len()
            invariant
                q <= bookmarks@.len(),
                bm_norms@.len() == q,
                norm == self.matcher.config.normalize_urls,
                forall|x: int|
                    0 <= x < q ==> (#[trigger] bm_norms@[x])@ == normalized_url(norm, bookmarks@[x].url@),
            decreases bookmarks@.len() - q,
        {
            bm_norms.push(self.matcher.normalize_url(&bookmarks[q].url));
            q += 1;
        }
        let mut result: Vec<UnifiedPageInfo> = Vec::new();
        let mut processed: Vec<String> = Vec::new();
        let mut i: usize = 0;
        assert(ts.take(0) =~= Seq::<TabModel>::empty());
        assert(strings_view(processed@).to_set() =~= Set::<Seq<char>>::empty());
        while i < tabs.len()
            invariant
                i <= tabs@.len(),
                norm == self.matcher.config.normalize_urls,
                ts == tabs_view(tabs@),
                bs == bookmarks_view(bookmarks@),
                ps == pages_view(existing_pages@),
                ids == fresh_ids@,
                fresh_ids@.len() >= tabs@.len() + bookmarks@.len(),
                bm_norms@.len() == bookmarks@.len(),
                forall|x: int|
                    0 <= x < bookmarks@.len() ==> (#[trigger] bm_norms@[x])@ == normalized_url(norm, bookmarks@[x].url@),
                (pages_view(result@), strings_view(processed@).to_set()) == tab_pass(
                    norm,
                    ts.take(i as int),
                    bs,
                    ps,
                    ids,
                    now,
                ),
            decreases tabs@.len() - i,
        {
            let tab = &tabs[i];
            assert(ts.take(i as int + 1).drop_last() == ts.take(i as int));
            assert(ts.take(i as int + 1).last() == tab@);
            let n = self.matcher.normalize_url(&tab.url);
            if !contains_string(&processed, &n) {
                let exact = bookmark_with_url(bookmarks, &tab.url);
                let b = match exact {
                    Some(x) => Some(x),
                    None => bookmark_with_normalized(bookmarks, &bm_norms, &n, Ghost(norm)),
                };
                let e = page_with_url(existing_pages, &tab.url);
                let u = self.merge_to_unified_page_at(Some(tab), b, e, fresh_ids[i], String::new(), now);
                let ghost old_r = result@;
                let ghost old_p = processed@;
                result.push(u);
                processed.push(n);
                proof {
                    assert(pages_view(result@) =~= pages_view(old_r).push(u@));
                    assert(strings_view(processed@) =~= strings_view(old_p).push(n@));
                    strings_view(old_p).lemma_push_to_set_commute(n@);
                }
            }
            i += 1;
        }
        assert(ts.take(tabs@.len() as int) == ts);
        let mut j: usize = 0;
        assert(bs.take(0) =~= Seq::<BookmarkModel>::empty());
        assert(bookmark_pass(norm, ts, bs.take(0), bs, ps, ids, now) == tab_pass(norm, ts, bs, ps, ids, now));
        while j < bookmarks.len()
            invariant
                j <= bookmarks@.len(),
                norm == self.matcher.config.normalize_urls,
                ts == tabs_view(tabs@),
                bs == bookmarks_view(bookmarks@),
                ps == pages_view(existing_pages@),
                ids == fresh_ids@,
                fresh_ids@.len() >= tabs@.len() + bookmarks@.len(),
                (pages_view(result@), strings_view(processed@).to_set()) == bookmark_pass(
                    norm,
                    ts,
                    bs.take(j as int),
                    bs,
                    ps,
                    ids,
                    now,
                ),
            decreases bookmarks@.len() - j,
        {
            let bm = &bookmarks[j];
            assert(fresh_ids@.len() == fresh_ids.len());
            assert(bs.take(j as int + 1).drop_last() == bs.take(j as int));
            assert(bs.take(j as int + 1).last() == bm@);
            let n = self.matcher.normalize_url(&bm.url);
            if !contains_string(&processed, &n) {
                let e = page_with_url(existing_pages, &bm.url);
                let u = self.merge_to_unified_page_at(
                    None,
                    Some(bm),
                    e,
                    fresh_ids[tabs.len() + j],
                    String::new(),
                    now,
                );
                let ghost old_r = result@;
                let ghost old_p = processed@;
                result.push(u);
                processed.push(n);
                proof {
                    assert(pages_view(result@) =~= pages_view(old_r).push(u@));
                    assert(strings_view(processed@) =~= strings_view(old_p).push(n@));
                    strings_view(old_p).lemma_push_to_set_commute(n@);
                }
            }
            j += 1;
        }
        assert(bs.take(bookmarks@.len() as int) == bs);
        result
    }

    /// Batch merging, now, with fresh page ids.
    pub fn batch_merge(
        &self,
        tabs: &[TabInfo],
        bookmarks: &[BookmarkInfo],
        existing_pages: &[UnifiedPageInfo],
    ) -> (r: Vec<UnifiedPageInfo>)
        requires
            tabs@.len() + bookmarks@.len() <= usize::MAX,
        ensures
            exists|ids: Seq<u128>, now: i64|
                ids.len() == tabs@.len() + bookmarks@.len() && pages_view(r@) == #[trigger] batch_merged(
                    self.matcher.config.normalize_urls,
                    tabs_view(tabs@),
                    bookmarks_view(bookmarks@),
                    pages_view(existing_pages@),
                    ids,
                    now,
                ),
    {
        let total = tabs.len() + bookmarks.len();
        let mut ids: Vec<u128> = Vec::new();
        let mut k: usize = 0;
        while k < total
            invariant
                k <= total,
                ids@.len() == k,
            decreases total - k,
        {
            ids.push(new_uuid());
            k += 1;
        }
        let now = now_millis();
        self.batch_merge_at(tabs, bookmarks, existing_pages, &ids, now)
    }
}

/// Whether a list of strings holds one with the characters of `s`.
pub fn contains_string(v: &Vec<String>, s: &String) -> (r: bool)
    ensures
        r == strings_view(v@).contains(s@),
{
    let mut i: usize = 0;
    while i < v.len()
        invariant
            i <= v@.len(),
            forall|k: int| 0 <= k < i ==> strings_view(v@)[k] != s@,
        decreases v@.len() - i,
    {
        if v[i] == *s {
            assert(strings_view(v@)[i as int] == s@);
            return true;
        }
        i += 1;
    }
    false
}

// ---------------------------------------------------------------------------
// The queue of changes awaiting approval
// ---------------------------------------------------------------------------

/// A detected change with its suggested action, awaiting the user's approval.
#[derive(Clone, Debug)]
pub struct PendingSyncItem {
    pub change: ContentChangeDetection,
    pub suggested_action: SyncAction,
    pub approved: bool,
}

/// The mathematical value of a [`PendingSyncItem`].
pub ghost struct PendingModel {
    pub change: DetectionModel,
    pub suggested_action: ActionModel,
    pub approved: bool,
}

impl View for PendingSyncItem {
    type V = PendingModel;

    open spec fn view(&self) -> PendingModel {
        PendingModel {
            change: self.change@,
            suggested_action: self.suggested_action@,
            approved: self.approved,
        }
    }
}

impl PendingSyncItem {
    /// A copy of this item.
    pub fn duplicate(&self) -> (r: PendingSyncItem)
        ensures
            r@ == self@,
    {
        PendingSyncItem {
            change: self.change.duplicate(),
            suggested_action: self.suggested_action.duplicate(),
            approved: self.approved,
        }
    }
}

/// The views of a sequence of pending items.
pub open spec fn pending_view(v: Seq<PendingSyncItem>) -> Seq<PendingModel> {
    v.map_values(|p: PendingSyncItem| p@)
}

/// Whether a pending item is approved.
pub open spec fn is_approved(p: PendingModel) -> bool {
    p.approved
}

/// Whether a pending item awaits approval.
pub open spec fn is_unapproved(p: PendingModel) -> bool {
    !p.approved
}

/// Changes awaiting the user's approval, in the order they were added.
pub struct SyncQueue {
    pending: Vec<PendingSyncItem>,
}

impl View for SyncQueue {
    type V = Seq<PendingModel>;

    closed spec fn view(&self) -> Seq<PendingModel> {
        pending_view(self.pending@)
    }
}

impl SyncQueue {
    /// An empty queue.
    pub fn new() -> (r: Self)
        ensures
            r@ == Seq::<PendingModel>::empty(),
    {
        let r = SyncQueue { pending: Vec::new() };
        assert(r@ =~= Seq::<PendingModel>::empty());
        r
    }

    /// Adds a change and its action, not yet approved.
    pub fn add(&mut self, change: ContentChangeDetection, action: SyncAction)
        ensures
            final(self)@ == old(self)@.push(
                PendingModel { change: change@, suggested_action: action@, approved: false },
            ),
    {
        let ghost old_p = self.pending@;
        self.pending.push(PendingSyncItem { change, suggested_action: action, approved: false });
        assert(pending_view(self.pending@) =~= pending_view(old_p).push(self.pending@.last()@));
    }

    /// The pending items.
    pub fn pending_items(&self) -> (r: &[PendingSyncItem])
        ensures
            pending_view(r@) == self@,
    {
        self.pending.as_slice()
    }

    /// The number of pending items.
    pub fn pending_count(&self) -> (r: usize)
        ensures
            r == self@.len(),
    {
        self.pending.len()
    }

    /// Approves the item at `index`; false where there is none.
    pub fn approve(&mut self, index: usize) -> (r: bool)
        ensures
            r == (index < old(self)@.len()),
            r ==> final(self)@ == old(self)@.update(
                index as int,
                PendingModel { approved: true, ..old(self)@[index as int] },
            ),
            !r ==> final(self)@ == old(self)@,
    {
        if index < self.pending.len() {
            let ghost old_p = self.pending@;
            let mut item = self.pending[index].duplicate();
            item.approved = true;
            self.pending.set(index, item);
            assert(pending_view(self.pending@) =~= pending_view(old_p).update(
                index as int,
                PendingModel { approved: true, ..pending_view(old_p)[index as int] },
            ));
            true
        } else {
            false
        }
    }

    /// Approves every pending item.
    pub fn approve_all(&mut self)
        ensures
            final(self)@ == old(self)@.map_values(
                |p: PendingModel| PendingModel { approved: true, ..p },
            ),
    {
        let ghost old_v = pending_view(self.pending@);
        let mut i: usize = 0;
        while i < self.pending.len()
            invariant
                i <= self.pending@.len(),
                self.pending@.len() == old_v.len(),
                forall|k: int|
                    0 <= k < old_v.len() ==> #[trigger] pending_view(self.pending@)[k] == if k < i {
                        PendingModel { approved: true, ..old_v[k] }
                    } else {
                        old_v[k]
                    },
            decreases self.pending@.len() - i,
        {
            let ghost prev = self.pending@;
            let mut item = self.pending[i].duplicate();
            item.approved = true;
            self.pending.set(i, item);
            assert(self.pending@ == prev.update(i as int, item));
            assert forall|k: int| 0 <= k < old_v.len() implies #[trigger] pending_view(self.pending@)[k]
                == if k < i + 1 {
                PendingModel { approved: true, ..old_v[k] }
            } else {
                old_v[k]
            } by {
                if k != i {
                    assert(pending_view(self.pending@)[k] == pending_view(prev)[k]);
                }
            }
            i += 1;
        }
        assert(pending_view(self.pending@) =~= old_v.map_values(
            |p: PendingModel| PendingModel { approved: true, ..p },
        ));
    }

    /// Removes and returns the approved items, in order; the others stay.
    pub fn take_approved(&mut self) -> (r: Vec<PendingSyncItem>)
        ensures
            pending_view(r@) == old(self)@.filter(|p: PendingModel| is_approved(p)),
            final(self)@ == old(self)@.filter(|p: PendingModel| is_unapproved(p)),
    {
        let ghost old_v = pending_view(self.pending@);
        let mut approved: Vec<PendingSyncItem> = Vec::new();
        let mut remaining: Vec<PendingSyncItem> = Vec::new();
        let mut i: usize = 0;
        while i < self.pending.len()
            invariant
                i <= self.pending@.len(),
                old_v == pending_view(self.pending@),
                pending_view(approved@) == old_v.take(i as int).filter(
                    |p: PendingModel| is_approved(p),
                ),
                pending_view(remaining@) == old_v.take(i as int).filter(
                    |p: PendingModel| is_unapproved(p),
                ),
            decreases self.pending@.len() - i,
        {
            let item = self.pending[i].duplicate();
            let ghost x = old_v[i as int];
            assert(item@ == x);
            assert(old_v.take(i as int + 1) == old_v.take(i as int).push(x));
            proof {
                old_v.take(i as int).lemma_filter_push(x, |p: PendingModel| is_approved(p));
                old_v.take(i as int).lemma_filter_push(x, |p: PendingModel| is_unapproved(p));
            }
            if item.approved {
                let ghost o = approved@;
                approved.push(item);
                assert(pending_view(approved@) =~= pending_view(o).push(x));
            } else {
                let ghost o = remaining@;
                remaining.push(item);
                assert(pending_view(remaining@) =~= pending_view(o).push(x));
            }
            i += 1;
        }
        assert(old_v.take(old_v.len() as int) == old_v);
        self.pending = remaining;
        approved
    }

    /// Removes every pending item.
    pub fn clear(&mut self)
        ensures
            final(self)@ == Seq::<PendingModel>::empty(),
    {
        self.pending.clear();
        assert(pending_view(self.pending@) =~= Seq::<PendingModel>::empty());
    }

    /// Whether nothing is pending.
    pub fn is_empty(&self) -> (r: bool)
        ensures
            r == (self@.len() == 0),
    {
        self.pending.len() == 0
    }
}

impl Default for SyncQueue {
    fn default() -> (r: Self)
        ensures
            r@ == Seq::<PendingModel>::empty(),
    {
        Self::new()
    }
}

impl Default for DataSyncManager {
    fn default() -> (r: Self)
        ensures
            r.matcher.config.normalize_urls,
            r.matcher.config.match_exact_url,
            r.matcher.config.match_domain,
    {
        Self::new()
    }
}

// ---------------------------------------------------------------------------
// Laws
// ---------------------------------------------------------------------------

/// The normalized URLs of a sequence of pages.
pub open spec fn normalized_urls(norm: bool, r: Seq<PageModel>) -> Seq<Seq<char>> {
    r.map_values(|p: PageModel| normalized_url(norm, p.url))
}

/// The state of a batch merge is consistent: the set of merged URLs is the
/// set of the pages' normalized URLs, and no two pages share one.
pub open spec fn merge_state_ok(norm: bool, st: (Seq<PageModel>, Set<Seq<char>>)) -> bool {
    &&& st.1 == normalized_urls(norm, st.0).to_set()
    &&& normalized_urls(norm, st.0).no_duplicates()
}

proof fn lemma_merge_step(norm: bool, r: Seq<PageModel>, done: Set<Seq<char>>, p: PageModel)
    requires
        merge_state_ok(norm, (r, done)),
        !done.contains(normalized_url(norm, p.url)),
    ensures
        merge_state_ok(norm, (r.push(p), done.insert(normalized_url(norm, p.url)))),
{
    let n = normalized_url(norm, p.url);
    assert(normalized_urls(norm, r.push(p)) =~= normalized_urls(norm, r).push(n));
    normalized_urls(norm, r).lemma_push_to_set_commute(n);
    let s = normalized_urls(norm, r).push(n);
    assert forall|i: int, j: int| 0 <= i < s.len() && 0 <= j < s.len() && i != j implies s[i]
        != s[j] by {
        if i == s.len() - 1 {
            assert(normalized_urls(norm, r).to_set().contains(s[j]));
        } else if j == s.len() - 1 {
            assert(normalized_urls(norm, r).to_set().contains(s[i]));
        }
    }
}

proof fn lemma_tab_pass(
    norm: bool,
    tabs: Seq<TabModel>,
    bms: Seq<BookmarkModel>,
    pages: Seq<PageModel>,
    ids: Seq<u128>,
    now: i64,
)
    ensures
        merge_state_ok(norm, tab_pass(norm, tabs, bms, pages, ids, now)),
        forall|k: int|
            0 <= k < tabs.len() ==> tab_pass(norm, tabs, bms, pages, ids, now).1.contains(
                normalized_url(norm, #[trigger] tabs[k].url),
            ),
    decreases tabs.len(),
{
    if tabs.len() == 0 {
        assert(normalized_urls(norm, Seq::<PageModel>::empty()) =~= Seq::<Seq<char>>::empty());
        assert(Seq::<Seq<char>>::empty().to_set() =~= Set::<Seq<char>>::empty());
    } else {
        let rest = tabs.drop_last();
        lemma_tab_pass(norm, rest, bms, pages, ids, now);
        let (r, done) = tab_pass(norm, rest, bms, pages, ids, now);
        let t = tabs.last();
        let n = normalized_url(norm, t.url);
        if !done.contains(n) {
            let p = merged_page(
                Some(t),
                bookmark_for_tab(norm, bms, t.url),
                last_page_with_url(pages, t.url),
                ids[tabs.len() - 1],
                seq![],
                now,
            );
            lemma_merge_step(norm, r, done, p);
        }
        assert forall|k: int| 0 <= k < tabs.len() implies tab_pass(
            norm,
            tabs,
            bms,
            pages,
            ids,
            now,
        ).1.contains(normalized_url(norm, #[trigger] tabs[k].url)) by {
            if k < tabs.len() - 1 {
                assert(rest[k] == tabs[k]);
            }
        }
    }
}

proof fn lemma_bookmark_pass(
    norm: bool,
    tabs: Seq<TabModel>,
    bms: Seq<BookmarkModel>,
    all_bms: Seq<BookmarkModel>,
    pages: Seq<PageModel>,
    ids: Seq<u128>,
    now: i64,
)
    ensures
        merge_state_ok(norm, bookmark_pass(norm, tabs, bms, all_bms, pages, ids, now)),
        forall|k: int|
            0 <= k < tabs.len() ==> bookmark_pass(
                norm,
                tabs,
                bms,
                all_bms,
                pages,
                ids,
                now,
            ).1.contains(normalized_url(norm, #[trigger] tabs[k].url)),
        forall|k: int|
            0 <= k < bms.len() ==> bookmark_pass(
                norm,
                tabs,
                bms,
                all_bms,
                pages,
                ids,
                now,
            ).1.contains(normalized_url(norm, #[trigger] bms[k].url)),
    decreases bms.len(),
{
    if bms.len() == 0 {
        lemma_tab_pass(norm, tabs, all_bms, pages, ids, now);
    } else {
        let rest = bms.drop_last();
        lemma_bookmark_pass(norm, tabs, rest, all_bms, pages, ids, now);
        let (r, done) = bookmark_pass(norm, tabs, rest, all_bms, pages, ids, now);
        let b = bms.last();
        let n = normalized_url(norm, b.url);
        if !done.contains(n) {
            let p = merged_page(
                None,
                Some(b),
                last_page_with_url(pages, b.url),
                ids[tabs.len() + bms.len() - 1],
                seq![],
                now,
            );
            lemma_merge_step(norm, r, done, p);
        }
        assert forall|k: int| 0 <= k < bms.len() implies bookmark_pass(
            norm,
            tabs,
            bms,
            all_bms,
            pages,
            ids,
            now,
        ).1.contains(normalized_url(norm, #[trigger] bms[k].url)) by {
            if k < bms.len() - 1 {
                assert(rest[k] == bms[k]);
            }
        }
    }
}

/// Batch merging makes at most one page per normalized URL.
pub proof fn law_batch_merge_distinct_urls(
    norm: bool,
    tabs: Seq<TabModel>,
    bms: Seq<BookmarkModel>,
    pages: Seq<PageModel>,
    ids: Seq<u128>,
    now: i64,
)
    ensures
        normalized_urls(norm, batch_merged(norm, tabs, bms, pages, ids, now)).no_duplicates(),
{
    lemma_bookmark_pass(norm, tabs, bms, bms, pages, ids, now);
}

/// Batch merging matches a tab with a bookmark whenever one has the same
/// normalized URL: the tab's page then records a bookmark of that URL.
pub proof fn law_tab_finds_bookmark_of_same_normalized_url(
    norm: bool,
    bms: Seq<BookmarkModel>,
    url: Seq<char>,
    k: int,
)
    requires
        0 <= k < bms.len(),
        normalized_url(norm, bms[k].url) == normalized_url(norm, url),
    ensures
        bookmark_for_tab(norm, bms, url) is Some,
        normalized_url(norm, bookmark_for_tab(norm, bms, url)->0.url) == normalized_url(norm, url),
    decreases bms.len(),
{
    lemma_last_bookmark_with_url(bms, url);
    if k < bms.len() - 1 && normalized_url(norm, bms.last().url) != normalized_url(norm, url) {
        law_tab_finds_bookmark_of_same_normalized_url(norm, bms.drop_last(), url, k);
        lemma_last_bookmark_with_url(bms.drop_last(), url);
    }
}

proof fn lemma_last_bookmark_with_url(bms: Seq<BookmarkModel>, url: Seq<char>)
    ensures
        last_bookmark_with_url(bms, url) matches Some(b) ==> b.url == url,
    decreases bms.len(),
{
    if bms.len() > 0 {
        lemma_last_bookmark_with_url(bms.drop_last(), url);
    }
}

/// The URL of a tab or of a bookmark among the inputs.
pub open spec fn input_url(tabs: Seq<TabModel>, bms: Seq<BookmarkModel>, url: Seq<char>) -> bool {
    ||| exists|k: int| 0 <= k < tabs.len() && #[trigger] tabs[k].url == url
    ||| exists|k: int| 0 <= k < bms.len() && #[trigger] bms[k].url == url
}

proof fn lemma_tab_pass_origin(
    norm: bool,
    tabs: Seq<TabModel>,
    bms: Seq<BookmarkModel>,
    pages: Seq<PageModel>,
    ids: Seq<u128>,
    now: i64,
)
    ensures
        forall|i: int|
            0 <= i < tab_pass(norm, tabs, bms, pages, ids, now).0.len() ==> exists|k: int|
                0 <= k < tabs.len() && #[trigger] tabs[k].url == (
                #[trigger] tab_pass(norm, tabs, bms, pages, ids, now).0[i]).url,
    decreases tabs.len(),
{
    if tabs.len() > 0 {
        let rest = tabs.drop_last();
        lemma_tab_pass_origin(norm, rest, bms, pages, ids, now);
        let r = tab_pass(norm, rest, bms, pages, ids, now).0;
        let r2 = tab_pass(norm, tabs, bms, pages, ids, now).0;
        assert forall|i: int| 0 <= i < r2.len() implies exists|k: int|
            0 <= k < tabs.len() && #[trigger] tabs[k].url == (#[trigger] r2[i]).url by {
            if i < r.len() {
                let k = choose|k: int| 0 <= k < rest.len() && #[trigger] rest[k].url == r[i].url;
                assert(tabs[k] == rest[k]);
            } else {
                assert(r2[i].url == tabs[tabs.len() - 1].url);
            }
        }
    }
}

proof fn lemma_bookmark_pass_origin(
    norm: bool,
    tabs: Seq<TabModel>,
    bms: Seq<BookmarkModel>,
    all_bms: Seq<BookmarkModel>,
    pages: Seq<PageModel>,
    ids: Seq<u128>,
    now: i64,
)
    ensures
        forall|i: int|
            0 <= i < bookmark_pass(norm, tabs, bms, all_bms, pages, ids, now).0.len() ==> input_url(
                tabs,
                bms,
                (#[trigger] bookmark_pass(norm, tabs, bms, all_bms, pages, ids, now).0[i]).url,
            ),
    decreases bms.len(),
{
    if bms.len() == 0 {
        lemma_tab_pass_origin(norm, tabs, all_bms, pages, ids, now);
    } else {
        let rest = bms.drop_last();
        lemma_bookmark_pass_origin(norm, tabs, rest, all_bms, pages, ids, now);
        let r = bookmark_pass(norm, tabs, rest, all_bms, pages, ids, now).0;
        let r2 = bookmark_pass(norm, tabs, bms, all_bms, pages, ids, now).0;
        assert forall|i: int| 0 <= i < r2.len() implies input_url(tabs, bms, (#[trigger] r2[i]).url) by {
            if i < r.len() {
                assert(r2[i] == r[i]);
                assert(input_url(tabs, rest, r[i].url));
                if exists|k: int| 0 <= k < rest.len() && #[trigger] rest[k].url == r[i].url {
                    let k = choose|k: int| 0 <= k < rest.len() && #[trigger] rest[k].url == r[i].url;
                    assert(bms[k] == rest[k]);
                }
            } else {
                assert(r2[i].url == bms[bms.len() - 1].url);
            }
        }
    }
}

/// Every page that batch merging makes has the URL of one of the tabs or
/// bookmarks it was given.
pub proof fn law_batch_merge_pages_come_from_inputs(
    norm: bool,
    tabs: Seq<TabModel>,
    bms: Seq<BookmarkModel>,
    pages: Seq<PageModel>,
    ids: Seq<u128>,
    now: i64,
)
    ensures
        forall|i: int|
            0 <= i < batch_merged(norm, tabs, bms, pages, ids, now).len() ==> input_url(
                tabs,
                bms,
                (#[trigger] batch_merged(norm, tabs, bms, pages, ids, now)[i]).url,
            ),
{
    lemma_bookmark_pass_origin(norm, tabs, bms, bms, pages, ids, now);
}

/// Every tab and every bookmark is represented by a page of the same
/// normalized URL after batch merging.
pub proof fn law_batch_merge_covers_inputs(
    norm: bool,
    tabs: Seq<TabModel>,
    bms: Seq<BookmarkModel>,
    pages: Seq<PageModel>,
    ids: Seq<u128>,
    now: i64,
)
    ensures
        forall|k: int|
            0 <= k < tabs.len() ==> normalized_urls(
                norm,
                batch_merged(norm, tabs, bms, pages, ids, now),
            ).contains(normalized_url(norm, #[trigger] tabs[k].url)),
        forall|k: int|
            0 <= k < bms.len() ==> normalized_urls(
                norm,
                batch_merged(norm, tabs, bms, pages, ids, now),
            ).contains(normalized_url(norm, #[trigger] bms[k].url)),
{
    lemma_bookmark_pass(norm, tabs, bms, bms, pages, ids, now);
    let st = bookmark_pass(norm, tabs, bms, bms, pages, ids, now);
    assert forall|x: Seq<char>| st.1.contains(x) implies normalized_urls(norm, st.0).contains(x) by {
        assert(normalized_urls(norm, st.0).to_set().contains(x));
    }
}

/// Merging prefers the tab: the page has the tab's URL and title, and records
/// both the tab and the bookmark.
pub proof fn law_merge_prefers_tab(
    tab: TabModel,
    bm: Option<BookmarkModel>,
    existing: Option<PageModel>,
    fresh_id: u128,
    fresh_bookmark_id: Seq<char>,
    now: i64,
)
    ensures
        ({
            let p = merged_page(Some(tab), bm, existing, fresh_id, fresh_bookmark_id, now);
            &&& p.url == tab.url
            &&& p.title == tab.title
            &&& p.tab_info == Some(tab)
            &&& p.bookmark_info == bm
        }),
{
}

/// The favicon of a merged page: the tab's where it has one, else the
/// bookmark's; the bookmark's where there is no tab.
pub proof fn law_merge_favicon(
    tab: Option<TabModel>,
    bm: Option<BookmarkModel>,
    existing: Option<PageModel>,
    fresh_id: u128,
    fresh_bookmark_id: Seq<char>,
    now: i64,
)
    requires
        tab is Some || bm is Some,
    ensures
        ({
            let p = merged_page(tab, bm, existing, fresh_id, fresh_bookmark_id, now);
            &&& tab is Some && tab->0.favicon_url is Some ==> p.favicon_url == tab->0.favicon_url
            &&& tab is Some && tab->0.favicon_url is None && bm is Some ==> p.favicon_url
                == bm->0.favicon_url
            &&& tab is Some && tab->0.favicon_url is None && bm is None ==> p.favicon_url is None
            &&& tab is None && bm is Some ==> p.favicon_url == bm->0.favicon_url
        }),
{
}

/// Merging into an existing page keeps its identity, creation time and
/// analysed content, and counts one more access.
pub proof fn law_merge_keeps_analysis(
    tab: Option<TabModel>,
    bm: Option<BookmarkModel>,
    existing: PageModel,
    fresh_id: u128,
    fresh_bookmark_id: Seq<char>,
    now: i64,
)
    requires
        tab is Some || bm is Some,
        existing.access_count < u64::MAX,
    ensures
        ({
            let p = merged_page(tab, bm, Some(existing), fresh_id, fresh_bookmark_id, now);
            &&& p.id == existing.id
            &&& p.created_at == existing.created_at
            &&& p.content_summary == existing.content_summary
            &&& p.keywords == existing.keywords
            &&& p.category == existing.category
            &&& p.access_count == existing.access_count + 1
        }),
{
}

/// A bookmark made from a tab inherits the page's analysed content.
pub proof fn law_bookmark_inherits_analysis(
    tab: TabModel,
    page: PageModel,
    folder_path: Seq<Seq<char>>,
    bookmark_id: Seq<char>,
    now: i64,
)
    ensures
        ({
            let (b, p) = bookmark_from_tab(tab, page, folder_path, bookmark_id, now);
            &&& b.url == tab.url
            &&& b.title == tab.title
            &&& p.content_summary == page.content_summary
            &&& p.keywords == page.keywords
            &&& p.category == page.category
            &&& p.bookmark_info == Some(b)
        }),
{
}

/// Approving everything and then taking the approved items empties the queue
/// and yields every item, in order.
pub proof fn law_approve_all_then_take(q: Seq<PendingModel>)
    ensures
        ({
            let a = q.map_values(|p: PendingModel| PendingModel { approved: true, ..p });
            &&& a.filter(|p: PendingModel| is_approved(p)) == a
            &&& a.filter(|p: PendingModel| is_unapproved(p)) == Seq::<PendingModel>::empty()
        }),
    decreases q.len(),
{
    let f = |p: PendingModel| PendingModel { approved: true, ..p };
    let a = q.map_values(f);
    if q.len() > 0 {
        law_approve_all_then_take(q.drop_last());
        let b = q.drop_last().map_values(f);
        assert(a == b.push(f(q.last())));
        b.lemma_filter_push(f(q.last()), |p: PendingModel| is_approved(p));
        b.lemma_filter_push(f(q.last()), |p: PendingModel| is_unapproved(p));
    } else {
        assert(a =~= Seq::<PendingModel>::empty());
        reveal(Seq::filter);
    }
}

} // verus!
