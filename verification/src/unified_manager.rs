//! The page unified manager: the cached tabs, bookmarks and unified pages,
//! the association of each tab with its bookmark, and the queue of bookmark
//! updates awaiting approval.

use vstd::prelude::*;
use crate::matcher::{
    ContentChangeDetection, ContentChangeDetector, DetectionModel, MatchInfo, MatchModel,
    MatcherConfig, TabBookmarkMatcher, TabMatches, TabMatchesModel, all_changes, bookmarks_view,
    detection_has_changes, first_match, match_map_of, matches_for_bookmark, matches_for_tab,
    matches_view, normalized_url, opt_match_view, tabs_view,
};
use crate::model::{
    BookmarkInfo, BookmarkModel, PageModel, SummaryModel, TabInfo, TabModel, UnifiedPageInfo,
    opt_model,
};
use crate::sync::{
    ActionModel, DataSyncManager, PendingModel, PendingSyncItem, SyncAction, SyncQueue, SyncResult,
    UpdatesModel, action_for_change, actions_view, batch_merged, bookmark_from_tab, is_approved,
    is_unapproved, merged_page, pages_view, pending_view, updated_bookmark,
};
use crate::text::{copy_string, opt_view, strings_view};

verus! {

/// Configuration of a [`PageUnifiedManager`].
#[derive(Clone, Copy, Debug)]
pub struct PageUnifiedManagerConfig {
    pub matcher_config: MatcherConfig,
    /// Whether to queue bookmark updates whenever the data changes.
    pub auto_detect_changes: bool,
    /// The most pending sync items the queue takes.
    pub max_pending_sync_items: usize,
}

impl Default for PageUnifiedManagerConfig {
    fn default() -> (r: Self)
        ensures
            r.matcher_config.match_exact_url,
            r.matcher_config.match_domain,
            r.matcher_config.match_content,
            r.matcher_config.normalize_urls,
            r.matcher_config.content_similarity_threshold_percent == 70,
            r.auto_detect_changes,
            r.max_pending_sync_items == 100,
    {
        PageUnifiedManagerConfig {
            matcher_config: MatcherConfig::default(),
            auto_detect_changes: true,
            max_pending_sync_items: 100,
        }
    }
}

/// Whether a tab has a bookmark and whether that bookmark is out of date.
#[derive(Clone, Debug)]
pub struct TabAssociationStatus {
    pub tab_id: String,
    pub has_bookmark: bool,
    pub matching_bookmark: Option<MatchInfo>,
    pub has_pending_changes: bool,
    pub pending_changes: Option<ContentChangeDetection>,
}

/// The mathematical value of a [`TabAssociationStatus`].
pub ghost struct AssocModel {
    pub tab_id: Seq<char>,
    pub has_bookmark: bool,
    pub matching_bookmark: Option<MatchModel>,
    pub has_pending_changes: bool,
    pub pending_changes: Option<DetectionModel>,
}

impl View for TabAssociationStatus {
    type V = AssocModel;

    open spec fn view(&self) -> AssocModel {
        AssocModel {
            tab_id: self.tab_id@,
            has_bookmark: self.has_bookmark,
            matching_bookmark: opt_match_view(self.matching_bookmark),
            has_pending_changes: self.has_pending_changes,
            pending_changes: match self.pending_changes {
                Some(d) => Some(d@),
                None => None,
            },
        }
    }
}

impl TabAssociationStatus {
    /// A copy of this status.
    pub fn duplicate(&self) -> (r: TabAssociationStatus)
        ensures
            r@ == self@,
    {
        TabAssociationStatus {
            tab_id: copy_string(&self.tab_id),
            has_bookmark: self.has_bookmark,
            matching_bookmark: match &self.matching_bookmark {
                Some(m) => Some(m.duplicate()),
                None => None,
            },
            has_pending_changes: self.has_pending_changes,
            pending_changes: match &self.pending_changes {
                Some(d) => Some(d.duplicate()),
                None => None,
            },
        }
    }
}

/// The views of a sequence of statuses.
pub open spec fn assocs_view(v: Seq<TabAssociationStatus>) -> Seq<AssocModel> {
    v.map_values(|a: TabAssociationStatus| a@)
}

/// Counts describing the manager's state.
#[derive(Clone, Debug, Default)]
pub struct UnifiedManagerStats {
    pub total_pages: usize,
    pub active_tab_pages: usize,
    pub bookmark_only_pages: usize,
    pub matched_pages: usize,
    pub pending_sync_count: usize,
    pub detected_changes_count: usize,
}

// ---------------------------------------------------------------------------
// Specifications
// ---------------------------------------------------------------------------

/// The last entry of a match map for a tab id, as a map keyed by tab id holds it.
pub open spec fn entry_for(map: Seq<TabMatchesModel>, id: Seq<char>) -> Option<TabMatchesModel>
    decreases map.len(),
{
    if map.len() == 0 {
        None
    } else if map.last().tab_id == id {
        Some(map.last())
    } else {
        entry_for(map.drop_last(), id)
    }
}

/// The last detection for a tab id.
pub open spec fn change_for_tab(ds: Seq<DetectionModel>, id: Seq<char>) -> Option<DetectionModel>
    decreases ds.len(),
{
    if ds.len() == 0 {
        None
    } else if ds.last().tab_id == id {
        Some(ds.last())
    } else {
        change_for_tab(ds.drop_last(), id)
    }
}

/// The last detection for a bookmark id.
pub open spec fn change_for_bookmark(ds: Seq<DetectionModel>, id: Seq<char>) -> Option<
    DetectionModel,
>
    decreases ds.len(),
{
    if ds.len() == 0 {
        None
    } else if ds.last().bookmark_id == id {
        Some(ds.last())
    } else {
        change_for_bookmark(ds.drop_last(), id)
    }
}

/// The association status of a tab given the match map and the detected
/// changes: its best match, and the last change detected for it.
pub open spec fn status_of(
    tab: TabModel,
    map: Seq<TabMatchesModel>,
    changes: Seq<DetectionModel>,
) -> AssocModel {
    let best = match entry_for(map, tab.id) {
        Some(e) => first_match(e.matches),
        None => None,
    };
    let pc = change_for_tab(changes, tab.id);
    AssocModel {
        tab_id: tab.id,
        has_bookmark: best is Some,
        matching_bookmark: best,
        has_pending_changes: match pc {
            Some(d) => detection_has_changes(d),
            None => false,
        },
        pending_changes: pc,
    }
}

/// The first index of a status with the given tab id.
pub open spec fn assoc_index(acc: Seq<AssocModel>, id: Seq<char>) -> Option<int>
    decreases acc.len(),
{
    if acc.len() == 0 {
        None
    } else {
        match assoc_index(acc.drop_last(), id) {
            Some(k) => Some(k),
            None => if acc.last().tab_id == id {
                Some(acc.len() - 1)
            } else {
                None
            },
        }
    }
}

/// A status map with one status inserted: it replaces the status of the same
/// tab id, if any.
pub open spec fn upsert(acc: Seq<AssocModel>, st: AssocModel) -> Seq<AssocModel> {
    match assoc_index(acc, st.tab_id) {
        Some(k) => acc.update(k, st),
        None => acc.push(st),
    }
}

/// The association statuses of tabs, one per distinct tab id: the status of
/// the last tab with that id.
pub open spec fn associations_of(
    tabs: Seq<TabModel>,
    map: Seq<TabMatchesModel>,
    changes: Seq<DetectionModel>,
) -> Seq<AssocModel>
    decreases tabs.len(),
{
    if tabs.len() == 0 {
        seq![]
    } else {
        upsert(associations_of(tabs.drop_last(), map, changes), status_of(tabs.last(), map, changes))
    }
}

/// The association statuses computed from tabs and bookmarks at time `now`.
pub open spec fn associations(
    cfg: MatcherConfig,
    tabs: Seq<TabModel>,
    bms: Seq<BookmarkModel>,
    now: i64,
) -> Seq<AssocModel> {
    let map = match_map_of(cfg, tabs, bms, now);
    associations_of(tabs, map, all_changes(tabs, bms, map))
}

/// The queue after the suggested actions are offered: each update action is
/// queued with the last change detected for its bookmark, while the queue
/// holds fewer than `max` items.
pub open spec fn enqueue(
    q: Seq<PendingModel>,
    changes: Seq<DetectionModel>,
    acts: Seq<ActionModel>,
    max: nat,
) -> Seq<PendingModel>
    decreases acts.len(),
{
    if acts.len() == 0 {
        q
    } else {
        let q2 = enqueue(q, changes, acts.drop_last(), max);
        let a = acts.last();
        match a {
            ActionModel::UpdateBookmark { bookmark_id, .. } => match change_for_bookmark(
                changes,
                bookmark_id,
            ) {
                Some(c) => if q2.len() < max {
                    q2.push(PendingModel { change: c, suggested_action: a, approved: false })
                } else {
                    q2
                },
                None => q2,
            },
            _ => q2,
        }
    }
}

/// The queue after bookmark updates for the current tabs and bookmarks are
/// offered.
pub open spec fn queued(
    cfg: MatcherConfig,
    max: nat,
    q: Seq<PendingModel>,
    tabs: Seq<TabModel>,
    bms: Seq<BookmarkModel>,
    now: i64,
) -> Seq<PendingModel> {
    let changes = all_changes(tabs, bms, match_map_of(cfg, tabs, bms, now));
    enqueue(q, changes, changes.map_values(|d: DetectionModel| action_for_change(d)), max)
}

/// The mathematical state of a [`PageUnifiedManager`].
pub ghost struct ManagerModel {
    pub tabs: Seq<TabModel>,
    pub bookmarks: Seq<BookmarkModel>,
    pub pages: Seq<PageModel>,
    pub queue: Seq<PendingModel>,
    pub associations: Seq<AssocModel>,
}

/// The state once associations and unified pages are recomputed at time
/// `now`, with fresh page ids `ids`.
pub open spec fn refreshed(cfg: MatcherConfig, m: ManagerModel, now: i64, ids: Seq<u128>) -> ManagerModel {
    ManagerModel {
        associations: associations(cfg, m.tabs, m.bookmarks, now),
        pages: batch_merged(cfg.normalize_urls, m.tabs, m.bookmarks, m.pages, ids, now),
        ..m
    }
}

/// The state after new data arrives: refreshed, then, where automatic change
/// detection is on, with bookmark updates queued.
pub open spec fn after_update(
    cfg: PageUnifiedManagerConfig,
    m: ManagerModel,
    now: i64,
    ids: Seq<u128>,
) -> ManagerModel {
    let r = refreshed(cfg.matcher_config, m, now, ids);
    if cfg.auto_detect_changes {
        ManagerModel {
            queue: queued(
                cfg.matcher_config,
                cfg.max_pending_sync_items as nat,
                r.queue,
                r.tabs,
                r.bookmarks,
                now,
            ),
            ..r
        }
    } else {
        r
    }
}

// ---------------------------------------------------------------------------
// Look-ups
// ---------------------------------------------------------------------------

/// The last entry of a match map for a tab id.
pub fn find_entry<'a>(map: &'a [TabMatches], id: &String) -> (r: Option<&'a TabMatches>)
    ensures
        match r {
            Some(e) => entry_for(crate::matcher::match_map_view(map@), id@) == Some(e@),
            None => entry_for(crate::matcher::match_map_view(map@), id@) is None,
        },
{
    let ghost ms = crate::matcher::match_map_view(map@);
    let mut n = map.len();
    assert(ms.take(n as int) == ms);
    while n > 0
        invariant
            n <= map@.len(),
            ms == crate::matcher::match_map_view(map@),
            entry_for(ms.take(n as int), id@) == entry_for(ms, id@),
        decreases n,
    {
        assert(ms.take(n as int).last() == map@[n - 1]@);
        if map[n - 1].tab_id == *id {
            return Some(&map[n - 1]);
        }
        assert(ms.take(n as int).drop_last() == ms.take(n - 1));
        n -= 1;
    }
    None
}

/// The last detection for a tab id.
pub fn find_change_for_tab<'a>(ds: &'a [ContentChangeDetection], id: &String) -> (r: Option<
    &'a ContentChangeDetection,
>)
    ensures
        match r {
            Some(d) => change_for_tab(crate::matcher::detections_view(ds@), id@) == Some(d@),
            None => change_for_tab(crate::matcher::detections_view(ds@), id@) is None,
        },
{
    let ghost v = crate::matcher::detections_view(ds@);
    let mut n = ds.len();
    assert(v.take(n as int) == v);
    while n > 0
        invariant
            n <= ds@.len(),
            v == crate::matcher::detections_view(ds@),
            change_for_tab(v.take(n as int), id@) == change_for_tab(v, id@),
        decreases n,
    {
        assert(v.take(n as int).last() == ds@[n - 1]@);
        if ds[n - 1].tab_id == *id {
            return Some(&ds[n - 1]);
        }
        assert(v.take(n as int).drop_last() == v.take(n - 1));
        n -= 1;
    }
    None
}

/// The last detection for a bookmark id.
pub fn find_change_for_bookmark<'a>(ds: &'a [ContentChangeDetection], id: &String) -> (r: Option<
    &'a ContentChangeDetection,
>)
    ensures
        match r {
            Some(d) => change_for_bookmark(crate::matcher::detections_view(ds@), id@) == Some(d@),
            None => change_for_bookmark(crate::matcher::detections_view(ds@), id@) is None,
        },
{
    let ghost v = crate::matcher::detections_view(ds@);
    let mut n = ds.len();
    assert(v.take(n as int) == v);
    while n > 0
        invariant
            n <= ds@.len(),
            v == crate::matcher::detections_view(ds@),
            change_for_bookmark(v.take(n as int), id@) == change_for_bookmark(v, id@),
        decreases n,
    {
        assert(v.take(n as int).last() == ds@[n - 1]@);
        if ds[n - 1].bookmark_id == *id {
            return Some(&ds[n - 1]);
        }
        assert(v.take(n as int).drop_last() == v.take(n - 1));
        n -= 1;
    }
    None
}

/// `assoc_index` finds the first status with the id.
pub proof fn lemma_assoc_index(acc: Seq<AssocModel>, id: Seq<char>)
    ensures
        match assoc_index(acc, id) {
            Some(k) => 0 <= k < acc.len() && acc[k].tab_id == id && forall|j: int|
                0 <= j < k ==> acc[j].tab_id != id,
            None => forall|j: int| 0 <= j < acc.len() ==> acc[j].tab_id != id,
        },
    decreases acc.len(),
{
    if acc.len() > 0 {
        lemma_assoc_index(acc.drop_last(), id);
        assert forall|j: int| 0 <= j < acc.len() - 1 implies acc[j] == acc.drop_last()[j] by {}
    }
}

/// The first status with a tab id.
pub fn find_assoc(acc: &[TabAssociationStatus], id: &String) -> (r: Option<usize>)
    ensures
        match r {
            Some(k) => assoc_index(assocs_view(acc@), id@) == Some(k as int),
            None => assoc_index(assocs_view(acc@), id@) is None,
        },
{
    let ghost v = assocs_view(acc@);
    proof {
        lemma_assoc_index(v, id@);
    }
    let mut i: usize = 0;
    while i < acc.len()
        invariant
            i <= acc@.len(),
            v == assocs_view(acc@),
            forall|j: int| 0 <= j < i ==> v[j].tab_id != id@,
            match assoc_index(v, id@) {
                Some(k) => 0 <= k < v.len() && v[k].tab_id == id@ && forall|j: int|
                    0 <= j < k ==> v[j].tab_id != id@,
                None => forall|j: int| 0 <= j < v.len() ==> v[j].tab_id != id@,
            },
        decreases acc@.len() - i,
    {
        assert(v[i as int] == acc@[i as int]@);
        if acc[i].tab_id == *id {
            return Some(i);
        }
        i += 1;
    }
    None
}

/// Inserts a status, replacing the one of the same tab id.
pub fn upsert_status(acc: &mut Vec<TabAssociationStatus>, st: TabAssociationStatus)
    ensures
        assocs_view(final(acc)@) == upsert(assocs_view(old(acc)@), st@),
{
    let ghost v = assocs_view(acc@);
    proof {
        lemma_assoc_index(v, st.tab_id@);
    }
    match find_assoc(acc, &st.tab_id) {
        Some(k) => {
            let ghost stv = st@;
            acc.set(k, st);
            assert(assocs_view(acc@) =~= v.update(k as int, stv));
        },
        None => {
            let ghost stv = st@;
            acc.push(st);
            assert(assocs_view(acc@) =~= v.push(stv));
        },
    }
}

/// The association statuses of tabs given the match map and the detected changes.
pub fn compute_associations(
    tabs: &[TabInfo],
    map: &[TabMatches],
    changes: &[ContentChangeDetection],
) -> (r: Vec<TabAssociationStatus>)
    ensures
        assocs_view(r@) == associations_of(
            tabs_view(tabs@),
            crate::matcher::match_map_view(map@),
            crate::matcher::detections_view(changes@),
        ),
{
    let ghost ts = tabs_view(tabs@);
    let ghost mv = crate::matcher::match_map_view(map@);
    let ghost cv = crate::matcher::detections_view(changes@);
    let mut cache: Vec<TabAssociationStatus> = Vec::new();
    let mut i: usize = 0;
    assert(assocs_view(cache@) =~= associations_of(ts.take(0), mv, cv));
    while i < tabs.len()
        invariant
            i <= tabs@.len(),
            ts == tabs_view(tabs@),
            mv == crate::matcher::match_map_view(map@),
            cv == crate::matcher::detections_view(changes@),
            assocs_view(cache@) == associations_of(ts.take(i as int), mv, cv),
        decreases tabs@.len() - i,
    {
        let tab = &tabs[i];
        assert(ts.take(i as int + 1).drop_last() == ts.take(i as int));
        assert(ts.take(i as int + 1).last() == tab@);
        let best = match find_entry(map, &tab.id) {
            Some(e) => if e.matches.len() > 0 {
                assert(matches_view(e.matches@)[0] == e.matches@[0]@);
                Some(e.matches[0].duplicate())
            } else {
                None
            },
            None => None,
        };
        let pc = match find_change_for_tab(changes, &tab.id) {
            Some(d) => Some(d.duplicate()),
            None => None,
        };
        let has_pending = match &pc {
            Some(d) => d.has_changes(),
            None => false,
        };
        let st = TabAssociationStatus {
            tab_id: copy_string(&tab.id),
            has_bookmark: best.is_some(),
            matching_bookmark: best,
            has_pending_changes: has_pending,
            pending_changes: pc,
        };
        assert(st@ == status_of(tab@, mv, cv));
        upsert_status(&mut cache, st);
        i += 1;
    }
    assert(ts.take(tabs@.len() as int) == ts);
    cache
}

/// Offers each action to the queue with the last change detected for its
/// bookmark, while the queue holds fewer than `max` items.
pub fn enqueue_actions(
    queue: &mut SyncQueue,
    changes: &[ContentChangeDetection],
    actions: &[SyncAction],
    max: usize,
)
    ensures
        final(queue)@ == enqueue(
            old(queue)@,
            crate::matcher::detections_view(changes@),
            actions_view(actions@),
            max as nat,
        ),
{
    let ghost cv = crate::matcher::detections_view(changes@);
    let ghost av = actions_view(actions@);
    let ghost q0 = queue@;
    let mut i: usize = 0;
    assert(av.take(0) =~= Seq::<ActionModel>::empty());
    while i < actions.len()
        invariant
            i <= actions@.len(),
            cv == crate::matcher::detections_view(changes@),
            av == actions_view(actions@),
            queue@ == enqueue(q0, cv, av.take(i as int), max as nat),
        decreases actions@.len() - i,
    {
        let a = &actions[i];
        assert(av.take(i as int + 1).drop_last() == av.take(i as int));
        assert(av.take(i as int + 1).last() == a@);
        match a {
            SyncAction::UpdateBookmark { bookmark_id, .. } => {
                match find_change_for_bookmark(changes, bookmark_id) {
                    Some(c) => {
                        if queue.pending_count() < max {
                            queue.add(c.duplicate(), a.duplicate());
                        }
                    },
                    None => {},
                }
            },
            _ => {},
        }
        i += 1;
    }
    assert(av.take(actions@.len() as int) == av);
}

// ---------------------------------------------------------------------------
// The manager
// ---------------------------------------------------------------------------

/// The unified manager of tabs and bookmarks.
pub struct PageUnifiedManager {
    config: PageUnifiedManagerConfig,
    sync_manager: DataSyncManager,
    sync_queue: SyncQueue,
    unified_pages: Vec<UnifiedPageInfo>,
    tabs: Vec<TabInfo>,
    bookmarks: Vec<BookmarkInfo>,
    association_cache: Vec<TabAssociationStatus>,
}

impl View for PageUnifiedManager {
    type V = ManagerModel;

    closed spec fn view(&self) -> ManagerModel {
        ManagerModel {
            tabs: tabs_view(self.tabs@),
            bookmarks: bookmarks_view(self.bookmarks@),
            pages: pages_view(self.unified_pages@),
            queue: self.sync_queue@,
            associations: assocs_view(self.association_cache@),
        }
    }
}

/// The first page with an id.
pub open spec fn page_index(pages: Seq<PageModel>, id: u128) -> Option<int>
    decreases pages.len(),
{
    if pages.len() == 0 {
        None
    } else {
        match page_index(pages.drop_last(), id) {
            Some(k) => Some(k),
            None => if pages.last().id == id {
                Some(pages.len() - 1)
            } else {
                None
            },
        }
    }
}

/// The element at the first such index.
pub open spec fn page_with_id(pages: Seq<PageModel>, id: u128) -> Option<PageModel> {
    match page_index(pages, id) {
        Some(k) => Some(pages[k]),
        None => None,
    }
}

/// The first index is a valid index of an element with the id.
pub proof fn lemma_page_index(pages: Seq<PageModel>, id: u128)
    ensures
        match page_index(pages, id) {
            Some(k) => 0 <= k < pages.len() && pages[k].id == id,
            None => true,
        },
    decreases pages.len(),
{
    if pages.len() > 0 {
        lemma_page_index(pages.drop_last(), id);
    }
}

/// The first page whose normalized URL is `n`.
pub open spec fn page_with_normalized_url(norm: bool, pages: Seq<PageModel>, n: Seq<char>) -> Option<
    PageModel,
>
    decreases pages.len(),
{
    if pages.len() == 0 {
        None
    } else {
        match page_with_normalized_url(norm, pages.drop_last(), n) {
            Some(p) => Some(p),
            None => if normalized_url(norm, pages.last().url) == n {
                Some(pages.last())
            } else {
                None
            },
        }
    }
}

/// The first tab with an id.
pub open spec fn tab_index(tabs: Seq<TabModel>, id: Seq<char>) -> Option<int>
    decreases tabs.len(),
{
    if tabs.len() == 0 {
        None
    } else {
        match tab_index(tabs.drop_last(), id) {
            Some(k) => Some(k),
            None => if tabs.last().id == id {
                Some(tabs.len() - 1)
            } else {
                None
            },
        }
    }
}

/// The element at the first such index.
pub open spec fn tab_with_id(tabs: Seq<TabModel>, id: Seq<char>) -> Option<TabModel> {
    match tab_index(tabs, id) {
        Some(k) => Some(tabs[k]),
        None => None,
    }
}

/// The first index is a valid index of an element with the id.
pub proof fn lemma_tab_index(tabs: Seq<TabModel>, id: Seq<char>)
    ensures
        match tab_index(tabs, id) {
            Some(k) => 0 <= k < tabs.len() && tabs[k].id == id,
            None => true,
        },
    decreases tabs.len(),
{
    if tabs.len() > 0 {
        lemma_tab_index(tabs.drop_last(), id);
    }
}

/// The first bookmark with an id.
pub open spec fn bookmark_index(bms: Seq<BookmarkModel>, id: Seq<char>) -> Option<int>
    decreases bms.len(),
{
    if bms.len() == 0 {
        None
    } else {
        match bookmark_index(bms.drop_last(), id) {
            Some(k) => Some(k),
            None => if bms.last().id == id {
                Some(bms.len() - 1)
            } else {
                None
            },
        }
    }
}

/// The element at the first such index.
pub open spec fn bookmark_with_id(bms: Seq<BookmarkModel>, id: Seq<char>) -> Option<BookmarkModel> {
    match bookmark_index(bms, id) {
        Some(k) => Some(bms[k]),
        None => None,
    }
}

/// The first index is a valid index of an element with the id.
pub proof fn lemma_bookmark_index(bms: Seq<BookmarkModel>, id: Seq<char>)
    ensures
        match bookmark_index(bms, id) {
            Some(k) => 0 <= k < bms.len() && bms[k].id == id,
            None => true,
        },
    decreases bms.len(),
{
    if bms.len() > 0 {
        lemma_bookmark_index(bms.drop_last(), id);
    }
}

/// The first page with an id.
pub fn find_page_by_id(pages: &[UnifiedPageInfo], id: u128) -> (r: Option<usize>)
    ensures
        match r {
            Some(k) => k < pages@.len() && page_index(pages_view(pages@), id) == Some(k as int)
                && page_with_id(pages_view(pages@), id) == Some(pages@[k as int]@),
            None => page_index(pages_view(pages@), id) is None,
        },
{
    let ghost v = pages_view(pages@);
    let mut i: usize = 0;
    while i < pages.len()
        invariant
            i <= pages@.len(),
            v == pages_view(pages@),
            page_index(v.take(i as int), id) is None,
        decreases pages@.len() - i,
    {
        assert(v.take(i as int + 1).drop_last() == v.take(i as int));
        assert(v.take(i as int + 1).last() == pages@[i as int]@);
        if pages[i].id == id {
            proof {
                lemma_page_with_id_prefix(v, id, i as int + 1);
            }
            return Some(i);
        }
        i += 1;
    }
    assert(v.take(pages@.len() as int) == v);
    None
}

/// A first match in a prefix is the first match of the whole.
pub proof fn lemma_page_with_id_prefix(v: Seq<PageModel>, id: u128, n: int)
    requires
        0 <= n <= v.len(),
        page_index(v.take(n), id) is Some,
    ensures
        page_index(v, id) == page_index(v.take(n), id),
        page_with_id(v, id) == page_with_id(v.take(n), id),
    decreases v.len() - n,
{
    if n < v.len() {
        assert(v.take(n + 1).drop_last() == v.take(n));
        lemma_page_with_id_prefix(v, id, n + 1);
    } else {
        assert(v.take(n) == v);
    }
    lemma_page_index(v.take(n), id);
}

/// A first match in a prefix is the first match of the whole.
pub proof fn lemma_tab_with_id_prefix(v: Seq<TabModel>, id: Seq<char>, n: int)
    requires
        0 <= n <= v.len(),
        tab_index(v.take(n), id) is Some,
    ensures
        tab_index(v, id) == tab_index(v.take(n), id),
        tab_with_id(v, id) == tab_with_id(v.take(n), id),
    decreases v.len() - n,
{
    if n < v.len() {
        assert(v.take(n + 1).drop_last() == v.take(n));
        lemma_tab_with_id_prefix(v, id, n + 1);
    } else {
        assert(v.take(n) == v);
    }
    lemma_tab_index(v.take(n), id);
}

/// A first match in a prefix is the first match of the whole.
pub proof fn lemma_bookmark_with_id_prefix(v: Seq<BookmarkModel>, id: Seq<char>, n: int)
    requires
        0 <= n <= v.len(),
        bookmark_index(v.take(n), id) is Some,
    ensures
        bookmark_index(v, id) == bookmark_index(v.take(n), id),
        bookmark_with_id(v, id) == bookmark_with_id(v.take(n), id),
    decreases v.len() - n,
{
    if n < v.len() {
        assert(v.take(n + 1).drop_last() == v.take(n));
        lemma_bookmark_with_id_prefix(v, id, n + 1);
    } else {
        assert(v.take(n) == v);
    }
    lemma_bookmark_index(v.take(n), id);
}

/// A first match in a prefix is the first match of the whole.
pub proof fn lemma_page_url_prefix(norm: bool, v: Seq<PageModel>, u: Seq<char>, n: int)
    requires
        0 <= n <= v.len(),
        page_with_normalized_url(norm, v.take(n), u) is Some,
    ensures
        page_with_normalized_url(norm, v, u) == page_with_normalized_url(norm, v.take(n), u),
    decreases v.len() - n,
{
    if n < v.len() {
        assert(v.take(n + 1).drop_last() == v.take(n));
        lemma_page_url_prefix(norm, v, u, n + 1);
    } else {
        assert(v.take(n) == v);
    }
}

/// The first tab with an id.
pub fn find_tab_by_id(tabs: &[TabInfo], id: &String) -> (r: Option<usize>)
    ensures
        match r {
            Some(k) => k < tabs@.len() && tab_index(tabs_view(tabs@), id@) == Some(k as int)
                && tab_with_id(tabs_view(tabs@), id@) == Some(tabs@[k as int]@),
            None => tab_index(tabs_view(tabs@), id@) is None,
        },
{
    let ghost v = tabs_view(tabs@);
    let mut i: usize = 0;
    while i < tabs.len()
        invariant
            i <= tabs@.len(),
            v == tabs_view(tabs@),
            tab_index(v.take(i as int), id@) is None,
        decreases tabs@.len() - i,
    {
        assert(v.take(i as int + 1).drop_last() == v.take(i as int));
        assert(v.take(i as int + 1).last() == tabs@[i as int]@);
        if tabs[i].id == *id {
            proof {
                lemma_tab_with_id_prefix(v, id@, i as int + 1);
            }
            return Some(i);
        }
        i += 1;
    }
    assert(v.take(tabs@.len() as int) == v);
    None
}

/// The first bookmark with an id.
pub fn find_bookmark_by_id(bms: &[BookmarkInfo], id: &String) -> (r: Option<usize>)
    ensures
        match r {
            Some(k) => k < bms@.len() && bookmark_index(bookmarks_view(bms@), id@) == Some(k as int)
                && bookmark_with_id(bookmarks_view(bms@), id@) == Some(bms@[k as int]@),
            None => bookmark_index(bookmarks_view(bms@), id@) is None,
        },
{
    let ghost v = bookmarks_view(bms@);
    let mut i: usize = 0;
    while i < bms.len()
        invariant
            i <= bms@.len(),
            v == bookmarks_view(bms@),
            bookmark_index(v.take(i as int), id@) is None,
        decreases bms@.len() - i,
    {
        assert(v.take(i as int + 1).drop_last() == v.take(i as int));
        assert(v.take(i as int + 1).last() == bms@[i as int]@);
        if bms[i].id == *id {
            proof {
                lemma_bookmark_with_id_prefix(v, id@, i as int + 1);
            }
            return Some(i);
        }
        i += 1;
    }
    assert(v.take(bms@.len() as int) == v);
    None
}

impl PageUnifiedManager {
    /// The synchronization manager's matcher has the configured settings.
    pub closed spec fn wf(self) -> bool {
        self.sync_manager.matcher.config == self.config.matcher_config
    }

    /// The configuration.
    pub closed spec fn configuration(self) -> PageUnifiedManagerConfig {
        self.config
    }

    /// A manager with the default configuration and no data.
    pub fn new() -> (r: Self)
        ensures
            r.configuration().auto_detect_changes,
            r.configuration().max_pending_sync_items == 100,
            r.configuration().matcher_config.normalize_urls,
            r.configuration().matcher_config.match_exact_url,
            r.configuration().matcher_config.match_domain,
            r@ == empty_manager(),
            r.wf(),
    {
        Self::with_config(PageUnifiedManagerConfig::default())
    }

    /// A manager with the given configuration and no data.
    pub fn with_config(config: PageUnifiedManagerConfig) -> (r: Self)
        ensures
            r.configuration() == config,
            r@ == empty_manager(),
            r.wf(),
    {
        let matcher = TabBookmarkMatcher::with_config(config.matcher_config);
        let r = PageUnifiedManager {
            config,
            sync_manager: DataSyncManager::with_matcher(matcher),
            sync_queue: SyncQueue::new(),
            unified_pages: Vec::new(),
            tabs: Vec::new(),
            bookmarks: Vec::new(),
            association_cache: Vec::new(),
        };
        assert(tabs_view(r.tabs@) =~= Seq::<TabModel>::empty());
        assert(bookmarks_view(r.bookmarks@) =~= Seq::<BookmarkModel>::empty());
        assert(pages_view(r.unified_pages@) =~= Seq::<PageModel>::empty());
        assert(assocs_view(r.association_cache@) =~= Seq::<AssocModel>::empty());
        r
    }

    /// The configuration.
    pub fn config(&self) -> (r: &PageUnifiedManagerConfig)
        ensures
            *r == self.configuration(),
    {
        &self.config
    }

    /// The synchronization manager, whose matcher has the configured settings.
    pub fn sync_manager(&self) -> (r: &DataSyncManager)
        requires
            self.wf(),
        ensures
            r.matcher.config == self.configuration().matcher_config,
    {
        &self.sync_manager
    }
}

/// A state with other tabs.
pub open spec fn with_tabs(m: ManagerModel, tabs: Seq<TabModel>) -> ManagerModel {
    ManagerModel { tabs, ..m }
}

/// A state with other bookmarks.
pub open spec fn with_bookmarks(m: ManagerModel, bookmarks: Seq<BookmarkModel>) -> ManagerModel {
    ManagerModel { bookmarks, ..m }
}

/// A state with other unified pages.
pub open spec fn with_pages(m: ManagerModel, pages: Seq<PageModel>) -> ManagerModel {
    ManagerModel { pages, ..m }
}

/// A state with another queue.
pub open spec fn with_queue(m: ManagerModel, queue: Seq<PendingModel>) -> ManagerModel {
    ManagerModel { queue, ..m }
}

/// A state with other association statuses.
pub open spec fn with_associations(m: ManagerModel, associations: Seq<AssocModel>) -> ManagerModel {
    ManagerModel { associations, ..m }
}

/// The state of a manager that holds nothing.
pub open spec fn empty_manager() -> ManagerModel {
    ManagerModel {
        tabs: seq![],
        bookmarks: seq![],
        pages: seq![],
        queue: seq![],
        associations: seq![],
    }
}

/// Fresh ids, one per tab and bookmark.
fn fresh_ids(n: usize) -> (r: Vec<u128>)
    ensures
        r@.len() == n,
{
    let mut ids: Vec<u128> = Vec::new();
    let mut k: usize = 0;
    while k < n
        invariant
            k <= n,
            ids@.len() == k,
        decreases n - k,
    {
        ids.push(crate::platform::new_uuid());
        k += 1;
    }
    ids
}

impl PageUnifiedManager {
    /// Recomputes the association statuses at time `now`.
    fn refresh_associations_at(&mut self, now: i64)
        requires
            old(self).wf(),
        ensures
            final(self).wf(),
            final(self)@ == with_associations(
                old(self)@,
                associations(
                    old(self).configuration().matcher_config,
                    old(self)@.tabs,
                    old(self)@.bookmarks,
                    now,
                ),
            ),
            final(self).configuration() == old(self).configuration(),
    {
        let map = self.sync_manager.matcher.build_match_map_at(&self.tabs, &self.bookmarks, now);
        let changes = ContentChangeDetector::detect_all_changes(&self.tabs, &self.bookmarks, &map);
        let cache = compute_associations(&self.tabs, &map, &changes);
        self.association_cache = cache;
    }

    /// Re-merges tabs and bookmarks into the unified pages at time `now`.
    fn refresh_unified_pages_at(&mut self, now: i64, ids: &[u128])
        requires
            old(self).wf(),
            ids@.len() >= old(self)@.tabs.len() + old(self)@.bookmarks.len(),
        ensures
            final(self).wf(),
            final(self)@ == with_pages(
                old(self)@,
                batch_merged(
                    old(self).configuration().matcher_config.normalize_urls,
                    old(self)@.tabs,
                    old(self)@.bookmarks,
                    old(self)@.pages,
                    ids@,
                    now,
                ),
            ),
            final(self).configuration() == old(self).configuration(),
    {
        let merged = self.sync_manager.batch_merge_at(
            &self.tabs,
            &self.bookmarks,
            &self.unified_pages,
            ids,
            now,
        );
        self.unified_pages = merged;
    }

    /// Queues bookmark updates for the changes detected at time `now`.
    fn detect_and_queue_changes_at(&mut self, now: i64)
        requires
            old(self).wf(),
        ensures
            final(self).wf(),
            final(self)@ == with_queue(
                old(self)@,
                queued(
                    old(self).configuration().matcher_config,
                    old(self).configuration().max_pending_sync_items as nat,
                    old(self)@.queue,
                    old(self)@.tabs,
                    old(self)@.bookmarks,
                    now,
                ),
            ),
            final(self).configuration() == old(self).configuration(),
    {
        let map = self.sync_manager.matcher.build_match_map_at(&self.tabs, &self.bookmarks, now);
        let changes = ContentChangeDetector::detect_all_changes(&self.tabs, &self.bookmarks, &map);
        let actions = self.sync_manager.generate_sync_actions_at(&self.tabs, &self.bookmarks, now);
        let max = self.config.max_pending_sync_items;
        enqueue_actions(&mut self.sync_queue, &changes, &actions, max);
    }

    /// Refreshes, then queues changes where automatic detection is on.
    fn after_data_change_at(&mut self, now: i64, ids: &[u128])
        requires
            old(self).wf(),
            ids@.len() >= old(self)@.tabs.len() + old(self)@.bookmarks.len(),
        ensures
            final(self).wf(),
            final(self)@ == after_update(old(self).configuration(), old(self)@, now, ids@),
            final(self).configuration() == old(self).configuration(),
    {
        self.refresh_associations_at(now);
        self.refresh_unified_pages_at(now, ids);
        if self.config.auto_detect_changes {
            self.detect_and_queue_changes_at(now);
        }
    }

    /// Replaces the tabs at time `now`; `ids` are fresh page ids.
    pub fn update_tabs_at(&mut self, tabs: Vec<TabInfo>, now: i64, ids: &[u128])
        requires
            old(self).wf(),
            ids@.len() >= tabs@.len() + old(self)@.bookmarks.len(),
        ensures
            final(self).wf(),
            final(self)@ == after_update(
                old(self).configuration(),
                with_tabs(old(self)@, tabs_view(tabs@)),
                now,
                ids@,
            ),
            final(self).configuration() == old(self).configuration(),
    {
        self.tabs = tabs;
        self.after_data_change_at(now, ids);
    }

    /// Replaces the tabs, now.
    pub fn update_tabs(&mut self, tabs: Vec<TabInfo>)
        requires
            old(self).wf(),
            tabs@.len() + old(self)@.bookmarks.len() <= usize::MAX,
        ensures
            final(self).wf(),
            exists|now: i64, ids: Seq<u128>|
                final(self)@ == #[trigger] after_update(
                    old(self).configuration(),
                    with_tabs(old(self)@, tabs_view(tabs@)),
                    now,
                    ids,
                ),
            final(self).configuration() == old(self).configuration(),
    {
        let ids = fresh_ids(tabs.len() + self.bookmarks.len());
        let now = crate::platform::now_millis();
        self.update_tabs_at(tabs, now, &ids);
    }

    /// Replaces the bookmarks at time `now`; `ids` are fresh page ids.
    pub fn update_bookmarks_at(&mut self, bookmarks: Vec<BookmarkInfo>, now: i64, ids: &[u128])
        requires
            old(self).wf(),
            ids@.len() >= old(self)@.tabs.len() + bookmarks@.len(),
        ensures
            final(self).wf(),
            final(self)@ == after_update(
                old(self).configuration(),
                with_bookmarks(old(self)@, bookmarks_view(bookmarks@)),
                now,
                ids@,
            ),
            final(self).configuration() == old(self).configuration(),
    {
        self.bookmarks = bookmarks;
        self.after_data_change_at(now, ids);
    }

    /// Replaces the bookmarks, now.
    pub fn update_bookmarks(&mut self, bookmarks: Vec<BookmarkInfo>)
        requires
            old(self).wf(),
            old(self)@.tabs.len() + bookmarks@.len() <= usize::MAX,
        ensures
            final(self).wf(),
            exists|now: i64, ids: Seq<u128>|
                final(self)@ == #[trigger] after_update(
                    old(self).configuration(),
                    with_bookmarks(old(self)@, bookmarks_view(bookmarks@)),
                    now,
                    ids,
                ),
            final(self).configuration() == old(self).configuration(),
    {
        let ids = fresh_ids(self.tabs.len() + bookmarks.len());
        let now = crate::platform::now_millis();
        self.update_bookmarks_at(bookmarks, now, &ids);
    }

    /// Replaces tabs and bookmarks at time `now`; `ids` are fresh page ids.
    pub fn update_all_at(
        &mut self,
        tabs: Vec<TabInfo>,
        bookmarks: Vec<BookmarkInfo>,
        now: i64,
        ids: &[u128],
    )
        requires
            old(self).wf(),
            ids@.len() >= tabs@.len() + bookmarks@.len(),
        ensures
            final(self).wf(),
            final(self)@ == after_update(
                old(self).configuration(),
                with_bookmarks(with_tabs(old(self)@, tabs_view(tabs@)), bookmarks_view(bookmarks@)),
                now,
                ids@,
            ),
            final(self).configuration() == old(self).configuration(),
    {
        self.tabs = tabs;
        self.bookmarks = bookmarks;
        self.after_data_change_at(now, ids);
    }

    /// Replaces tabs and bookmarks, now.
    pub fn update_all(&mut self, tabs: Vec<TabInfo>, bookmarks: Vec<BookmarkInfo>)
        requires
            old(self).wf(),
            tabs@.len() + bookmarks@.len() <= usize::MAX,
        ensures
            final(self).wf(),
            exists|now: i64, ids: Seq<u128>|
                final(self)@ == #[trigger] after_update(
                    old(self).configuration(),
                    with_bookmarks(with_tabs(old(self)@, tabs_view(tabs@)), bookmarks_view(bookmarks@)),
                    now,
                    ids,
                ),
            final(self).configuration() == old(self).configuration(),
    {
        let ids = fresh_ids(tabs.len() + bookmarks.len());
        let now = crate::platform::now_millis();
        self.update_all_at(tabs, bookmarks, now, &ids);
    }
}

/// The matches of the first tab with an id, or none.
pub open spec fn bookmarks_for_tab_id(
    cfg: MatcherConfig,
    tabs: Seq<TabModel>,
    bms: Seq<BookmarkModel>,
    id: Seq<char>,
    now: i64,
) -> Seq<MatchModel> {
    match tab_with_id(tabs, id) {
        Some(t) => matches_for_tab(cfg, t, bms, now),
        None => seq![],
    }
}

/// The matches of the first bookmark with an id, or none.
pub open spec fn tabs_for_bookmark_id(
    cfg: MatcherConfig,
    tabs: Seq<TabModel>,
    bms: Seq<BookmarkModel>,
    id: Seq<char>,
    now: i64,
) -> Seq<MatchModel> {
    match bookmark_with_id(bms, id) {
        Some(b) => matches_for_bookmark(cfg, b, tabs, now),
        None => seq![],
    }
}

/// Whether a status records a bookmark.
pub open spec fn has_bookmark_status(a: AssocModel) -> bool {
    a.has_bookmark
}

/// Whether a status records pending changes.
pub open spec fn has_pending_status(a: AssocModel) -> bool {
    a.has_pending_changes
}

/// The status of a tab id in the association map.
pub open spec fn status_for_id(acc: Seq<AssocModel>, id: Seq<char>) -> Option<AssocModel> {
    match assoc_index(acc, id) {
        Some(k) => Some(acc[k]),
        None => None,
    }
}

/// Copies of the statuses for which `keep` holds; `mode` 0 keeps all, 1
/// those with a bookmark, 2 those with pending changes.
fn copy_statuses(v: &[TabAssociationStatus], mode: u8) -> (r: Vec<TabAssociationStatus>)
    ensures
        assocs_view(r@) == if mode == 1 {
            assocs_view(v@).filter(|a: AssocModel| has_bookmark_status(a))
        } else if mode == 2 {
            assocs_view(v@).filter(|a: AssocModel| has_pending_status(a))
        } else {
            assocs_view(v@).filter(|a: AssocModel| true)
        },
{
    let ghost av = assocs_view(v@);
    let ghost p = if mode == 1 {
        |a: AssocModel| has_bookmark_status(a)
    } else if mode == 2 {
        |a: AssocModel| has_pending_status(a)
    } else {
        |a: AssocModel| true
    };
    let mut r: Vec<TabAssociationStatus> = Vec::new();
    let mut i: usize = 0;
    assert(av.take(0) =~= Seq::<AssocModel>::empty());
    proof {
        reveal(Seq::filter);
    }
    while i < v.len()
        invariant
            i <= v@.len(),
            av == assocs_view(v@),
            p == if mode == 1 {
                |a: AssocModel| has_bookmark_status(a)
            } else if mode == 2 {
                |a: AssocModel| has_pending_status(a)
            } else {
                |a: AssocModel| true
            },
            assocs_view(r@) == av.take(i as int).filter(p),
        decreases v@.len() - i,
    {
        let x = &v[i];
        assert(av.take(i as int + 1) == av.take(i as int).push(x@));
        proof {
            av.take(i as int).lemma_filter_push(x@, p);
        }
        let keep = if mode == 1 {
            x.has_bookmark
        } else if mode == 2 {
            x.has_pending_changes
        } else {
            true
        };
        if keep {
            let ghost o = r@;
            r.push(x.duplicate());
            assert(assocs_view(r@) =~= assocs_view(o).push(x@));
        }
        i += 1;
    }
    assert(av.take(v@.len() as int) == av);
    r
}

/// Copies of pages.
fn copy_pages(v: &[UnifiedPageInfo]) -> (r: Vec<UnifiedPageInfo>)
    ensures
        pages_view(r@) == pages_view(v@),
{
    let mut r: Vec<UnifiedPageInfo> = Vec::new();
    let mut i: usize = 0;
    while i < v.len()
        invariant
            i <= v@.len(),
            r@.len() == i,
            pages_view(r@) == pages_view(v@).take(i as int),
        decreases v@.len() - i,
    {
        let ghost o = r@;
        let d = v[i].duplicate();
        r.push(d);
        assert(r@ == o.push(d));
        assert forall|j: int| 0 <= j < i + 1 implies #[trigger] pages_view(r@)[j] == pages_view(v@).take(i as int + 1)[j] by {
            if j < i {
                assert(pages_view(o)[j] == pages_view(v@).take(i as int)[j]);
            }
        }
        assert(pages_view(r@) =~= pages_view(v@).take(i as int + 1));
        i += 1;
    }
    assert(pages_view(v@).take(v@.len() as int) == pages_view(v@));
    r
}

/// Copies of pending items.
fn copy_pending(v: &[PendingSyncItem]) -> (r: Vec<PendingSyncItem>)
    ensures
        pending_view(r@) == pending_view(v@),
{
    let mut r: Vec<PendingSyncItem> = Vec::new();
    let mut i: usize = 0;
    while i < v.len()
        invariant
            i <= v@.len(),
            r@.len() == i,
            pending_view(r@) == pending_view(v@).take(i as int),
        decreases v@.len() - i,
    {
        let ghost o = r@;
        let d = v[i].duplicate();
        r.push(d);
        assert(r@ == o.push(d));
        assert forall|j: int| 0 <= j < i + 1 implies #[trigger] pending_view(r@)[j] == pending_view(v@).take(i as int + 1)[j] by {
            if j < i {
                assert(pending_view(o)[j] == pending_view(v@).take(i as int)[j]);
            }
        }
        assert(pending_view(r@) =~= pending_view(v@).take(i as int + 1));
        i += 1;
    }
    assert(pending_view(v@).take(v@.len() as int) == pending_view(v@));
    r
}

impl PageUnifiedManager {
    /// All unified pages.
    pub fn get_unified_pages(&self) -> (r: Vec<UnifiedPageInfo>)
        ensures
            pages_view(r@) == self@.pages,
    {
        copy_pages(&self.unified_pages)
    }

    /// The first unified page with an id.
    pub fn get_unified_page_by_id(&self, id: u128) -> (r: Option<UnifiedPageInfo>)
        ensures
            opt_model(r) == page_with_id(self@.pages, id),
    {
        match find_page_by_id(&self.unified_pages, id) {
            Some(k) => Some(self.unified_pages[k].duplicate()),
            None => None,
        }
    }

    /// The first unified page whose normalized URL is that of `url`.
    pub fn get_unified_page_by_url(&self, url: &str) -> (r: Option<UnifiedPageInfo>)
        requires
            self.wf(),
        ensures
            opt_model(r) == page_with_normalized_url(
                self.configuration().matcher_config.normalize_urls,
                self@.pages,
                normalized_url(self.configuration().matcher_config.normalize_urls, url@),
            ),
    {
        let ghost norm = self.config.matcher_config.normalize_urls;
        let ghost v = pages_view(self.unified_pages@);
        let n = self.sync_manager.matcher.normalize_url(url);
        let mut i: usize = 0;
        while i < self.unified_pages.len()
            invariant
                i <= self.unified_pages@.len(),
                v == pages_view(self.unified_pages@),
                norm == self.sync_manager.matcher.config.normalize_urls,
                norm == self.config.matcher_config.normalize_urls,
                n@ == normalized_url(norm, url@),
                page_with_normalized_url(norm, v.take(i as int), n@) is None,
            decreases self.unified_pages@.len() - i,
        {
            let p = &self.unified_pages[i];
            assert(v.take(i as int + 1).drop_last() == v.take(i as int));
            assert(v.take(i as int + 1).last() == p@);
            let pn = self.sync_manager.matcher.normalize_url(&p.url);
            if pn == n {
                proof {
                    assert(normalized_url(norm, p.url@) == n@);
                    assert(page_with_normalized_url(norm, v.take(i as int + 1), n@) == Some(p@));
                    lemma_page_url_prefix(norm, v, n@, i as int + 1);
                }
                let d = p.duplicate();
                assert(opt_model(Some(d)) == Some(p@));
                return Some(d);
            }
            i += 1;
        }
        assert(v.take(self.unified_pages@.len() as int) == v);
        None
    }

    /// The association status of a tab id.
    pub fn get_tab_association_status(&self, tab_id: &String) -> (r: Option<TabAssociationStatus>)
        ensures
            match r {
                Some(a) => status_for_id(self@.associations, tab_id@) == Some(a@),
                None => status_for_id(self@.associations, tab_id@) is None,
            },
    {
        match find_assoc(&self.association_cache, tab_id) {
            Some(k) => {
                proof {
                    lemma_assoc_index(assocs_view(self.association_cache@), tab_id@);
                }
                Some(self.association_cache[k].duplicate())
            },
            None => None,
        }
    }

    /// All association statuses.
    pub fn get_all_tab_associations(&self) -> (r: Vec<TabAssociationStatus>)
        ensures
            assocs_view(r@) == self@.associations,
    {
        let mut r: Vec<TabAssociationStatus> = Vec::new();
        let mut i: usize = 0;
        while i < self.association_cache.len()
            invariant
                i <= self.association_cache@.len(),
                r@.len() == i,
                assocs_view(r@) == assocs_view(self.association_cache@).take(i as int),
            decreases self.association_cache@.len() - i,
        {
            let ghost o = r@;
            let d = self.association_cache[i].duplicate();
            r.push(d);
            assert(r@ == o.push(d));
            assert forall|j: int| 0 <= j < i + 1 implies #[trigger] assocs_view(r@)[j] == assocs_view(self.association_cache@).take(i as int + 1)[j] by {
                if j < i {
                    assert(assocs_view(o)[j] == assocs_view(self.association_cache@).take(i as int)[j]);
                }
            }
            assert(assocs_view(r@) =~= assocs_view(self.association_cache@).take(i as int + 1));
            i += 1;
        }
        assert(assocs_view(self.association_cache@).take(self.association_cache@.len() as int)
            == assocs_view(self.association_cache@));
        r
    }

    /// The statuses of tabs that have a bookmark.
    pub fn get_tabs_with_bookmarks(&self) -> (r: Vec<TabAssociationStatus>)
        ensures
            assocs_view(r@) == self@.associations.filter(|a: AssocModel| has_bookmark_status(a)),
    {
        copy_statuses(&self.association_cache, 1)
    }

    /// The statuses of tabs whose bookmark is out of date.
    pub fn get_tabs_with_pending_changes(&self) -> (r: Vec<TabAssociationStatus>)
        ensures
            assocs_view(r@) == self@.associations.filter(|a: AssocModel| has_pending_status(a)),
    {
        copy_statuses(&self.association_cache, 2)
    }

    /// Whether a tab id has a bookmark.
    pub fn tab_has_bookmark(&self, tab_id: &String) -> (r: bool)
        ensures
            r == match status_for_id(self@.associations, tab_id@) {
                Some(a) => a.has_bookmark,
                None => false,
            },
    {
        match find_assoc(&self.association_cache, tab_id) {
            Some(k) => {
                proof {
                    lemma_assoc_index(assocs_view(self.association_cache@), tab_id@);
                }
                self.association_cache[k].has_bookmark
            },
            None => false,
        }
    }

    /// The bookmarks that match the first tab with an id, at time `now`.
    pub fn find_bookmarks_for_tab_at(&self, tab_id: &String, now: i64) -> (r: Vec<MatchInfo>)
        requires
            self.wf(),
        ensures
            matches_view(r@) == bookmarks_for_tab_id(
                self.configuration().matcher_config,
                self@.tabs,
                self@.bookmarks,
                tab_id@,
                now,
            ),
    {
        match find_tab_by_id(&self.tabs, tab_id) {
            Some(k) => self.sync_manager.matcher.find_matches_for_tab_at(&self.tabs[k], &self.bookmarks, now),
            None => {
                let r: Vec<MatchInfo> = Vec::new();
                assert(matches_view(r@) =~= Seq::<MatchModel>::empty());
                r
            },
        }
    }

    /// The bookmarks that match the first tab with an id, now.
    pub fn find_bookmarks_for_tab(&self, tab_id: &String) -> (r: Vec<MatchInfo>)
        requires
            self.wf(),
        ensures
            exists|now: i64|
                matches_view(r@) == #[trigger] bookmarks_for_tab_id(
                    self.configuration().matcher_config,
                    self@.tabs,
                    self@.bookmarks,
                    tab_id@,
                    now,
                ),
    {
        let now = crate::platform::now_millis();
        self.find_bookmarks_for_tab_at(tab_id, now)
    }

    /// The tabs that match the first bookmark with an id, at time `now`.
    pub fn find_tabs_for_bookmark_at(&self, bookmark_id: &String, now: i64) -> (r: Vec<MatchInfo>)
        requires
            self.wf(),
        ensures
            matches_view(r@) == tabs_for_bookmark_id(
                self.configuration().matcher_config,
                self@.tabs,
                self@.bookmarks,
                bookmark_id@,
                now,
            ),
    {
        match find_bookmark_by_id(&self.bookmarks, bookmark_id) {
            Some(k) => self.sync_manager.matcher.find_matches_for_bookmark_at(
                &self.bookmarks[k],
                &self.tabs,
                now,
            ),
            None => {
                let r: Vec<MatchInfo> = Vec::new();
                assert(matches_view(r@) =~= Seq::<MatchModel>::empty());
                r
            },
        }
    }

    /// The number of pending sync items.
    pub fn pending_sync_count(&self) -> (r: usize)
        ensures
            r == self@.queue.len(),
    {
        self.sync_queue.pending_count()
    }

    /// Copies of the pending sync items.
    pub fn get_pending_sync_items(&self) -> (r: Vec<PendingSyncItem>)
        ensures
            pending_view(r@) == self@.queue,
    {
        copy_pending(self.sync_queue.pending_items())
    }

    /// Approves the pending item at `index`; false where there is none.
    pub fn approve_sync_item(&mut self, index: usize) -> (r: bool)
        requires
            old(self).wf(),
        ensures
            final(self).wf(),
            final(self).configuration() == old(self).configuration(),
            r == (index < old(self)@.queue.len()),
            final(self)@ == with_queue(
                old(self)@,
                if r {
                    old(self)@.queue.update(
                        index as int,
                        PendingModel { approved: true, ..old(self)@.queue[index as int] },
                    )
                } else {
                    old(self)@.queue
                },
            ),
    {
        self.sync_queue.approve(index)
    }

    /// Approves every pending item.
    pub fn approve_all_sync_items(&mut self)
        requires
            old(self).wf(),
        ensures
            final(self).wf(),
            final(self).configuration() == old(self).configuration(),
            final(self)@ == with_queue(
                old(self)@,
                old(self)@.queue.map_values(|p: PendingModel| PendingModel { approved: true, ..p }),
            ),
    {
        self.sync_queue.approve_all()
    }

    /// Removes every pending item.
    pub fn clear_pending_syncs(&mut self)
        requires
            old(self).wf(),
        ensures
            final(self).wf(),
            final(self).configuration() == old(self).configuration(),
            final(self)@ == with_queue(old(self)@, Seq::<PendingModel>::empty()),
    {
        self.sync_queue.clear()
    }
}

// ---------------------------------------------------------------------------
// Executing approved synchronizations
// ---------------------------------------------------------------------------

/// A unified page with updates applied, accessed at time `now`.
pub open spec fn updated_page(p: PageModel, u: UpdatesModel, now: i64) -> PageModel {
    PageModel {
        title: match u.title {
            Some(t) => t,
            None => p.title,
        },
        favicon_url: match u.favicon_url {
            Some(f) => f,
            None => p.favicon_url,
        },
        content_summary: match u.content_summary {
            Some(c) => c,
            None => p.content_summary,
        },
        keywords: match u.keywords {
            Some(k) => k,
            None => p.keywords,
        },
        category: match u.category {
            Some(c) => c,
            None => p.category,
        },
        last_accessed: now,
        ..p
    }
}

/// ` not found`.
pub open spec fn not_found_suffix() -> Seq<char> {
    seq![' ', 'n', 'o', 't', ' ', 'f', 'o', 'u', 'n', 'd']
}

/// The error for a missing bookmark: the id in its `Debug` form.
pub open spec fn bookmark_not_found(id: Seq<char>) -> Seq<char> {
    seq!['B', 'o', 'o', 'k', 'm', 'a', 'r', 'k', ' '] + crate::text::debug_quoted(id) + not_found_suffix()
}

/// The error for a missing tab: the id in its `Debug` form.
pub open spec fn tab_not_found(id: Seq<char>) -> Seq<char> {
    seq!['T', 'a', 'b', ' '] + crate::text::debug_quoted(id) + not_found_suffix()
}

/// The error for a missing unified page.
pub open spec fn page_not_found(id: u128) -> Seq<char> {
    seq!['U', 'n', 'i', 'f', 'i', 'e', 'd', ' ', 'p', 'a', 'g', 'e', ' '] + crate::text::uuid_text(id)
        + not_found_suffix()
}

/// The state of executing approved items: the data, and what was done.
pub ghost struct ExecState {
    pub tabs: Seq<TabModel>,
    pub bookmarks: Seq<BookmarkModel>,
    pub pages: Seq<PageModel>,
    pub performed: Seq<ActionModel>,
    pub errors: Seq<Seq<char>>,
}

/// The page that a bookmark made from a tab inherits from: the first unified
/// page with the tab's normalized URL, or else the tab merged on its own.
pub open spec fn page_for_tab(
    norm: bool,
    pages: Seq<PageModel>,
    t: TabModel,
    page_id: u128,
    now: i64,
) -> PageModel {
    match page_with_normalized_url(norm, pages, normalized_url(norm, t.url)) {
        Some(p) => p,
        None => merged_page(Some(t), None, None, page_id, seq![], now),
    }
}

/// Executes one approved item at time `now`; a bookmark it creates takes
/// `bookmark_id`, a page it must merge takes `page_id`.
pub open spec fn exec_item(
    norm: bool,
    st: ExecState,
    a: ActionModel,
    now: i64,
    page_id: u128,
    bookmark_id: Seq<char>,
) -> ExecState {
    match a {
        ActionModel::UpdateBookmark { bookmark_id: bid, new_title, new_favicon } => match bookmark_index(
            st.bookmarks,
            bid,
        ) {
            Some(k) => ExecState {
                bookmarks: st.bookmarks.update(
                    k,
                    updated_bookmark(st.bookmarks[k], new_title, new_favicon, now),
                ),
                performed: st.performed.push(a),
                ..st
            },
            None => ExecState { errors: st.errors.push(bookmark_not_found(bid)), ..st },
        },
        ActionModel::CreateBookmark { tab_id, folder_path } => match tab_with_id(st.tabs, tab_id) {
            Some(t) => ExecState {
                bookmarks: st.bookmarks.push(
                    bookmark_from_tab(
                        t,
                        page_for_tab(norm, st.pages, t, page_id, now),
                        folder_path,
                        bookmark_id,
                        now,
                    ).0,
                ),
                performed: st.performed.push(a),
                ..st
            },
            None => ExecState { errors: st.errors.push(tab_not_found(tab_id)), ..st },
        },
        ActionModel::UpdateUnifiedPage { page_id: pid, updates } => match page_index(st.pages, pid) {
            Some(k) => ExecState {
                pages: st.pages.update(k, updated_page(st.pages[k], updates, now)),
                performed: st.performed.push(a),
                ..st
            },
            None => ExecState { errors: st.errors.push(page_not_found(pid)), ..st },
        },
    }
}

/// Executes approved items in order; the `k`-th uses `page_ids[k]` and
/// `bookmark_ids[k]`.
pub open spec fn exec_items(
    norm: bool,
    st: ExecState,
    items: Seq<PendingModel>,
    now: i64,
    page_ids: Seq<u128>,
    bookmark_ids: Seq<Seq<char>>,
) -> ExecState
    decreases items.len(),
{
    if items.len() == 0 {
        st
    } else {
        exec_item(
            norm,
            exec_items(norm, st, items.drop_last(), now, page_ids, bookmark_ids),
            items.last().suggested_action,
            now,
            page_ids[items.len() - 1],
            bookmark_ids[items.len() - 1],
        )
    }
}

/// The state and the outcome of executing the approved items of `m` at time
/// `now`: the approved items leave the queue; where there were any, each is
/// executed and associations and pages are refreshed with `merge_ids`.
pub open spec fn executed(
    cfg: MatcherConfig,
    m: ManagerModel,
    now: i64,
    page_ids: Seq<u128>,
    bookmark_ids: Seq<Seq<char>>,
    merge_ids: Seq<u128>,
) -> (ManagerModel, Seq<ActionModel>, Seq<Seq<char>>) {
    let approved = m.queue.filter(|p: PendingModel| is_approved(p));
    let rest = m.queue.filter(|p: PendingModel| is_unapproved(p));
    if approved.len() == 0 {
        (with_queue(m, rest), seq![], seq![])
    } else {
        let st = exec_items(
            cfg.normalize_urls,
            ExecState {
                tabs: m.tabs,
                bookmarks: m.bookmarks,
                pages: m.pages,
                performed: seq![],
                errors: seq![],
            },
            approved,
            now,
            page_ids,
            bookmark_ids,
        );
        let m2 = ManagerModel {
            tabs: st.tabs,
            bookmarks: st.bookmarks,
            pages: st.pages,
            queue: rest,
            associations: m.associations,
        };
        (refreshed(cfg, m2, now, merge_ids), st.performed, st.errors)
    }
}

/// The views of a sequence of strings.
pub open spec fn errors_view(v: Seq<String>) -> Seq<Seq<char>> {
    strings_view(v)
}

/// A page with updates applied, accessed at time `now`.
fn apply_updates(p: &mut UnifiedPageInfo, u: &crate::sync::PageUpdates, now: i64)
    ensures
        final(p)@ == updated_page(old(p)@, u@, now),
{
    if let Some(t) = &u.title {
        p.title = copy_string(t);
    }
    if let Some(f) = &u.favicon_url {
        p.favicon_url = crate::text::copy_opt_string(f);
    }
    if let Some(c) = &u.content_summary {
        p.content_summary = crate::model::copy_opt_summary(c);
    }
    if let Some(k) = &u.keywords {
        p.keywords = crate::text::copy_strings(k);
    }
    if let Some(c) = &u.category {
        p.category = crate::text::copy_opt_string(c);
    }
    p.last_accessed = now;
}

/// The error text for a missing element: `prefix`, the id as written (for
/// a string id, its `Debug` form) and ` not found`.
pub fn not_found_message(prefix: &[char], id: &[char]) -> (r: String)
    ensures
        r@ == prefix@ + id@ + not_found_suffix(),
{
    let mut v: Vec<char> = Vec::new();
    crate::matcher::push_chars(&mut v, prefix);
    crate::matcher::push_chars(&mut v, id);
    let suffix = [' ', 'n', 'o', 't', ' ', 'f', 'o', 'u', 'n', 'd'];
    crate::matcher::push_chars(&mut v, &suffix);
    assert(suffix@ == not_found_suffix());
    assert(v@ =~= prefix@ + id@ + not_found_suffix());
    crate::text::string_from_chars(&v)
}

/// Executing items adds at most one bookmark per item and keeps the tabs.
pub proof fn lemma_exec_items_sizes(
    norm: bool,
    st: ExecState,
    items: Seq<PendingModel>,
    now: i64,
    page_ids: Seq<u128>,
    bookmark_ids: Seq<Seq<char>>,
)
    ensures
        exec_items(norm, st, items, now, page_ids, bookmark_ids).bookmarks.len() <= st.bookmarks.len()
            + items.len(),
        exec_items(norm, st, items, now, page_ids, bookmark_ids).tabs == st.tabs,
    decreases items.len(),
{
    if items.len() > 0 {
        let prev = exec_items(norm, st, items.drop_last(), now, page_ids, bookmark_ids);
        lemma_exec_items_sizes(norm, st, items.drop_last(), now, page_ids, bookmark_ids);
        let a = items.last().suggested_action;
        let next = exec_item(
            norm,
            prev,
            a,
            now,
            page_ids[items.len() - 1],
            bookmark_ids[items.len() - 1],
        );
        assert(next.bookmarks.len() <= prev.bookmarks.len() + 1 && next.tabs == prev.tabs) by {
            match a {
                ActionModel::UpdateBookmark { bookmark_id: bid, .. } => {
                    lemma_bookmark_index(prev.bookmarks, bid);
                },
                ActionModel::CreateBookmark { .. } => {},
                ActionModel::UpdateUnifiedPage { .. } => {},
            }
        }
    }
}

impl PageUnifiedManager {
    /// Executes the approved sync items at time `now`: a bookmark that the
    /// `k`-th item creates takes `bookmark_ids[k]`, a page that it merges
    /// takes `page_ids[k]`, and the refresh afterwards takes `merge_ids`.
    pub fn execute_approved_syncs_at(
        &mut self,
        now: i64,
        page_ids: &[u128],
        bookmark_ids: &[String],
        merge_ids: &[u128],
    ) -> (r: SyncResult)
        requires
            old(self).wf(),
            page_ids@.len() >= old(self)@.queue.len(),
            bookmark_ids@.len() >= old(self)@.queue.len(),
            merge_ids@.len() >= old(self)@.tabs.len() + old(self)@.bookmarks.len() + old(
                self,
            )@.queue.len(),
        ensures
            final(self).wf(),
            final(self).configuration() == old(self).configuration(),
            ({
                let (m, performed, errors) = executed(
                    old(self).configuration().matcher_config,
                    old(self)@,
                    now,
                    page_ids@,
                    strings_view(bookmark_ids@),
                    merge_ids@,
                );
                &&& final(self)@ == m
                &&& actions_view(r.actions_performed@) == performed
                &&& strings_view(r.errors@) == errors
                &&& r.success == (errors.len() == 0)
                &&& r.items_synced == performed.len()
            }),
    {
        let ghost m0 = self@;
        let ghost norm = self.config.matcher_config.normalize_urls;
        let approved = self.sync_queue.take_approved();
        let ghost av = pending_view(approved@);
        proof {
            m0.queue.lemma_filter_len(|p: PendingModel| is_approved(p));
        }
        if approved.len() == 0 {
            let r = SyncResult::success(Vec::new());
            proof {
                assert(actions_view(r.actions_performed@) =~= Seq::<ActionModel>::empty());
                assert(strings_view(r.errors@) =~= Seq::<Seq<char>>::empty());
            }
            return r;
        }
        let ghost st0 = ExecState {
            tabs: m0.tabs,
            bookmarks: m0.bookmarks,
            pages: m0.pages,
            performed: seq![],
            errors: seq![],
        };
        let mut performed: Vec<SyncAction> = Vec::new();
        let mut errors: Vec<String> = Vec::new();
        let mut k: usize = 0;
        assert(av.take(0) =~= Seq::<PendingModel>::empty());
        assert(actions_view(performed@) =~= Seq::<ActionModel>::empty());
        assert(strings_view(errors@) =~= Seq::<Seq<char>>::empty());
        while k < approved.len()
            invariant
                k <= approved@.len(),
                av == pending_view(approved@),
                approved@.len() <= page_ids@.len(),
                approved@.len() <= bookmark_ids@.len(),
                self.wf(),
                self.config == old(self).config,
                norm == self.config.matcher_config.normalize_urls,
                self@.queue == m0.queue.filter(|p: PendingModel| is_unapproved(p)),
                self@.associations == m0.associations,
                ({
                    let st = exec_items(
                        norm,
                        st0,
                        av.take(k as int),
                        now,
                        page_ids@,
                        strings_view(bookmark_ids@),
                    );
                    &&& self@.tabs == st.tabs
                    &&& self@.bookmarks == st.bookmarks
                    &&& self@.pages == st.pages
                    &&& actions_view(performed@) == st.performed
                    &&& strings_view(errors@) == st.errors
                }),
            decreases approved@.len() - k,
        {
            let item = &approved[k];
            let ghost st = exec_items(norm, st0, av.take(k as int), now, page_ids@, strings_view(bookmark_ids@));
            assert(av.take(k as int + 1).drop_last() == av.take(k as int));
            assert(av.take(k as int + 1).last() == item@);
            assert(strings_view(bookmark_ids@)[k as int] == bookmark_ids@[k as int]@);
            match &item.suggested_action {
                SyncAction::UpdateBookmark { bookmark_id, new_title, new_favicon } => {
                    match find_bookmark_by_id(&self.bookmarks, bookmark_id) {
                        Some(i) => {
                            proof {
                                lemma_bookmark_index(self@.bookmarks, bookmark_id@);
                            }
                            let mut b = self.bookmarks[i].duplicate();
                            if let Some(t) = new_title {
                                b.title = copy_string(t);
                            }
                            if let Some(f) = new_favicon {
                                b.favicon_url = Some(copy_string(f));
                            }
                            b.last_accessed = Some(now);
                            let ghost bv = b@;
                            let ghost ob = self.bookmarks@;
                            self.bookmarks.set(i, b);
                            assert(bookmarks_view(self.bookmarks@) =~= bookmarks_view(ob).update(i as int, bv));
                            let ghost op = performed@;
                            performed.push(item.suggested_action.duplicate());
                            assert(actions_view(performed@) =~= actions_view(op).push(item@.suggested_action));
                        },
                        None => {
                            let bid = crate::text::chars_of(&crate::text::debug_string(bookmark_id));
                            let prefix = ['B', 'o', 'o', 'k', 'm', 'a', 'r', 'k', ' '];
                            assert(prefix@ == seq!['B', 'o', 'o', 'k', 'm', 'a', 'r', 'k', ' ']);
                            let msg = not_found_message(&prefix, &bid);
                            let ghost oe = errors@;
                            errors.push(msg);
                            assert(strings_view(errors@) =~= strings_view(oe).push(msg@));
                        },
                    }
                },
                SyncAction::CreateBookmark { tab_id, folder_path } => {
                    match find_tab_by_id(&self.tabs, tab_id) {
                        Some(t) => {
                            let tab = self.tabs[t].duplicate();
                            let page = match self.get_unified_page_by_url(&tab.url) {
                                Some(p) => p,
                                None => self.sync_manager.merge_to_unified_page_at(
                                    Some(&tab),
                                    None,
                                    None,
                                    page_ids[k],
                                    String::new(),
                                    now,
                                ),
                            };
                            assert(page@ == page_for_tab(norm, self@.pages, tab@, page_ids@[k as int], now));
                            let (bookmark, _) = crate::sync::create_bookmark_from_tab(
                                &tab,
                                &page,
                                crate::text::copy_strings(folder_path),
                                copy_string(&bookmark_ids[k]),
                                now,
                            );
                            let ghost ob = self.bookmarks@;
                            let ghost bv = bookmark@;
                            self.bookmarks.push(bookmark);
                            assert(bookmarks_view(self.bookmarks@) =~= bookmarks_view(ob).push(bv));
                            let ghost op = performed@;
                            performed.push(item.suggested_action.duplicate());
                            assert(actions_view(performed@) =~= actions_view(op).push(item@.suggested_action));
                        },
                        None => {
                            let tid = crate::text::chars_of(&crate::text::debug_string(tab_id));
                            let prefix = ['T', 'a', 'b', ' '];
                            assert(prefix@ == seq!['T', 'a', 'b', ' ']);
                            let msg = not_found_message(&prefix, &tid);
                            let ghost oe = errors@;
                            errors.push(msg);
                            assert(strings_view(errors@) =~= strings_view(oe).push(msg@));
                        },
                    }
                },
                SyncAction::UpdateUnifiedPage { page_id, updates } => {
                    match find_page_by_id(&self.unified_pages, *page_id) {
                        Some(i) => {
                            proof {
                                lemma_page_index(self@.pages, *page_id);
                            }
                            let mut p = self.unified_pages[i].duplicate();
                            apply_updates(&mut p, updates, now);
                            let ghost pv = p@;
                            let ghost opg = self.unified_pages@;
                            self.unified_pages.set(i, p);
                            assert(pages_view(self.unified_pages@) =~= pages_view(opg).update(i as int, pv));
                            let ghost op = performed@;
                            performed.push(item.suggested_action.duplicate());
                            assert(actions_view(performed@) =~= actions_view(op).push(item@.suggested_action));
                        },
                        None => {
                            let mut idv: Vec<char> = Vec::new();
                            crate::text::push_uuid(&mut idv, *page_id);
                            let prefix = ['U', 'n', 'i', 'f', 'i', 'e', 'd', ' ', 'p', 'a', 'g', 'e', ' '];
                            assert(prefix@ == seq!['U', 'n', 'i', 'f', 'i', 'e', 'd', ' ', 'p', 'a', 'g', 'e', ' ']);
                            let msg = not_found_message(&prefix, &idv);
                            let ghost oe = errors@;
                            errors.push(msg);
                            assert(strings_view(errors@) =~= strings_view(oe).push(msg@));
                        },
                    }
                },
            }
            k += 1;
        }
        assert(av.take(approved@.len() as int) == av);
        proof {
            lemma_exec_items_sizes(norm, st0, av, now, page_ids@, strings_view(bookmark_ids@));
        }
        self.refresh_associations_at(now);
        self.refresh_unified_pages_at(now, merge_ids);
        SyncResult::partial(performed, errors)
    }

    /// Executes the approved sync items, now, with fresh identifiers.
    pub fn execute_approved_syncs(&mut self) -> (r: SyncResult)
        requires
            old(self).wf(),
            old(self)@.tabs.len() + old(self)@.bookmarks.len() + old(self)@.queue.len() <= usize::MAX,
        ensures
            final(self).wf(),
            final(self).configuration() == old(self).configuration(),
            exists|now: i64, page_ids: Seq<u128>, bookmark_ids: Seq<Seq<char>>, merge_ids: Seq<u128>|
                {
                    let e = #[trigger] executed(
                        old(self).configuration().matcher_config,
                        old(self)@,
                        now,
                        page_ids,
                        bookmark_ids,
                        merge_ids,
                    );
                    &&& final(self)@ == e.0
                    &&& actions_view(r.actions_performed@) == e.1
                    &&& strings_view(r.errors@) == e.2
                    &&& r.success == (e.2.len() == 0)
                    &&& r.items_synced == e.1.len()
                },
    {
        let n = self.sync_queue.pending_count();
        let page_ids = fresh_ids(n);
        let mut bookmark_ids: Vec<String> = Vec::new();
        let mut i: usize = 0;
        while i < n
            invariant
                i <= n,
                bookmark_ids@.len() == i,
            decreases n - i,
        {
            bookmark_ids.push(crate::platform::new_id_string());
            i += 1;
        }
        let merge_ids = fresh_ids(self.tabs.len() + self.bookmarks.len() + n);
        let now = crate::platform::now_millis();
        self.execute_approved_syncs_at(now, &page_ids, &bookmark_ids, &merge_ids)
    }
}

/// Why a bookmark could not be made from a tab.
#[derive(Clone, Debug)]
pub enum UnifiedManagerError {
    /// No cached tab has the id.
    TabNotFound(String),
}

impl UnifiedManagerError {
    /// The error's text.
    pub fn message(&self) -> (r: String)
        ensures
            match self {
                UnifiedManagerError::TabNotFound(id) => r@ == tab_not_found(id@),
            },
    {
        match self {
            UnifiedManagerError::TabNotFound(id) => {
                let tid = crate::text::chars_of(&crate::text::debug_string(id));
                let prefix = ['T', 'a', 'b', ' '];
                assert(prefix@ == seq!['T', 'a', 'b', ' ']);
                not_found_message(&prefix, &tid)
            },
        }
    }
}

/// Whether a page merges a tab and a bookmark.
pub open spec fn is_matched_page(p: PageModel) -> bool {
    p.tab_info is Some && p.bookmark_info is Some
}

/// The number of pages that hold both a tab and a bookmark.
pub open spec fn matched_count(pages: Seq<PageModel>) -> nat {
    pages.filter(|p: PageModel| is_matched_page(p)).len()
}

/// The number of pages that hold a tab and no bookmark.
pub open spec fn tab_only_count(pages: Seq<PageModel>) -> nat {
    pages.filter(|p: PageModel| is_tab_only_page(p)).len()
}

/// The number of pages that hold a bookmark and no tab.
pub open spec fn bookmark_only_count(pages: Seq<PageModel>) -> nat {
    pages.filter(|p: PageModel| is_bookmark_only_page(p)).len()
}

/// No page is counted twice: the pages with both, with a tab only and with
/// a bookmark only together number at most all pages.
pub proof fn law_page_counts_within_total(pages: Seq<PageModel>)
    ensures
        matched_count(pages) + tab_only_count(pages) + bookmark_only_count(pages) <= pages.len(),
    decreases pages.len(),
{
    if pages.len() > 0 {
        let t = pages.drop_last();
        law_page_counts_within_total(t);
        assert(pages == t.push(pages.last()));
        t.lemma_filter_push(pages.last(), |p: PageModel| is_matched_page(p));
        t.lemma_filter_push(pages.last(), |p: PageModel| is_tab_only_page(p));
        t.lemma_filter_push(pages.last(), |p: PageModel| is_bookmark_only_page(p));
    }
}

/// Whether a page holds a tab and no bookmark.
pub open spec fn is_tab_only_page(p: PageModel) -> bool {
    p.tab_info is Some && p.bookmark_info is None
}

/// Whether a page holds a bookmark and no tab.
pub open spec fn is_bookmark_only_page(p: PageModel) -> bool {
    p.tab_info is None && p.bookmark_info is Some
}

/// The bookmark made from tab `t` at time `now`, named `bookmark_id`, and
/// its page: it inherits from the first page with the tab's normalized URL,
/// or else from the tab merged on its own into a page named `page_id`.
pub open spec fn created_from_tab(
    norm: bool,
    pages: Seq<PageModel>,
    t: TabModel,
    folder_path: Seq<Seq<char>>,
    page_id: u128,
    bookmark_id: Seq<char>,
    now: i64,
) -> (BookmarkModel, PageModel) {
    bookmark_from_tab(t, page_for_tab(norm, pages, t, page_id, now), folder_path, bookmark_id, now)
}

/// The state after a bookmark `b` and its page `p` are added and the
/// associations recomputed at time `now`.
pub open spec fn with_new_bookmark(
    cfg: MatcherConfig,
    m: ManagerModel,
    b: BookmarkModel,
    p: PageModel,
    now: i64,
) -> ManagerModel {
    ManagerModel {
        bookmarks: m.bookmarks.push(b),
        pages: m.pages.push(p),
        associations: associations(cfg, m.tabs, m.bookmarks.push(b), now),
        ..m
    }
}

/// The bookmark made from tab `t` of state `m`, its page, and the state
/// once both are added (see [`created_from_tab`] and [`with_new_bookmark`]).
pub open spec fn created_state(
    cfg: MatcherConfig,
    m: ManagerModel,
    t: TabModel,
    folder_path: Seq<Seq<char>>,
    page_id: u128,
    bookmark_id: Seq<char>,
    now: i64,
) -> (BookmarkModel, PageModel, ManagerModel) {
    let c = created_from_tab(cfg.normalize_urls, m.pages, t, folder_path, page_id, bookmark_id, now);
    (c.0, c.1, with_new_bookmark(cfg, m, c.0, c.1, now))
}

impl PageUnifiedManager {
    /// The tabs that match the first bookmark with an id, now.
    pub fn find_tabs_for_bookmark(&self, bookmark_id: &String) -> (r: Vec<MatchInfo>)
        requires
            self.wf(),
        ensures
            exists|now: i64|
                matches_view(r@) == #[trigger] tabs_for_bookmark_id(
                    self.configuration().matcher_config,
                    self@.tabs,
                    self@.bookmarks,
                    bookmark_id@,
                    now,
                ),
    {
        let now = crate::platform::now_millis();
        self.find_tabs_for_bookmark_at(bookmark_id, now)
    }

    /// Makes a bookmark from the first cached tab with an id at time `now`:
    /// the bookmark, named `bookmark_id`, inherits from the first unified
    /// page with the tab's normalized URL, or else from the tab merged on its
    /// own into a page named `page_id`. The bookmark and its page are added,
    /// and the associations recomputed.
    pub fn create_bookmark_from_tab_at(
        &mut self,
        tab_id: &String,
        folder_path: Vec<String>,
        now: i64,
        page_id: u128,
        bookmark_id: String,
    ) -> (r: Result<(BookmarkInfo, UnifiedPageInfo), UnifiedManagerError>)
        requires
            old(self).wf(),
        ensures
            final(self).wf(),
            final(self).configuration() == old(self).configuration(),
            match tab_with_id(old(self)@.tabs, tab_id@) {
                None => {
                    &&& final(self)@ == old(self)@
                    &&& r matches Err(UnifiedManagerError::TabNotFound(id)) && id@ == tab_id@
                },
                Some(t) => {
                    let (b, p) = created_from_tab(
                        old(self).configuration().matcher_config.normalize_urls,
                        old(self)@.pages,
                        t,
                        strings_view(folder_path@),
                        page_id,
                        bookmark_id@,
                        now,
                    );
                    &&& r matches Ok((rb, rp)) && rb@ == b && rp@ == p
                    &&& final(self)@ == with_new_bookmark(
                        old(self).configuration().matcher_config,
                        old(self)@,
                        b,
                        p,
                        now,
                    )
                },
            },
    {
        let ghost norm = self.config.matcher_config.normalize_urls;
        match find_tab_by_id(&self.tabs, tab_id) {
            None => Err(UnifiedManagerError::TabNotFound(copy_string(tab_id))),
            Some(t) => {
                let tab = self.tabs[t].duplicate();
                let page = match self.get_unified_page_by_url(&tab.url) {
                    Some(p) => p,
                    None => self.sync_manager.merge_to_unified_page_at(
                        Some(&tab),
                        None,
                        None,
                        page_id,
                        String::new(),
                        now,
                    ),
                };
                assert(page@ == page_for_tab(norm, self@.pages, tab@, page_id, now));
                let (bookmark, bookmark_page) = crate::sync::create_bookmark_from_tab(
                    &tab,
                    &page,
                    folder_path,
                    bookmark_id,
                    now,
                );
                let ghost ob = self.bookmarks@;
                let ghost op = self.unified_pages@;
                self.bookmarks.push(bookmark.duplicate());
                self.unified_pages.push(bookmark_page.duplicate());
                assert(bookmarks_view(self.bookmarks@) =~= bookmarks_view(ob).push(bookmark@));
                assert(pages_view(self.unified_pages@) =~= pages_view(op).push(bookmark_page@));
                self.refresh_associations_at(now);
                Ok((bookmark, bookmark_page))
            },
        }
    }

    /// Makes a bookmark from the first cached tab with an id, now, with fresh
    /// identifiers.
    pub fn create_bookmark_from_tab(&mut self, tab_id: &String, folder_path: Vec<String>) -> (r:
        Result<(BookmarkInfo, UnifiedPageInfo), UnifiedManagerError>)
        requires
            old(self).wf(),
        ensures
            final(self).wf(),
            final(self).configuration() == old(self).configuration(),
            tab_with_id(old(self)@.tabs, tab_id@) is None ==> final(self)@ == old(self)@ && (
            r matches Err(UnifiedManagerError::TabNotFound(id)) && id@ == tab_id@),
            tab_with_id(old(self)@.tabs, tab_id@) matches Some(t) ==> exists|
                now: i64,
                page_id: u128,
                bookmark_id: Seq<char>,
            |
                #![trigger created_state(old(self).configuration().matcher_config, old(self)@, t, strings_view(folder_path@), page_id, bookmark_id, now)]
                r matches Ok((rb, rp)) && rb@ == created_state(
                    old(self).configuration().matcher_config,
                    old(self)@,
                    t,
                    strings_view(folder_path@),
                    page_id,
                    bookmark_id,
                    now,
                ).0 && rp@ == created_state(
                    old(self).configuration().matcher_config,
                    old(self)@,
                    t,
                    strings_view(folder_path@),
                    page_id,
                    bookmark_id,
                    now,
                ).1 && final(self)@ == created_state(
                    old(self).configuration().matcher_config,
                    old(self)@,
                    t,
                    strings_view(folder_path@),
                    page_id,
                    bookmark_id,
                    now,
                ).2,
    {
        let now = crate::platform::now_millis();
        let page_id = crate::platform::new_uuid();
        let bookmark_id = crate::platform::new_id_string();
        let ghost bid = bookmark_id@;
        let ghost fp = strings_view(folder_path@);
        let r = self.create_bookmark_from_tab_at(tab_id, folder_path, now, page_id, bookmark_id);
        proof {
            if let Some(t) = tab_with_id(old(self)@.tabs, tab_id@) {
                let _ = created_state(
                    old(self).configuration().matcher_config,
                    old(self)@,
                    t,
                    fp,
                    page_id,
                    bid,
                    now,
                );
            }
        }
        r
    }

    /// Counts of pages by what they hold, of pending items, and of tabs whose
    /// bookmark is out of date.
    pub fn get_stats(&self) -> (r: UnifiedManagerStats)
        ensures
            r.total_pages == self@.pages.len(),
            r.pending_sync_count == self@.queue.len(),
            r.detected_changes_count == self@.associations.filter(
                |a: AssocModel| has_pending_status(a),
            ).len(),
            r.matched_pages == matched_count(self@.pages),
            r.active_tab_pages == tab_only_count(self@.pages),
            r.bookmark_only_pages == bookmark_only_count(self@.pages),
    {
        let ghost pv = pages_view(self.unified_pages@);
        let ghost av = assocs_view(self.association_cache@);
        let mut changes: usize = 0;
        let mut i: usize = 0;
        proof {
            reveal(Seq::filter);
        }
        assert(av.take(0) =~= Seq::<AssocModel>::empty());
        while i < self.association_cache.len()
            invariant
                i <= self.association_cache@.len(),
                av == assocs_view(self.association_cache@),
                changes == av.take(i as int).filter(|a: AssocModel| has_pending_status(a)).len(),
                changes <= i,
            decreases self.association_cache@.len() - i,
        {
            let x = &self.association_cache[i];
            assert(av.take(i as int + 1) == av.take(i as int).push(x@));
            proof {
                av.take(i as int).lemma_filter_push(x@, |a: AssocModel| has_pending_status(a));
            }
            if x.has_pending_changes {
                changes += 1;
            }
            i += 1;
        }
        assert(av.take(av.len() as int) == av);
        let mut matched: usize = 0;
        let mut tab_only: usize = 0;
        let mut bookmark_only: usize = 0;
        let mut j: usize = 0;
        assert(pv.take(0) =~= Seq::<PageModel>::empty());
        while j < self.unified_pages.len()
            invariant
                j <= self.unified_pages@.len(),
                pv == pages_view(self.unified_pages@),
                matched == pv.take(j as int).filter(|p: PageModel| is_matched_page(p)).len(),
                tab_only == pv.take(j as int).filter(|p: PageModel| is_tab_only_page(p)).len(),
                bookmark_only == pv.take(j as int).filter(|p: PageModel| is_bookmark_only_page(p)).len(),
                matched <= j,
                tab_only <= j,
                bookmark_only <= j,
            decreases self.unified_pages@.len() - j,
        {
            let x = &self.unified_pages[j];
            assert(pv.take(j as int + 1) == pv.take(j as int).push(x@));
            proof {
                pv.take(j as int).lemma_filter_push(x@, |p: PageModel| is_matched_page(p));
                pv.take(j as int).lemma_filter_push(x@, |p: PageModel| is_tab_only_page(p));
                pv.take(j as int).lemma_filter_push(x@, |p: PageModel| is_bookmark_only_page(p));
            }
            match (&x.tab_info, &x.bookmark_info) {
                (Some(_), Some(_)) => {
                    matched += 1;
                },
                (Some(_), None) => {
                    tab_only += 1;
                },
                (None, Some(_)) => {
                    bookmark_only += 1;
                },
                (None, None) => {},
            }
            j += 1;
        }
        assert(pv.take(pv.len() as int) == pv);
        UnifiedManagerStats {
            total_pages: self.unified_pages.len(),
            active_tab_pages: tab_only,
            bookmark_only_pages: bookmark_only,
            matched_pages: matched,
            pending_sync_count: self.sync_queue.pending_count(),
            detected_changes_count: changes,
        }
    }
}

impl Default for PageUnifiedManager {
    fn default() -> (r: Self)
        ensures
            r@ == empty_manager(),
            r.wf(),
            r.configuration().auto_detect_changes,
            r.configuration().max_pending_sync_items == 100,
    {
        Self::new()
    }
}

} // verus!
