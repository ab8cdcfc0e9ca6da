use page_manager::model::{BrowserType, TabInfo};
use page_manager::remote_controller::{
    OperationStatus, RemoteTabController, RemoteTabControllerConfig, TabOperationRecord, TabOperationType,
    UndoError, DEFAULT_MAX_HISTORY_SIZE,
};
use page_manager::search::{
    calculate_relevance, deduplicate_results, sort_results, SearchFilter, SearchResultItem, SearchResultSource,
    SearchResults, SearchSortOrder,
};
use page_manager::platform::now_millis;

fn item(id: &str, url: &str, title: &str, source: SearchResultSource, score: f32, at: i64) -> SearchResultItem {
    SearchResultItem {
        id: id.to_string(),
        url: url.to_string(),
        title: title.to_string(),
        favicon_url: None,
        source_type: source,
        relevance_score: (score * 10000.0).round() as u32,
        snippet: None,
        keywords: vec![],
        last_accessed: at,
        browser_type: None,
    }
}

#[test]
fn test_search_filter_matches() {
    let mut result = item("test", "https://example.com", "Example", SearchResultSource::ActiveTab, 0.8, now_millis());
    result.keywords = vec!["rust".to_string()];
    result.browser_type = Some(BrowserType::Chrome);
    let filter = SearchFilter::new();
    assert!(filter.matches(&result));
    let filter = SearchFilter::tabs_only();
    assert!(filter.matches(&result));
    let filter = SearchFilter::bookmarks_only();
    assert!(!filter.matches(&result));
    let filter = SearchFilter::new().with_browser(BrowserType::Chrome);
    assert!(filter.matches(&result));
    let filter = SearchFilter::new().with_browser(BrowserType::Firefox);
    assert!(!filter.matches(&result));
}

#[test]
fn test_search_sort_order() {
    let now = now_millis();
    let results = vec![
        item("1", "https://a.com", "Zebra", SearchResultSource::ActiveTab, 0.5, now - 3_600_000),
        item("2", "https://b.com", "Apple", SearchResultSource::Bookmark, 0.9, now),
    ];
    let results = sort_results(results, SearchSortOrder::Relevance);
    assert_eq!(results[0].title, "Apple");
    let results = sort_results(results, SearchSortOrder::TitleAsc);
    assert_eq!(results[0].title, "Apple");
    assert_eq!(results[1].title, "Zebra");
}

#[test]
fn sort_orders_by_time_and_title() {
    let results = vec![
        item("1", "https://a.com", "b", SearchResultSource::ActiveTab, 0.1, 30),
        item("2", "https://b.com", "C", SearchResultSource::ActiveTab, 0.1, 10),
        item("3", "https://c.com", "a", SearchResultSource::ActiveTab, 0.1, 20),
    ];
    let recent: Vec<String> = sort_results(results.clone(), SearchSortOrder::RecentFirst).into_iter().map(|r| r.id).collect();
    assert_eq!(recent, vec!["1", "3", "2"]);
    let oldest: Vec<String> = sort_results(results.clone(), SearchSortOrder::OldestFirst).into_iter().map(|r| r.id).collect();
    assert_eq!(oldest, vec!["2", "3", "1"]);
    let desc: Vec<String> = sort_results(results, SearchSortOrder::TitleDesc).into_iter().map(|r| r.id).collect();
    assert_eq!(desc, vec!["2", "1", "3"]);
}

#[test]
fn test_calculate_relevance() {
    let query = "rust";
    let title = "Rust Programming Language";
    let url = "https://rust-lang.org";
    assert!(title.to_lowercase().contains(query));
    assert!(url.to_lowercase().contains(query));
    // title contains the query (0.8) and so does the URL (0.3): capped at 1.0
    assert_eq!(calculate_relevance(query, url, title, &[]), 10000);
}

#[test]
fn relevance_scores_each_part() {
    assert_eq!(calculate_relevance("rust", "https://x.org", "rust", &[]), 10000);
    assert_eq!(calculate_relevance("rust", "https://x.org", "Learn Rust today", &[]), 8000);
    assert_eq!(calculate_relevance("rust book", "https://x.org", "The rustacean guide", &[]), 2500);
    assert_eq!(calculate_relevance("rust", "https://rust.org", "Nothing", &[]), 3000);
    assert_eq!(calculate_relevance("rust", "https://x.org", "Nothing", &["Rust".to_string()]), 2000);
    assert_eq!(calculate_relevance("zzz", "https://x.org", "Nothing", &[]), 0);
}

#[test]
fn test_search_results_group_by_source() {
    let now = now_millis();
    let results = SearchResults {
        query: "test".to_string(),
        total_count: 3,
        items: vec![
            item("1", "https://a.com", "A", SearchResultSource::ActiveTab, 0.8, now),
            item("2", "https://b.com", "B", SearchResultSource::Bookmark, 0.7, now),
            item("3", "https://c.com", "C", SearchResultSource::ActiveTab, 0.6, now),
        ],
        search_time_ms: 10,
        filter: SearchFilter::default(),
    };
    let groups = results.group_by_source();
    let count = |s: SearchResultSource| groups.iter().find(|g| g.source == s).map(|g| g.items.len());
    assert_eq!(count(SearchResultSource::ActiveTab), Some(2));
    assert_eq!(count(SearchResultSource::Bookmark), Some(1));
    assert_eq!(count(SearchResultSource::History), None);
}

#[test]
fn deduplication_keeps_one_result_per_url() {
    let results = vec![
        item("1", "https://A.com", "A", SearchResultSource::History, 0.5, 1),
        item("2", "https://a.com", "A", SearchResultSource::ActiveTab, 0.5, 1),
        item("3", "https://b.com", "B", SearchResultSource::Bookmark, 0.2, 1),
        item("4", "https://b.com", "B", SearchResultSource::Archive, 0.9, 1),
    ];
    let ids: Vec<String> = deduplicate_results(results).into_iter().map(|r| r.id).collect();
    assert_eq!(ids, vec!["2", "4"]);
}

#[test]
fn test_operation_record_creation() {
    let record = TabOperationRecord::new(
        TabOperationType::Close,
        BrowserType::Chrome,
        "test-tab".to_string(),
        Some("https://example.com".to_string()),
        Some("Example".to_string()),
    );
    assert_eq!(record.operation_type, TabOperationType::Close);
    assert_eq!(record.browser_type, BrowserType::Chrome);
    assert!(record.undoable);
    assert_eq!(record.status, OperationStatus::PendingVerification);
}

#[test]
fn test_operation_status_transitions() {
    let mut record = TabOperationRecord::new(
        TabOperationType::Create,
        BrowserType::Firefox,
        "t1".to_string(),
        Some("https://test.com".to_string()),
        None,
    );
    assert!(!record.status.is_success());
    assert!(!record.status.is_failed());
    record.mark_success();
    assert!(record.status.is_success());
    let mut record2 = TabOperationRecord::new(TabOperationType::Activate, BrowserType::Edge, "t2".to_string(), None, None);
    record2.mark_failed("Connection error".to_string());
    assert!(record2.status.is_failed());
}

#[test]
fn test_activate_not_undoable() {
    let mut record = TabOperationRecord::new(TabOperationType::Activate, BrowserType::Chrome, "t".to_string(), None, None);
    assert!(!record.undoable);
    record.undoable = false;
    assert!(!record.undoable);
}

#[test]
fn test_controller_creation() {
    let controller = RemoteTabController::new();
    let stats = controller.get_stats();
    assert_eq!(stats.total_operations, 0);
    assert_eq!(stats.successful_operations, 0);
    assert_eq!(stats.failed_operations, 0);
}

#[test]
fn test_history_management() {
    let controller = RemoteTabController::new();
    assert!(controller.get_history().is_empty());
    assert!(controller.get_undoable_operations().is_empty());
}

#[test]
fn test_config_defaults() {
    let config = RemoteTabControllerConfig::default();
    assert_eq!(config.max_history_size, DEFAULT_MAX_HISTORY_SIZE);
    assert!(config.verify_operations);
    assert!(config.enable_undo);
    assert_eq!(config.max_retry_attempts, 2);
}

fn tab(url: &str) -> TabInfo {
    TabInfo {
        id: "tab-1".to_string(),
        url: url.to_string(),
        title: "Title".to_string(),
        favicon_url: None,
        browser_type: BrowserType::Chrome,
        is_private: false,
        created_at: 0,
        last_accessed: 0,
    }
}

#[test]
fn a_close_is_undone_once() {
    let mut controller = RemoteTabController::new();
    let t = tab("https://example.com/a");
    let r = controller.complete_close(BrowserType::Chrome, "tab-1", Some(&t), Ok(()), 7, 100);
    assert!(r.record.status.is_success());
    assert_eq!(controller.prepare_undo_close(7), Ok("https://example.com/a".to_string()));
    let reopened = controller.complete_create(BrowserType::Chrome, "https://example.com/a", Ok("tab-2".to_string()), "pending".to_string(), 8, 200);
    let done = controller.finish_undo(7, reopened);
    assert_eq!(done.record.related_operation_id, Some(7));
    assert_eq!(
        controller.prepare_undo_close(7),
        Err(UndoError::RestoreFailed { reason: "Operation cannot be undone".to_string() })
    );
    assert_eq!(controller.get_stats().undo_operations, 1);
    assert!(matches!(controller.prepare_undo_close(99), Err(UndoError::EntryNotFound { .. })));
    assert!(matches!(controller.prepare_undo_create(7), Err(UndoError::RestoreFailed { .. })));
}

#[test]
fn history_is_bounded_and_failures_counted() {
    let config = RemoteTabControllerConfig { max_history_size: 3, ..Default::default() };
    let mut controller = RemoteTabController::with_config(config);
    for k in 0..5u128 {
        let outcome = if k % 2 == 0 { Ok(()) } else { Err("boom".to_string()) };
        controller.complete_activate(BrowserType::Firefox, "tab", outcome, k, k as i64);
    }
    let history = controller.get_history();
    assert_eq!(history.len(), 3);
    assert_eq!(history[0].id, 2);
    let stats = controller.get_stats();
    assert_eq!(stats.total_operations, 5);
    assert_eq!(stats.successful_operations, 3);
    assert_eq!(stats.failed_operations, 2);
    assert_eq!(controller.get_failed_operations().len(), 1);
    controller.clear_history();
    assert!(controller.get_history().is_empty());
}

#[test]
fn controller_counts_add_up_across_kinds_and_browsers() {
    let config = RemoteTabControllerConfig { max_history_size: 2, ..Default::default() };
    let mut controller = RemoteTabController::with_config(config);
    let t = tab("https://example.com/x");
    controller.complete_close(BrowserType::Chrome, "t1", Some(&t), Ok(()), 1, 10);
    controller.complete_activate(BrowserType::Firefox, "t2", Err("no".to_string()), 2, 20);
    controller.complete_create(BrowserType::Edge, "https://example.com/y", Ok("t3".to_string()), "x".to_string(), 3, 30);
    let stats = controller.get_stats();
    assert_eq!(stats.total_operations, 3);
    assert_eq!(stats.successful_operations + stats.failed_operations, 3);
    let by_type: usize = stats.operations_by_type.iter().map(|c| c.count).sum();
    let by_browser: usize = stats.operations_by_browser.iter().map(|c| c.count).sum();
    assert_eq!(by_type, 3);
    assert_eq!(by_browser, 3);
    assert_eq!(stats.history_size, controller.get_history().len());
    assert_eq!(stats.history_size, 2);
}

#[test]
fn controller_without_undo_keeps_no_history() {
    let config = RemoteTabControllerConfig { enable_undo: false, ..Default::default() };
    let mut controller = RemoteTabController::with_config(config);
    controller.complete_activate(BrowserType::Chrome, "t", Ok(()), 1, 1);
    assert!(controller.get_history().is_empty());
    assert_eq!(controller.get_stats().history_size, 0);
    assert_eq!(controller.get_stats().total_operations, 1);
}

fn search_page(id: u128, url: &str, title: &str) -> page_manager::model::UnifiedPageInfo {
    page_manager::model::UnifiedPageInfo {
        id,
        url: url.to_string(),
        title: title.to_string(),
        favicon_url: None,
        content_summary: None,
        keywords: vec![],
        category: None,
        source_type: page_manager::model::PageSourceType::ClosedTab { history_id: "h".to_string() },
        browser_info: None,
        tab_info: None,
        bookmark_info: None,
        created_at: 0,
        last_accessed: 0,
        access_count: 0,
    }
}

#[test]
fn search_stops_at_the_first_failing_source() {
    let mut manager = page_manager::search::UnifiedSearchManager::new();
    let r: Result<SearchResults, String> = manager.search_sources_at(
        "rust",
        page_manager::search::SearchOptions::default(),
        Ok(vec![search_page(1, "https://rust.example", "Rust")]),
        Err("history down".to_string()),
        Err("archives down".to_string()),
        10,
        0,
    );
    assert_eq!(r.err(), Some("history down".to_string()));
    assert!(manager.get_search_history(10).is_empty());
}

#[test]
fn search_ignores_failures_of_sources_not_asked_for() {
    let mut manager = page_manager::search::UnifiedSearchManager::new();
    let options = page_manager::search::SearchOptions {
        filter: SearchFilter::default().with_source(SearchResultSource::UnifiedPage),
        ..Default::default()
    };
    let r: Result<SearchResults, String> = manager.search_sources_at(
        "rust",
        options,
        Ok(vec![search_page(1, "https://rust.example", "Rust")]),
        Err("history down".to_string()),
        Err("archives down".to_string()),
        10,
        3,
    );
    let results = r.unwrap();
    assert_eq!(results.total_count, 1);
    assert_eq!(results.items[0].url, "https://rust.example");
    assert_eq!(results.search_time_ms, 3);
    assert_eq!(manager.get_search_history(10).len(), 1);
}
