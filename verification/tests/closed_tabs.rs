use page_manager::history::{HistoryFilter, RetentionPolicy, TabEvent, TabHistoryManager};
use page_manager::model::{BrowserType, ContentSummary, TabInfo};
use page_manager::platform::{new_id_string, new_uuid, now_millis};

const MINUTE: i64 = 60_000;
const HOUR: i64 = 60 * MINUTE;

fn create_test_tab(url: &str, title: &str, browser_type: BrowserType) -> TabInfo {
    TabInfo {
        id: new_id_string(),
        url: url.to_string(),
        title: title.to_string(),
        favicon_url: None,
        browser_type,
        is_private: false,
        created_at: now_millis() - 10 * MINUTE,
        last_accessed: now_millis(),
    }
}

fn create_private_tab(url: &str, title: &str) -> TabInfo {
    TabInfo { is_private: true, ..create_test_tab(url, title, BrowserType::Chrome) }
}

fn create_new_tab(url: &str, title: &str) -> TabInfo {
    TabInfo { created_at: now_millis(), ..create_test_tab(url, title, BrowserType::Chrome) }
}

#[test]
fn test_save_closed_tab() {
    let mut manager = TabHistoryManager::new();
    let tab = create_test_tab("https://example.com", "Example", BrowserType::Chrome);
    let id = manager.save_closed_tab(tab, now_millis());
    let history = manager.get_recent(10);
    assert_eq!(history.len(), 1);
    assert_eq!(history[0].id, id);
    assert_eq!(history[0].page_info.url, "https://example.com");
    assert_eq!(history[0].page_info.title, "Example");
    assert_eq!(history[0].browser_type, BrowserType::Chrome);
    assert!(manager.get_by_id(&id).is_some());
}

#[test]
fn test_filter_by_browser() {
    let mut manager = TabHistoryManager::new();
    manager.save_closed_tab(create_test_tab("https://chrome.example.com", "Chrome Tab", BrowserType::Chrome), now_millis());
    manager.save_closed_tab(create_test_tab("https://firefox.example.com", "Firefox Tab", BrowserType::Firefox), now_millis());
    let chrome_history = manager.get_by_browser(BrowserType::Chrome);
    assert_eq!(chrome_history.len(), 1);
    assert!(chrome_history[0].page_info.url.contains("chrome"));
    let firefox_history = manager.get_by_browser(BrowserType::Firefox);
    assert_eq!(firefox_history.len(), 1);
    assert!(firefox_history[0].page_info.url.contains("firefox"));
}

#[test]
fn test_filter_by_date_range() {
    let mut manager = TabHistoryManager::new();
    let now = now_millis();
    manager.save_closed_tab(create_test_tab("https://old.example.com", "Old Tab", BrowserType::Chrome), now - 2 * HOUR);
    manager.save_closed_tab(create_test_tab("https://new.example.com", "New Tab", BrowserType::Chrome), now);
    let recent = manager.get_in_time_range(now - HOUR, now);
    assert_eq!(recent.len(), 1);
    assert!(recent[0].page_info.url.contains("new"));
}

#[test]
fn test_filter_by_url_pattern() {
    let mut manager = TabHistoryManager::new();
    manager.save_closed_tab(create_test_tab("https://rust-lang.org", "Rust", BrowserType::Chrome), now_millis());
    manager.save_closed_tab(create_test_tab("https://python.org", "Python", BrowserType::Chrome), now_millis());
    let filter = HistoryFilter { url_pattern: Some("rust".to_string()), ..Default::default() };
    let results = manager.get_history(&filter);
    assert_eq!(results.len(), 1);
    assert!(results[0].page_info.url.contains("rust"));
    let filter = HistoryFilter { url_pattern: Some("RUST".to_string()), ..Default::default() };
    assert_eq!(manager.get_history(&filter).len(), 1);
}

#[test]
fn test_filter_by_title_pattern() {
    let mut manager = TabHistoryManager::new();
    manager.save_closed_tab(create_test_tab("https://example1.com", "Programming Tutorial", BrowserType::Chrome), now_millis());
    manager.save_closed_tab(create_test_tab("https://example2.com", "News Article", BrowserType::Chrome), now_millis());
    let filter = HistoryFilter { title_pattern: Some("tutorial".to_string()), ..Default::default() };
    let results = manager.get_history(&filter);
    assert_eq!(results.len(), 1);
    assert!(results[0].page_info.title.contains("Tutorial"));
}

#[test]
fn test_search() {
    let mut manager = TabHistoryManager::new();
    manager.save_closed_tab(create_test_tab("https://rust-lang.org", "Rust Programming Language", BrowserType::Chrome), now_millis());
    manager.save_closed_tab(create_test_tab("https://python.org", "Python Programming", BrowserType::Chrome), now_millis());
    manager.save_closed_tab(create_test_tab("https://news.com", "Daily News", BrowserType::Chrome), now_millis());
    assert_eq!(manager.search("programming", 10).len(), 2);
    assert_eq!(manager.search("rust", 10).len(), 1);
    assert_eq!(manager.search("programming", 1).len(), 1);
}

#[test]
fn test_delete_entry() {
    let mut manager = TabHistoryManager::new();
    let history_id = manager.save_closed_tab(create_test_tab("https://example.com", "Example", BrowserType::Chrome), now_millis());
    assert_eq!(manager.total_count(), 1);
    assert!(manager.delete(&history_id));
    assert_eq!(manager.total_count(), 0);
    assert!(!manager.delete(&history_id));
    assert!(manager.get_by_id(&history_id).is_none());
}

#[test]
fn test_delete_older_than() {
    let mut manager = TabHistoryManager::new();
    let now = now_millis();
    manager.save_closed_tab(create_test_tab("https://old.example.com", "Old", BrowserType::Chrome), now - 2 * HOUR);
    manager.save_closed_tab(create_test_tab("https://new.example.com", "New", BrowserType::Chrome), now);
    assert_eq!(manager.delete_older_than(now - HOUR), 1);
    assert_eq!(manager.total_count(), 1);
}

#[test]
fn test_skip_private_tabs() {
    let manager = TabHistoryManager::new();
    assert!(!manager.should_save_tab(&create_private_tab("https://private.example.com", "Private")));
}

#[test]
fn test_skip_internal_pages() {
    let manager = TabHistoryManager::new();
    assert!(!manager.should_save_tab(&create_test_tab("chrome://settings", "Settings", BrowserType::Chrome)));
    assert!(manager.is_internal_page("about:blank"));
    assert!(!manager.is_internal_page("https://example.com"));
}

#[test]
fn test_skip_new_tabs() {
    let manager = TabHistoryManager::new();
    assert!(!manager.should_save_tab(&create_new_tab("https://example.com", "Example")));
    assert!(manager.should_save_tab(&create_test_tab("https://example.com", "Example", BrowserType::Chrome)));
}

#[test]
fn test_process_tab_events() {
    let mut manager = TabHistoryManager::new();
    let now = now_millis();
    let tab = create_test_tab("https://example.com", "Example", BrowserType::Chrome);
    let events = vec![TabEvent::Closed {
        tab_id: tab.id.clone(),
        browser_type: BrowserType::Chrome,
        timestamp: now,
        last_known_info: Some(tab),
    }];
    let hids = vec![new_id_string()];
    let saved_ids = manager.process_tab_events_at(&events, now, &hids, &[new_uuid()], &[new_id_string()]);
    assert_eq!(saved_ids.len(), 1);
    assert_eq!(saved_ids[0], hids[0]);
    assert_eq!(manager.total_count(), 1);
}

#[test]
fn other_tab_events_save_nothing() {
    let mut manager = TabHistoryManager::new();
    let now = now_millis();
    let tab = create_test_tab("https://example.com", "Example", BrowserType::Chrome);
    let events = vec![
        TabEvent::Activated { tab_id: tab.id.clone(), browser_type: BrowserType::Chrome },
        TabEvent::Created { tab: tab.clone() },
        TabEvent::Closed { tab_id: tab.id.clone(), browser_type: BrowserType::Chrome, timestamp: now, last_known_info: None },
    ];
    let ids = vec![new_id_string(), new_id_string(), new_id_string()];
    let pids = vec![new_uuid(), new_uuid(), new_uuid()];
    let saved = manager.process_tab_events_at(&events, now, &ids, &pids, &ids);
    assert!(saved.is_empty());
    assert_eq!(manager.total_count(), 0);
}

#[test]
fn test_get_recently_closed() {
    let mut manager = TabHistoryManager::new();
    let now = now_millis();
    manager.save_closed_tab(create_test_tab("https://old.example.com", "Old", BrowserType::Chrome), now - 2 * HOUR);
    manager.save_closed_tab(create_test_tab("https://recent.example.com", "Recent", BrowserType::Chrome), now - 5 * MINUTE);
    let recently_closed = manager.get_recently_closed_at(30, now);
    assert_eq!(recently_closed.len(), 1);
    assert!(recently_closed[0].page_info.url.contains("recent"));
}

#[test]
fn test_content_summary_enrichment() {
    let mut manager = TabHistoryManager::new();
    let summary = ContentSummary { summary_text: "This is a test summary".to_string(), key_points: vec!["Point 1".to_string()] };
    manager.register_content_summary("https://example.com", summary);
    manager.save_closed_tab(create_test_tab("https://example.com", "Example", BrowserType::Chrome), now_millis());
    let history = manager.get_recent(1);
    assert!(history[0].page_info.content_summary.is_some());
    assert_eq!(history[0].page_info.content_summary.as_ref().unwrap().summary_text, "This is a test summary");
}

#[test]
fn history_test_stats() {
    let mut manager = TabHistoryManager::new();
    manager.save_closed_tab(create_test_tab("https://chrome.example.com", "Chrome", BrowserType::Chrome), now_millis());
    manager.save_closed_tab(create_test_tab("https://firefox.example.com", "Firefox", BrowserType::Firefox), now_millis());
    let stats = manager.get_stats();
    assert_eq!(stats.cached_entries, 2);
    assert_eq!(stats.session_saves, 2);
    let count = |b: BrowserType| stats.entries_by_browser.iter().find(|c| c.browser_type == b).map(|c| c.count);
    assert_eq!(count(BrowserType::Chrome), Some(1));
    assert_eq!(count(BrowserType::Firefox), Some(1));
}

#[test]
fn test_get_top_domains() {
    let mut manager = TabHistoryManager::new();
    for i in 0..3 {
        let tab = create_test_tab(&format!("https://example.com/page{}", i), &format!("Page {}", i), BrowserType::Chrome);
        manager.save_closed_tab(tab, now_millis());
    }
    manager.save_closed_tab(create_test_tab("https://other.com", "Other", BrowserType::Chrome), now_millis());
    let top_domains = manager.get_top_domains(5);
    assert_eq!(top_domains[0].domain, "example.com");
    assert_eq!(top_domains[0].count, 3);
    assert_eq!(top_domains.len(), 2);
}

#[test]
fn test_retention_policy() {
    let mut manager = TabHistoryManager::new();
    for i in 0..5 {
        let tab = create_test_tab(&format!("https://example{}.com", i), &format!("Example {}", i), BrowserType::Chrome);
        manager.save_closed_tab(tab, now_millis());
    }
    assert_eq!(manager.total_count(), 5);
    let policy = RetentionPolicy { max_age_days: 30, max_entries: 3, preserve_important: false, importance_threshold_percent: 50 };
    assert_eq!(manager.apply_retention_policy(&policy), 2);
    assert_eq!(manager.total_count(), 3);
}

#[test]
fn test_clear() {
    let mut manager = TabHistoryManager::new();
    manager.save_closed_tab(create_test_tab("https://example.com", "Example", BrowserType::Chrome), now_millis());
    assert_eq!(manager.total_count(), 1);
    manager.clear();
    assert_eq!(manager.total_count(), 0);
}

#[test]
fn test_pagination() {
    let mut manager = TabHistoryManager::new();
    let now = now_millis();
    for i in 0..10 {
        let tab = create_test_tab(&format!("https://example{}.com", i), &format!("Example {}", i), BrowserType::Chrome);
        manager.save_closed_tab(tab, now + i);
    }
    let page1 = manager.get_history(&HistoryFilter { limit: Some(3), offset: Some(0), ..Default::default() });
    assert_eq!(page1.len(), 3);
    let page2 = manager.get_history(&HistoryFilter { limit: Some(3), offset: Some(3), ..Default::default() });
    assert_eq!(page2.len(), 3);
    assert_ne!(page1[0].id, page2[0].id);
    assert_eq!(page1[0].page_info.url, "https://example9.com");
    let past_end = manager.get_history(&HistoryFilter { limit: Some(3), offset: Some(20), ..Default::default() });
    assert!(past_end.is_empty());
}

#[test]
fn retention_keeps_the_newest_entries() {
    let mut manager = TabHistoryManager::new();
    let older = manager.save_closed_tab(create_test_tab("https://old.example.com", "Old", BrowserType::Chrome), 100);
    let newer = manager.save_closed_tab(create_test_tab("https://new.example.com", "New", BrowserType::Chrome), 200);
    let policy = RetentionPolicy { max_age_days: 30, max_entries: 1, preserve_important: false, importance_threshold_percent: 50 };
    assert_eq!(manager.apply_retention_policy_at(&policy, 1_000), 1);
    assert_eq!(manager.total_count(), 1);
    assert!(manager.get_by_id(&newer).is_some());
    assert!(manager.get_by_id(&older).is_none());
    assert_eq!(manager.get_by_id(&newer).unwrap().closed_at, 200);
}
