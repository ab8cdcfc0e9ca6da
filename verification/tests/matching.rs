use page_manager::matcher::assemble_url;
use page_manager::platform::UrlParts;
use page_manager::matcher::{ContentChangeDetector, ContentChangeDetection, MatchType, TabBookmarkMatcher};
use page_manager::model::{BookmarkInfo, BrowserType, TabInfo};
use page_manager::platform::{new_id_string, now_millis};
use page_manager::sync::{DataSyncManager, SyncAction, SyncQueue};

fn create_test_tab(url: &str, title: &str) -> TabInfo {
    TabInfo {
        id: new_id_string(),
        url: url.to_string(),
        title: title.to_string(),
        favicon_url: None,
        browser_type: BrowserType::Chrome,
        is_private: false,
        created_at: now_millis(),
        last_accessed: now_millis(),
    }
}

fn create_test_bookmark(url: &str, title: &str) -> BookmarkInfo {
    BookmarkInfo {
        id: new_id_string(),
        url: url.to_string(),
        title: title.to_string(),
        favicon_url: None,
        browser_type: BrowserType::Chrome,
        folder_path: vec![],
        created_at: now_millis(),
        last_accessed: None,
    }
}

#[test]
fn test_url_normalization() {
    let matcher = TabBookmarkMatcher::new();
    assert_eq!(
        matcher.normalize_url("https://example.com/"),
        matcher.normalize_url("https://example.com")
    );
    assert_eq!(
        matcher.normalize_url("HTTPS://EXAMPLE.COM/path"),
        matcher.normalize_url("https://example.com/path")
    );
}

#[test]
fn test_exact_url_match() {
    let matcher = TabBookmarkMatcher::new();
    let tab = create_test_tab("https://example.com/page", "Example");
    let bookmark = create_test_bookmark("https://example.com/page", "Example Bookmark");
    let matches = matcher.find_matches_for_tab(&tab, &[bookmark]);
    assert_eq!(matches.len(), 1);
    assert!(matches!(matches[0].match_type, MatchType::ExactUrl));
    assert_eq!(matches[0].confidence_percent as f32 / 100.0, 1.0);
}

#[test]
fn test_domain_match() {
    let matcher = TabBookmarkMatcher::new();
    let tab = create_test_tab("https://example.com/page1", "Page 1");
    let bookmark = create_test_bookmark("https://example.com/page2", "Page 2");
    let matches = matcher.find_matches_for_tab(&tab, &[bookmark]);
    assert_eq!(matches.len(), 1);
    assert!(matches!(matches[0].match_type, MatchType::SameDomain));
    assert_eq!(matches[0].confidence_percent as f32 / 100.0, 0.5);
}

#[test]
fn test_no_match() {
    let matcher = TabBookmarkMatcher::new();
    let tab = create_test_tab("https://example.com/page", "Example");
    let bookmark = create_test_bookmark("https://other.com/page", "Other");
    let matches = matcher.find_matches_for_tab(&tab, &[bookmark]);
    assert!(matches.is_empty());
}

#[test]
fn test_content_change_detection() {
    let tab = create_test_tab("https://example.com", "New Title");
    let bookmark = create_test_bookmark("https://example.com", "Old Title");
    let detection = ContentChangeDetector::detect_changes(&tab, &bookmark);
    assert!(detection.has_changes());
    assert!(detection.title_changed);
    assert!(!detection.favicon_changed);
    assert_eq!(detection.old_title, "Old Title");
    assert_eq!(detection.new_title, "New Title");
}

#[test]
fn test_matcher_no_match_different_domains() {
    let matcher = TabBookmarkMatcher::new();
    let tab = create_test_tab("https://example.com/page", "Example");
    let bookmark = create_test_bookmark("https://different.com/page", "Different");
    let matches = matcher.find_matches_for_tab(&tab, &[bookmark]);
    assert!(matches.is_empty(), "Different domains should not match");
}

#[test]
fn exact_match_outranks_domain_match() {
    let matcher = TabBookmarkMatcher::new();
    for base in ["https://example.com", "https://rust-lang.org", "https://github.com"] {
        let tab = create_test_tab(&format!("{}/page1", base), "Tab");
        let domain = create_test_bookmark(&format!("{}/page2", base), "Domain");
        let exact = create_test_bookmark(&format!("{}/page1", base), "Exact");
        let matches = matcher.find_matches_for_tab(&tab, &[domain, exact]);
        assert_eq!(matches.len(), 2);
        assert!(matches!(matches[0].match_type, MatchType::ExactUrl));
        assert!(matches!(matches[1].match_type, MatchType::SameDomain));
        assert!(matches[0].confidence_percent > matches[1].confidence_percent);
    }
}

#[test]
fn same_url_always_matches_exactly() {
    let matcher = TabBookmarkMatcher::new();
    for url in ["https://example.com/page?query=1", "https://docs.rs", "https://github.com/rust-lang/rust"] {
        let tab = create_test_tab(url, "T");
        let bookmark = create_test_bookmark(url, "Bookmark Title");
        let matches = matcher.find_matches_for_tab(&tab, &[bookmark.clone()]);
        assert!(!matches.is_empty());
        assert!(matches!(matches[0].match_type, MatchType::ExactUrl));
        assert_eq!(matches[0].confidence_percent, 100);
        assert_eq!(matches[0].bookmark_id, bookmark.id);
    }
}

#[test]
fn normalization_drops_default_port_and_lowercases() {
    let matcher = TabBookmarkMatcher::new();
    assert_eq!(matcher.normalize_url("HTTP://Example.COM:80/A/"), "http://example.com/a");
    assert_eq!(matcher.normalize_url("https://example.com:8443/x"), "https://example.com:8443/x");
    assert_eq!(matcher.extract_domain("https://Sub.Example.com/path"), Some("sub.example.com".to_string()));
    assert_eq!(matcher.extract_domain("not a url"), None);
}

#[test]
fn unchanged_bookmark_has_no_changes() {
    let tab = create_test_tab("https://example.com", "Same");
    let bookmark = create_test_bookmark("https://example.com", "Same");
    let detection = ContentChangeDetector::detect_changes(&tab, &bookmark);
    assert!(!detection.has_changes());
    assert!(!detection.title_changed);
}

#[test]
fn test_merge_tab_only() {
    let sync_manager = DataSyncManager::new();
    let tab = create_test_tab("https://example.com", "Example");
    let unified = sync_manager.merge_to_unified_page(Some(&tab), None, None);
    assert_eq!(unified.url, "https://example.com");
    assert_eq!(unified.title, "Example");
    assert!(unified.tab_info.is_some());
    assert!(unified.bookmark_info.is_none());
}

#[test]
fn test_merge_bookmark_only() {
    let sync_manager = DataSyncManager::new();
    let bookmark = create_test_bookmark("https://example.com", "Example Bookmark");
    let unified = sync_manager.merge_to_unified_page(None, Some(&bookmark), None);
    assert_eq!(unified.url, "https://example.com");
    assert_eq!(unified.title, "Example Bookmark");
    assert!(unified.tab_info.is_none());
    assert!(unified.bookmark_info.is_some());
}

#[test]
fn test_merge_tab_and_bookmark() {
    let sync_manager = DataSyncManager::new();
    let tab = create_test_tab("https://example.com", "Tab Title");
    let bookmark = create_test_bookmark("https://example.com", "Bookmark Title");
    let unified = sync_manager.merge_to_unified_page(Some(&tab), Some(&bookmark), None);
    assert_eq!(unified.title, "Tab Title");
    assert!(unified.tab_info.is_some());
    assert!(unified.bookmark_info.is_some());
}

#[test]
fn test_batch_merge() {
    let sync_manager = DataSyncManager::new();
    let tabs = vec![
        create_test_tab("https://example.com", "Example"),
        create_test_tab("https://rust-lang.org", "Rust"),
    ];
    let bookmarks = vec![
        create_test_bookmark("https://example.com", "Example Bookmark"),
        create_test_bookmark("https://python.org", "Python"),
    ];
    let unified_pages = sync_manager.batch_merge(&tabs, &bookmarks, &[]);
    assert_eq!(unified_pages.len(), 3);
    let example_page = unified_pages.iter().find(|p| p.url == "https://example.com");
    assert!(example_page.is_some());
    let example = example_page.unwrap();
    assert!(example.tab_info.is_some());
    assert!(example.bookmark_info.is_some());
}

#[test]
fn batch_merge_covers_every_input_url_once() {
    let sync_manager = DataSyncManager::new();
    let tabs = vec![
        create_test_tab("https://example.com/page", "A"),
        create_test_tab("https://example.com/page", "A again"),
        create_test_tab("https://docs.rs", "Docs"),
    ];
    let bookmarks = vec![
        create_test_bookmark("https://crates.io", "Crates"),
        create_test_bookmark("https://docs.rs", "Docs bookmark"),
    ];
    let merged = sync_manager.batch_merge(&tabs, &bookmarks, &[]);
    let norm: Vec<String> = merged.iter().map(|p| sync_manager.matcher().normalize_url(&p.url)).collect();
    for url in tabs.iter().map(|t| &t.url).chain(bookmarks.iter().map(|b| &b.url)) {
        assert!(norm.contains(&sync_manager.matcher().normalize_url(url)));
    }
    let mut unique = norm.clone();
    unique.sort();
    unique.dedup();
    assert_eq!(unique.len(), norm.len());
    assert_eq!(merged.len(), 3);
}

#[test]
fn batch_merge_attaches_bookmark_differing_by_trailing_slash() {
    let sync_manager = DataSyncManager::new();
    let tabs = vec![create_test_tab("https://example.com/", "T")];
    let b = create_test_bookmark("https://example.com", "B");
    let merged = sync_manager.batch_merge(&tabs, &[b.clone()], &[]);
    assert_eq!(merged.len(), 1);
    assert!(merged[0].tab_info.is_some());
    assert_eq!(merged[0].bookmark_info.as_ref().map(|x| x.id.clone()), Some(b.id.clone()));
    assert_eq!(merged[0].bookmark_info.as_ref().map(|x| x.url.clone()), Some(b.url.clone()));
}

#[test]
fn batch_merge_prefers_the_bookmark_of_the_very_url() {
    let sync_manager = DataSyncManager::new();
    let tabs = vec![create_test_tab("https://example.com/", "T")];
    let exact = create_test_bookmark("https://example.com/", "Exact");
    let near = create_test_bookmark("https://example.com", "Near");
    let merged = sync_manager.batch_merge(&tabs, &[exact.clone(), near], &[]);
    assert_eq!(merged.len(), 1);
    assert_eq!(merged[0].bookmark_info.as_ref().map(|x| x.title.clone()), Some("Exact".to_string()));
}

fn sample_change() -> ContentChangeDetection {
    ContentChangeDetection {
        tab_id: new_id_string(),
        bookmark_id: new_id_string(),
        title_changed: true,
        favicon_changed: false,
        old_title: "Old".to_string(),
        new_title: "New".to_string(),
        old_favicon: None,
        new_favicon: None,
    }
}

#[test]
fn test_sync_queue() {
    let mut queue = SyncQueue::new();
    let change = sample_change();
    let action = SyncAction::UpdateBookmark {
        bookmark_id: change.bookmark_id.clone(),
        new_title: Some("New".to_string()),
        new_favicon: None,
    };
    queue.add(change, action);
    assert_eq!(queue.pending_count(), 1);
    queue.approve(0);
    let approved = queue.take_approved();
    assert_eq!(approved.len(), 1);
    assert!(queue.is_empty());
}

#[test]
fn test_sync_queue_operations() {
    let mut queue = SyncQueue::new();
    let change = sample_change();
    let action = SyncAction::UpdateBookmark {
        bookmark_id: change.bookmark_id.clone(),
        new_title: Some("New".to_string()),
        new_favicon: None,
    };
    queue.add(change, action);
    assert_eq!(queue.pending_count(), 1);
    queue.approve(0);
    let approved = queue.take_approved();
    assert_eq!(approved.len(), 1);
    assert!(queue.is_empty());
}

#[test]
fn approving_out_of_range_is_refused() {
    let mut queue = SyncQueue::new();
    assert!(!queue.approve(0));
    let change = sample_change();
    let action = SyncAction::CreateBookmark { tab_id: change.tab_id.clone(), folder_path: vec![] };
    queue.add(change, action);
    assert!(!queue.approve(1));
    assert!(queue.take_approved().is_empty());
    assert_eq!(queue.pending_count(), 1);
    queue.approve_all();
    assert_eq!(queue.take_approved().len(), 1);
    assert!(queue.is_empty());
}

#[test]
fn assembling_url_parts() {
    let p = UrlParts {
        scheme: "https".to_string(),
        host: Some("Example.com".to_string()),
        port: Some(8443),
        path: "/a/b//".to_string(),
        query: Some("x=1".to_string()),
    };
    assert_eq!(assemble_url(&p), "https://Example.com:8443/a/b?x=1");
    let standard = UrlParts { port: Some(443), path: "/".to_string(), query: None, ..p };
    assert_eq!(assemble_url(&standard), "https://Example.com");
    let http = UrlParts {
        scheme: "http".to_string(),
        host: None,
        port: Some(443),
        path: "/p".to_string(),
        query: None,
    };
    assert_eq!(assemble_url(&http), "http://:443/p");
}
