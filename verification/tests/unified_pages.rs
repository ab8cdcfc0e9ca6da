use page_manager::model::{BookmarkInfo, BrowserType, TabInfo};
use page_manager::platform::{new_id_string, now_millis};
use page_manager::unified_manager::{PageUnifiedManager, UnifiedManagerError};

fn create_test_tab(url: &str, title: &str) -> TabInfo {
    TabInfo {
        id: new_id_string(),
        url: url.to_string(),
        title: title.to_string(),
        favicon_url: None,
        browser_type: BrowserType::Chrome,
        is_private: false,
        created_at: now_millis(),
        last_accessed: now_millis(),
    }
}

fn create_test_bookmark(url: &str, title: &str) -> BookmarkInfo {
    BookmarkInfo {
        id: new_id_string(),
        url: url.to_string(),
        title: title.to_string(),
        favicon_url: None,
        browser_type: BrowserType::Chrome,
        folder_path: vec![],
        created_at: now_millis(),
        last_accessed: None,
    }
}

#[test]
fn test_update_tabs() {
    let mut manager = PageUnifiedManager::new();
    manager.update_tabs(vec![
        create_test_tab("https://example.com", "Example"),
        create_test_tab("https://rust-lang.org", "Rust"),
    ]);
    assert_eq!(manager.get_unified_pages().len(), 2);
}

#[test]
fn test_tab_bookmark_association() {
    let mut manager = PageUnifiedManager::new();
    let tab = create_test_tab("https://example.com", "Example Tab");
    let bookmark = create_test_bookmark("https://example.com", "Example Bookmark");
    manager.update_all(vec![tab.clone()], vec![bookmark]);
    let status = manager.get_tab_association_status(&tab.id);
    assert!(status.is_some());
    assert!(status.unwrap().has_bookmark);
    assert!(manager.tab_has_bookmark(&tab.id));
}

#[test]
fn test_change_detection() {
    let mut manager = PageUnifiedManager::new();
    let tab = create_test_tab("https://example.com", "New Title");
    let bookmark = create_test_bookmark("https://example.com", "Old Title");
    manager.update_all(vec![tab.clone()], vec![bookmark]);
    let status = manager.get_tab_association_status(&tab.id).unwrap();
    assert!(status.has_pending_changes);
    assert!(status.pending_changes.unwrap().title_changed);
    assert_eq!(manager.pending_sync_count(), 1);
}

#[test]
fn approved_update_renames_the_bookmark() {
    let mut manager = PageUnifiedManager::new();
    let tab = create_test_tab("https://example.com", "New Title");
    let bookmark = create_test_bookmark("https://example.com", "Old Title");
    manager.update_all(vec![tab], vec![bookmark]);
    assert!(manager.approve_sync_item(0));
    let result = manager.execute_approved_syncs();
    assert!(result.success);
    assert_eq!(result.items_synced, 1);
    assert_eq!(manager.pending_sync_count(), 0);
    let page = manager.get_unified_page_by_url("https://example.com").unwrap();
    assert_eq!(page.bookmark_info.unwrap().title, "New Title");
}

#[test]
fn test_create_bookmark_from_tab() {
    let mut manager = PageUnifiedManager::new();
    let tab = create_test_tab("https://example.com", "Example");
    manager.update_tabs(vec![tab.clone()]);
    let (bookmark, page) = manager.create_bookmark_from_tab(&tab.id, vec!["Favorites".to_string()]).unwrap();
    assert_eq!(bookmark.url, "https://example.com");
    assert_eq!(bookmark.title, "Example");
    assert_eq!(bookmark.folder_path, vec!["Favorites".to_string()]);
    assert!(page.bookmark_info.is_some());
}

#[test]
fn bookmark_from_unknown_tab_is_refused() {
    let mut manager = PageUnifiedManager::new();
    let missing = "no-such-tab".to_string();
    match manager.create_bookmark_from_tab(&missing, vec![]) {
        Err(UnifiedManagerError::TabNotFound(id)) => assert_eq!(id, missing),
        Ok(_) => panic!("a bookmark was made for a tab that is not known"),
    }
}

#[test]
fn unified_manager_test_stats() {
    let mut manager = PageUnifiedManager::new();
    let tabs = vec![
        create_test_tab("https://example.com", "Example"),
        create_test_tab("https://rust-lang.org", "Rust"),
    ];
    let bookmarks = vec![
        create_test_bookmark("https://example.com", "Example Bookmark"),
        create_test_bookmark("https://python.org", "Python"),
    ];
    manager.update_all(tabs, bookmarks);
    let stats = manager.get_stats();
    assert_eq!(stats.total_pages, 3);
    assert_eq!(stats.matched_pages, 1);
    assert_eq!(stats.active_tab_pages, 1);
    assert_eq!(stats.bookmark_only_pages, 1);
    assert!(stats.matched_pages + stats.active_tab_pages + stats.bookmark_only_pages <= stats.total_pages);
}

#[test]
fn missing_tab_error_shows_the_id_in_debug_form() {
    let err = UnifiedManagerError::TabNotFound("no-such-tab".to_string());
    assert_eq!(err.message(), "Tab \"no-such-tab\" not found");
    let odd = UnifiedManagerError::TabNotFound("a\"b".to_string());
    assert_eq!(odd.message(), format!("Tab {:?} not found", "a\"b"));
}

#[test]
fn approved_update_of_a_vanished_bookmark_is_reported() {
    let mut manager = PageUnifiedManager::new();
    let tab = create_test_tab("https://example.com", "New Title");
    let bookmark = create_test_bookmark("https://example.com", "Old Title");
    let bookmark_id = bookmark.id.clone();
    manager.update_all(vec![tab], vec![bookmark]);
    assert!(manager.approve_sync_item(0));
    manager.update_bookmarks(vec![]);
    assert_eq!(manager.pending_sync_count(), 1);
    let result = manager.execute_approved_syncs();
    assert!(!result.success);
    assert_eq!(result.errors, vec![format!("Bookmark {:?} not found", bookmark_id)]);
    assert_eq!(result.errors[0], format!("Bookmark \"{}\" not found", bookmark_id));
}
