use page_manager::change_detector::{
    calculate_similarity, ChangeDetector, ChangeDetectorConfig, ChangeType, LineShare, PageChangeContent, Similarity,
};
use page_manager::model::ContentArchive;
use page_manager::platform::{new_uuid, now_millis};

fn ratio(s: Similarity) -> f32 {
    s.shared as f32 / s.total as f32
}

fn sim(percent: u128) -> Similarity {
    Similarity { shared: percent, total: 100 }
}

fn create_test_archive(content: &str, checksum: &str) -> ContentArchive {
    ContentArchive {
        id: new_uuid(),
        page_id: new_uuid(),
        url: "https://example.com/page".to_string(),
        title: "Test Page".to_string(),
        content_html: format!("<p>{}</p>", content),
        content_text: content.to_string(),
        media_files: vec![],
        archived_at: now_millis(),
        file_size: content.len() as u64,
        checksum: Some(checksum.to_string()),
    }
}

fn create_test_content(text: &str, checksum: &str) -> PageChangeContent {
    PageChangeContent {
        html: format!("<p>{}</p>", text),
        text: text.to_string(),
        title: "Test Page".to_string(),
        checksum: checksum.to_string(),
        fetched_at: now_millis(),
    }
}

#[test]
fn test_calculate_similarity_identical() {
    let similarity = calculate_similarity("hello world", "hello world");
    assert_eq!(ratio(similarity), 1.0);
}

#[test]
fn test_calculate_similarity_completely_different() {
    let similarity = calculate_similarity("hello world", "foo bar baz");
    assert!(ratio(similarity) < 0.5);
}

#[test]
fn test_calculate_similarity_partial_overlap() {
    let similarity = calculate_similarity("the quick brown fox", "the quick red fox");
    assert!(ratio(similarity) > 0.5);
    assert!(ratio(similarity) < 1.0);
}

#[test]
fn test_calculate_similarity_empty_strings() {
    assert_eq!(ratio(calculate_similarity("", "")), 1.0);
    assert_eq!(ratio(calculate_similarity("hello", "")), 0.0);
    assert_eq!(ratio(calculate_similarity("", "world")), 0.0);
}

#[test]
fn similarity_counts_distinct_words_exactly() {
    // shared {the, quick, fox}, union {the, quick, brown, fox, red}
    assert_eq!(calculate_similarity("the quick brown fox", "the quick red fox"), Similarity { shared: 3, total: 5 });
    // repeated words count once
    assert_eq!(calculate_similarity("a a b", "b b c"), Similarity { shared: 1, total: 3 });
    // texts of whitespace alone have no words and count as identical
    assert_eq!(calculate_similarity("  ", "\t"), Similarity { shared: 1, total: 1 });
}

#[test]
fn test_classify_change_no_change() {
    let detector = ChangeDetector::new();
    let archive = create_test_archive("test content", "abc123");
    let new_content = create_test_content("test content", "abc123");
    let change_type = detector.classify_change(sim(100), &archive, &new_content);
    assert_eq!(change_type, ChangeType::NoChange);
}

#[test]
fn test_classify_change_minor() {
    let detector = ChangeDetector::new();
    let archive = create_test_archive("test content here", "abc123");
    let new_content = create_test_content("test content there", "def456");
    let change_type = detector.classify_change(sim(75), &archive, &new_content);
    assert_eq!(change_type, ChangeType::Minor);
}

#[test]
fn test_classify_change_moderate() {
    let detector = ChangeDetector::new();
    let archive = create_test_archive("original content", "abc123");
    let new_content = create_test_content("new different content", "def456");
    let change_type = detector.classify_change(sim(50), &archive, &new_content);
    assert_eq!(change_type, ChangeType::Moderate);
}

#[test]
fn test_classify_change_major() {
    let detector = ChangeDetector::new();
    let archive = create_test_archive("original content", "abc123");
    let new_content = create_test_content("completely different text", "def456");
    let change_type = detector.classify_change(sim(20), &archive, &new_content);
    assert_eq!(change_type, ChangeType::Major);
}

#[test]
fn classification_thresholds_are_inclusive() {
    let detector = ChangeDetector::new();
    let archive = create_test_archive("a", "x");
    let new_content = create_test_content("b", "y");
    assert_eq!(detector.classify_change(sim(85), &archive, &new_content), ChangeType::NoChange);
    assert_eq!(detector.classify_change(sim(84), &archive, &new_content), ChangeType::Minor);
    assert_eq!(detector.classify_change(sim(70), &archive, &new_content), ChangeType::Minor);
    assert_eq!(detector.classify_change(sim(40), &archive, &new_content), ChangeType::Moderate);
    assert_eq!(detector.classify_change(sim(39), &archive, &new_content), ChangeType::Major);
}

#[test]
fn changed_title_makes_a_structural_change() {
    let detector = ChangeDetector::new();
    let mut archive = create_test_archive("a", "x");
    archive.title = "Old heading".to_string();
    let mut new_content = create_test_content("b", "y");
    new_content.title = "Something else entirely".to_string();
    assert_eq!(detector.classify_change(sim(10), &archive, &new_content), ChangeType::StructuralChange);
}

#[test]
fn same_checksum_is_no_change_whatever_the_similarity() {
    let detector = ChangeDetector::new();
    let archive = create_test_archive("a", "same");
    let new_content = create_test_content("b", "same");
    assert_eq!(detector.classify_change(sim(0), &archive, &new_content), ChangeType::NoChange);
}

#[test]
fn test_compare_versions() {
    let detector = ChangeDetector::new();
    let old_content = "line 1\nline 2\nline 3";
    let new_content = "line 1\nline 2 modified\nline 4";
    let comparison = detector.compare_versions(old_content, new_content);
    assert!(!comparison.added_lines.is_empty());
    assert!(!comparison.removed_lines.is_empty());
    assert!(comparison.unchanged_lines > 0);
    assert!(comparison.change_percentage.exceeds_percent(0));
    assert_eq!(comparison.added_lines, vec!["line 2 modified".to_string(), "line 4".to_string()]);
    assert_eq!(comparison.removed_lines, vec!["line 2".to_string(), "line 3".to_string()]);
    assert_eq!(comparison.unchanged_lines, 1);
    assert_eq!(comparison.change_percentage, LineShare { changed: 4, total: 6 });
    assert!(comparison.change_percentage.exceeds_percent(66));
    assert!(!comparison.change_percentage.exceeds_percent(67));
}

#[test]
fn change_percentage_stays_within_a_hundred() {
    let detector = ChangeDetector::new();
    let all_new = detector.compare_versions("a\nb", "c\nd\ne");
    assert_eq!(all_new.change_percentage, LineShare { changed: 5, total: 5 });
    assert!(!all_new.change_percentage.exceeds_percent(100));
    let same = detector.compare_versions("a\nb", "b\na");
    assert_eq!(same.change_percentage, LineShare { changed: 0, total: 4 });
    assert!(!same.change_percentage.exceeds_percent(0));
}

#[test]
fn change_detector_test_calculate_checksum() {
    let detector = ChangeDetector::new();
    let checksum1 = detector.calculate_checksum("test content");
    let checksum2 = detector.calculate_checksum("test content");
    let checksum3 = detector.calculate_checksum("different content");
    assert_eq!(checksum1, checksum2);
    assert_ne!(checksum1, checksum3);
}

#[test]
fn test_generate_change_summary() {
    let detector = ChangeDetector::new();
    let archive = create_test_archive("content", "abc");
    let new_content = create_test_content("content", "abc");
    let summary = detector.generate_change_summary(&ChangeType::NoChange, sim(100), &archive, &new_content);
    assert!(summary.contains("No significant changes"));
    let summary = detector.generate_change_summary(&ChangeType::Minor, sim(80), &archive, &new_content);
    assert!(summary.contains("Minor changes"));
    let summary = detector.generate_change_summary(&ChangeType::Major, sim(30), &archive, &new_content);
    assert!(summary.contains("Major changes"));
}

#[test]
fn test_should_check() {
    let config = ChangeDetectorConfig { min_check_interval_hours: 1, ..Default::default() };
    let mut detector = ChangeDetector::with_config(config);
    let t0: i64 = 1_700_000_000_000;
    assert!(detector.should_check_at("https://example.com", t0));
    detector.record_check_at("https://example.com", t0);
    assert!(!detector.should_check_at("https://example.com", t0 + 1));
    assert!(detector.should_check_at("https://other.com", t0 + 1));
    assert!(detector.should_check_at("https://example.com", t0 + 3_600_000));
}

#[test]
fn test_notifications() {
    let mut detector = ChangeDetector::new();
    let archive = create_test_archive("old content", "abc123");
    let new_content = create_test_content("new content", "def456");
    let _result = detector.check_for_changes(&archive, &new_content);
    let notifications = detector.get_notifications();
    assert!(!notifications.is_empty());
    let unread = detector.get_unread_notifications();
    assert_eq!(unread.len(), notifications.len());
    detector.mark_notification_read(notifications[0].id);
    let unread_after = detector.get_unread_notifications();
    assert!(unread_after.len() < unread.len());
    detector.clear_read_notifications();
    assert!(detector.get_notifications().is_empty());
}

#[test]
fn unchanged_content_raises_no_notification() {
    let mut detector = ChangeDetector::new();
    let archive = create_test_archive("same text", "c1");
    let new_content = create_test_content("same text", "c1");
    let result = detector.check_for_changes(&archive, &new_content);
    assert_eq!(result.change_type, ChangeType::NoChange);
    assert!(detector.get_notifications().is_empty());
}

#[test]
fn test_version_history() {
    let mut detector = ChangeDetector::new();
    let page_id = new_uuid();
    detector.add_version(page_id, new_uuid(), "checksum1", 1000, ChangeType::NoChange);
    let history = detector.get_version_history(page_id);
    assert_eq!(history.len(), 1);
    assert_eq!(history[0].version, 1);
    detector.add_version(page_id, new_uuid(), "checksum2", 1200, ChangeType::Minor);
    let history = detector.get_version_history(page_id);
    assert_eq!(history.len(), 2);
    assert_eq!(history[1].version, 2);
    assert_eq!(detector.get_latest_version(page_id).unwrap().version, 2);
    for k in 0..10 {
        detector.add_version(page_id, new_uuid(), &format!("c{}", k), 10, ChangeType::Minor);
    }
    assert_eq!(detector.get_version_history(page_id).len(), 5);
    assert!(detector.get_version_history(new_uuid()).is_empty());
    assert!(detector.get_latest_version(new_uuid()).is_none());
}

#[test]
fn change_detector_test_stats() {
    let mut detector = ChangeDetector::new();
    let stats = detector.get_stats();
    assert_eq!(stats.total_notifications, 0);
    assert_eq!(stats.urls_tracked, 0);
    let archive = create_test_archive("content", "abc");
    let new_content = create_test_content("different", "def");
    let _result = detector.check_for_changes(&archive, &new_content);
    let stats = detector.get_stats();
    assert!(stats.total_notifications > 0);
    assert!(stats.urls_tracked > 0);
}

#[test]
fn version_numbers_continue_past_the_cap() {
    let config = ChangeDetectorConfig { max_versions_per_page: 1, ..Default::default() };
    let mut detector = ChangeDetector::with_config(config);
    let page_id = new_uuid();
    for k in 0..3 {
        detector.add_version(page_id, new_uuid(), &format!("c{}", k), 10, ChangeType::Minor);
    }
    let history = detector.get_version_history(page_id);
    assert_eq!(history.len(), 1);
    assert_eq!(history[0].version, 3);
    assert_eq!(history[0].checksum, "c2");
}

fn archive_at(url: &str) -> ContentArchive {
    let mut a = create_test_archive("some words here", "c1");
    a.url = url.to_string();
    a
}

#[test]
fn batch_steps_name_the_next_archive_and_check_it() {
    let config = ChangeDetectorConfig { batch_size: 2, ..Default::default() };
    let mut detector = ChangeDetector::with_config(config);
    let archives = vec![archive_at("https://a.example"), archive_at("https://b.example"), archive_at("https://c.example")];
    let now = 1_000_000_000;
    assert_eq!(detector.next_archive_to_check_at(&archives, 0, now), Some(0));
    let gone = detector.check_fetched_at(&archives[0], &None, now, 7);
    assert_eq!(gone.change_type, ChangeType::PageUnavailable);
    assert_eq!(gone.change_summary, "Page is no longer accessible.");
    assert!(gone.new_content.is_none());
    assert_eq!(gone.similarity.shared, 0);
    assert_eq!(detector.get_notifications().len(), 1);
    assert_eq!(detector.next_archive_to_check_at(&archives, 1, now), Some(1));
    let fetched = Some(create_test_content("some words here", "c1"));
    let same = detector.check_fetched_at(&archives[1], &fetched, now, 8);
    assert_eq!(same.change_type, ChangeType::NoChange);
    // b was just checked: it is not due again; c lies beyond the batch.
    assert_eq!(detector.next_archive_to_check_at(&archives, 1, now), None);
    assert_eq!(detector.next_archive_to_check_at(&archives, 2, now), None);
}
