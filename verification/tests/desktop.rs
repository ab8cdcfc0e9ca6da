use page_manager::hotkeys::{parse_key_combination, Hotkey, HotkeyError, CrossPlatformHotkeyManager, KeyModifier};
use page_manager::performance::{
    AppSettings, PerformanceMonitor, ProcessingPriority, ResourceConfig, ResourceLevel, ThemeMode,
};

#[test]
fn test_app_settings_default() {
    let settings = AppSettings::default();
    assert_eq!(settings.theme_mode, ThemeMode::System);
    assert!(settings.minimize_to_tray);
    assert!(settings.show_notifications);
    assert!(settings.enable_hotkeys);
    assert!(settings.auto_refresh);
    assert_eq!(settings.auto_refresh_interval_secs, 30);
    assert_eq!(settings.default_browser, "chrome");
}

#[test]
fn test_resource_config_default() {
    let config = ResourceConfig::default();
    assert_eq!(config.max_memory_mb, 512);
    assert_eq!(config.max_cpu_percent as f32, 50.0);
    assert_eq!(config.max_concurrent_ai_tasks, 4);
    assert!(config.adaptive_management);
}

#[test]
fn test_performance_monitor_start_stop() {
    let mut monitor = PerformanceMonitor::new();
    assert!(!monitor.is_monitoring());
    monitor.start_monitoring();
    assert!(monitor.is_monitoring());
    monitor.stop_monitoring();
    assert!(!monitor.is_monitoring());
}

#[test]
fn metrics_average_responses_and_count_recent_errors() {
    let mut monitor = PerformanceMonitor::new_at(0);
    monitor.record_response_time(100);
    monitor.record_response_time(200);
    monitor.record_response_time(150);
    monitor.record_error_at(1_000);
    monitor.record_error_at(2_000);
    monitor.record_cache_hit();
    monitor.record_cache_hit();
    monitor.record_cache_miss();
    let m = monitor.collect_metrics_at(3_000, 0, 0);
    assert_eq!(m.avg_response_time_ms, 150);
    assert_eq!(m.recent_error_count, 2);
    let rate = m.cache_hits as f32 / m.cache_lookups as f32;
    assert!(rate > 0.6 && rate < 0.7);
    // a minute later the first error no longer counts
    let m = monitor.collect_metrics_at(61_500, 0, 0);
    assert_eq!(m.recent_error_count, 1);
}

#[test]
fn response_times_keep_the_last_hundred() {
    let mut monitor = PerformanceMonitor::new_at(0);
    for k in 0..150u64 {
        monitor.record_response_time(k);
    }
    // the mean of 50..=149
    assert_eq!(monitor.collect_metrics_at(0, 0, 0).avg_response_time_ms, 99);
}

#[test]
fn history_and_summary() {
    let mut monitor = PerformanceMonitor::new_at(0);
    assert_eq!(monitor.get_summary().samples_count, 0);
    monitor.record_response_time(100);
    monitor.record_cache_hit();
    monitor.collect_metrics_at(1, 3 * 1_048_576, 1_000);
    monitor.collect_metrics_at(2, 5 * 1_048_576, 3_000);
    monitor.collect_metrics_at(3, 4 * 1_048_576, 2_000);
    assert_eq!(monitor.get_metrics_history().len(), 3);
    let summary = monitor.get_summary();
    assert_eq!(summary.samples_count, 3);
    assert_eq!(summary.avg_memory_mb, 4);
    assert_eq!(summary.max_memory_mb, 5);
    assert_eq!(summary.current_memory_mb, 4);
    assert_eq!(summary.avg_cpu_basis_points, 2_000);
    assert_eq!(summary.max_cpu_basis_points, 3_000);
    assert_eq!(summary.avg_response_time_ms, 100);
    assert_eq!(summary.memory_limit_mb, 512);
    monitor.clear_history();
    assert!(monitor.get_metrics_history().is_empty());
}

#[test]
fn resource_level_follows_load() {
    let mut monitor = PerformanceMonitor::new_at(0);
    assert!(!monitor.should_throttle(ProcessingPriority::Background));
    assert_eq!(monitor.get_recommended_delay(), 5);
    // 95% of 512 MB
    monitor.collect_metrics_at(0, 512 * 1_048_576 / 100 * 95, 0);
    assert_eq!(monitor.get_resource_level(), ResourceLevel::Critical);
    assert_eq!(monitor.get_processing_priority(), ProcessingPriority::Background);
    assert!(monitor.should_throttle(ProcessingPriority::Background));
    assert!(!monitor.should_throttle(ProcessingPriority::High));
    assert_eq!(monitor.get_recommended_delay(), 30);
    monitor.collect_metrics_at(0, 0, 8_000);
    assert_eq!(monitor.get_resource_level(), ResourceLevel::High);
    monitor.collect_metrics_at(0, 0, 0);
    assert_eq!(monitor.get_resource_level(), ResourceLevel::Low);
    assert_eq!(monitor.get_processing_priority(), ProcessingPriority::High);
    assert_eq!(monitor.get_recommended_delay(), 1);
}

#[test]
fn test_resource_config_update() {
    let mut monitor = PerformanceMonitor::new();
    let config = ResourceConfig { max_memory_mb: 1024, max_cpu_percent: 75, ..Default::default() };
    monitor.update_config(config);
    assert_eq!(monitor.get_config().max_memory_mb, 1024);
    assert_eq!(monitor.get_config().max_cpu_percent, 75);
}

#[test]
fn test_parse_key_combination() {
    let p = parse_key_combination("Ctrl+Shift+F").unwrap();
    assert_eq!(p.modifiers, vec![KeyModifier::Ctrl, KeyModifier::Shift]);
    assert_eq!(p.key, "F");
    let p = parse_key_combination("Alt+Tab").unwrap();
    assert!(p.modifiers.contains(&KeyModifier::Alt));
    assert_eq!(p.key, "Tab");
    let p = parse_key_combination("Win+E").unwrap();
    assert!(p.modifiers.contains(&KeyModifier::Meta));
    assert_eq!(p.key, "E");
    let p = parse_key_combination(" cmd + alt + Space ").unwrap();
    assert_eq!(p.modifiers, vec![KeyModifier::Meta, KeyModifier::Alt]);
    assert_eq!(p.key, "Space");
    assert_eq!(
        parse_key_combination("Ctrl+A+B").unwrap_err(),
        HotkeyError::MultipleKeys { combination: "Ctrl+A+B".to_string() }
    );
    assert_eq!(
        parse_key_combination("Ctrl+Alt").unwrap_err(),
        HotkeyError::NoKey { combination: "Ctrl+Alt".to_string() }
    );
    assert_eq!(
        HotkeyError::NoKey { combination: "Ctrl".to_string() }.message(),
        "No key specified in combination: Ctrl"
    );
}

fn hotkey(id: &str, combo: &str) -> Hotkey {
    Hotkey {
        id: id.to_string(),
        key_combination: combo.to_string(),
        action: "open".to_string(),
        description: "Open".to_string(),
    }
}

#[test]
fn test_hotkey_registration() {
    let mut registry = CrossPlatformHotkeyManager::new();
    assert_eq!(registry.register_hotkey(&hotkey("search", "Ctrl+K"), None), Err(HotkeyError::NotInitialized));
    registry.initialize();
    assert!(registry.register_hotkey(&hotkey("search", "Ctrl+K"), Some(1)).is_ok());
    assert!(registry.is_hotkey_registered("search"));
    assert!(registry.register_hotkey(&hotkey("bad", "Ctrl"), None).is_err());
    assert_eq!(
        registry.register_hotkey(&hotkey("bad", "Ctrl"), None),
        Err(HotkeyError::NoKey { combination: "Ctrl".to_string() })
    );
    assert_eq!(
        registry.register_hotkey(&hotkey("bad", "Ctrl+K+J"), None),
        Err(HotkeyError::MultipleKeys { combination: "Ctrl+K+J".to_string() })
    );
    assert!(!registry.is_hotkey_registered("bad"));
    assert!(!registry.is_hotkey_registered("bad"));
    assert!(registry.register_hotkey(&hotkey("search", "Ctrl+J"), Some(2)).is_ok());
    let all = registry.get_registered_hotkeys();
    assert_eq!(all.len(), 1);
    assert_eq!(all[0].key_combination, "Ctrl+J");
    assert!(all[0].is_active);
    let removed = registry.unregister_hotkey("search").unwrap();
    assert_eq!(removed.platform_id, Some(2));
    assert!(!registry.is_hotkey_registered("search"));
    assert!(registry.unregister_hotkey("search").is_none());
}

use page_manager::model::BrowserType;
use page_manager::page_results::{PageRawSourceType, PageSearchResults};
use page_manager::search::{SearchFilter, SearchResultItem, SearchResultSource, SearchResults};
use page_manager::system_integration::{
    SystemIntegrationService,
    CrossPlatformNotificationManager, CrossPlatformTrayManager, IntegrationError, NotificationConfig,
    NotificationStatus, NotificationUrgency, TrayMenuItem,
};

#[test]
fn notifications_need_initialization_and_are_logged() {
    let mut manager = CrossPlatformNotificationManager::new("Web Page Manager".to_string());
    let config = NotificationConfig::simple("Hello".to_string());
    assert_eq!(config.title, "Web Page Manager");
    assert_eq!(config.timeout_ms, Some(5000));
    assert_eq!(manager.show_notification(&config), Err(IntegrationError::NotInitialized));
    manager.initialize();
    let id = manager.show_notification_at(&config, "n1".to_string(), 42).unwrap();
    assert_eq!(id, "n1");
    let log = manager.get_history();
    assert_eq!(log.len(), 1);
    assert_eq!(log[0].status, NotificationStatus::Shown);
    assert_eq!(log[0].sent_at, 42);
    assert_eq!(log[0].config.message, "Hello");
    for k in 0..150 {
        manager.show_notification_at(&config, format!("x{}", k), k).unwrap();
    }
    let log = manager.get_history();
    assert_eq!(log.len(), 100);
    assert_eq!(log[99].id, "x149");
    manager.clear_history();
    assert!(manager.get_history().is_empty());
}

#[test]
fn notification_messages() {
    let mut manager = CrossPlatformNotificationManager::with_icon("App".to_string(), "icon.png".to_string());
    manager.initialize();
    manager.show_tab_activity_at("Chrome", 3, "a".to_string(), 1).unwrap();
    manager.show_bookmark_sync_at(12, "b".to_string(), 2).unwrap();
    manager.show_analysis_complete_at(7, "c".to_string(), 3).unwrap();
    manager.show_duplicates_found_at(2, "d".to_string(), 4).unwrap();
    let log = manager.get_history();
    assert_eq!(log[0].config.title, "标签页活动");
    assert_eq!(log[0].config.message, "Chrome 中有 3 个新标签页");
    assert_eq!(log[0].config.icon, Some("icon.png".to_string()));
    assert_eq!(log[1].config.message, "已同步 12 个书签");
    assert_eq!(log[1].config.urgency, NotificationUrgency::Low);
    assert_eq!(log[1].config.timeout_ms, Some(3000));
    assert_eq!(log[2].config.actions.len(), 1);
    assert_eq!(log[2].config.actions[0].id, "view_results");
    assert_eq!(log[3].config.message, "发现 2 组重复书签，点击查看详情");
    assert_eq!(log[3].config.timeout_ms, None);
    assert_eq!(log[3].config.actions.len(), 2);
}

#[test]
fn test_tray_manager_tooltip() {
    let mut tray = CrossPlatformTrayManager::new("App".to_string());
    assert_eq!(tray.get_tooltip(), "App - 点击打开");
    assert_eq!(tray.show(), Err(IntegrationError::NotInitialized));
    tray.initialize();
    assert!(tray.show().is_ok());
    let menu = tray.get_menu();
    assert_eq!(menu.len(), 8);
    assert!(matches!(&menu[0], TrayMenuItem::Item { id, .. } if id == "show_window"));
    assert!(matches!(&menu[1], TrayMenuItem::Separator));
    assert!(matches!(&menu[7], TrayMenuItem::Item { id, .. } if id == "exit"));
    tray.set_activity_badge(4);
    assert_eq!(tray.get_tooltip(), "App - 4 个新活动");
    tray.set_activity_badge(0);
    assert_eq!(tray.get_tooltip(), "App - 点击打开");
    tray.set_menu(vec![TrayMenuItem::checkable_item("dark".to_string(), "Dark".to_string(), true)]);
    assert!(matches!(&tray.get_menu()[0], TrayMenuItem::Item { checked: Some(true), .. }));
}

fn result(id: &str, source: SearchResultSource, browser: Option<BrowserType>) -> SearchResultItem {
    SearchResultItem {
        id: id.to_string(),
        url: format!("https://{}.com", id),
        title: id.to_string(),
        favicon_url: None,
        source_type: source,
        relevance_score: 5000,
        snippet: None,
        keywords: vec![],
        last_accessed: 0,
        browser_type: browser,
    }
}

#[test]
fn page_results_slice_and_count() {
    let results = SearchResults {
        query: "q".to_string(),
        total_count: 4,
        items: vec![
            result("a", SearchResultSource::ActiveTab, Some(BrowserType::Chrome)),
            result("b", SearchResultSource::History, Some(BrowserType::Firefox)),
            result("c", SearchResultSource::ActiveTab, Some(BrowserType::Chrome)),
            result("d", SearchResultSource::UnifiedPage, None),
        ],
        search_time_ms: 7,
        filter: SearchFilter::new(),
    };
    let pages = PageSearchResults::new(results);
    assert_eq!(pages.total_results(), 4);
    assert_eq!(pages.search_time_ms(), 7);
    let slice = pages.ranges(1, 2).unwrap();
    assert_eq!(slice.len(), 2);
    assert_eq!(slice[0].id, "b");
    assert_eq!(pages.ranges(3, 10).unwrap().len(), 1);
    assert_eq!(pages.ranges(9, 1).unwrap().len(), 0);
    let by_browser = pages.count_by_browser();
    assert_eq!(by_browser.len(), 2);
    assert_eq!((by_browser[0].browser_type, by_browser[0].count), (BrowserType::Chrome, 2));
    assert_eq!((by_browser[1].browser_type, by_browser[1].count), (BrowserType::Firefox, 1));
    let by_source = pages.count_by_source();
    assert_eq!(by_source.len(), 2);
    assert_eq!((by_source[0].source_type, by_source[0].count), (PageRawSourceType::ActiveTab, 2));
    assert_eq!((by_source[1].source_type, by_source[1].count), (PageRawSourceType::ClosedTab, 1));
}

use page_manager::flutter_ui::{FlutterUIConfig, FlutterUIManager, UIError, UIFramework};

#[test]
fn test_flutter_ui_manager_creation() {
    let manager = FlutterUIManager::new();
    assert_eq!(manager.framework_type(), UIFramework::Flutter);
    assert!(!manager.is_window_visible());
}

#[test]
fn test_flutter_ui_manager_with_config() {
    let config = FlutterUIConfig {
        enable_system_tray: false,
        enable_hotkeys: false,
        enable_notifications: false,
        window_title: "Test Window".to_string(),
        window_width: 800,
        window_height: 600,
        min_window_width: 400,
        min_window_height: 300,
    };
    let mut manager = FlutterUIManager::with_config(config);
    assert_eq!(manager.config().window_title, "Test Window");
    assert_eq!(manager.config().window_width, 800);
    assert!(!manager.config().enable_system_tray);
    manager.initialize();
    manager.show_main_window().unwrap();
    manager.minimize_to_tray();
    assert!(manager.is_window_visible());
    manager.register_global_hotkeys(vec![hotkey("k", "Ctrl+K")]);
    assert!(manager.get_registered_hotkeys().is_empty());
    assert!(!manager.show_notification("hi"));
}

#[test]
fn test_flutter_ui_manager_capabilities() {
    let caps = FlutterUIManager::new().get_capabilities();
    assert!(caps.supports_system_tray);
    assert!(caps.supports_global_hotkeys);
    assert!(caps.supports_native_notifications);
    assert!(caps.supports_dark_mode);
    assert!(caps.cross_platform);
    assert!(!caps.supports_jump_lists);
    assert!(!caps.supports_live_tiles);
}

#[test]
fn test_flutter_ui_manager_state() {
    let mut manager = FlutterUIManager::new();
    assert_eq!(manager.show_main_window(), Err(UIError::NotInitialized));
    manager.initialize();
    assert!(!manager.is_window_visible());
    assert!(!manager.is_minimized_to_tray());
    manager.show_main_window().unwrap();
    assert!(manager.is_window_visible());
    manager.minimize_to_tray();
    assert!(!manager.is_window_visible());
    assert!(manager.is_minimized_to_tray());
    manager.register_global_hotkeys(vec![hotkey("k", "Ctrl+K")]);
    assert_eq!(manager.get_registered_hotkeys().len(), 1);
    manager.shutdown();
    assert!(manager.get_registered_hotkeys().is_empty());
    assert_eq!(manager.show_main_window(), Err(UIError::NotInitialized));
}

#[test]
fn unregistering_all_hotkeys() {
    let mut registry = CrossPlatformHotkeyManager::new();
    registry.initialize();
    registry.register_hotkey(&hotkey("a", "Ctrl+A"), None).unwrap();
    registry.register_hotkey(&hotkey("b", "Alt+B"), None).unwrap();
    let removed = registry.unregister_all();
    assert_eq!(removed.len(), 2);
    assert!(registry.get_registered_hotkeys().is_empty());
}

#[test]
fn test_flutter_ui_manager_initialize() {
    let mut manager = FlutterUIManager::new();
    manager.initialize();
    assert!(manager.show_main_window().is_ok());
}

#[test]
fn test_performance_monitor_creation() {
    let monitor = PerformanceMonitor::new();
    assert!(!monitor.is_monitoring());
}

#[test]
fn test_record_response_time() {
    let mut monitor = PerformanceMonitor::new();
    monitor.record_response_time(100);
    monitor.record_response_time(200);
    monitor.record_response_time(150);
    assert_eq!(monitor.collect_metrics(0, 0).avg_response_time_ms, 150);
}

#[test]
fn test_record_error() {
    let mut monitor = PerformanceMonitor::new();
    monitor.record_error();
    monitor.record_error();
    assert_eq!(monitor.collect_metrics(0, 0).recent_error_count, 2);
}

#[test]
fn test_cache_stats() {
    let mut monitor = PerformanceMonitor::new();
    monitor.record_cache_hit();
    monitor.record_cache_hit();
    monitor.record_cache_miss();
    let metrics = monitor.collect_metrics(0, 0);
    let rate = metrics.cache_hits as f32 / metrics.cache_lookups as f32;
    assert!(rate > 0.6 && rate < 0.7);
}

#[test]
fn test_metrics_history() {
    let mut monitor = PerformanceMonitor::new();
    monitor.collect_metrics(0, 0);
    monitor.collect_metrics(0, 0);
    monitor.collect_metrics(0, 0);
    assert_eq!(monitor.get_metrics_history().len(), 3);
}

#[test]
fn test_clear_history() {
    let mut monitor = PerformanceMonitor::new();
    monitor.collect_metrics(0, 0);
    monitor.collect_metrics(0, 0);
    monitor.clear_history();
    assert!(monitor.get_metrics_history().is_empty());
}

#[test]
fn test_should_throttle() {
    let monitor = PerformanceMonitor::new();
    assert!(!monitor.should_throttle(ProcessingPriority::Background));
}

#[test]
fn test_recommended_delay() {
    let monitor = PerformanceMonitor::new();
    assert_eq!(monitor.get_recommended_delay(), 5);
}

#[test]
fn test_performance_summary() {
    let mut monitor = PerformanceMonitor::new();
    monitor.record_response_time(100);
    monitor.record_cache_hit();
    monitor.collect_metrics(0, 0);
    assert_eq!(monitor.get_summary().samples_count, 1);
}

#[test]
fn test_hotkey_manager_creation() {
    let manager = CrossPlatformHotkeyManager::new();
    assert!(!manager.is_initialized());
}

#[test]
fn test_hotkey_manager_initialize() {
    let mut manager = CrossPlatformHotkeyManager::new();
    manager.initialize();
    assert!(manager.is_initialized());
}

#[test]
fn default_hotkeys_are_registered() {
    let mut manager = CrossPlatformHotkeyManager::new();
    assert_eq!(manager.register_default_hotkeys(Some(0)), Err(HotkeyError::NotInitialized));
    manager.initialize();
    assert!(manager.register_default_hotkeys(Some(0)).is_ok());
    let ids: Vec<String> = manager.get_registered_hotkeys().into_iter().map(|r| r.id).collect();
    assert_eq!(ids, vec!["quick_search", "show_window", "new_tab"]);
    manager.shutdown();
    assert!(!manager.is_initialized());
    assert!(manager.get_registered_hotkeys().is_empty());
}

#[test]
fn test_notification_manager_creation() {
    let manager = CrossPlatformNotificationManager::new("Test App".to_string());
    assert!(!manager.is_initialized());
}

#[test]
fn test_notification_manager_initialize() {
    let mut manager = CrossPlatformNotificationManager::new("Test App".to_string());
    manager.initialize();
    assert!(manager.is_initialized());
}

#[test]
fn test_notification_manager_show() {
    let mut manager = CrossPlatformNotificationManager::new("Test App".to_string());
    manager.initialize();
    assert!(manager.show_simple("Test message".to_string()).is_ok());
    assert_eq!(manager.get_history().len(), 1);
}

#[test]
fn test_tray_manager_creation() {
    let manager = CrossPlatformTrayManager::new("Test App".to_string());
    assert!(!manager.is_initialized());
}

#[test]
fn test_tray_manager_initialize() {
    let mut manager = CrossPlatformTrayManager::new("Test App".to_string());
    manager.initialize();
    assert!(manager.is_initialized());
}

#[test]
fn test_tray_menu_item_creation() {
    match TrayMenuItem::item("test".to_string(), "Test Item".to_string()) {
        TrayMenuItem::Item { id, label, enabled, checked } => {
            assert_eq!(id, "test");
            assert_eq!(label, "Test Item");
            assert!(enabled);
            assert!(checked.is_none());
        }
        _ => panic!("Expected Item variant"),
    }
    assert!(matches!(TrayMenuItem::separator(), TrayMenuItem::Separator));
    match TrayMenuItem::checkable_item("check".to_string(), "Checkable".to_string(), true) {
        TrayMenuItem::Item { checked, .. } => assert_eq!(checked, Some(true)),
        _ => panic!("Expected Item variant"),
    }
}

#[test]
fn tray_tooltip_is_set() {
    let mut manager = CrossPlatformTrayManager::new("Test App".to_string());
    manager.initialize();
    manager.set_tooltip("New tooltip".to_string());
    assert_eq!(manager.get_tooltip(), "New tooltip");
    manager.set_activity_badge(5);
    assert!(manager.get_tooltip().contains("5"));
}

#[test]
fn test_system_integration_service() {
    let mut service = SystemIntegrationService::new("Test App".to_string());
    assert!(!service.is_initialized());
    service.initialize();
    assert!(service.is_initialized());
    assert!(service.show_simple_notification("Test".to_string()).is_ok());
    assert!(service.show_tray().is_ok());
    service.shutdown();
    assert!(!service.is_initialized());
    assert!(service.show_simple_notification("Test".to_string()).is_err());
}

use page_manager::ui_factory::{
    available_frameworks, create_specific, current_platform, default_framework, is_framework_available, FactoryError,
    Platform,
};

#[test]
fn test_factory_create() {
    for p in [Platform::Windows, Platform::Linux, Platform::MacOS] {
        let framework = default_framework(p, false, false);
        assert_eq!(framework, UIFramework::Flutter);
        assert!(is_framework_available(framework, p));
    }
    assert_eq!(default_framework(Platform::Windows, true, false), UIFramework::WinUI);
    assert_eq!(default_framework(Platform::Linux, false, true), UIFramework::GTK);
}

#[test]
fn test_factory_create_flutter() {
    let ui = create_specific(UIFramework::Flutter, Platform::Linux);
    assert!(ui.is_ok());
    assert_eq!(ui.unwrap(), UIFramework::Flutter);
    assert_eq!(
        create_specific(UIFramework::WinUI, Platform::Linux),
        Err(FactoryError::PlatformNotSupported { platform: "WinUI is only supported on Windows".to_string() })
    );
    assert_eq!(create_specific(UIFramework::GTK, Platform::Linux), Ok(UIFramework::GTK));
}

#[test]
fn test_available_frameworks() {
    for p in [Platform::Windows, Platform::Linux, Platform::MacOS, Platform::Other] {
        let frameworks = available_frameworks(p);
        assert!(frameworks.contains(&UIFramework::Flutter));
        assert!(frameworks.contains(&UIFramework::Qt));
    }
    assert_eq!(available_frameworks(Platform::Linux), vec![UIFramework::Flutter, UIFramework::Qt, UIFramework::GTK]);
}

#[test]
fn test_is_framework_available() {
    for p in [Platform::Windows, Platform::Linux, Platform::MacOS, Platform::Other] {
        assert!(is_framework_available(UIFramework::Flutter, p));
        assert!(is_framework_available(UIFramework::Qt, p));
    }
    assert!(!is_framework_available(UIFramework::WinUI, Platform::Linux));
    assert!(!is_framework_available(UIFramework::GTK, Platform::MacOS));
    assert!(create_specific(UIFramework::GTK, Platform::MacOS).is_err());
}

#[test]
fn test_ui_configuration() {
    let framework = default_framework(Platform::Linux, false, false);
    assert!(is_framework_available(framework, Platform::Linux));
    assert_eq!(current_platform(Platform::Linux), "Linux");
    assert_eq!(current_platform(Platform::MacOS), "macOS");
}
