use page_manager::flutter_ui::{UIData, UIFramework};
use page_manager::model::{BrowserType, PageSourceType, UnifiedPageInfo};
use page_manager::native_ui::{
    GTKUIManager, JumpListCategory, JumpListItem, LiveTileTemplate, LiveTileUpdate, NativeUIError, QtUIManager,
    TaskbarProgressState, ToastDuration, ToastScenario, UITheme, WinUIConfig, WinUIManager,
};
use page_manager::system_integration::{NotificationConfig, NotificationUrgency};
use page_manager::ui_factory::Platform;

fn jump(id: &str, title: &str, url: &str, category: JumpListCategory) -> JumpListItem {
    JumpListItem {
        id: id.to_string(),
        title: title.to_string(),
        description: url.to_string(),
        icon: None,
        arguments: format!("--open-url {}", url),
        category,
    }
}

fn page(id: u128, url: &str, title: &str) -> UnifiedPageInfo {
    UnifiedPageInfo {
        id,
        url: url.to_string(),
        title: title.to_string(),
        favicon_url: None,
        content_summary: None,
        keywords: vec![],
        category: None,
        source_type: PageSourceType::ActiveTab { browser: BrowserType::Chrome, tab_id: "t".to_string() },
        browser_info: None,
        tab_info: None,
        bookmark_info: None,
        created_at: 0,
        last_accessed: 0,
        access_count: 0,
    }
}

fn notification(urgency: NotificationUrgency) -> NotificationConfig {
    NotificationConfig {
        title: "T".to_string(),
        message: "M".to_string(),
        icon: None,
        urgency,
        actions: vec![],
        timeout_ms: None,
    }
}

#[test]
fn test_winui_manager_creation() {
    let manager = WinUIManager::new(Platform::Windows);
    assert!(!manager.get_state().initialized);
    assert_eq!(manager.framework_type(), UIFramework::WinUI);
}

#[test]
fn test_winui_manager_with_config() {
    let config = WinUIConfig {
        enable_system_tray: false,
        enable_hotkeys: false,
        enable_notifications: false,
        enable_jump_lists: false,
        enable_live_tiles: false,
        window_title: "Test Window".to_string(),
        initial_theme: UITheme::Dark,
        window_width: 800,
        window_height: 600,
        min_window_width: 400,
        min_window_height: 300,
        enable_backdrop: false,
        enable_snap_layouts: false,
        enable_taskbar_progress: false,
        jump_list_max_items: 5,
    };
    let manager = WinUIManager::with_config(config, Platform::Windows);
    assert_eq!(manager.config().window_title, "Test Window");
    assert_eq!(manager.config().window_width, 800);
    assert!(!manager.config().enable_system_tray);
    assert!(!manager.config().enable_jump_lists);
}

#[test]
fn test_winui_manager_initialize() {
    let mut manager = WinUIManager::new(Platform::Windows);
    let result = manager.initialize();
    assert!(result.is_ok());
    assert!(manager.get_state().initialized);
}

#[test]
fn test_winui_manager_capabilities() {
    let manager = WinUIManager::new(Platform::Windows);
    let caps = manager.get_capabilities();
    assert!(caps.supports_system_tray);
    assert!(caps.supports_global_hotkeys);
    assert!(caps.supports_native_notifications);
    assert!(caps.supports_jump_lists);
    assert!(caps.supports_live_tiles);
    assert!(caps.supports_dark_mode);
    assert!(!caps.cross_platform);
    assert!(caps.supports_custom_decorations);
    assert!(caps.supports_drag_drop);
}

#[test]
fn test_winui_manager_window_state() {
    let mut manager = WinUIManager::new(Platform::Windows);
    manager.initialize().unwrap();
    manager.show_main_window().unwrap();
    let state = manager.get_state();
    assert!(state.window_visible);
    assert!(!state.minimized_to_tray);
    manager.minimize_to_tray().unwrap();
    let state = manager.get_state();
    assert!(!state.window_visible);
    assert!(state.minimized_to_tray);
    manager.restore_from_tray().unwrap();
    let state = manager.get_state();
    assert!(state.window_visible);
    assert!(!state.minimized_to_tray);
}

#[test]
fn test_winui_manager_theme() {
    let mut manager = WinUIManager::new(Platform::Windows);
    manager.initialize().unwrap();
    assert_eq!(manager.get_theme(), UITheme::System);
    manager.set_theme(UITheme::Dark).unwrap();
    assert_eq!(manager.get_theme(), UITheme::Dark);
    manager.set_theme(UITheme::Light).unwrap();
    assert_eq!(manager.get_theme(), UITheme::Light);
}

#[test]
fn test_winui_manager_jump_list() {
    let mut manager = WinUIManager::new(Platform::Windows);
    manager.initialize().unwrap();
    assert!(manager.get_jump_list_items().is_empty());
    let items = vec![
        jump("1", "Test Page", "https://example.com", JumpListCategory::Recent),
        jump("2", "Another Page", "https://test.com", JumpListCategory::Tasks),
    ];
    manager.update_jump_list(items).unwrap();
    assert_eq!(manager.get_jump_list_items().len(), 2);
    manager.clear_jump_list().unwrap();
    assert!(manager.get_jump_list_items().is_empty());
}

#[test]
fn test_winui_manager_live_tile() {
    let mut manager = WinUIManager::new(Platform::Windows);
    manager.initialize().unwrap();
    assert!(manager.get_live_tile_state().is_none());
    let update = LiveTileUpdate {
        template: LiveTileTemplate::TileSquareText02,
        text_line1: "10 pages".to_string(),
        text_line2: Some("5 groups".to_string()),
        text_line3: None,
        badge_count: 10,
        image_path: None,
    };
    manager.update_live_tile(update).unwrap();
    let state = manager.get_live_tile_state();
    assert!(state.is_some());
    assert_eq!(state.unwrap().badge_count, 10);
    manager.clear_live_tile().unwrap();
    assert!(manager.get_live_tile_state().is_none());
}

#[test]
fn test_winui_manager_taskbar_progress() {
    let mut manager = WinUIManager::new(Platform::Windows);
    manager.initialize().unwrap();
    let (state, value) = manager.get_taskbar_progress();
    assert_eq!(state, TaskbarProgressState::NoProgress);
    assert_eq!(value, 0);
    manager.set_taskbar_progress(TaskbarProgressState::Normal, 50).unwrap();
    let (state, value) = manager.get_taskbar_progress();
    assert_eq!(state, TaskbarProgressState::Normal);
    assert_eq!(value, 50);
    manager.set_taskbar_progress(TaskbarProgressState::Indeterminate, 0).unwrap();
    let (state, _) = manager.get_taskbar_progress();
    assert_eq!(state, TaskbarProgressState::Indeterminate);
}

#[test]
fn test_winui_manager_window_position_size() {
    let mut manager = WinUIManager::new(Platform::Windows);
    manager.initialize().unwrap();
    manager.set_window_position(100, 200).unwrap();
    assert_eq!(manager.get_window_position(), Some((100, 200)));
    manager.set_window_size(1024, 768).unwrap();
    assert_eq!(manager.get_window_size(), Some((1024, 768)));
    manager.set_window_size(100, 100).unwrap();
    assert_eq!(manager.get_window_size(), Some((800, 600)));
}

#[test]
fn test_winui_manager_maximize() {
    let mut manager = WinUIManager::new(Platform::Windows);
    manager.initialize().unwrap();
    assert!(!manager.is_maximized());
    manager.maximize_window().unwrap();
    assert!(manager.is_maximized());
    manager.restore_window().unwrap();
    assert!(!manager.is_maximized());
}

#[test]
fn test_winui_manager_shutdown() {
    let mut manager = WinUIManager::new(Platform::Windows);
    manager.initialize().unwrap();
    manager.show_main_window().unwrap();
    manager.update_jump_list(vec![jump("1", "Test", "Test", JumpListCategory::Recent)]).unwrap();
    manager.shutdown().unwrap();
    assert!(!manager.get_state().initialized);
    let state = manager.get_state();
    assert!(!state.initialized);
    assert!(!state.window_visible);
    assert!(manager.get_jump_list_items().is_empty());
}

#[test]
fn winui_is_refused_off_windows() {
    let mut manager = WinUIManager::new(Platform::Linux);
    assert!(!manager.is_available());
    assert!(matches!(manager.initialize(), Err(NativeUIError::PlatformNotSupported { .. })));
    assert!(matches!(manager.update_jump_list(vec![]), Err(NativeUIError::PlatformNotSupported { .. })));
    assert_eq!(manager.get_theme(), UITheme::System);
    assert!(!manager.get_capabilities().supports_system_tray);
    assert!(!manager.get_state().initialized);
}

#[test]
fn winui_window_needs_initialization() {
    let mut manager = WinUIManager::new(Platform::Windows);
    assert!(matches!(manager.show_main_window(), Err(NativeUIError::NotInitialized)));
    assert!(matches!(manager.hide_main_window(), Err(NativeUIError::NotInitialized)));
}

#[test]
fn winui_data_fills_jump_list_and_tile() {
    let config = WinUIConfig { jump_list_max_items: 2, ..Default::default() };
    let mut manager = WinUIManager::with_config(config, Platform::Windows);
    manager.initialize().unwrap();
    let data = UIData {
        pages: vec![page(1, "https://a.example", "A"), page(2, "https://b.example", "B"), page(3, "https://c.example", "C")],
        group_count: 4,
        active_browser_count: 2,
    };
    manager.update_ui_data(data).unwrap();
    let items = manager.get_jump_list_items();
    assert_eq!(items.len(), 2);
    assert_eq!(items[0].id, "00000000-0000-0000-0000-000000000001");
    assert_eq!(items[0].title, "A");
    assert_eq!(items[0].description, "https://a.example");
    assert_eq!(items[0].arguments, "--open-url \"https://a.example\"");
    assert!(matches!(items[0].category, JumpListCategory::Recent));
    let tile = manager.get_live_tile_state().unwrap();
    assert_eq!(tile.text_line1, "3 pages");
    assert_eq!(tile.text_line2, Some("4 groups".to_string()));
    assert_eq!(tile.text_line3, Some("2 browsers".to_string()));
    assert_eq!(tile.badge_count, 3);
}

#[test]
fn winui_progress_is_capped_at_a_hundred() {
    let mut manager = WinUIManager::new(Platform::Windows);
    manager.set_taskbar_progress(TaskbarProgressState::Error, 250).unwrap();
    assert_eq!(manager.get_taskbar_progress(), (TaskbarProgressState::Error, 100));
}

#[test]
fn winui_toasts_follow_urgency() {
    let manager = WinUIManager::new(Platform::Windows);
    let critical = manager.show_notification(&notification(NotificationUrgency::Critical)).unwrap().unwrap();
    assert_eq!(critical.scenario, ToastScenario::Alarm);
    assert_eq!(critical.duration, ToastDuration::Long);
    let high = manager.show_notification(&notification(NotificationUrgency::High)).unwrap().unwrap();
    assert_eq!(high.scenario, ToastScenario::Reminder);
    assert_eq!(high.duration, ToastDuration::Short);
    let quiet = WinUIManager::with_config(WinUIConfig { enable_notifications: false, ..Default::default() }, Platform::Windows);
    assert!(quiet.show_notification(&notification(NotificationUrgency::Critical)).unwrap().is_none());
}

#[test]
fn gtk_manager_keeps_window_and_hotkey_state() {
    let mut manager = GTKUIManager::new();
    assert!(matches!(manager.show_main_window(), Err(NativeUIError::NotInitialized)));
    manager.initialize();
    manager.show_main_window().unwrap();
    assert!(manager.get_state().window_visible);
    manager.minimize_to_tray();
    assert!(manager.get_state().minimized_to_tray);
    manager.register_global_hotkeys(vec![]);
    manager.set_theme(UITheme::Dark);
    manager.shutdown();
    let state = manager.get_state();
    assert!(!state.initialized && !state.window_visible && !state.minimized_to_tray);
    assert_eq!(state.current_theme, UITheme::Dark);
    assert_eq!(manager.framework_type(), UIFramework::GTK);
    assert!(manager.is_available(Platform::Linux));
    assert!(!manager.is_available(Platform::Windows));
    assert!(manager.get_capabilities().cross_platform);
}

#[test]
fn qt_manager_runs_everywhere() {
    let mut manager = QtUIManager::new();
    assert!(manager.show_main_window().is_err());
    manager.initialize();
    assert!(manager.show_main_window().is_ok());
    assert!(manager.is_available());
    assert!(manager.get_capabilities(Platform::Windows).supports_jump_lists);
    assert!(!manager.get_capabilities(Platform::Linux).supports_jump_lists);
    assert_eq!(manager.framework_type(), UIFramework::Qt);
}

#[test]
fn flutter_keeps_and_clears_the_data_shown() {
    use_flutter_data();
}

fn use_flutter_data() {
    let mut manager = page_manager::flutter_ui::FlutterUIManager::new();
    assert!(manager.get_current_data().is_none());
    let data = UIData { pages: vec![page(7, "https://a.example", "A")], group_count: 2, active_browser_count: 1 };
    manager.update_ui_data(data);
    let kept = manager.get_current_data().unwrap();
    assert_eq!(kept.pages.len(), 1);
    assert_eq!(kept.pages[0].id, 7);
    assert_eq!(kept.pages[0].url, "https://a.example");
    assert_eq!(kept.group_count, 2);
    assert_eq!(kept.active_browser_count, 1);
    manager.shutdown();
    assert!(manager.get_current_data().is_none());
}
