//! The state kept by the native user interfaces (WinUI, GTK, Qt): whether
//! each is initialized, its window and tray state, theme and hotkeys, and
//! for WinUI the taskbar Jump List, Live Tile, progress indicator and window
//! geometry. Drawing and the system calls happen outside; the platform the
//! program runs on is handed in by the caller.

use vstd::prelude::*;
use crate::flutter_ui::{UICapabilities, UIData, UIFramework};
use crate::hotkeys::Hotkey;
use crate::matcher::{decimal, push_decimal, push_str_chars};
use crate::model::{PageModel, UnifiedPageInfo};
use crate::sync::pages_view;
use crate::system_integration::{NotificationConfig, NotificationUrgency};
use crate::text::{copy_opt_string, copy_string, opt_view, push_uuid, string_from_chars, uuid_text};
use crate::ui_factory::Platform;

verus! {

/// A colour theme.
#[derive(Clone, Copy, Debug, PartialEq, Eq, Structural)]
pub enum UITheme {
    Light,
    Dark,
    /// Follow the system's theme.
    System,
}

/// A summary of a user interface's state.
#[derive(Clone, Copy, Debug)]
pub struct UIState {
    pub initialized: bool,
    pub window_visible: bool,
    pub minimized_to_tray: bool,
    pub current_theme: UITheme,
    pub registered_hotkey_count: usize,
    pub has_event_handler: bool,
}

/// The state of a user interface that is not running.
pub open spec fn idle_state_value() -> UIState {
    UIState {
        initialized: false,
        window_visible: false,
        minimized_to_tray: false,
        current_theme: UITheme::System,
        registered_hotkey_count: 0,
        has_event_handler: false,
    }
}

/// The state of a user interface that is not running.
pub fn idle_state() -> (r: UIState)
    ensures
        r == idle_state_value(),
{
    UIState {
        initialized: false,
        window_visible: false,
        minimized_to_tray: false,
        current_theme: UITheme::System,
        registered_hotkey_count: 0,
        has_event_handler: false,
    }
}

/// Why a native user interface refused a request.
#[derive(Clone, Debug)]
pub enum NativeUIError {
    /// The user interface was not initialized.
    NotInitialized,
    /// The framework does not run on this platform.
    PlatformNotSupported { platform: String },
}

/// Capabilities where nothing is supported.
pub open spec fn no_capabilities_value() -> UICapabilities {
    UICapabilities {
        supports_system_tray: false,
        supports_global_hotkeys: false,
        supports_native_notifications: false,
        supports_jump_lists: false,
        supports_live_tiles: false,
        supports_dark_mode: false,
        supports_transparency: false,
        cross_platform: false,
        supports_custom_decorations: false,
        supports_drag_drop: false,
    }
}

/// Capabilities where nothing is supported.
pub fn no_capabilities() -> (r: UICapabilities)
    ensures
        r == no_capabilities_value(),
{
    UICapabilities {
        supports_system_tray: false,
        supports_global_hotkeys: false,
        supports_native_notifications: false,
        supports_jump_lists: false,
        supports_live_tiles: false,
        supports_dark_mode: false,
        supports_transparency: false,
        cross_platform: false,
        supports_custom_decorations: false,
        supports_drag_drop: false,
    }
}

// ---------------------------------------------------------------------------
// WinUI: Jump List, Live Tile, toasts, taskbar progress
// ---------------------------------------------------------------------------

/// The group of a Jump List item.
#[derive(Clone, Debug)]
pub enum JumpListCategory {
    Recent,
    Frequent,
    Tasks,
    Custom(String),
}

/// The mathematical value of a [`JumpListCategory`].
pub ghost enum CategoryModel {
    Recent,
    Frequent,
    Tasks,
    Custom(Seq<char>),
}

impl View for JumpListCategory {
    type V = CategoryModel;

    open spec fn view(&self) -> CategoryModel {
        match self {
            JumpListCategory::Recent => CategoryModel::Recent,
            JumpListCategory::Frequent => CategoryModel::Frequent,
            JumpListCategory::Tasks => CategoryModel::Tasks,
            JumpListCategory::Custom(s) => CategoryModel::Custom(s@),
        }
    }
}

impl JumpListCategory {
    /// A copy of this category.
    pub fn duplicate(&self) -> (r: JumpListCategory)
        ensures
            r@ == self@,
    {
        match self {
            JumpListCategory::Recent => JumpListCategory::Recent,
            JumpListCategory::Frequent => JumpListCategory::Frequent,
            JumpListCategory::Tasks => JumpListCategory::Tasks,
            JumpListCategory::Custom(s) => JumpListCategory::Custom(copy_string(s)),
        }
    }
}

/// An item of the taskbar Jump List.
#[derive(Clone, Debug)]
pub struct JumpListItem {
    pub id: String,
    pub title: String,
    /// Shown as a tooltip.
    pub description: String,
    pub icon: Option<String>,
    /// Passed to the program when the item is clicked.
    pub arguments: String,
    pub category: JumpListCategory,
}

/// The mathematical value of a [`JumpListItem`].
pub ghost struct JumpModel {
    pub id: Seq<char>,
    pub title: Seq<char>,
    pub description: Seq<char>,
    pub icon: Option<Seq<char>>,
    pub arguments: Seq<char>,
    pub category: CategoryModel,
}

impl View for JumpListItem {
    type V = JumpModel;

    open spec fn view(&self) -> JumpModel {
        JumpModel {
            id: self.id@,
            title: self.title@,
            description: self.description@,
            icon: opt_view(self.icon),
            arguments: self.arguments@,
            category: self.category@,
        }
    }
}

impl JumpListItem {
    /// A copy of this item.
    pub fn duplicate(&self) -> (r: JumpListItem)
        ensures
            r@ == self@,
    {
        JumpListItem {
            id: copy_string(&self.id),
            title: copy_string(&self.title),
            description: copy_string(&self.description),
            icon: copy_opt_string(&self.icon),
            arguments: copy_string(&self.arguments),
            category: self.category.duplicate(),
        }
    }
}

/// The views of Jump List items.
pub open spec fn jumps_view(v: Seq<JumpListItem>) -> Seq<JumpModel> {
    v.map_values(|j: JumpListItem| j@)
}

/// The layout of a Live Tile.
#[derive(Clone, Copy, Debug, PartialEq, Eq, Structural)]
pub enum LiveTileTemplate {
    TileSquareText01,
    TileSquareText02,
    TileSquareImage,
    TileWideText01,
    TileWideImage,
}

/// The content of the Live Tile.
#[derive(Clone, Debug)]
pub struct LiveTileUpdate {
    pub template: LiveTileTemplate,
    pub text_line1: String,
    pub text_line2: Option<String>,
    pub text_line3: Option<String>,
    /// The badge; 0 hides it.
    pub badge_count: u32,
    pub image_path: Option<String>,
}

/// The mathematical value of a [`LiveTileUpdate`].
pub ghost struct TileModel {
    pub template: LiveTileTemplate,
    pub line1: Seq<char>,
    pub line2: Option<Seq<char>>,
    pub line3: Option<Seq<char>>,
    pub badge: u32,
    pub image: Option<Seq<char>>,
}

impl View for LiveTileUpdate {
    type V = TileModel;

    open spec fn view(&self) -> TileModel {
        TileModel {
            template: self.template,
            line1: self.text_line1@,
            line2: opt_view(self.text_line2),
            line3: opt_view(self.text_line3),
            badge: self.badge_count,
            image: opt_view(self.image_path),
        }
    }
}

impl LiveTileUpdate {
    /// A copy of this content.
    pub fn duplicate(&self) -> (r: LiveTileUpdate)
        ensures
            r@ == self@,
    {
        LiveTileUpdate {
            template: self.template,
            text_line1: copy_string(&self.text_line1),
            text_line2: copy_opt_string(&self.text_line2),
            text_line3: copy_opt_string(&self.text_line3),
            badge_count: self.badge_count,
            image_path: copy_opt_string(&self.image_path),
        }
    }
}

/// The view of an optional tile.
pub open spec fn tile_view(t: Option<LiveTileUpdate>) -> Option<TileModel> {
    match t {
        Some(x) => Some(x@),
        None => None,
    }
}

/// How long a toast stays.
#[derive(Clone, Copy, Debug, PartialEq, Eq, Structural)]
pub enum ToastDuration {
    /// About 7 seconds.
    Short,
    /// About 25 seconds.
    Long,
}

/// The sound of a toast.
#[derive(Clone, Debug)]
pub enum ToastAudio {
    Default,
    Silent,
    Custom(String),
    System(String),
}

/// How a toast behaves.
#[derive(Clone, Copy, Debug, PartialEq, Eq, Structural)]
pub enum ToastScenario {
    Default,
    /// Stays on screen.
    Alarm,
    /// Stays on screen.
    Reminder,
    IncomingCall,
}

/// Options of a Windows toast.
#[derive(Clone, Debug)]
pub struct WindowsToastOptions {
    pub duration: ToastDuration,
    pub audio: Option<ToastAudio>,
    pub scenario: ToastScenario,
    pub hero_image: Option<String>,
    pub app_logo: Option<String>,
    pub attribution: Option<String>,
}

impl Default for WindowsToastOptions {
    fn default() -> (r: Self)
        ensures
            r.duration == ToastDuration::Short,
            r.audio is None,
            r.scenario == ToastScenario::Default,
            r.hero_image is None && r.app_logo is None && r.attribution is None,
    {
        WindowsToastOptions {
            duration: ToastDuration::Short,
            audio: None,
            scenario: ToastScenario::Default,
            hero_image: None,
            app_logo: None,
            attribution: None,
        }
    }
}

/// The toast scenario for an urgency: an alarm when critical, a reminder
/// when high, else the default.
pub open spec fn scenario_for(u: NotificationUrgency) -> ToastScenario {
    match u {
        NotificationUrgency::Low => ToastScenario::Default,
        NotificationUrgency::Normal => ToastScenario::Default,
        NotificationUrgency::High => ToastScenario::Reminder,
        NotificationUrgency::Critical => ToastScenario::Alarm,
    }
}

/// The toast options for a notification of some urgency: long and an alarm
/// when critical, a short reminder when high, else short and default.
pub fn toast_options_for(urgency: NotificationUrgency) -> (r: WindowsToastOptions)
    ensures
        r.scenario == scenario_for(urgency),
        r.duration == (if urgency == NotificationUrgency::Critical {
            ToastDuration::Long
        } else {
            ToastDuration::Short
        }),
        r.audio is None,
        r.hero_image is None && r.app_logo is None && r.attribution is None,
{
    let scenario = match urgency {
        NotificationUrgency::Low => ToastScenario::Default,
        NotificationUrgency::Normal => ToastScenario::Default,
        NotificationUrgency::High => ToastScenario::Reminder,
        NotificationUrgency::Critical => ToastScenario::Alarm,
    };
    let duration = if urgency == NotificationUrgency::Critical {
        ToastDuration::Long
    } else {
        ToastDuration::Short
    };
    WindowsToastOptions {
        duration,
        audio: None,
        scenario,
        hero_image: None,
        app_logo: None,
        attribution: None,
    }
}

/// The state of the taskbar progress indicator.
#[derive(Clone, Copy, Debug, PartialEq, Eq, Structural)]
pub enum TaskbarProgressState {
    /// Nothing shown.
    NoProgress,
    /// Spinning.
    Indeterminate,
    Normal,
    Error,
    Paused,
}

/// Settings of the WinUI user interface.
#[derive(Clone, Debug)]
pub struct WinUIConfig {
    pub enable_system_tray: bool,
    pub enable_hotkeys: bool,
    pub enable_notifications: bool,
    pub enable_jump_lists: bool,
    pub enable_live_tiles: bool,
    pub window_title: String,
    pub initial_theme: UITheme,
    pub window_width: u32,
    pub window_height: u32,
    pub min_window_width: u32,
    pub min_window_height: u32,
    /// The Mica or Acrylic backdrop.
    pub enable_backdrop: bool,
    pub enable_snap_layouts: bool,
    pub enable_taskbar_progress: bool,
    /// The most items of the Jump List.
    pub jump_list_max_items: usize,
}

impl Default for WinUIConfig {
    fn default() -> (r: Self)
        ensures
            r.enable_system_tray && r.enable_hotkeys && r.enable_notifications,
            r.enable_jump_lists && r.enable_live_tiles,
            r.window_title@ == "Web Page Manager"@,
            r.initial_theme == UITheme::System,
            r.window_width == 1200 && r.window_height == 800,
            r.min_window_width == 800 && r.min_window_height == 600,
            r.enable_backdrop && r.enable_snap_layouts && r.enable_taskbar_progress,
            r.jump_list_max_items == 10,
    {
        WinUIConfig {
            enable_system_tray: true,
            enable_hotkeys: true,
            enable_notifications: true,
            enable_jump_lists: true,
            enable_live_tiles: true,
            window_title: "Web Page Manager".to_string(),
            initial_theme: UITheme::System,
            window_width: 1200,
            window_height: 800,
            min_window_width: 800,
            min_window_height: 600,
            enable_backdrop: true,
            enable_snap_layouts: true,
            enable_taskbar_progress: true,
            jump_list_max_items: 10,
        }
    }
}

/// The state of the WinUI user interface.
pub ghost struct WinUIModel {
    pub initialized: bool,
    pub window_visible: bool,
    pub minimized_to_tray: bool,
    pub theme: UITheme,
    pub hotkeys: nat,
    pub has_event_handler: bool,
    pub has_data: bool,
    pub jump_list: Seq<JumpModel>,
    pub live_tile: Option<TileModel>,
    pub progress: TaskbarProgressState,
    pub progress_value: u32,
    pub position: Option<(i32, i32)>,
    pub size: Option<(u32, u32)>,
    pub maximized: bool,
    pub backdrop: bool,
}

/// A WinUI user interface that has just been made, with an initial theme.
pub open spec fn fresh_winui(theme: UITheme) -> WinUIModel {
    WinUIModel {
        initialized: false,
        window_visible: false,
        minimized_to_tray: false,
        theme,
        hotkeys: 0,
        has_event_handler: false,
        has_data: false,
        jump_list: seq![],
        live_tile: None,
        progress: TaskbarProgressState::NoProgress,
        progress_value: 0,
        position: None,
        size: None,
        maximized: false,
        backdrop: false,
    }
}

/// The Jump List item for a page: its id, title, URL as description,
/// favicon as icon, and arguments that open its URL.
pub open spec fn page_jump(p: PageModel) -> JumpModel {
    JumpModel {
        id: uuid_text(p.id),
        title: p.title,
        description: p.url,
        icon: p.favicon_url,
        arguments: "--open-url \""@ + p.url + "\""@,
        category: CategoryModel::Recent,
    }
}

/// The Live Tile summarizing what is shown: the number of pages, groups and
/// browsers, with the number of pages as badge.
pub open spec fn summary_tile(pages: nat, groups: nat, browsers: nat, badge: u32) -> TileModel {
    TileModel {
        template: LiveTileTemplate::TileSquareText02,
        line1: decimal(pages) + " pages"@,
        line2: Some(decimal(groups) + " groups"@),
        line3: Some(decimal(browsers) + " browsers"@),
        badge,
        image: None,
    }
}

/// The WinUI user interface; it runs on Windows only.
pub struct WinUIManager {
    platform: Platform,
    config: WinUIConfig,
    initialized: bool,
    window_visible: bool,
    minimized_to_tray: bool,
    current_theme: UITheme,
    registered_hotkeys: Vec<Hotkey>,
    has_event_handler: bool,
    current_data: Option<UIData>,
    jump_list_items: Vec<JumpListItem>,
    live_tile_state: Option<LiveTileUpdate>,
    taskbar_progress: TaskbarProgressState,
    taskbar_progress_value: u32,
    window_position: Option<(i32, i32)>,
    window_size: Option<(u32, u32)>,
    is_maximized: bool,
    backdrop_active: bool,
}

impl View for WinUIManager {
    type V = WinUIModel;

    closed spec fn view(&self) -> WinUIModel {
        WinUIModel {
            initialized: self.initialized,
            window_visible: self.window_visible,
            minimized_to_tray: self.minimized_to_tray,
            theme: self.current_theme,
            hotkeys: self.registered_hotkeys@.len(),
            has_event_handler: self.has_event_handler,
            has_data: self.current_data is Some,
            jump_list: jumps_view(self.jump_list_items@),
            live_tile: tile_view(self.live_tile_state),
            progress: self.taskbar_progress,
            progress_value: self.taskbar_progress_value,
            position: self.window_position,
            size: self.window_size,
            maximized: self.is_maximized,
            backdrop: self.backdrop_active,
        }
    }
}

/// The refusal of WinUI off Windows.
fn winui_unsupported() -> (r: NativeUIError)
    ensures
        r is PlatformNotSupported,
{
    NativeUIError::PlatformNotSupported { platform: "WinUI is only supported on Windows".to_string() }
}

/// A refusal because the framework does not run on this platform.
pub open spec fn unsupported<T>(r: Result<T, NativeUIError>) -> bool {
    r matches Err(NativeUIError::PlatformNotSupported { .. })
}

/// A refusal because the user interface is not initialized.
pub open spec fn uninitialized<T>(r: Result<T, NativeUIError>) -> bool {
    r matches Err(NativeUIError::NotInitialized)
}

/// The toast chosen for a notification: none where notifications are
/// disabled, else the options for its urgency.
pub open spec fn toast_chosen(enabled: bool, urgency: NotificationUrgency, o: Option<WindowsToastOptions>) -> bool {
    if !enabled {
        o is None
    } else {
        &&& o is Some
        &&& o->0.scenario == scenario_for(urgency)
        &&& o->0.duration == (if urgency == NotificationUrgency::Critical {
            ToastDuration::Long
        } else {
            ToastDuration::Short
        })
        &&& o->0.audio is None
        &&& o->0.hero_image is None && o->0.app_logo is None && o->0.attribution is None
    }
}

/// The first `n` elements of `v`, or all of them.
pub open spec fn first_n<T>(v: Seq<T>, n: nat) -> Seq<T> {
    if v.len() <= n {
        v
    } else {
        v.take(n as int)
    }
}

impl WinUIManager {
    /// The settings.
    pub closed spec fn settings(self) -> WinUIConfig {
        self.config
    }

    /// The platform the program runs on.
    pub closed spec fn platform(self) -> Platform {
        self.platform
    }

    /// Whether the program runs on Windows.
    pub open spec fn on_windows(self) -> bool {
        self.platform() == Platform::Windows
    }

    /// A WinUI user interface with default settings, on a platform.
    pub fn new(platform: Platform) -> (r: Self)
        ensures
            r@ == fresh_winui(UITheme::System),
            r.platform() == platform,
            r.settings().enable_system_tray && r.settings().enable_hotkeys,
            r.settings().enable_notifications && r.settings().enable_jump_lists,
            r.settings().enable_live_tiles && r.settings().enable_backdrop,
            r.settings().enable_taskbar_progress,
            r.settings().window_width == 1200 && r.settings().window_height == 800,
            r.settings().min_window_width == 800 && r.settings().min_window_height == 600,
            r.settings().jump_list_max_items == 10,
    {
        Self::with_config(WinUIConfig::default(), platform)
    }

    /// A WinUI user interface with some settings, on a platform.
    pub fn with_config(config: WinUIConfig, platform: Platform) -> (r: Self)
        ensures
            r@ == fresh_winui(config.initial_theme),
            r.settings() == config,
            r.platform() == platform,
    {
        let theme = config.initial_theme;
        let r = WinUIManager {
            platform,
            config,
            initialized: false,
            window_visible: false,
            minimized_to_tray: false,
            current_theme: theme,
            registered_hotkeys: Vec::new(),
            has_event_handler: false,
            current_data: None,
            jump_list_items: Vec::new(),
            live_tile_state: None,
            taskbar_progress: TaskbarProgressState::NoProgress,
            taskbar_progress_value: 0,
            window_position: None,
            window_size: None,
            is_maximized: false,
            backdrop_active: false,
        };
        assert(jumps_view(r.jump_list_items@) =~= seq![]);
        r
    }

    /// The settings.
    pub fn config(&self) -> (r: &WinUIConfig)
        ensures
            *r == self.settings(),
    {
        &self.config
    }

    /// Initializes: the window takes its configured size and the backdrop
    /// its configured state. Refused off Windows.
    pub fn initialize(&mut self) -> (r: Result<(), NativeUIError>)
        ensures
            final(self).settings() == old(self).settings(),
            final(self).platform() == old(self).platform(),
            !old(self).on_windows() ==> unsupported(r) && final(self)@ == old(self)@,
            old(self).on_windows() ==> r is Ok && final(self)@ == (WinUIModel {
                initialized: true,
                size: Some((old(self).settings().window_width, old(self).settings().window_height)),
                backdrop: old(self).settings().enable_backdrop,
                ..old(self)@
            }),
    {
        if self.platform != Platform::Windows {
            return Err(winui_unsupported());
        }
        self.window_size = Some((self.config.window_width, self.config.window_height));
        self.backdrop_active = self.config.enable_backdrop;
        self.initialized = true;
        Ok(())
    }

    /// Shows the main window, out of the tray, with the backdrop where it
    /// is enabled. Refused before initialization and off Windows.
    pub fn show_main_window(&mut self) -> (r: Result<(), NativeUIError>)
        ensures
            final(self).settings() == old(self).settings(),
            final(self).platform() == old(self).platform(),
            !old(self).on_windows() ==> unsupported(r) && final(self)@ == old(self)@,
            old(self).on_windows() && !old(self)@.initialized ==> uninitialized(r) && final(self)@ == old(self)@,
            old(self).on_windows() && old(self)@.initialized ==> r is Ok && final(self)@ == (WinUIModel {
                window_visible: true,
                minimized_to_tray: false,
                backdrop: if old(self).settings().enable_backdrop {
                    true
                } else {
                    old(self)@.backdrop
                },
                ..old(self)@
            }),
    {
        if self.platform != Platform::Windows {
            return Err(winui_unsupported());
        }
        if !self.initialized {
            return Err(NativeUIError::NotInitialized);
        }
        self.window_visible = true;
        self.minimized_to_tray = false;
        if self.config.enable_backdrop {
            self.backdrop_active = true;
        }
        Ok(())
    }

    /// Hides the main window. Refused before initialization and off Windows.
    pub fn hide_main_window(&mut self) -> (r: Result<(), NativeUIError>)
        ensures
            final(self).settings() == old(self).settings(),
            final(self).platform() == old(self).platform(),
            !old(self).on_windows() ==> unsupported(r) && final(self)@ == old(self)@,
            old(self).on_windows() && !old(self)@.initialized ==> uninitialized(r) && final(self)@ == old(self)@,
            old(self).on_windows() && old(self)@.initialized ==> r is Ok && final(self)@ == (WinUIModel {
                window_visible: false,
                ..old(self)@
            }),
    {
        if self.platform != Platform::Windows {
            return Err(winui_unsupported());
        }
        if !self.initialized {
            return Err(NativeUIError::NotInitialized);
        }
        self.window_visible = false;
        Ok(())
    }

    /// The toast that shows a notification, none where notifications are
    /// disabled. Refused off Windows.
    pub fn show_notification(&self, notification: &NotificationConfig) -> (r: Result<
        Option<WindowsToastOptions>,
        NativeUIError,
    >)
        ensures
            !self.on_windows() ==> unsupported(r),
            self.on_windows() ==> (r matches Ok(o) && toast_chosen(
                self.settings().enable_notifications,
                notification.urgency,
                o,
            )),
    {
        if self.platform != Platform::Windows {
            return Err(winui_unsupported());
        }
        if !self.config.enable_notifications {
            return Ok(None);
        }
        Ok(Some(toast_options_for(notification.urgency)))
    }

    /// Whether a toast is to be shown: where notifications are enabled.
    /// Refused off Windows.
    pub fn show_windows_toast(&self, notification: &NotificationConfig, options: &WindowsToastOptions) -> (r:
        Result<bool, NativeUIError>)
        ensures
            !self.on_windows() ==> unsupported(r),
            self.on_windows() ==> r == Ok::<bool, NativeUIError>(self.settings().enable_notifications),
    {
        if self.platform != Platform::Windows {
            return Err(winui_unsupported());
        }
        Ok(self.config.enable_notifications)
    }
}

impl WinUIManager {

    /// Keeps the hotkeys, where hotkeys are enabled. Refused off Windows.
    pub fn register_global_hotkeys(&mut self, hotkeys: Vec<Hotkey>) -> (r: Result<(), NativeUIError>)
        ensures
            final(self).settings() == old(self).settings(),
            final(self).platform() == old(self).platform(),
            !old(self).on_windows() ==> unsupported(r) && final(self)@ == old(self)@,
            old(self).on_windows() ==> r is Ok && final(self)@ == (WinUIModel {
                hotkeys: if old(self).settings().enable_hotkeys {
                    hotkeys@.len()
                } else {
                    old(self)@.hotkeys
                },
                ..old(self)@
            }),
    {
        if self.platform != Platform::Windows {
            return Err(winui_unsupported());
        }
        if self.config.enable_hotkeys {
            self.registered_hotkeys = hotkeys;
        }
        Ok(())
    }

    /// Forgets the hotkeys. Refused off Windows.
    pub fn unregister_global_hotkeys(&mut self) -> (r: Result<(), NativeUIError>)
        ensures
            final(self).settings() == old(self).settings(),
            final(self).platform() == old(self).platform(),
            !old(self).on_windows() ==> unsupported(r) && final(self)@ == old(self)@,
            old(self).on_windows() ==> r is Ok && final(self)@ == (WinUIModel {
                hotkeys: 0,
                ..old(self)@
            }),
    {
        if self.platform != Platform::Windows {
            return Err(winui_unsupported());
        }
        self.registered_hotkeys = Vec::new();
        Ok(())
    }

    /// Hides the window in the tray, where the tray is enabled. Refused off
    /// Windows.
    pub fn minimize_to_tray(&mut self) -> (r: Result<(), NativeUIError>)
        ensures
            final(self).settings() == old(self).settings(),
            final(self).platform() == old(self).platform(),
            !old(self).on_windows() ==> unsupported(r) && final(self)@ == old(self)@,
            old(self).on_windows() ==> r is Ok && final(self)@ == (WinUIModel {
                window_visible: if old(self).settings().enable_system_tray {
                    false
                } else {
                    old(self)@.window_visible
                },
                minimized_to_tray: old(self).settings().enable_system_tray || old(self)@.minimized_to_tray,
                ..old(self)@
            }),
    {
        if self.platform != Platform::Windows {
            return Err(winui_unsupported());
        }
        if self.config.enable_system_tray {
            self.window_visible = false;
            self.minimized_to_tray = true;
        }
        Ok(())
    }

    /// Shows the window again, out of the tray. Refused off Windows.
    pub fn restore_from_tray(&mut self) -> (r: Result<(), NativeUIError>)
        ensures
            final(self).settings() == old(self).settings(),
            final(self).platform() == old(self).platform(),
            !old(self).on_windows() ==> unsupported(r) && final(self)@ == old(self)@,
            old(self).on_windows() ==> r is Ok && final(self)@ == (WinUIModel {
                window_visible: true,
                minimized_to_tray: false,
                ..old(self)@
            }),
    {
        if self.platform != Platform::Windows {
            return Err(winui_unsupported());
        }
        self.window_visible = true;
        self.minimized_to_tray = false;
        Ok(())
    }

    /// Sets the Jump List to the first `jump_list_max_items` items, where
    /// Jump Lists are enabled. Refused off Windows.
    pub fn update_jump_list(&mut self, items: Vec<JumpListItem>) -> (r: Result<(), NativeUIError>)
        ensures
            final(self).settings() == old(self).settings(),
            final(self).platform() == old(self).platform(),
            !old(self).on_windows() ==> unsupported(r) && final(self)@ == old(self)@,
            old(self).on_windows() ==> r is Ok && final(self)@ == (WinUIModel {
                jump_list: if old(self).settings().enable_jump_lists {
                    first_n(jumps_view(items@), old(self).settings().jump_list_max_items as nat)
                } else {
                    old(self)@.jump_list
                },
                ..old(self)@
            }),
    {
        if self.platform != Platform::Windows {
            return Err(winui_unsupported());
        }
        if self.config.enable_jump_lists {
            let max = self.config.jump_list_max_items;
            let mut kept: Vec<JumpListItem> = Vec::new();
            let n = if items.len() <= max {
                items.len()
            } else {
                max
            };
            let mut k: usize = 0;
            while k < n
                invariant
                    k <= n,
                    n <= items@.len(),
                    jumps_view(kept@) == jumps_view(items@).take(k as int),
                decreases n - k,
            {
                let ghost o = jumps_view(kept@);
                let d = items[k].duplicate();
                kept.push(d);
                assert(jumps_view(kept@) =~= o.push(items@[k as int]@));
                assert(jumps_view(items@).take(k + 1) =~= jumps_view(items@).take(k as int).push(items@[k as int]@));
                k += 1;
            }
            assert(jumps_view(items@).take(n as int) =~= first_n(jumps_view(items@), max as nat));
            self.jump_list_items = kept;
        }
        Ok(())
    }

    /// Empties the Jump List. Refused off Windows.
    pub fn clear_jump_list(&mut self) -> (r: Result<(), NativeUIError>)
        ensures
            final(self).settings() == old(self).settings(),
            final(self).platform() == old(self).platform(),
            !old(self).on_windows() ==> unsupported(r) && final(self)@ == old(self)@,
            old(self).on_windows() ==> r is Ok && final(self)@ == (WinUIModel {
                jump_list: seq![],
                ..old(self)@
            }),
    {
        if self.platform != Platform::Windows {
            return Err(winui_unsupported());
        }
        self.jump_list_items = Vec::new();
        assert(jumps_view(self.jump_list_items@) =~= seq![]);
        Ok(())
    }

    /// Sets the Live Tile, where Live Tiles are enabled. Refused off Windows.
    pub fn update_live_tile(&mut self, update: LiveTileUpdate) -> (r: Result<(), NativeUIError>)
        ensures
            final(self).settings() == old(self).settings(),
            final(self).platform() == old(self).platform(),
            !old(self).on_windows() ==> unsupported(r) && final(self)@ == old(self)@,
            old(self).on_windows() ==> r is Ok && final(self)@ == (WinUIModel {
                live_tile: if old(self).settings().enable_live_tiles {
                    Some(update@)
                } else {
                    old(self)@.live_tile
                },
                ..old(self)@
            }),
    {
        if self.platform != Platform::Windows {
            return Err(winui_unsupported());
        }
        if self.config.enable_live_tiles {
            self.live_tile_state = Some(update);
        }
        Ok(())
    }

    /// Empties the Live Tile. Refused off Windows.
    pub fn clear_live_tile(&mut self) -> (r: Result<(), NativeUIError>)
        ensures
            final(self).settings() == old(self).settings(),
            final(self).platform() == old(self).platform(),
            !old(self).on_windows() ==> unsupported(r) && final(self)@ == old(self)@,
            old(self).on_windows() ==> r is Ok && final(self)@ == (WinUIModel {
                live_tile: None,
                ..old(self)@
            }),
    {
        if self.platform != Platform::Windows {
            return Err(winui_unsupported());
        }
        self.live_tile_state = None;
        Ok(())
    }

    /// Sets the taskbar progress, at most 100, where it is enabled. Refused
    /// off Windows.
    pub fn set_taskbar_progress(&mut self, state: TaskbarProgressState, value: u32) -> (r: Result<(), NativeUIError>)
        ensures
            final(self).settings() == old(self).settings(),
            final(self).platform() == old(self).platform(),
            !old(self).on_windows() ==> unsupported(r) && final(self)@ == old(self)@,
            old(self).on_windows() ==> r is Ok && final(self)@ == (WinUIModel {
                progress: if old(self).settings().enable_taskbar_progress {
                    state
                } else {
                    old(self)@.progress
                },
                progress_value: if !old(self).settings().enable_taskbar_progress {
                    old(self)@.progress_value
                } else if value <= 100 {
                    value
                } else {
                    100
                },
                ..old(self)@
            }),
    {
        if self.platform != Platform::Windows {
            return Err(winui_unsupported());
        }
        if self.config.enable_taskbar_progress {
            self.taskbar_progress = state;
            self.taskbar_progress_value = if value <= 100 {
                value
            } else {
                100
            };
        }
        Ok(())
    }

    /// Turns the backdrop on or off, where the backdrop is enabled. Refused
    /// off Windows.
    pub fn set_backdrop_enabled(&mut self, enabled: bool) -> (r: Result<(), NativeUIError>)
        ensures
            final(self).settings() == old(self).settings(),
            final(self).platform() == old(self).platform(),
            !old(self).on_windows() ==> unsupported(r) && final(self)@ == old(self)@,
            old(self).on_windows() ==> r is Ok && final(self)@ == (WinUIModel {
                backdrop: if old(self).settings().enable_backdrop {
                    enabled
                } else {
                    old(self)@.backdrop
                },
                ..old(self)@
            }),
    {
        if self.platform != Platform::Windows {
            return Err(winui_unsupported());
        }
        if self.config.enable_backdrop {
            self.backdrop_active = enabled;
        }
        Ok(())
    }

    /// Moves the window. Refused off Windows.
    pub fn set_window_position(&mut self, x: i32, y: i32) -> (r: Result<(), NativeUIError>)
        ensures
            final(self).settings() == old(self).settings(),
            final(self).platform() == old(self).platform(),
            !old(self).on_windows() ==> unsupported(r) && final(self)@ == old(self)@,
            old(self).on_windows() ==> r is Ok && final(self)@ == (WinUIModel {
                position: Some((x, y)),
                ..old(self)@
            }),
    {
        if self.platform != Platform::Windows {
            return Err(winui_unsupported());
        }
        self.window_position = Some((x, y));
        Ok(())
    }

    /// Resizes the window, to no less than its least size. Refused off
    /// Windows.
    pub fn set_window_size(&mut self, width: u32, height: u32) -> (r: Result<(), NativeUIError>)
        ensures
            final(self).settings() == old(self).settings(),
            final(self).platform() == old(self).platform(),
            !old(self).on_windows() ==> unsupported(r) && final(self)@ == old(self)@,
            old(self).on_windows() ==> r is Ok && final(self)@ == (WinUIModel {
                size: Some(
                    (
                        if width >= old(self).settings().min_window_width {
                            width
                        } else {
                            old(self).settings().min_window_width
                        },
                        if height >= old(self).settings().min_window_height {
                            height
                        } else {
                            old(self).settings().min_window_height
                        },
                    ),
                ),
                ..old(self)@
            }),
    {
        if self.platform != Platform::Windows {
            return Err(winui_unsupported());
        }
        let w = if width >= self.config.min_window_width {
            width
        } else {
            self.config.min_window_width
        };
        let h = if height >= self.config.min_window_height {
            height
        } else {
            self.config.min_window_height
        };
        self.window_size = Some((w, h));
        Ok(())
    }

    /// Maximizes the window. Refused off Windows.
    pub fn maximize_window(&mut self) -> (r: Result<(), NativeUIError>)
        ensures
            final(self).settings() == old(self).settings(),
            final(self).platform() == old(self).platform(),
            !old(self).on_windows() ==> unsupported(r) && final(self)@ == old(self)@,
            old(self).on_windows() ==> r is Ok && final(self)@ == (WinUIModel {
                maximized: true,
                ..old(self)@
            }),
    {
        if self.platform != Platform::Windows {
            return Err(winui_unsupported());
        }
        self.is_maximized = true;
        Ok(())
    }

    /// Restores the window from maximized. Refused off Windows.
    pub fn restore_window(&mut self) -> (r: Result<(), NativeUIError>)
        ensures
            final(self).settings() == old(self).settings(),
            final(self).platform() == old(self).platform(),
            !old(self).on_windows() ==> unsupported(r) && final(self)@ == old(self)@,
            old(self).on_windows() ==> r is Ok && final(self)@ == (WinUIModel {
                maximized: false,
                ..old(self)@
            }),
    {
        if self.platform != Platform::Windows {
            return Err(winui_unsupported());
        }
        self.is_maximized = false;
        Ok(())
    }

    /// Sets the theme. Refused off Windows.
    pub fn set_theme(&mut self, theme: UITheme) -> (r: Result<(), NativeUIError>)
        ensures
            final(self).settings() == old(self).settings(),
            final(self).platform() == old(self).platform(),
            !old(self).on_windows() ==> unsupported(r) && final(self)@ == old(self)@,
            old(self).on_windows() ==> r is Ok && final(self)@ == (WinUIModel {
                theme,
                ..old(self)@
            }),
    {
        if self.platform != Platform::Windows {
            return Err(winui_unsupported());
        }
        self.current_theme = theme;
        Ok(())
    }

    /// Records that an event handler is set; the handler itself is kept by
    /// the caller. Refused off Windows.
    pub fn set_event_handler(&mut self) -> (r: Result<(), NativeUIError>)
        ensures
            final(self).settings() == old(self).settings(),
            final(self).platform() == old(self).platform(),
            !old(self).on_windows() ==> unsupported(r) && final(self)@ == old(self)@,
            old(self).on_windows() ==> r is Ok && final(self)@ == (WinUIModel {
                has_event_handler: true,
                ..old(self)@
            }),
    {
        if self.platform != Platform::Windows {
            return Err(winui_unsupported());
        }
        self.has_event_handler = true;
        Ok(())
    }

    /// Shuts down: the Jump List, Live Tile, taskbar progress, shown data,
    /// hotkeys, window and tray state and event handler are cleared. The
    /// theme and window geometry stay. Refused off Windows.
    pub fn shutdown(&mut self) -> (r: Result<(), NativeUIError>)
        ensures
            final(self).settings() == old(self).settings(),
            final(self).platform() == old(self).platform(),
            !old(self).on_windows() ==> unsupported(r) && final(self)@ == old(self)@,
            old(self).on_windows() ==> r is Ok && final(self)@ == (WinUIModel {
                initialized: false,
                window_visible: false,
                minimized_to_tray: false,
                hotkeys: 0,
                has_event_handler: false,
                has_data: false,
                jump_list: seq![],
                live_tile: None,
                progress: TaskbarProgressState::NoProgress,
                progress_value: 0,
                ..old(self)@
            }),
    {
        if self.platform != Platform::Windows {
            return Err(winui_unsupported());
        }
        self.jump_list_items = Vec::new();
        self.live_tile_state = None;
        self.taskbar_progress = TaskbarProgressState::NoProgress;
        self.taskbar_progress_value = 0;
        self.current_data = None;
        self.registered_hotkeys = Vec::new();
        self.window_visible = false;
        self.minimized_to_tray = false;
        self.has_event_handler = false;
        self.initialized = false;
        assert(jumps_view(self.jump_list_items@) =~= seq![]);
        Ok(())
    }

    /// Flashes the taskbar button; nothing is kept. Refused off Windows.
    pub fn flash_taskbar(&self, count: u32) -> (r: Result<(), NativeUIError>)
        ensures
            !self.on_windows() ==> unsupported(r),
            self.on_windows() ==> r is Ok,
    {
        if self.platform != Platform::Windows {
            return Err(winui_unsupported());
        }
        Ok(())
    }

    /// Adds a document to the recent ones; nothing is kept. Refused off
    /// Windows.
    pub fn add_to_recent_documents(&self, path: &str, display_name: &str) -> (r: Result<(), NativeUIError>)
        ensures
            !self.on_windows() ==> unsupported(r),
            self.on_windows() ==> r is Ok,
    {
        if self.platform != Platform::Windows {
            return Err(winui_unsupported());
        }
        Ok(())
    }

    /// The window's position.
    pub fn get_window_position(&self) -> (r: Option<(i32, i32)>)
        ensures
            r == self@.position,
    {
        self.window_position
    }

    /// The window's size.
    pub fn get_window_size(&self) -> (r: Option<(u32, u32)>)
        ensures
            r == self@.size,
    {
        self.window_size
    }

    /// Whether the window is maximized.
    pub fn is_maximized(&self) -> (r: bool)
        ensures
            r == self@.maximized,
    {
        self.is_maximized
    }

    /// Copies of the Jump List items.
    pub fn get_jump_list_items(&self) -> (r: Vec<JumpListItem>)
        ensures
            jumps_view(r@) == self@.jump_list,
    {
        let mut r: Vec<JumpListItem> = Vec::new();
        let mut k: usize = 0;
        while k < self.jump_list_items.len()
            invariant
                k <= self.jump_list_items@.len(),
                jumps_view(r@) == jumps_view(self.jump_list_items@).take(k as int),
            decreases self.jump_list_items@.len() - k,
        {
            let ghost o = jumps_view(r@);
            let d = self.jump_list_items[k].duplicate();
            r.push(d);
            assert(jumps_view(r@) =~= o.push(self.jump_list_items@[k as int]@));
            assert(jumps_view(self.jump_list_items@).take(k + 1) =~= jumps_view(self.jump_list_items@).take(
                k as int,
            ).push(self.jump_list_items@[k as int]@));
            k += 1;
        }
        assert(jumps_view(self.jump_list_items@).take(k as int) =~= jumps_view(self.jump_list_items@));
        r
    }

    /// A copy of the Live Tile's content.
    pub fn get_live_tile_state(&self) -> (r: Option<LiveTileUpdate>)
        ensures
            tile_view(r) == self@.live_tile,
    {
        match &self.live_tile_state {
            Some(t) => Some(t.duplicate()),
            None => None,
        }
    }

    /// The taskbar progress and its value.
    pub fn get_taskbar_progress(&self) -> (r: (TaskbarProgressState, u32))
        ensures
            r == (self@.progress, self@.progress_value),
    {
        (self.taskbar_progress, self.taskbar_progress_value)
    }

    /// The theme; the system's off Windows.
    pub fn get_theme(&self) -> (r: UITheme)
        ensures
            r == (if self.on_windows() {
                self@.theme
            } else {
                UITheme::System
            }),
    {
        if self.platform != Platform::Windows {
            return UITheme::System;
        }
        self.current_theme
    }

    /// WinUI.
    pub fn framework_type(&self) -> (r: UIFramework)
        ensures
            r == UIFramework::WinUI,
    {
        UIFramework::WinUI
    }

    /// Whether WinUI runs here: on Windows.
    pub fn is_available(&self) -> (r: bool)
        ensures
            r == self.on_windows(),
    {
        self.platform == Platform::Windows
    }

    /// What WinUI supports: on Windows the tray, hotkeys, notifications,
    /// Jump Lists and Live Tiles as configured, dark mode, transparency,
    /// custom decorations and drag and drop, and it is not cross-platform;
    /// off Windows nothing.
    pub fn get_capabilities(&self) -> (r: UICapabilities)
        ensures
            self.on_windows() ==> r == (UICapabilities {
                supports_system_tray: self.settings().enable_system_tray,
                supports_global_hotkeys: self.settings().enable_hotkeys,
                supports_native_notifications: self.settings().enable_notifications,
                supports_jump_lists: self.settings().enable_jump_lists,
                supports_live_tiles: self.settings().enable_live_tiles,
                supports_dark_mode: true,
                supports_transparency: true,
                cross_platform: false,
                supports_custom_decorations: true,
                supports_drag_drop: true,
            }),
            !self.on_windows() ==> r == no_capabilities_value(),
    {
        if self.platform != Platform::Windows {
            return no_capabilities();
        }
        UICapabilities {
            supports_system_tray: self.config.enable_system_tray,
            supports_global_hotkeys: self.config.enable_hotkeys,
            supports_native_notifications: self.config.enable_notifications,
            supports_jump_lists: self.config.enable_jump_lists,
            supports_live_tiles: self.config.enable_live_tiles,
            supports_dark_mode: true,
            supports_transparency: true,
            cross_platform: false,
            supports_custom_decorations: true,
            supports_drag_drop: true,
        }
    }

    /// A summary of the state; that of a user interface not running off
    /// Windows.
    pub fn get_state(&self) -> (r: UIState)
        ensures
            self.on_windows() ==> r == (UIState {
                initialized: self@.initialized,
                window_visible: self@.window_visible,
                minimized_to_tray: self@.minimized_to_tray,
                current_theme: self@.theme,
                registered_hotkey_count: self@.hotkeys as usize,
                has_event_handler: self@.has_event_handler,
            }),
            !self.on_windows() ==> r == idle_state_value(),
    {
        if self.platform != Platform::Windows {
            return idle_state();
        }
        UIState {
            initialized: self.initialized,
            window_visible: self.window_visible,
            minimized_to_tray: self.minimized_to_tray,
            current_theme: self.current_theme,
            registered_hotkey_count: self.registered_hotkeys.len(),
            has_event_handler: self.has_event_handler,
        }
    }
}

/// The Jump List item for a page.
pub fn page_jump_item(p: &UnifiedPageInfo) -> (r: JumpListItem)
    ensures
        r@ == page_jump(p@),
{
    let mut id: Vec<char> = Vec::new();
    push_uuid(&mut id, p.id);
    let mut args: Vec<char> = Vec::new();
    push_str_chars(&mut args, "--open-url \"");
    push_str_chars(&mut args, p.url.as_str());
    push_str_chars(&mut args, "\"");
    JumpListItem {
        id: string_from_chars(&id),
        title: copy_string(&p.title),
        description: copy_string(&p.url),
        icon: copy_opt_string(&p.favicon_url),
        arguments: string_from_chars(&args),
        category: JumpListCategory::Recent,
    }
}

/// `n` followed by a word.
fn count_text(n: usize, word: &str) -> (r: String)
    ensures
        r@ == decimal(n as nat) + word@,
{
    let mut v: Vec<char> = Vec::new();
    push_decimal(&mut v, n as u64);
    push_str_chars(&mut v, word);
    string_from_chars(&v)
}

/// The Live Tile summarizing what is shown.
pub fn summary_tile_update(data: &UIData) -> (r: LiveTileUpdate)
    ensures
        r@ == summary_tile(
            data.pages@.len(),
            data.group_count as nat,
            data.active_browser_count as nat,
            data.pages@.len() as u32,
        ),
{
    LiveTileUpdate {
        template: LiveTileTemplate::TileSquareText02,
        text_line1: count_text(data.pages.len(), " pages"),
        text_line2: Some(count_text(data.group_count, " groups")),
        text_line3: Some(count_text(data.active_browser_count, " browsers")),
        badge_count: data.pages.len() as u32,
        image_path: None,
    }
}

/// The Jump List items of the first `max` pages.
pub open spec fn page_jumps(pages: Seq<UnifiedPageInfo>, max: nat) -> Seq<JumpModel> {
    first_n(pages_view(pages).map_values(|p: PageModel| page_jump(p)), max)
}

impl WinUIManager {
    /// Shows new data: where Jump Lists are enabled and there are pages, the
    /// Jump List lists the first pages; where Live Tiles are enabled, the
    /// tile counts pages, groups and browsers. Refused off Windows.
    pub fn update_ui_data(&mut self, data: UIData) -> (r: Result<(), NativeUIError>)
        ensures
            final(self).settings() == old(self).settings(),
            final(self).platform() == old(self).platform(),
            !old(self).on_windows() ==> unsupported(r) && final(self)@ == old(self)@,
            old(self).on_windows() ==> r is Ok && final(self)@ == (WinUIModel {
                jump_list: if old(self).settings().enable_jump_lists && data.pages@.len() > 0 {
                    page_jumps(data.pages@, old(self).settings().jump_list_max_items as nat)
                } else {
                    old(self)@.jump_list
                },
                live_tile: if old(self).settings().enable_live_tiles {
                    Some(
                        summary_tile(
                            data.pages@.len(),
                            data.group_count as nat,
                            data.active_browser_count as nat,
                            data.pages@.len() as u32,
                        ),
                    )
                } else {
                    old(self)@.live_tile
                },
                has_data: true,
                ..old(self)@
            }),
    {
        if self.platform != Platform::Windows {
            return Err(winui_unsupported());
        }
        if self.config.enable_jump_lists && data.pages.len() > 0 {
            let max = self.config.jump_list_max_items;
            let n = if data.pages.len() <= max {
                data.pages.len()
            } else {
                max
            };
            let ghost all = pages_view(data.pages@).map_values(|p: PageModel| page_jump(p));
            let mut items: Vec<JumpListItem> = Vec::new();
            let mut k: usize = 0;
            while k < n
                invariant
                    k <= n,
                    n <= data.pages@.len(),
                    all == pages_view(data.pages@).map_values(|p: PageModel| page_jump(p)),
                    jumps_view(items@) == all.take(k as int),
                decreases n - k,
            {
                let ghost o = jumps_view(items@);
                let item = page_jump_item(&data.pages[k]);
                items.push(item);
                assert(jumps_view(items@) =~= o.push(all[k as int]));
                assert(all.take(k + 1) =~= all.take(k as int).push(all[k as int]));
                k += 1;
            }
            assert(all.take(n as int) =~= first_n(all, max as nat));
            assert(first_n(jumps_view(items@), max as nat) =~= jumps_view(items@));
            let _ = self.update_jump_list(items);
        }
        if self.config.enable_live_tiles {
            let tile = summary_tile_update(&data);
            let _ = self.update_live_tile(tile);
        }
        self.current_data = Some(data);
        Ok(())
    }
}

// ---------------------------------------------------------------------------
// GTK
// ---------------------------------------------------------------------------

/// Settings of the GTK user interface.
#[derive(Clone, Debug)]
pub struct GTKUIConfig {
    pub enable_system_tray: bool,
    pub enable_hotkeys: bool,
    pub enable_notifications: bool,
    pub application_id: String,
    pub window_title: String,
    pub initial_theme: UITheme,
}

impl Default for GTKUIConfig {
    fn default() -> (r: Self)
        ensures
            r.enable_system_tray && r.enable_hotkeys && r.enable_notifications,
            r.application_id@ == "com.webpagemanager.app"@,
            r.window_title@ == "Web Page Manager"@,
            r.initial_theme == UITheme::System,
    {
        GTKUIConfig {
            enable_system_tray: true,
            enable_hotkeys: true,
            enable_notifications: true,
            application_id: "com.webpagemanager.app".to_string(),
            window_title: "Web Page Manager".to_string(),
            initial_theme: UITheme::System,
        }
    }
}

/// The state of a GTK user interface.
pub ghost struct GtkModel {
    pub initialized: bool,
    pub window_visible: bool,
    pub minimized_to_tray: bool,
    pub theme: UITheme,
    pub hotkeys: nat,
    pub has_event_handler: bool,
    pub has_data: bool,
}

/// A GTK user interface that has just been made, with an initial theme.
pub open spec fn fresh_gtk(theme: UITheme) -> GtkModel {
    GtkModel {
        initialized: false,
        window_visible: false,
        minimized_to_tray: false,
        theme,
        hotkeys: 0,
        has_event_handler: false,
        has_data: false,
    }
}

/// The GTK user interface.
pub struct GTKUIManager {
    config: GTKUIConfig,
    initialized: bool,
    window_visible: bool,
    minimized_to_tray: bool,
    current_theme: UITheme,
    registered_hotkeys: Vec<Hotkey>,
    has_event_handler: bool,
    current_data: Option<UIData>,
}

impl View for GTKUIManager {
    type V = GtkModel;

    closed spec fn view(&self) -> GtkModel {
        GtkModel {
            initialized: self.initialized,
            window_visible: self.window_visible,
            minimized_to_tray: self.minimized_to_tray,
            theme: self.current_theme,
            hotkeys: self.registered_hotkeys@.len(),
            has_event_handler: self.has_event_handler,
            has_data: self.current_data is Some,
        }
    }
}

impl GTKUIManager {
    /// The settings.
    pub closed spec fn settings(self) -> GTKUIConfig {
        self.config
    }

    /// A GTK user interface with default settings.
    pub fn new() -> (r: Self)
        ensures
            r@ == fresh_gtk(UITheme::System),
            r.settings().enable_system_tray && r.settings().enable_hotkeys,
            r.settings().enable_notifications,
    {
        Self::with_config(GTKUIConfig::default())
    }

    /// A GTK user interface with some settings.
    pub fn with_config(config: GTKUIConfig) -> (r: Self)
        ensures
            r@ == fresh_gtk(config.initial_theme),
            r.settings() == config,
    {
        let theme = config.initial_theme;
        GTKUIManager {
            config,
            initialized: false,
            window_visible: false,
            minimized_to_tray: false,
            current_theme: theme,
            registered_hotkeys: Vec::new(),
            has_event_handler: false,
            current_data: None,
        }
    }

    /// The settings.
    pub fn config(&self) -> (r: &GTKUIConfig)
        ensures
            *r == self.settings(),
    {
        &self.config
    }

    /// Initializes.
    pub fn initialize(&mut self)
        ensures
            final(self).settings() == old(self).settings(),
            final(self)@ == (GtkModel { initialized: true, ..old(self)@ }),
    {
        self.initialized = true;
    }

    /// Shows the main window, out of the tray. Refused before
    /// initialization.
    pub fn show_main_window(&mut self) -> (r: Result<(), NativeUIError>)
        ensures
            final(self).settings() == old(self).settings(),
            !old(self)@.initialized ==> uninitialized(r) && final(self)@ == old(self)@,
            old(self)@.initialized ==> r is Ok && final(self)@ == (GtkModel {
                window_visible: true,
                minimized_to_tray: false,
                ..old(self)@
            }),
    {
        if !self.initialized {
            return Err(NativeUIError::NotInitialized);
        }
        self.window_visible = true;
        self.minimized_to_tray = false;
        Ok(())
    }

    /// Hides the main window. Refused before initialization.
    pub fn hide_main_window(&mut self) -> (r: Result<(), NativeUIError>)
        ensures
            final(self).settings() == old(self).settings(),
            !old(self)@.initialized ==> uninitialized(r) && final(self)@ == old(self)@,
            old(self)@.initialized ==> r is Ok && final(self)@ == (GtkModel { window_visible: false, ..old(self)@ }),
    {
        if !self.initialized {
            return Err(NativeUIError::NotInitialized);
        }
        self.window_visible = false;
        Ok(())
    }

    /// Whether a notification is to be shown: where notifications are
    /// enabled.
    pub fn show_notification(&self, notification: &NotificationConfig) -> (r: bool)
        ensures
            r == self.settings().enable_notifications,
    {
        self.config.enable_notifications
    }

    /// Keeps the hotkeys, where hotkeys are enabled.
    pub fn register_global_hotkeys(&mut self, hotkeys: Vec<Hotkey>)
        ensures
            final(self).settings() == old(self).settings(),
            final(self)@ == (GtkModel {
                hotkeys: if old(self).settings().enable_hotkeys {
                    hotkeys@.len()
                } else {
                    old(self)@.hotkeys
                },
                ..old(self)@
            }),
    {
        if self.config.enable_hotkeys {
            self.registered_hotkeys = hotkeys;
        }
    }

    /// Forgets the hotkeys.
    pub fn unregister_global_hotkeys(&mut self)
        ensures
            final(self).settings() == old(self).settings(),
            final(self)@ == (GtkModel { hotkeys: 0, ..old(self)@ }),
    {
        self.registered_hotkeys = Vec::new();
    }

    /// Hides the window in the tray, where the tray is enabled.
    pub fn minimize_to_tray(&mut self)
        ensures
            final(self).settings() == old(self).settings(),
            final(self)@ == (if old(self).settings().enable_system_tray {
                GtkModel { window_visible: false, minimized_to_tray: true, ..old(self)@ }
            } else {
                old(self)@
            }),
    {
        if self.config.enable_system_tray {
            self.window_visible = false;
            self.minimized_to_tray = true;
        }
    }

    /// Shows the window again, out of the tray.
    pub fn restore_from_tray(&mut self)
        ensures
            final(self).settings() == old(self).settings(),
            final(self)@ == (GtkModel { window_visible: true, minimized_to_tray: false, ..old(self)@ }),
    {
        self.window_visible = true;
        self.minimized_to_tray = false;
    }

    /// Keeps the data shown.
    pub fn update_ui_data(&mut self, data: UIData)
        ensures
            final(self).settings() == old(self).settings(),
            final(self)@ == (GtkModel { has_data: true, ..old(self)@ }),
    {
        self.current_data = Some(data);
    }

    /// Sets the theme.
    pub fn set_theme(&mut self, theme: UITheme)
        ensures
            final(self).settings() == old(self).settings(),
            final(self)@ == (GtkModel { theme, ..old(self)@ }),
    {
        self.current_theme = theme;
    }

    /// The theme.
    pub fn get_theme(&self) -> (r: UITheme)
        ensures
            r == self@.theme,
    {
        self.current_theme
    }

    /// Records that an event handler is set; the handler itself is kept by
    /// the caller.
    pub fn set_event_handler(&mut self)
        ensures
            final(self).settings() == old(self).settings(),
            final(self)@ == (GtkModel { has_event_handler: true, ..old(self)@ }),
    {
        self.has_event_handler = true;
    }

    /// Shuts down: the data, hotkeys, window and tray state and event
    /// handler are cleared; the theme stays.
    pub fn shutdown(&mut self)
        ensures
            final(self).settings() == old(self).settings(),
            final(self)@ == (GtkModel { theme: old(self)@.theme, ..fresh_gtk(old(self)@.theme) }),
    {
        self.current_data = None;
        self.registered_hotkeys = Vec::new();
        self.window_visible = false;
        self.minimized_to_tray = false;
        self.has_event_handler = false;
        self.initialized = false;
    }

    /// GTK.
    pub fn framework_type(&self) -> (r: UIFramework)
        ensures
            r == UIFramework::GTK,
    {
        UIFramework::GTK
    }

    /// Whether GTK runs on a platform: on the Unix-like ones, Linux and
    /// macOS.
    pub fn is_available(&self, platform: Platform) -> (r: bool)
        ensures
            r == (platform == Platform::Linux || platform == Platform::MacOS),
    {
        platform == Platform::Linux || platform == Platform::MacOS
    }

    /// What GTK supports: the tray, hotkeys and notifications as
    /// configured, dark mode, transparency, custom decorations and drag and
    /// drop on every platform; no Jump Lists or Live Tiles.
    pub fn get_capabilities(&self) -> (r: UICapabilities)
        ensures
            r == (UICapabilities {
                supports_system_tray: self.settings().enable_system_tray,
                supports_global_hotkeys: self.settings().enable_hotkeys,
                supports_native_notifications: self.settings().enable_notifications,
                supports_jump_lists: false,
                supports_live_tiles: false,
                supports_dark_mode: true,
                supports_transparency: true,
                cross_platform: true,
                supports_custom_decorations: true,
                supports_drag_drop: true,
            }),
    {
        UICapabilities {
            supports_system_tray: self.config.enable_system_tray,
            supports_global_hotkeys: self.config.enable_hotkeys,
            supports_native_notifications: self.config.enable_notifications,
            supports_jump_lists: false,
            supports_live_tiles: false,
            supports_dark_mode: true,
            supports_transparency: true,
            cross_platform: true,
            supports_custom_decorations: true,
            supports_drag_drop: true,
        }
    }

    /// A summary of the state.
    pub fn get_state(&self) -> (r: UIState)
        ensures
            r == (UIState {
                initialized: self@.initialized,
                window_visible: self@.window_visible,
                minimized_to_tray: self@.minimized_to_tray,
                current_theme: self@.theme,
                registered_hotkey_count: self@.hotkeys as usize,
                has_event_handler: self@.has_event_handler,
            }),
    {
        UIState {
            initialized: self.initialized,
            window_visible: self.window_visible,
            minimized_to_tray: self.minimized_to_tray,
            current_theme: self.current_theme,
            registered_hotkey_count: self.registered_hotkeys.len(),
            has_event_handler: self.has_event_handler,
        }
    }
}

// ---------------------------------------------------------------------------
// Qt
// ---------------------------------------------------------------------------

/// The Qt user interface, which runs everywhere.
pub struct QtUIManager {
    initialized: bool,
}

impl View for QtUIManager {
    type V = bool;

    /// Whether it is initialized.
    closed spec fn view(&self) -> bool {
        self.initialized
    }
}

impl QtUIManager {
    /// A Qt user interface, not yet initialized.
    pub fn new() -> (r: Self)
        ensures
            !r@,
    {
        QtUIManager { initialized: false }
    }

    /// Initializes.
    pub fn initialize(&mut self)
        ensures
            final(self)@,
    {
        self.initialized = true;
    }

    /// Shows the main window. Refused before initialization.
    pub fn show_main_window(&self) -> (r: Result<(), NativeUIError>)
        ensures
            !self@ ==> uninitialized(r),
            self@ ==> r is Ok,
    {
        if !self.initialized {
            return Err(NativeUIError::NotInitialized);
        }
        Ok(())
    }

    /// Shuts down.
    pub fn shutdown(&mut self)
        ensures
            !final(self)@,
    {
        self.initialized = false;
    }

    /// Qt.
    pub fn framework_type(&self) -> (r: UIFramework)
        ensures
            r == UIFramework::Qt,
    {
        UIFramework::Qt
    }

    /// Qt runs on every platform.
    pub fn is_available(&self) -> (r: bool)
        ensures
            r,
    {
        true
    }

    /// What Qt supports on a platform: the tray, hotkeys, notifications,
    /// dark mode and transparency everywhere, Jump Lists on Windows only,
    /// no Live Tiles; it is cross-platform.
    pub fn get_capabilities(&self, platform: Platform) -> (r: UICapabilities)
        ensures
            r == (UICapabilities {
                supports_system_tray: true,
                supports_global_hotkeys: true,
                supports_native_notifications: true,
                supports_jump_lists: platform == Platform::Windows,
                supports_live_tiles: false,
                supports_dark_mode: true,
                supports_transparency: true,
                cross_platform: true,
                supports_custom_decorations: false,
                supports_drag_drop: false,
            }),
    {
        UICapabilities {
            supports_system_tray: true,
            supports_global_hotkeys: true,
            supports_native_notifications: true,
            supports_jump_lists: platform == Platform::Windows,
            supports_live_tiles: false,
            supports_dark_mode: true,
            supports_transparency: true,
            cross_platform: true,
            supports_custom_decorations: false,
            supports_drag_drop: false,
        }
    }
}

/// The Jump List never holds more than `jump_list_max_items` items, however
/// many items or pages it is given.
pub proof fn law_jump_list_bounded(items: Seq<JumpModel>, pages: Seq<UnifiedPageInfo>, max: nat)
    ensures
        first_n(items, max).len() <= max,
        page_jumps(pages, max).len() <= max,
        page_jumps(pages, max).len() <= pages.len(),
{
}

} // verus!
