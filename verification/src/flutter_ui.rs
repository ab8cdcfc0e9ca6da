//! The window state behind the Flutter user interface: whether it is
//! initialized, whether its window is shown or hidden in the tray, and the
//! global hotkeys it registered. The drawing is done on the Flutter side.

use vstd::prelude::*;
use crate::hotkeys::Hotkey;
use crate::model::{PageModel, UnifiedPageInfo};
use crate::sync::pages_view;

verus! {

/// A user interface framework.
#[derive(Clone, Copy, Debug, PartialEq, Eq, Structural)]
pub enum UIFramework {
    Flutter,
    WinUI,
    GTK,
    Qt,
}

/// What a user interface framework supports.
#[derive(Clone, Copy, Debug)]
pub struct UICapabilities {
    pub supports_system_tray: bool,
    pub supports_global_hotkeys: bool,
    pub supports_native_notifications: bool,
    pub supports_jump_lists: bool,
    pub supports_live_tiles: bool,
    pub supports_dark_mode: bool,
    pub supports_transparency: bool,
    pub cross_platform: bool,
    pub supports_custom_decorations: bool,
    pub supports_drag_drop: bool,
}

/// Settings of the Flutter user interface.
#[derive(Clone, Debug)]
pub struct FlutterUIConfig {
    pub enable_system_tray: bool,
    pub enable_hotkeys: bool,
    pub enable_notifications: bool,
    pub window_title: String,
    pub window_width: u32,
    pub window_height: u32,
    pub min_window_width: u32,
    pub min_window_height: u32,
}

impl Default for FlutterUIConfig {
    fn default() -> (r: Self)
        ensures
            r.enable_system_tray,
            r.enable_hotkeys,
            r.enable_notifications,
            r.window_title@ == "Web Page Manager"@,
            r.window_width == 1200,
            r.window_height == 800,
            r.min_window_width == 800,
            r.min_window_height == 600,
    {
        FlutterUIConfig {
            enable_system_tray: true,
            enable_hotkeys: true,
            enable_notifications: true,
            window_title: "Web Page Manager".to_string(),
            window_width: 1200,
            window_height: 800,
            min_window_width: 800,
            min_window_height: 600,
        }
    }
}

/// Why the user interface refused a request.
#[derive(Clone, Copy, Debug, PartialEq, Eq, Structural)]
pub enum UIError {
    /// The user interface was not initialized.
    NotInitialized,
}

/// What the user interface shows: the pages, and how many groups and
/// active browsers there are.
#[derive(Clone, Debug)]
pub struct UIData {
    pub pages: Vec<UnifiedPageInfo>,
    pub group_count: usize,
    pub active_browser_count: usize,
}

/// The mathematical value of [`UIData`].
pub ghost struct DataModel {
    pub pages: Seq<PageModel>,
    pub group_count: usize,
    pub active_browser_count: usize,
}

impl View for UIData {
    type V = DataModel;

    open spec fn view(&self) -> DataModel {
        DataModel {
            pages: pages_view(self.pages@),
            group_count: self.group_count,
            active_browser_count: self.active_browser_count,
        }
    }
}

impl UIData {
    /// A copy of this data.
    pub fn duplicate(&self) -> (r: UIData)
        ensures
            r@ == self@,
    {
        let mut pages: Vec<UnifiedPageInfo> = Vec::new();
        let mut k: usize = 0;
        while k < self.pages.len()
            invariant
                k <= self.pages@.len(),
                pages_view(pages@) == pages_view(self.pages@).take(k as int),
            decreases self.pages@.len() - k,
        {
            let ghost o = pages_view(pages@);
            let d = self.pages[k].duplicate();
            pages.push(d);
            assert(pages_view(pages@) =~= o.push(self.pages@[k as int]@));
            assert(pages_view(self.pages@).take(k + 1) =~= pages_view(self.pages@).take(k as int).push(
                self.pages@[k as int]@,
            ));
            k += 1;
        }
        assert(pages_view(self.pages@).take(k as int) =~= pages_view(self.pages@));
        UIData { pages, group_count: self.group_count, active_browser_count: self.active_browser_count }
    }
}

/// The view of optional data.
pub open spec fn data_view(d: Option<UIData>) -> Option<DataModel> {
    match d {
        Some(x) => Some(x@),
        None => None,
    }
}

/// The state of the Flutter user interface.
pub ghost struct UiModel {
    pub initialized: bool,
    pub window_visible: bool,
    pub minimized_to_tray: bool,
    pub hotkeys: Seq<Hotkey>,
    /// The data shown.
    pub data: Option<DataModel>,
}

/// The Rust side of the Flutter user interface.
pub struct FlutterUIManager {
    config: FlutterUIConfig,
    initialized: bool,
    window_visible: bool,
    minimized_to_tray: bool,
    registered_hotkeys: Vec<Hotkey>,
    current_data: Option<UIData>,
}

impl View for FlutterUIManager {
    type V = UiModel;

    closed spec fn view(&self) -> UiModel {
        UiModel {
            initialized: self.initialized,
            window_visible: self.window_visible,
            minimized_to_tray: self.minimized_to_tray,
            hotkeys: self.registered_hotkeys@,
            data: data_view(self.current_data),
        }
    }
}

/// The state of a user interface that has just been made or shut down.
pub open spec fn idle_ui() -> UiModel {
    UiModel {
        initialized: false,
        window_visible: false,
        minimized_to_tray: false,
        hotkeys: seq![],
        data: None,
    }
}

impl FlutterUIManager {
    /// The settings.
    pub closed spec fn settings(self) -> FlutterUIConfig {
        self.config
    }

    /// A user interface with default settings.
    pub fn new() -> (r: Self)
        ensures
            r@ == idle_ui(),
            r.settings().enable_system_tray,
            r.settings().enable_hotkeys,
            r.settings().enable_notifications,
    {
        Self::with_config(FlutterUIConfig::default())
    }

    /// A user interface with some settings.
    pub fn with_config(config: FlutterUIConfig) -> (r: Self)
        ensures
            r@ == idle_ui(),
            r.settings() == config,
    {
        let r = FlutterUIManager {
            config,
            initialized: false,
            window_visible: false,
            minimized_to_tray: false,
            registered_hotkeys: Vec::new(),
            current_data: None,
        };
        assert(r@.hotkeys =~= seq![]);
        r
    }

    /// The settings.
    pub fn config(&self) -> (r: &FlutterUIConfig)
        ensures
            *r == self.settings(),
    {
        &self.config
    }

    /// Whether the window is shown.
    pub fn is_window_visible(&self) -> (r: bool)
        ensures
            r == self@.window_visible,
    {
        self.window_visible
    }

    /// Whether the application is minimized to the tray.
    pub fn is_minimized_to_tray(&self) -> (r: bool)
        ensures
            r == self@.minimized_to_tray,
    {
        self.minimized_to_tray
    }

    /// The registered hotkeys.
    pub fn get_registered_hotkeys(&self) -> (r: &[Hotkey])
        ensures
            r@ == self@.hotkeys,
    {
        self.registered_hotkeys.as_slice()
    }

    /// Initializes the user interface with its window hidden.
    pub fn initialize(&mut self)
        ensures
            final(self)@ == (UiModel {
                initialized: true,
                window_visible: false,
                minimized_to_tray: false,
                ..old(self)@
            }),
            final(self).settings() == old(self).settings(),
    {
        self.window_visible = false;
        self.minimized_to_tray = false;
        self.initialized = true;
    }

    /// Shows the window, out of the tray: refused before initialization.
    pub fn show_main_window(&mut self) -> (r: Result<(), UIError>)
        ensures
            final(self).settings() == old(self).settings(),
            !old(self)@.initialized ==> r == Err::<(), UIError>(UIError::NotInitialized) && final(self)@
                == old(self)@,
            old(self)@.initialized ==> r is Ok && final(self)@ == (UiModel {
                window_visible: true,
                minimized_to_tray: false,
                ..old(self)@
            }),
    {
        if !self.initialized {
            return Err(UIError::NotInitialized);
        }
        self.window_visible = true;
        self.minimized_to_tray = false;
        Ok(())
    }

    /// Whether a notification would be shown: only where notifications
    /// are enabled. Nothing changes.
    pub fn show_notification(&self, message: &str) -> (r: bool)
        ensures
            r == self.settings().enable_notifications,
    {
        self.config.enable_notifications
    }

    /// Registers hotkeys, replacing those registered, where hotkeys are
    /// enabled; else nothing changes.
    pub fn register_global_hotkeys(&mut self, hotkeys: Vec<Hotkey>)
        ensures
            final(self).settings() == old(self).settings(),
            old(self).settings().enable_hotkeys ==> final(self)@ == (UiModel { hotkeys: hotkeys@, ..old(self)@ }),
            !old(self).settings().enable_hotkeys ==> final(self)@ == old(self)@,
    {
        if self.config.enable_hotkeys {
            self.registered_hotkeys = hotkeys;
        }
    }

    /// Hides the window in the tray, where the tray is enabled; else
    /// nothing changes.
    pub fn minimize_to_tray(&mut self)
        ensures
            final(self).settings() == old(self).settings(),
            old(self).settings().enable_system_tray ==> final(self)@ == (UiModel {
                window_visible: false,
                minimized_to_tray: true,
                ..old(self)@
            }),
            !old(self).settings().enable_system_tray ==> final(self)@ == old(self)@,
    {
        if self.config.enable_system_tray {
            self.window_visible = false;
            self.minimized_to_tray = true;
        }
    }

    /// Keeps the data shown; the drawing is done on the Flutter side.
    pub fn update_ui_data(&mut self, data: UIData)
        ensures
            final(self).settings() == old(self).settings(),
            final(self)@ == (UiModel { data: Some(data@), ..old(self)@ }),
    {
        self.current_data = Some(data);
    }

    /// A copy of the data shown, if any.
    pub fn get_current_data(&self) -> (r: Option<UIData>)
        ensures
            data_view(r) == self@.data,
    {
        match &self.current_data {
            Some(d) => Some(d.duplicate()),
            None => None,
        }
    }

    /// Shuts the user interface down: the data and hotkeys are dropped and
    /// the window hidden.
    pub fn shutdown(&mut self)
        ensures
            final(self)@ == idle_ui(),
            final(self).settings() == old(self).settings(),
    {
        self.current_data = None;
        self.registered_hotkeys = Vec::new();
        self.window_visible = false;
        self.minimized_to_tray = false;
        self.initialized = false;
        assert(self@.hotkeys =~= seq![]);
    }

    /// The framework.
    pub fn framework_type(&self) -> (r: UIFramework)
        ensures
            r == UIFramework::Flutter,
    {
        UIFramework::Flutter
    }

    /// What the Flutter interface supports under these settings.
    pub fn get_capabilities(&self) -> (r: UICapabilities)
        ensures
            r == flutter_capabilities(self.settings()),
    {
        UICapabilities {
            supports_system_tray: self.config.enable_system_tray,
            supports_global_hotkeys: self.config.enable_hotkeys,
            supports_native_notifications: self.config.enable_notifications,
            supports_jump_lists: false,
            supports_live_tiles: false,
            supports_dark_mode: true,
            supports_transparency: true,
            cross_platform: true,
            supports_custom_decorations: false,
            supports_drag_drop: false,
        }
    }
}

/// What the Flutter interface supports: the tray, hotkeys and
/// notifications as enabled, dark mode, transparency and every platform,
/// and no jump lists, live tiles, custom decorations or drag and drop.
pub open spec fn flutter_capabilities(c: FlutterUIConfig) -> UICapabilities {
    UICapabilities {
        supports_system_tray: c.enable_system_tray,
        supports_global_hotkeys: c.enable_hotkeys,
        supports_native_notifications: c.enable_notifications,
        supports_jump_lists: false,
        supports_live_tiles: false,
        supports_dark_mode: true,
        supports_transparency: true,
        cross_platform: true,
        supports_custom_decorations: false,
        supports_drag_drop: false,
    }
}

impl Default for FlutterUIManager {
    fn default() -> (r: Self)
        ensures
            r@ == idle_ui(),
    {
        Self::new()
    }
}

} // verus!
