//! Desktop integration: the notifications shown to the user, with their
//! bounded log, and the state of the system tray icon (its tooltip and
//! context menu).

use vstd::prelude::*;
use crate::matcher::{decimal, push_decimal, push_str_chars};
use crate::hotkeys::{CrossPlatformHotkeyManager, HotkeyError, Hotkey, HotkeyRegistration, RegistrationModel};
use crate::text::{copy_opt_string, copy_string, opt_view, string_from_chars};

verus! {

/// How urgently a notification asks for attention.
#[derive(Clone, Copy, Debug, PartialEq, Eq, Structural)]
pub enum NotificationUrgency {
    /// May be hidden.
    Low,
    Normal,
    /// Shown at once.
    High,
    /// Needs the user's attention.
    Critical,
}

impl Default for NotificationUrgency {
    fn default() -> (r: Self)
        ensures
            r == NotificationUrgency::Normal,
    {
        NotificationUrgency::Normal
    }
}

/// A button of a notification.
#[derive(Clone, Debug)]
pub struct NotificationAction {
    pub id: String,
    pub label: String,
}

/// What a notification shows.
#[derive(Clone, Debug)]
pub struct NotificationConfig {
    pub title: String,
    pub message: String,
    /// An icon path or name.
    pub icon: Option<String>,
    pub urgency: NotificationUrgency,
    pub actions: Vec<NotificationAction>,
    /// Milliseconds until it is dismissed; none for a persistent one.
    pub timeout_ms: Option<u64>,
}

/// The mathematical value of a [`NotificationConfig`].
pub ghost struct ConfigModel {
    pub title: Seq<char>,
    pub message: Seq<char>,
    pub icon: Option<Seq<char>>,
    pub urgency: NotificationUrgency,
    /// Each button's id and label.
    pub actions: Seq<(Seq<char>, Seq<char>)>,
    pub timeout_ms: Option<u64>,
}

/// The ids and labels of buttons.
pub open spec fn actions_view(v: Seq<NotificationAction>) -> Seq<(Seq<char>, Seq<char>)> {
    v.map_values(|a: NotificationAction| (a.id@, a.label@))
}

impl View for NotificationConfig {
    type V = ConfigModel;

    open spec fn view(&self) -> ConfigModel {
        ConfigModel {
            title: self.title@,
            message: self.message@,
            icon: opt_view(self.icon),
            urgency: self.urgency,
            actions: actions_view(self.actions@),
            timeout_ms: self.timeout_ms,
        }
    }
}

/// The notification with a title and message, at normal urgency, without
/// icon or buttons, dismissed after five seconds.
pub open spec fn plain_config(title: Seq<char>, message: Seq<char>) -> ConfigModel {
    ConfigModel {
        title,
        message,
        icon: None,
        urgency: NotificationUrgency::Normal,
        actions: seq![],
        timeout_ms: Some(5000),
    }
}

/// Copies of buttons.
fn copy_actions(v: &Vec<NotificationAction>) -> (r: Vec<NotificationAction>)
    ensures
        actions_view(r@) == actions_view(v@),
{
    let mut r: Vec<NotificationAction> = Vec::new();
    let mut i: usize = 0;
    while i < v.len()
        invariant
            i <= v@.len(),
            actions_view(r@) == actions_view(v@).take(i as int),
        decreases v@.len() - i,
    {
        let a = NotificationAction { id: copy_string(&v[i].id), label: copy_string(&v[i].label) };
        let ghost o = actions_view(r@);
        r.push(a);
        assert(actions_view(r@) =~= o.push((a.id@, a.label@)));
        assert(actions_view(v@).take(i as int + 1) =~= actions_view(v@).take(i as int).push(
            (v@[i as int].id@, v@[i as int].label@),
        ));
        i += 1;
    }
    assert(actions_view(v@).take(v@.len() as int) =~= actions_view(v@));
    r
}

/// A button.
fn action(id: &str, label: &str) -> (r: NotificationAction)
    ensures
        r.id@ == id@,
        r.label@ == label@,
{
    NotificationAction { id: id.to_string(), label: label.to_string() }
}

impl NotificationConfig {
    /// A notification with the application's title and a message.
    pub fn simple(message: String) -> (r: Self)
        ensures
            r@ == plain_config("Web Page Manager"@, message@),
    {
        let r = NotificationConfig {
            title: "Web Page Manager".to_string(),
            message,
            icon: None,
            urgency: NotificationUrgency::Normal,
            actions: Vec::new(),
            timeout_ms: Some(5000),
        };
        assert(actions_view(r.actions@) =~= seq![]);
        r
    }

    /// A notification with a title and a message.
    pub fn with_title(title: String, message: String) -> (r: Self)
        ensures
            r@ == plain_config(title@, message@),
    {
        let r = NotificationConfig {
            title,
            message,
            icon: None,
            urgency: NotificationUrgency::Normal,
            actions: Vec::new(),
            timeout_ms: Some(5000),
        };
        assert(actions_view(r.actions@) =~= seq![]);
        r
    }

    /// A copy of this configuration.
    pub fn duplicate(&self) -> (r: Self)
        ensures
            r@ == self@,
    {
        NotificationConfig {
            title: copy_string(&self.title),
            message: copy_string(&self.message),
            icon: copy_opt_string(&self.icon),
            urgency: self.urgency,
            actions: copy_actions(&self.actions),
            timeout_ms: self.timeout_ms,
        }
    }
}

/// What became of a notification.
#[derive(Clone, Copy, Debug, PartialEq, Eq, Structural)]
pub enum NotificationStatus {
    Pending,
    Shown,
    Clicked,
    Dismissed,
    TimedOut,
    Failed,
}

/// A notification that was sent.
#[derive(Clone, Debug)]
pub struct NotificationRecord {
    pub id: String,
    pub config: NotificationConfig,
    /// When it was sent, in milliseconds since the Unix epoch.
    pub sent_at: i64,
    pub status: NotificationStatus,
}

/// The mathematical value of a [`NotificationRecord`].
pub ghost struct NoticeModel {
    pub id: Seq<char>,
    pub config: ConfigModel,
    pub sent_at: i64,
    pub status: NotificationStatus,
}

impl View for NotificationRecord {
    type V = NoticeModel;

    open spec fn view(&self) -> NoticeModel {
        NoticeModel { id: self.id@, config: self.config@, sent_at: self.sent_at, status: self.status }
    }
}

/// The views of records.
pub open spec fn notices_view(v: Seq<NotificationRecord>) -> Seq<NoticeModel> {
    v.map_values(|r: NotificationRecord| r@)
}

/// The most notifications kept in the log.
pub const NOTIFICATION_LOG_SIZE: usize = 100;

/// Why an integration request was refused.
#[derive(Clone, Copy, Debug, PartialEq, Eq, Structural)]
pub enum IntegrationError {
    /// The component was not initialized.
    NotInitialized,
}

/// A notification shown as `id` at `now`.
pub open spec fn shown_notice(id: Seq<char>, config: ConfigModel, now: i64) -> NoticeModel {
    NoticeModel { id, config, sent_at: now, status: NotificationStatus::Shown }
}

/// The log once a notice is added: the oldest leaves once it holds more
/// than [`NOTIFICATION_LOG_SIZE`].
pub open spec fn logged(log: Seq<NoticeModel>, n: NoticeModel) -> Seq<NoticeModel> {
    let l = log.push(n);
    if l.len() > NOTIFICATION_LOG_SIZE {
        l.drop_first()
    } else {
        l
    }
}

/// Shows notifications and keeps a log of them.
pub struct CrossPlatformNotificationManager {
    app_name: String,
    app_icon: Option<String>,
    initialized: bool,
    history: Vec<NotificationRecord>,
}

/// The state of a notification manager: the application's name and icon,
/// whether it is initialized, and the log.
pub ghost struct NotifierState {
    pub app_name: Seq<char>,
    pub app_icon: Option<Seq<char>>,
    pub initialized: bool,
    pub log: Seq<NoticeModel>,
}

impl View for CrossPlatformNotificationManager {
    type V = NotifierState;

    closed spec fn view(&self) -> NotifierState {
        NotifierState {
            app_name: self.app_name@,
            app_icon: opt_view(self.app_icon),
            initialized: self.initialized,
            log: notices_view(self.history@),
        }
    }
}

/// The notification of new tabs in a browser.
pub open spec fn tab_activity_config(icon: Option<Seq<char>>, browser_name: Seq<char>, tab_count: nat) -> ConfigModel {
    ConfigModel {
        title: "标签页活动"@,
        message: browser_name + " 中有 "@ + decimal(tab_count) + " 个新标签页"@,
        icon,
        urgency: NotificationUrgency::Normal,
        actions: seq![],
        timeout_ms: Some(5000),
    }
}

/// The notification that bookmarks were synchronized.
pub open spec fn bookmark_sync_config(icon: Option<Seq<char>>, synced_count: nat) -> ConfigModel {
    ConfigModel {
        title: "书签同步完成"@,
        message: "已同步 "@ + decimal(synced_count) + " 个书签"@,
        icon,
        urgency: NotificationUrgency::Low,
        actions: seq![],
        timeout_ms: Some(3000),
    }
}

/// The notification that pages were analysed.
pub open spec fn analysis_config(icon: Option<Seq<char>>, analyzed_count: nat) -> ConfigModel {
    ConfigModel {
        title: "内容分析完成"@,
        message: "已分析 "@ + decimal(analyzed_count) + " 个页面"@,
        icon,
        urgency: NotificationUrgency::Low,
        actions: seq![("view_results"@, "查看结果"@)],
        timeout_ms: Some(5000),
    }
}

/// The notification that duplicate bookmarks were found; it stays until
/// the user acts.
pub open spec fn duplicates_config(icon: Option<Seq<char>>, duplicate_count: nat) -> ConfigModel {
    ConfigModel {
        title: "发现重复书签"@,
        message: "发现 "@ + decimal(duplicate_count) + " 组重复书签，点击查看详情"@,
        icon,
        urgency: NotificationUrgency::Normal,
        actions: seq![("view_duplicates"@, "查看详情"@), ("dismiss"@, "稍后处理"@)],
        timeout_ms: None,
    }
}

/// The characters of a text followed by a number and a second text.
fn number_text(before: &str, n: usize, after: &str) -> (r: String)
    ensures
        r@ == before@ + decimal(n as nat) + after@,
{
    let mut v: Vec<char> = Vec::new();
    push_str_chars(&mut v, before);
    push_decimal(&mut v, n as u64);
    push_str_chars(&mut v, after);
    string_from_chars(&v)
}

impl CrossPlatformNotificationManager {
    /// An uninitialized manager for an application, without icon.
    pub fn new(app_name: String) -> (r: Self)
        ensures
            r@ == (NotifierState { app_name: app_name@, app_icon: None, initialized: false, log: seq![] }),
    {
        let r = CrossPlatformNotificationManager { app_name, app_icon: None, initialized: false, history: Vec::new() };
        assert(notices_view(r.history@) =~= seq![]);
        r
    }

    /// An uninitialized manager for an application with an icon.
    pub fn with_icon(app_name: String, icon_path: String) -> (r: Self)
        ensures
            r@ == (NotifierState {
                app_name: app_name@,
                app_icon: Some(icon_path@),
                initialized: false,
                log: seq![],
            }),
    {
        let r = CrossPlatformNotificationManager {
            app_name,
            app_icon: Some(icon_path),
            initialized: false,
            history: Vec::new(),
        };
        assert(notices_view(r.history@) =~= seq![]);
        r
    }

    /// Initializes the manager.
    pub fn initialize(&mut self)
        ensures
            final(self)@ == (NotifierState { initialized: true, ..old(self)@ }),
    {
        self.initialized = true;
    }

    /// Shows a notification as `id` at `now`: refused before
    /// initialization; else it is logged as shown and its id returned.
    pub fn show_notification_at(&mut self, config: &NotificationConfig, id: String, now: i64) -> (r: Result<
        String,
        IntegrationError,
    >)
        ensures
            !old(self)@.initialized ==> r == Err::<String, IntegrationError>(IntegrationError::NotInitialized)
                && final(self)@ == old(self)@,
            old(self)@.initialized ==> (r matches Ok(x) && x@ == id@) && final(self)@ == (NotifierState {
                log: logged(old(self)@.log, shown_notice(id@, config@, now)),
                ..old(self)@
            }),
    {
        if !self.initialized {
            return Err(IntegrationError::NotInitialized);
        }
        let record = NotificationRecord {
            id: copy_string(&id),
            config: config.duplicate(),
            sent_at: now,
            status: NotificationStatus::Shown,
        };
        let ghost o = notices_view(self.history@);
        let ghost n = record@;
        self.history.push(record);
        assert(notices_view(self.history@) =~= o.push(n));
        if self.history.len() > NOTIFICATION_LOG_SIZE {
            let ghost p = notices_view(self.history@);
            self.history.remove(0);
            assert(notices_view(self.history@) =~= p.drop_first());
        }
        Ok(id)
    }

    /// Shows a notification now, with a fresh id.
    pub fn show_notification(&mut self, config: &NotificationConfig) -> (r: Result<String, IntegrationError>)
        ensures
            !old(self)@.initialized ==> r == Err::<String, IntegrationError>(IntegrationError::NotInitialized)
                && final(self)@ == old(self)@,
            old(self)@.initialized ==> exists|id: Seq<char>, now: i64|
                (r matches Ok(x) && x@ == id) && final(self)@ == (NotifierState {
                    log: logged(
                        old(self)@.log,
                        #[trigger] shown_notice(id, config@, now),
                    ),
                    ..old(self)@
                }),
    {
        let id = crate::platform::new_id_string();
        let now = crate::platform::now_millis();
        self.show_notification_at(config, id, now)
    }

    /// The configuration of a notification with the application's icon.
    fn with_app_icon(&self, title: &str, message: String, urgency: NotificationUrgency, timeout_ms: Option<
        u64,
    >) -> (r: NotificationConfig)
        ensures
            r@ == (ConfigModel {
                title: title@,
                message: message@,
                icon: self@.app_icon,
                urgency,
                actions: seq![],
                timeout_ms,
            }),
    {
        let r = NotificationConfig {
            title: title.to_string(),
            message,
            icon: copy_opt_string(&self.app_icon),
            urgency,
            actions: Vec::new(),
            timeout_ms,
        };
        assert(actions_view(r.actions@) =~= seq![]);
        r
    }

    /// The notification of new tabs in a browser, at `now` as `id`.
    pub fn show_tab_activity_at(&mut self, browser_name: &str, tab_count: usize, id: String, now: i64) -> (r:
        Result<String, IntegrationError>)
        ensures
            !old(self)@.initialized ==> r == Err::<String, IntegrationError>(IntegrationError::NotInitialized)
                && final(self)@ == old(self)@,
            old(self)@.initialized ==> (r matches Ok(x) && x@ == id@) && final(self)@ == (NotifierState {
                log: logged(
                    old(self)@.log,
                    shown_notice(id@, tab_activity_config(old(self)@.app_icon, browser_name@, tab_count as nat), now),
                ),
                ..old(self)@
            }),
    {
        let config = self.with_app_icon(
            "标签页活动",
            number_text(&format_browser(browser_name), tab_count, " 个新标签页"),
            NotificationUrgency::Normal,
            Some(5000),
        );
        proof {
            assert(config@.message == browser_name@ + " 中有 "@ + decimal(tab_count as nat) + " 个新标签页"@);
        }
        self.show_notification_at(&config, id, now)
    }

    /// The notification that bookmarks were synchronized, at `now` as `id`.
    pub fn show_bookmark_sync_at(&mut self, synced_count: usize, id: String, now: i64) -> (r: Result<
        String,
        IntegrationError,
    >)
        ensures
            !old(self)@.initialized ==> r == Err::<String, IntegrationError>(IntegrationError::NotInitialized)
                && final(self)@ == old(self)@,
            old(self)@.initialized ==> (r matches Ok(x) && x@ == id@) && final(self)@ == (NotifierState {
                log: logged(
                    old(self)@.log,
                    shown_notice(id@, bookmark_sync_config(old(self)@.app_icon, synced_count as nat), now),
                ),
                ..old(self)@
            }),
    {
        let config = self.with_app_icon(
            "书签同步完成",
            number_text("已同步 ", synced_count, " 个书签"),
            NotificationUrgency::Low,
            Some(3000),
        );
        self.show_notification_at(&config, id, now)
    }

    /// The notification that pages were analysed, at `now` as `id`.
    pub fn show_analysis_complete_at(&mut self, analyzed_count: usize, id: String, now: i64) -> (r: Result<
        String,
        IntegrationError,
    >)
        ensures
            !old(self)@.initialized ==> r == Err::<String, IntegrationError>(IntegrationError::NotInitialized)
                && final(self)@ == old(self)@,
            old(self)@.initialized ==> (r matches Ok(x) && x@ == id@) && final(self)@ == (NotifierState {
                log: logged(
                    old(self)@.log,
                    shown_notice(id@, analysis_config(old(self)@.app_icon, analyzed_count as nat), now),
                ),
                ..old(self)@
            }),
    {
        let mut config = self.with_app_icon(
            "内容分析完成",
            number_text("已分析 ", analyzed_count, " 个页面"),
            NotificationUrgency::Low,
            Some(5000),
        );
        let a = action("view_results", "查看结果");
        config.actions.push(a);
        assert(actions_view(config.actions@) =~= seq![(a.id@, a.label@)]);
        self.show_notification_at(&config, id, now)
    }

    /// The notification that duplicate bookmarks were found, at `now` as
    /// `id`.
    pub fn show_duplicates_found_at(&mut self, duplicate_count: usize, id: String, now: i64) -> (r: Result<
        String,
        IntegrationError,
    >)
        ensures
            !old(self)@.initialized ==> r == Err::<String, IntegrationError>(IntegrationError::NotInitialized)
                && final(self)@ == old(self)@,
            old(self)@.initialized ==> (r matches Ok(x) && x@ == id@) && final(self)@ == (NotifierState {
                log: logged(
                    old(self)@.log,
                    shown_notice(id@, duplicates_config(old(self)@.app_icon, duplicate_count as nat), now),
                ),
                ..old(self)@
            }),
    {
        let mut config = self.with_app_icon(
            "发现重复书签",
            number_text("发现 ", duplicate_count, " 组重复书签，点击查看详情"),
            NotificationUrgency::Normal,
            None,
        );
        let a = action("view_duplicates", "查看详情");
        let b = action("dismiss", "稍后处理");
        config.actions.push(a);
        assert(actions_view(config.actions@) =~= seq![(a.id@, a.label@)]);
        config.actions.push(b);
        assert(actions_view(config.actions@) =~= seq![(a.id@, a.label@)].push((b.id@, b.label@)));
        assert(seq![(a.id@, a.label@)].push((b.id@, b.label@)) =~= seq![(a.id@, a.label@), (b.id@, b.label@)]);
        self.show_notification_at(&config, id, now)
    }

    /// Shows a notification with the application's title and a message.
    pub fn show_simple(&mut self, message: String) -> (r: Result<String, IntegrationError>)
        ensures
            !old(self)@.initialized ==> r == Err::<String, IntegrationError>(IntegrationError::NotInitialized)
                && final(self)@ == old(self)@,
            old(self)@.initialized ==> exists|id: Seq<char>, now: i64|
                (r matches Ok(x) && x@ == id) && final(self)@ == (NotifierState {
                    log: logged(
                        old(self)@.log,
                        #[trigger] shown_notice(id, plain_config("Web Page Manager"@, message@), now),
                    ),
                    ..old(self)@
                }),
    {
        let config = NotificationConfig::simple(message);
        self.show_notification(&config)
    }

    /// Shows a notification with a title and a message.
    pub fn show_with_title(&mut self, title: String, message: String) -> (r: Result<String, IntegrationError>)
        ensures
            !old(self)@.initialized ==> r == Err::<String, IntegrationError>(IntegrationError::NotInitialized)
                && final(self)@ == old(self)@,
            old(self)@.initialized ==> exists|id: Seq<char>, now: i64|
                (r matches Ok(x) && x@ == id) && final(self)@ == (NotifierState {
                    log: logged(old(self)@.log, #[trigger] shown_notice(id, plain_config(title@, message@), now)),
                    ..old(self)@
                }),
    {
        let config = NotificationConfig::with_title(title, message);
        self.show_notification(&config)
    }

    /// Whether the manager is initialized.
    pub fn is_initialized(&self) -> (r: bool)
        ensures
            r == self@.initialized,
    {
        self.initialized
    }

    /// Returns to the uninitialized state; the log is kept.
    pub fn shutdown(&mut self)
        ensures
            final(self)@ == (NotifierState { initialized: false, ..old(self)@ }),
    {
        self.initialized = false;
    }

    /// The notification of new tabs in a browser, now, with a fresh id.
    pub fn show_tab_activity(&mut self, browser_name: &str, tab_count: usize) -> (r: Result<String, IntegrationError>)
        ensures
            !old(self)@.initialized ==> r == Err::<String, IntegrationError>(IntegrationError::NotInitialized)
                && final(self)@ == old(self)@,
            old(self)@.initialized ==> exists|id: Seq<char>, now: i64|
                (r matches Ok(x) && x@ == id) && final(self)@ == (NotifierState {
                    log: logged(old(self)@.log, #[trigger] shown_notice(id, tab_activity_config(old(self)@.app_icon, browser_name@, tab_count as nat), now)),
                    ..old(self)@
                }),
    {
        let id = crate::platform::new_id_string();
        let now = crate::platform::now_millis();
        let ghost idv = id@;
        let r = self.show_tab_activity_at(browser_name, tab_count, id, now);
        assert(shown_notice(idv, tab_activity_config(old(self)@.app_icon, browser_name@, tab_count as nat), now) == shown_notice(idv, tab_activity_config(old(self)@.app_icon, browser_name@, tab_count as nat), now));
        r
    }

    /// The notification that bookmarks were synchronized, now, with a fresh id.
    pub fn show_bookmark_sync(&mut self, synced_count: usize) -> (r: Result<String, IntegrationError>)
        ensures
            !old(self)@.initialized ==> r == Err::<String, IntegrationError>(IntegrationError::NotInitialized)
                && final(self)@ == old(self)@,
            old(self)@.initialized ==> exists|id: Seq<char>, now: i64|
                (r matches Ok(x) && x@ == id) && final(self)@ == (NotifierState {
                    log: logged(old(self)@.log, #[trigger] shown_notice(id, bookmark_sync_config(old(self)@.app_icon, synced_count as nat), now)),
                    ..old(self)@
                }),
    {
        let id = crate::platform::new_id_string();
        let now = crate::platform::now_millis();
        let ghost idv = id@;
        let r = self.show_bookmark_sync_at(synced_count, id, now);
        assert(shown_notice(idv, bookmark_sync_config(old(self)@.app_icon, synced_count as nat), now) == shown_notice(idv, bookmark_sync_config(old(self)@.app_icon, synced_count as nat), now));
        r
    }

    /// The notification that pages were analysed, now, with a fresh id.
    pub fn show_analysis_complete(&mut self, analyzed_count: usize) -> (r: Result<String, IntegrationError>)
        ensures
            !old(self)@.initialized ==> r == Err::<String, IntegrationError>(IntegrationError::NotInitialized)
                && final(self)@ == old(self)@,
            old(self)@.initialized ==> exists|id: Seq<char>, now: i64|
                (r matches Ok(x) && x@ == id) && final(self)@ == (NotifierState {
                    log: logged(old(self)@.log, #[trigger] shown_notice(id, analysis_config(old(self)@.app_icon, analyzed_count as nat), now)),
                    ..old(self)@
                }),
    {
        let id = crate::platform::new_id_string();
        let now = crate::platform::now_millis();
        let ghost idv = id@;
        let r = self.show_analysis_complete_at(analyzed_count, id, now);
        assert(shown_notice(idv, analysis_config(old(self)@.app_icon, analyzed_count as nat), now) == shown_notice(idv, analysis_config(old(self)@.app_icon, analyzed_count as nat), now));
        r
    }

    /// The notification that duplicate bookmarks were found, now, with a fresh id.
    pub fn show_duplicates_found(&mut self, duplicate_count: usize) -> (r: Result<String, IntegrationError>)
        ensures
            !old(self)@.initialized ==> r == Err::<String, IntegrationError>(IntegrationError::NotInitialized)
                && final(self)@ == old(self)@,
            old(self)@.initialized ==> exists|id: Seq<char>, now: i64|
                (r matches Ok(x) && x@ == id) && final(self)@ == (NotifierState {
                    log: logged(old(self)@.log, #[trigger] shown_notice(id, duplicates_config(old(self)@.app_icon, duplicate_count as nat), now)),
                    ..old(self)@
                }),
    {
        let id = crate::platform::new_id_string();
        let now = crate::platform::now_millis();
        let ghost idv = id@;
        let r = self.show_duplicates_found_at(duplicate_count, id, now);
        assert(shown_notice(idv, duplicates_config(old(self)@.app_icon, duplicate_count as nat), now) == shown_notice(idv, duplicates_config(old(self)@.app_icon, duplicate_count as nat), now));
        r
    }

    /// Copies of the logged notifications, oldest first.
    pub fn get_history(&self) -> (r: Vec<NotificationRecord>)
        ensures
            notices_view(r@) == self@.log,
    {
        let mut r: Vec<NotificationRecord> = Vec::new();
        let mut i: usize = 0;
        while i < self.history.len()
            invariant
                i <= self.history@.len(),
                notices_view(r@) == notices_view(self.history@).take(i as int),
            decreases self.history@.len() - i,
        {
            let x = &self.history[i];
            let d = NotificationRecord {
                id: copy_string(&x.id),
                config: x.config.duplicate(),
                sent_at: x.sent_at,
                status: x.status,
            };
            let ghost o = notices_view(r@);
            r.push(d);
            assert(notices_view(r@) =~= o.push(d@));
            assert(notices_view(self.history@).take(i as int + 1) =~= notices_view(self.history@).take(
                i as int,
            ).push(self.history@[i as int]@));
            i += 1;
        }
        assert(notices_view(self.history@).take(self.history@.len() as int) =~= notices_view(self.history@));
        r
    }

    /// Empties the log.
    pub fn clear_history(&mut self)
        ensures
            final(self)@ == (NotifierState { log: seq![], ..old(self)@ }),
    {
        self.history = Vec::new();
        assert(notices_view(self.history@) =~= seq![]);
    }
}

/// A browser's name followed by the words that introduce a tab count.
fn format_browser(browser_name: &str) -> (r: String)
    ensures
        r@ == browser_name@ + " 中有 "@,
{
    let mut v: Vec<char> = Vec::new();
    push_str_chars(&mut v, browser_name);
    push_str_chars(&mut v, " 中有 ");
    string_from_chars(&v)
}


/// An entry of the tray icon's context menu.
#[derive(Debug)]
pub enum TrayMenuItem {
    /// A clickable entry; `checked` is set for a checkable one.
    Item { id: String, label: String, enabled: bool, checked: Option<bool> },
    Separator,
    Submenu { id: String, label: String, items: Vec<TrayMenuItem> },
}

/// Whether a menu entry is an enabled, clickable entry with an id and label.
pub open spec fn is_item(m: TrayMenuItem, id: Seq<char>, label: Seq<char>, enabled: bool, checked: Option<bool>) -> bool {
    m matches TrayMenuItem::Item { id: i, label: l, enabled: e, checked: c } && i@ == id && l@ == label
        && e == enabled && c == checked
}

impl TrayMenuItem {
    /// An enabled entry.
    pub fn item(id: String, label: String) -> (r: Self)
        ensures
            is_item(r, id@, label@, true, None),
    {
        TrayMenuItem::Item { id, label, enabled: true, checked: None }
    }

    /// A disabled entry.
    pub fn disabled_item(id: String, label: String) -> (r: Self)
        ensures
            is_item(r, id@, label@, false, None),
    {
        TrayMenuItem::Item { id, label, enabled: false, checked: None }
    }

    /// A checkable entry.
    pub fn checkable_item(id: String, label: String, checked: bool) -> (r: Self)
        ensures
            is_item(r, id@, label@, true, Some(checked)),
    {
        TrayMenuItem::Item { id, label, enabled: true, checked: Some(checked) }
    }

    /// A separator line.
    pub fn separator() -> (r: Self)
        ensures
            r is Separator,
    {
        TrayMenuItem::Separator
    }

    /// A submenu.
    pub fn submenu(id: String, label: String, items: Vec<TrayMenuItem>) -> (r: Self)
        ensures
            r matches TrayMenuItem::Submenu { id: i, label: l, items: v } && i@ == id@ && l@ == label@
                && v@ == items@,
    {
        TrayMenuItem::Submenu { id, label, items }
    }
}

/// What happened at the tray icon.
#[derive(Clone, Debug)]
pub enum TrayEvent {
    IconClicked,
    IconDoubleClicked,
    IconRightClicked,
    MenuItemSelected { item_id: String },
}

/// The default context menu: open the window, quick search, recently
/// closed tabs, settings and exit, in groups parted by separators.
pub open spec fn is_default_menu(m: Seq<TrayMenuItem>) -> bool {
    &&& m.len() == 8
    &&& is_item(m[0], "show_window"@, "打开主窗口"@, true, None)
    &&& m[1] is Separator
    &&& is_item(m[2], "quick_search"@, "快速搜索"@, true, None)
    &&& is_item(m[3], "recent_closed"@, "最近关闭的标签页"@, true, None)
    &&& m[4] is Separator
    &&& is_item(m[5], "settings"@, "设置"@, true, None)
    &&& m[6] is Separator
    &&& is_item(m[7], "exit"@, "退出"@, true, None)
}

/// The default context menu.
pub fn default_menu() -> (r: Vec<TrayMenuItem>)
    ensures
        is_default_menu(r@),
{
    let mut r: Vec<TrayMenuItem> = Vec::new();
    r.push(TrayMenuItem::item("show_window".to_string(), "打开主窗口".to_string()));
    r.push(TrayMenuItem::Separator);
    r.push(TrayMenuItem::item("quick_search".to_string(), "快速搜索".to_string()));
    r.push(TrayMenuItem::item("recent_closed".to_string(), "最近关闭的标签页".to_string()));
    r.push(TrayMenuItem::Separator);
    r.push(TrayMenuItem::item("settings".to_string(), "设置".to_string()));
    r.push(TrayMenuItem::Separator);
    r.push(TrayMenuItem::item("exit".to_string(), "退出".to_string()));
    r
}

/// The tooltip of an application without new activity.
pub open spec fn idle_tooltip(app_name: Seq<char>) -> Seq<char> {
    app_name + " - 点击打开"@
}

/// The tooltip for a count of new activities: the idle one for none.
pub open spec fn badge_tooltip(app_name: Seq<char>, count: nat) -> Seq<char> {
    if count > 0 {
        app_name + " - "@ + decimal(count) + " 个新活动"@
    } else {
        idle_tooltip(app_name)
    }
}

/// The state of the system tray icon.
pub struct CrossPlatformTrayManager {
    app_name: String,
    tooltip: String,
    icon_path: Option<String>,
    menu_items: Vec<TrayMenuItem>,
    initialized: bool,
}

/// The mathematical state of a tray manager.
pub ghost struct TrayState {
    pub app_name: Seq<char>,
    pub tooltip: Seq<char>,
    pub icon_path: Option<Seq<char>>,
    pub menu: Seq<TrayMenuItem>,
    pub initialized: bool,
}

impl View for CrossPlatformTrayManager {
    type V = TrayState;

    closed spec fn view(&self) -> TrayState {
        TrayState {
            app_name: self.app_name@,
            tooltip: self.tooltip@,
            icon_path: opt_view(self.icon_path),
            menu: self.menu_items@,
            initialized: self.initialized,
        }
    }
}

/// The tooltip of an idle application.
fn idle_text(app_name: &str) -> (r: String)
    ensures
        r@ == idle_tooltip(app_name@),
{
    let mut v: Vec<char> = Vec::new();
    push_str_chars(&mut v, app_name);
    push_str_chars(&mut v, " - 点击打开");
    string_from_chars(&v)
}

impl CrossPlatformTrayManager {
    /// An uninitialized tray for an application, without icon or menu.
    pub fn new(app_name: String) -> (r: Self)
        ensures
            r@ == (TrayState {
                app_name: app_name@,
                tooltip: idle_tooltip(app_name@),
                icon_path: None,
                menu: seq![],
                initialized: false,
            }),
    {
        let tooltip = idle_text(&app_name);
        CrossPlatformTrayManager { app_name, tooltip, icon_path: None, menu_items: Vec::new(), initialized: false }
    }

    /// An uninitialized tray for an application with an icon.
    pub fn with_icon(app_name: String, icon_path: String) -> (r: Self)
        ensures
            r@ == (TrayState {
                app_name: app_name@,
                tooltip: idle_tooltip(app_name@),
                icon_path: Some(icon_path@),
                menu: seq![],
                initialized: false,
            }),
    {
        let tooltip = idle_text(&app_name);
        CrossPlatformTrayManager {
            app_name,
            tooltip,
            icon_path: Some(icon_path),
            menu_items: Vec::new(),
            initialized: false,
        }
    }

    /// Initializes the tray with the default menu.
    pub fn initialize(&mut self)
        ensures
            final(self)@.initialized,
            is_default_menu(final(self)@.menu),
            final(self)@.app_name == old(self)@.app_name,
            final(self)@.tooltip == old(self)@.tooltip,
            final(self)@.icon_path == old(self)@.icon_path,
    {
        self.set_menu(default_menu());
        self.initialized = true;
    }

    /// Replaces the context menu.
    pub fn set_menu(&mut self, items: Vec<TrayMenuItem>)
        ensures
            final(self)@ == (TrayState { menu: items@, ..old(self)@ }),
    {
        self.menu_items = items;
    }

    /// Replaces the tooltip.
    pub fn set_tooltip(&mut self, tooltip: String)
        ensures
            final(self)@ == (TrayState { tooltip: tooltip@, ..old(self)@ }),
    {
        self.tooltip = tooltip;
    }

    /// Shows a count of new activities in the tooltip.
    pub fn set_activity_badge(&mut self, count: usize)
        ensures
            final(self)@ == (TrayState { tooltip: badge_tooltip(old(self)@.app_name, count as nat), ..old(self)@ }),
    {
        let tooltip = if count > 0 {
            let mut v: Vec<char> = Vec::new();
            push_str_chars(&mut v, &self.app_name);
            push_str_chars(&mut v, " - ");
            push_decimal(&mut v, count as u64);
            push_str_chars(&mut v, " 个新活动");
            string_from_chars(&v)
        } else {
            idle_text(&self.app_name)
        };
        self.set_tooltip(tooltip);
    }

    /// Shows the tray icon: refused before initialization.
    pub fn show(&self) -> (r: Result<(), IntegrationError>)
        ensures
            r is Ok <==> self@.initialized,
    {
        if !self.initialized {
            return Err(IntegrationError::NotInitialized);
        }
        Ok(())
    }

    /// Hides the tray icon.
    pub fn hide_icon(&self) -> (r: Result<(), IntegrationError>)
        ensures
            r is Ok,
    {
        Ok(())
    }

    /// Whether the tray is initialized.
    pub fn is_initialized(&self) -> (r: bool)
        ensures
            r == self@.initialized,
    {
        self.initialized
    }

    /// Hides the icon and returns to the uninitialized state.
    pub fn shutdown(&mut self)
        ensures
            final(self)@ == (TrayState { initialized: false, ..old(self)@ }),
    {
        self.initialized = false;
    }

    /// The tooltip.
    pub fn get_tooltip(&self) -> (r: &str)
        ensures
            r@ == self@.tooltip,
    {
        self.tooltip.as_str()
    }

    /// The context menu.
    pub fn get_menu(&self) -> (r: &[TrayMenuItem])
        ensures
            r@ == self@.menu,
    {
        self.menu_items.as_slice()
    }
}

/// The notification log never holds more than its limit, and the newest
/// notification is the last one logged.
pub proof fn law_notification_log_bounded(log: Seq<NoticeModel>, n: NoticeModel)
    requires
        log.len() <= NOTIFICATION_LOG_SIZE,
    ensures
        logged(log, n).len() <= NOTIFICATION_LOG_SIZE,
        logged(log, n).last() == n,
{
}


/// The hotkeys, notifications and tray of the application together.
pub struct SystemIntegrationService {
    hotkey_manager: CrossPlatformHotkeyManager,
    notification_manager: CrossPlatformNotificationManager,
    tray_manager: CrossPlatformTrayManager,
    initialized: bool,
}

/// The state of the integration service: its hotkeys, notifications and
/// tray, and whether it is initialized.
pub ghost struct ServiceState {
    pub hotkeys: (Seq<RegistrationModel>, bool),
    pub notifier: NotifierState,
    pub tray: TrayState,
    pub initialized: bool,
}

impl View for SystemIntegrationService {
    type V = ServiceState;

    closed spec fn view(&self) -> ServiceState {
        ServiceState {
            hotkeys: self.hotkey_manager@,
            notifier: self.notification_manager@,
            tray: self.tray_manager@,
            initialized: self.initialized,
        }
    }
}

impl SystemIntegrationService {
    /// An uninitialized service for an application, without icon.
    pub fn new(app_name: String) -> (r: Self)
        ensures
            r@.hotkeys == (Seq::<RegistrationModel>::empty(), false),
            r@.notifier == (NotifierState { app_name: app_name@, app_icon: None, initialized: false, log: seq![] }),
            r@.tray == (TrayState {
                app_name: app_name@,
                tooltip: idle_tooltip(app_name@),
                icon_path: None,
                menu: seq![],
                initialized: false,
            }),
            !r@.initialized,
    {
        SystemIntegrationService {
            hotkey_manager: CrossPlatformHotkeyManager::new(),
            notification_manager: CrossPlatformNotificationManager::new(copy_string(&app_name)),
            tray_manager: CrossPlatformTrayManager::new(app_name),
            initialized: false,
        }
    }

    /// An uninitialized service for an application with an icon.
    pub fn with_icon(app_name: String, icon_path: String) -> (r: Self)
        ensures
            r@.hotkeys == (Seq::<RegistrationModel>::empty(), false),
            r@.notifier == (NotifierState {
                app_name: app_name@,
                app_icon: Some(icon_path@),
                initialized: false,
                log: seq![],
            }),
            r@.tray == (TrayState {
                app_name: app_name@,
                tooltip: idle_tooltip(app_name@),
                icon_path: Some(icon_path@),
                menu: seq![],
                initialized: false,
            }),
            !r@.initialized,
    {
        SystemIntegrationService {
            hotkey_manager: CrossPlatformHotkeyManager::new(),
            notification_manager: CrossPlatformNotificationManager::with_icon(
                copy_string(&app_name),
                copy_string(&icon_path),
            ),
            tray_manager: CrossPlatformTrayManager::with_icon(app_name, icon_path),
            initialized: false,
        }
    }

    /// Initializes hotkeys, notifications and the tray (with its default
    /// menu).
    pub fn initialize(&mut self)
        ensures
            final(self)@.initialized,
            final(self)@.hotkeys == (old(self)@.hotkeys.0, true),
            final(self)@.notifier == (NotifierState { initialized: true, ..old(self)@.notifier }),
            final(self)@.tray.initialized,
            is_default_menu(final(self)@.tray.menu),
            final(self)@.tray.app_name == old(self)@.tray.app_name,
            final(self)@.tray.tooltip == old(self)@.tray.tooltip,
            final(self)@.tray.icon_path == old(self)@.tray.icon_path,
    {
        self.hotkey_manager.initialize();
        self.notification_manager.initialize();
        self.tray_manager.initialize();
        self.initialized = true;
    }

    /// Whether the service is initialized.
    pub fn is_initialized(&self) -> (r: bool)
        ensures
            r == self@.initialized,
    {
        self.initialized
    }

    /// Registers a hotkey (see [`CrossPlatformHotkeyManager::register_hotkey`]).
    pub fn register_hotkey(&mut self, hotkey: &Hotkey, platform_id: Option<u32>) -> (r: Result<(), HotkeyError>)
        ensures
            final(self)@ == (ServiceState { hotkeys: final(self)@.hotkeys, ..old(self)@ }),
            !old(self)@.hotkeys.1 ==> (r matches Err(HotkeyError::NotInitialized)) && final(self)@.hotkeys
                == old(self)@.hotkeys,
            old(self)@.hotkeys.1 && crate::hotkeys::parsed_combination(hotkey.key_combination@) is Err ==> r is Err
                && final(self)@.hotkeys == old(self)@.hotkeys,
            old(self)@.hotkeys.1 && crate::hotkeys::parsed_combination(hotkey.key_combination@) is Ok ==> r is Ok
                && final(self)@.hotkeys == (
                crate::hotkeys::registered(
                    old(self)@.hotkeys.0,
                    RegistrationModel {
                        id: hotkey.id@,
                        key_combination: hotkey.key_combination@,
                        action: hotkey.action@,
                        description: hotkey.description@,
                        is_active: true,
                        platform_id,
                    },
                ),
                true,
            ),
    {
        self.hotkey_manager.register_hotkey(hotkey, platform_id)
    }

    /// Registers the default hotkeys (see
    /// [`CrossPlatformHotkeyManager::register_default_hotkeys`]).
    pub fn register_default_hotkeys(&mut self, platform_id: Option<u32>) -> (r: Result<(), HotkeyError>)
        ensures
            final(self)@ == (ServiceState { hotkeys: final(self)@.hotkeys, ..old(self)@ }),
            !old(self)@.hotkeys.1 ==> (r matches Err(HotkeyError::NotInitialized)) && final(self)@.hotkeys
                == old(self)@.hotkeys,
            old(self)@.hotkeys.1 ==> final(self)@.hotkeys == (
            crate::hotkeys::defaults_registered(old(self)@.hotkeys.0, platform_id, 3).0,
            true,
            ) && (r is Ok <==> crate::hotkeys::defaults_registered(old(self)@.hotkeys.0, platform_id, 3).1),
    {
        self.hotkey_manager.register_default_hotkeys(platform_id)
    }

    /// Unregisters a hotkey; the registration removed, if any.
    pub fn unregister_hotkey(&mut self, hotkey_id: &str) -> (r: Option<HotkeyRegistration>)
        ensures
            final(self)@ == (ServiceState {
                hotkeys: (crate::hotkeys::without_hotkey(old(self)@.hotkeys.0, hotkey_id@), old(self)@.hotkeys.1),
                ..old(self)@
            }),
    {
        self.hotkey_manager.unregister_hotkey(hotkey_id)
    }

    /// Unregisters every hotkey; the registrations removed.
    pub fn unregister_all_hotkeys(&mut self) -> (r: Vec<HotkeyRegistration>)
        ensures
            final(self)@ == (ServiceState {
                hotkeys: (Seq::<RegistrationModel>::empty(), old(self)@.hotkeys.1),
                ..old(self)@
            }),
            crate::hotkeys::registrations_view(r@) == old(self)@.hotkeys.0,
    {
        self.hotkey_manager.unregister_all()
    }

    /// Copies of the hotkey registrations.
    pub fn get_registered_hotkeys(&self) -> (r: Vec<HotkeyRegistration>)
        ensures
            crate::hotkeys::registrations_view(r@) == self@.hotkeys.0,
    {
        self.hotkey_manager.get_registered_hotkeys()
    }

    /// Shows a notification (see
    /// [`CrossPlatformNotificationManager::show_notification`]).
    pub fn show_notification(&mut self, config: &NotificationConfig) -> (r: Result<String, IntegrationError>)
        ensures
            final(self)@ == (ServiceState { notifier: final(self)@.notifier, ..old(self)@ }),
            !old(self)@.notifier.initialized ==> r == Err::<String, IntegrationError>(
                IntegrationError::NotInitialized,
            ) && final(self)@.notifier == old(self)@.notifier,
            old(self)@.notifier.initialized ==> exists|id: Seq<char>, now: i64|
                (r matches Ok(x) && x@ == id) && final(self)@.notifier == (NotifierState {
                    log: logged(old(self)@.notifier.log, #[trigger] shown_notice(id, config@, now)),
                    ..old(self)@.notifier
                }),
    {
        self.notification_manager.show_notification(config)
    }

    /// Shows a notification with the application's title and a message.
    pub fn show_simple_notification(&mut self, message: String) -> (r: Result<String, IntegrationError>)
        ensures
            final(self)@ == (ServiceState { notifier: final(self)@.notifier, ..old(self)@ }),
            !old(self)@.notifier.initialized ==> r == Err::<String, IntegrationError>(
                IntegrationError::NotInitialized,
            ) && final(self)@.notifier == old(self)@.notifier,
            old(self)@.notifier.initialized ==> exists|id: Seq<char>, now: i64|
                (r matches Ok(x) && x@ == id) && final(self)@.notifier == (NotifierState {
                    log: logged(
                        old(self)@.notifier.log,
                        #[trigger] shown_notice(id, plain_config("Web Page Manager"@, message@), now),
                    ),
                    ..old(self)@.notifier
                }),
    {
        self.notification_manager.show_simple(message)
    }

    /// Shows a notification with a title and a message.
    pub fn show_notification_with_title(&mut self, title: String, message: String) -> (r: Result<
        String,
        IntegrationError,
    >)
        ensures
            final(self)@ == (ServiceState { notifier: final(self)@.notifier, ..old(self)@ }),
            !old(self)@.notifier.initialized ==> r == Err::<String, IntegrationError>(
                IntegrationError::NotInitialized,
            ) && final(self)@.notifier == old(self)@.notifier,
            old(self)@.notifier.initialized ==> exists|id: Seq<char>, now: i64|
                (r matches Ok(x) && x@ == id) && final(self)@.notifier == (NotifierState {
                    log: logged(
                        old(self)@.notifier.log,
                        #[trigger] shown_notice(id, plain_config(title@, message@), now),
                    ),
                    ..old(self)@.notifier
                }),
    {
        self.notification_manager.show_with_title(title, message)
    }

    /// The notification of new tabs in a browser, now, with a fresh id.
    pub fn notify_tab_activity(&mut self, browser_name: &str, tab_count: usize) -> (r: Result<String, IntegrationError>)
        ensures
            final(self)@ == (ServiceState { notifier: final(self)@.notifier, ..old(self)@ }),
            !old(self)@.notifier.initialized ==> r == Err::<String, IntegrationError>(
                IntegrationError::NotInitialized,
            ) && final(self)@.notifier == old(self)@.notifier,
            old(self)@.notifier.initialized ==> exists|id: Seq<char>, now: i64|
                (r matches Ok(x) && x@ == id) && final(self)@.notifier == (NotifierState {
                    log: logged(old(self)@.notifier.log, #[trigger] shown_notice(id, tab_activity_config(old(self)@.notifier.app_icon, browser_name@, tab_count as nat), now)),
                    ..old(self)@.notifier
                }),
    {
        self.notification_manager.show_tab_activity(browser_name, tab_count)
    }

    /// The notification that bookmarks were synchronized, now, with a fresh id.
    pub fn notify_bookmark_sync(&mut self, synced_count: usize) -> (r: Result<String, IntegrationError>)
        ensures
            final(self)@ == (ServiceState { notifier: final(self)@.notifier, ..old(self)@ }),
            !old(self)@.notifier.initialized ==> r == Err::<String, IntegrationError>(
                IntegrationError::NotInitialized,
            ) && final(self)@.notifier == old(self)@.notifier,
            old(self)@.notifier.initialized ==> exists|id: Seq<char>, now: i64|
                (r matches Ok(x) && x@ == id) && final(self)@.notifier == (NotifierState {
                    log: logged(old(self)@.notifier.log, #[trigger] shown_notice(id, bookmark_sync_config(old(self)@.notifier.app_icon, synced_count as nat), now)),
                    ..old(self)@.notifier
                }),
    {
        self.notification_manager.show_bookmark_sync(synced_count)
    }

    /// The notification that pages were analysed, now, with a fresh id.
    pub fn notify_analysis_complete(&mut self, analyzed_count: usize) -> (r: Result<String, IntegrationError>)
        ensures
            final(self)@ == (ServiceState { notifier: final(self)@.notifier, ..old(self)@ }),
            !old(self)@.notifier.initialized ==> r == Err::<String, IntegrationError>(
                IntegrationError::NotInitialized,
            ) && final(self)@.notifier == old(self)@.notifier,
            old(self)@.notifier.initialized ==> exists|id: Seq<char>, now: i64|
                (r matches Ok(x) && x@ == id) && final(self)@.notifier == (NotifierState {
                    log: logged(old(self)@.notifier.log, #[trigger] shown_notice(id, analysis_config(old(self)@.notifier.app_icon, analyzed_count as nat), now)),
                    ..old(self)@.notifier
                }),
    {
        self.notification_manager.show_analysis_complete(analyzed_count)
    }

    /// The notification that duplicate bookmarks were found, now, with a fresh id.
    pub fn notify_duplicates_found(&mut self, duplicate_count: usize) -> (r: Result<String, IntegrationError>)
        ensures
            final(self)@ == (ServiceState { notifier: final(self)@.notifier, ..old(self)@ }),
            !old(self)@.notifier.initialized ==> r == Err::<String, IntegrationError>(
                IntegrationError::NotInitialized,
            ) && final(self)@.notifier == old(self)@.notifier,
            old(self)@.notifier.initialized ==> exists|id: Seq<char>, now: i64|
                (r matches Ok(x) && x@ == id) && final(self)@.notifier == (NotifierState {
                    log: logged(old(self)@.notifier.log, #[trigger] shown_notice(id, duplicates_config(old(self)@.notifier.app_icon, duplicate_count as nat), now)),
                    ..old(self)@.notifier
                }),
    {
        self.notification_manager.show_duplicates_found(duplicate_count)
    }

    /// Shows the tray icon: refused before the tray is initialized.
    pub fn show_tray(&self) -> (r: Result<(), IntegrationError>)
        ensures
            r is Ok <==> self@.tray.initialized,
    {
        self.tray_manager.show()
    }

    /// Hides the tray icon.
    pub fn hide_tray(&self) -> (r: Result<(), IntegrationError>)
        ensures
            r is Ok,
    {
        self.tray_manager.hide_icon()
    }

    /// Replaces the tray tooltip.
    pub fn set_tray_tooltip(&mut self, tooltip: String)
        ensures
            final(self)@ == (ServiceState { tray: TrayState { tooltip: tooltip@, ..old(self)@.tray }, ..old(self)@ }),
    {
        self.tray_manager.set_tooltip(tooltip)
    }

    /// Shows a count of new activities in the tray tooltip.
    pub fn set_tray_badge(&mut self, count: usize)
        ensures
            final(self)@ == (ServiceState {
                tray: TrayState { tooltip: badge_tooltip(old(self)@.tray.app_name, count as nat), ..old(self)@.tray },
                ..old(self)@
            }),
    {
        self.tray_manager.set_activity_badge(count)
    }

    /// Replaces the tray menu.
    pub fn set_tray_menu(&mut self, items: Vec<TrayMenuItem>)
        ensures
            final(self)@ == (ServiceState { tray: TrayState { menu: items@, ..old(self)@.tray }, ..old(self)@ }),
    {
        self.tray_manager.set_menu(items)
    }

    /// Shuts hotkeys, notifications and the tray down.
    pub fn shutdown(&mut self)
        ensures
            !final(self)@.initialized,
            final(self)@.hotkeys == (Seq::<RegistrationModel>::empty(), false),
            final(self)@.notifier == (NotifierState { initialized: false, ..old(self)@.notifier }),
            final(self)@.tray == (TrayState { initialized: false, ..old(self)@.tray }),
    {
        self.hotkey_manager.shutdown();
        self.notification_manager.shutdown();
        self.tray_manager.shutdown();
        self.initialized = false;
    }

    /// The hotkey manager.
    pub fn hotkey_manager(&self) -> (r: &CrossPlatformHotkeyManager)
        ensures
            r@ == self@.hotkeys,
    {
        &self.hotkey_manager
    }

    /// The notification manager.
    pub fn notification_manager(&self) -> (r: &CrossPlatformNotificationManager)
        ensures
            r@ == self@.notifier,
    {
        &self.notification_manager
    }

    /// The tray manager.
    pub fn tray_manager(&self) -> (r: &CrossPlatformTrayManager)
        ensures
            r@ == self@.tray,
    {
        &self.tray_manager
    }
}

impl Default for CrossPlatformNotificationManager {
    fn default() -> (r: Self)
        ensures
            r@ == (NotifierState { app_name: "Web Page Manager"@, app_icon: None, initialized: false, log: seq![] }),
    {
        Self::new("Web Page Manager".to_string())
    }
}

impl Default for CrossPlatformTrayManager {
    fn default() -> (r: Self)
        ensures
            r@ == (TrayState {
                app_name: "Web Page Manager"@,
                tooltip: idle_tooltip("Web Page Manager"@),
                icon_path: None,
                menu: seq![],
                initialized: false,
            }),
    {
        Self::new("Web Page Manager".to_string())
    }
}

impl Default for SystemIntegrationService {
    fn default() -> (r: Self)
        ensures
            r@.hotkeys == (Seq::<RegistrationModel>::empty(), false),
            r@.notifier.app_name == "Web Page Manager"@,
            r@.tray.app_name == "Web Page Manager"@,
            !r@.initialized,
    {
        Self::new("Web Page Manager".to_string())
    }
}

} // verus!
