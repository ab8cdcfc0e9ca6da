//! Unified management of browser tabs, bookmarks, closed-tab history,
//! archived page content and search over all of them.

pub mod text;
pub mod sort;
pub mod digest;
pub mod model;
pub mod platform;
pub mod matcher;
pub mod sync;
pub mod unified_manager;
pub mod change_detector;
pub mod html;
pub mod content_archiver;
pub mod history;
pub mod search;
pub mod remote_controller;
pub mod hotkeys;
pub mod performance;
pub mod page_results;
pub mod system_integration;
pub mod flutter_ui;
pub mod ui_factory;
pub mod native_ui;
