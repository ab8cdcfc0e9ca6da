//! The data that the library manages: tabs, bookmarks and unified pages.
//!
//! Times are milliseconds since the Unix epoch; page identifiers are the
//! 128-bit values of UUIDs; tab, bookmark, history and archive identifiers are
//! strings.

use vstd::prelude::*;
use crate::text::{copy_opt_string, copy_string, copy_strings, opt_view, strings_view};

verus! {

/// The browser that a tab or bookmark belongs to.
#[derive(Clone, Copy, Debug, PartialEq, Eq, Hash, Structural)]
pub enum BrowserType {
    Chrome,
    Firefox,
    Edge,
    Safari,
}

/// An open browser tab.
#[derive(Clone, Debug)]
pub struct TabInfo {
    pub id: String,
    pub url: String,
    pub title: String,
    pub favicon_url: Option<String>,
    pub browser_type: BrowserType,
    pub is_private: bool,
    pub created_at: i64,
    pub last_accessed: i64,
}

/// The mathematical value of a [`TabInfo`].
pub ghost struct TabModel {
    pub id: Seq<char>,
    pub url: Seq<char>,
    pub title: Seq<char>,
    pub favicon_url: Option<Seq<char>>,
    pub browser_type: BrowserType,
    pub is_private: bool,
    pub created_at: i64,
    pub last_accessed: i64,
}

impl View for TabInfo {
    type V = TabModel;

    open spec fn view(&self) -> TabModel {
        TabModel {
            id: self.id@,
            url: self.url@,
            title: self.title@,
            favicon_url: opt_view(self.favicon_url),
            browser_type: self.browser_type,
            is_private: self.is_private,
            created_at: self.created_at,
            last_accessed: self.last_accessed,
        }
    }
}

impl TabInfo {
    /// A copy of this tab.
    pub fn duplicate(&self) -> (r: TabInfo)
        ensures
            r@ == self@,
    {
        TabInfo {
            id: copy_string(&self.id),
            url: copy_string(&self.url),
            title: copy_string(&self.title),
            favicon_url: copy_opt_string(&self.favicon_url),
            browser_type: self.browser_type,
            is_private: self.is_private,
            created_at: self.created_at,
            last_accessed: self.last_accessed,
        }
    }
}

/// A browser bookmark.
#[derive(Clone, Debug)]
pub struct BookmarkInfo {
    pub id: String,
    pub url: String,
    pub title: String,
    pub favicon_url: Option<String>,
    pub browser_type: BrowserType,
    pub folder_path: Vec<String>,
    pub created_at: i64,
    pub last_accessed: Option<i64>,
}

/// The mathematical value of a [`BookmarkInfo`].
pub ghost struct BookmarkModel {
    pub id: Seq<char>,
    pub url: Seq<char>,
    pub title: Seq<char>,
    pub favicon_url: Option<Seq<char>>,
    pub browser_type: BrowserType,
    pub folder_path: Seq<Seq<char>>,
    pub created_at: i64,
    pub last_accessed: Option<i64>,
}

impl View for BookmarkInfo {
    type V = BookmarkModel;

    open spec fn view(&self) -> BookmarkModel {
        BookmarkModel {
            id: self.id@,
            url: self.url@,
            title: self.title@,
            favicon_url: opt_view(self.favicon_url),
            browser_type: self.browser_type,
            folder_path: strings_view(self.folder_path@),
            created_at: self.created_at,
            last_accessed: self.last_accessed,
        }
    }
}

impl BookmarkInfo {
    /// A copy of this bookmark.
    pub fn duplicate(&self) -> (r: BookmarkInfo)
        ensures
            r@ == self@,
    {
        BookmarkInfo {
            id: copy_string(&self.id),
            url: copy_string(&self.url),
            title: copy_string(&self.title),
            favicon_url: copy_opt_string(&self.favicon_url),
            browser_type: self.browser_type,
            folder_path: copy_strings(&self.folder_path),
            created_at: self.created_at,
            last_accessed: self.last_accessed,
        }
    }
}

/// An analysed summary of a page's content.
#[derive(Clone, Debug)]
pub struct ContentSummary {
    pub summary_text: String,
    pub key_points: Vec<String>,
}

/// The mathematical value of a [`ContentSummary`].
pub ghost struct SummaryModel {
    pub summary_text: Seq<char>,
    pub key_points: Seq<Seq<char>>,
}

impl View for ContentSummary {
    type V = SummaryModel;

    open spec fn view(&self) -> SummaryModel {
        SummaryModel {
            summary_text: self.summary_text@,
            key_points: strings_view(self.key_points@),
        }
    }
}

impl ContentSummary {
    /// A copy of this summary.
    pub fn duplicate(&self) -> (r: ContentSummary)
        ensures
            r@ == self@,
    {
        ContentSummary {
            summary_text: copy_string(&self.summary_text),
            key_points: copy_strings(&self.key_points),
        }
    }
}

/// Where a unified page came from.
#[derive(Clone, Debug)]
pub enum PageSourceType {
    ActiveTab { browser: BrowserType, tab_id: String },
    Bookmark { browser: BrowserType, bookmark_id: String },
    ClosedTab { history_id: String },
    ArchivedContent { archive_id: String },
}

/// The mathematical value of a [`PageSourceType`].
pub ghost enum SourceModel {
    ActiveTab { browser: BrowserType, tab_id: Seq<char> },
    Bookmark { browser: BrowserType, bookmark_id: Seq<char> },
    ClosedTab { history_id: Seq<char> },
    ArchivedContent { archive_id: Seq<char> },
}

impl View for PageSourceType {
    type V = SourceModel;

    open spec fn view(&self) -> SourceModel {
        match self {
            PageSourceType::ActiveTab { browser, tab_id } => SourceModel::ActiveTab {
                browser: *browser,
                tab_id: tab_id@,
            },
            PageSourceType::Bookmark { browser, bookmark_id } => SourceModel::Bookmark {
                browser: *browser,
                bookmark_id: bookmark_id@,
            },
            PageSourceType::ClosedTab { history_id } => SourceModel::ClosedTab {
                history_id: history_id@,
            },
            PageSourceType::ArchivedContent { archive_id } => SourceModel::ArchivedContent {
                archive_id: archive_id@,
            },
        }
    }
}

impl PageSourceType {
    /// A copy of this source.
    pub fn duplicate(&self) -> (r: PageSourceType)
        ensures
            r@ == self@,
    {
        match self {
            PageSourceType::ActiveTab { browser, tab_id } => PageSourceType::ActiveTab {
                browser: *browser,
                tab_id: copy_string(tab_id),
            },
            PageSourceType::Bookmark { browser, bookmark_id } => PageSourceType::Bookmark {
                browser: *browser,
                bookmark_id: copy_string(bookmark_id),
            },
            PageSourceType::ClosedTab { history_id } => PageSourceType::ClosedTab {
                history_id: copy_string(history_id),
            },
            PageSourceType::ArchivedContent { archive_id } => PageSourceType::ArchivedContent {
                archive_id: copy_string(archive_id),
            },
        }
    }
}

/// A running browser instance.
#[derive(Clone, Debug)]
pub struct BrowserInstance {
    pub browser_type: BrowserType,
    pub version: String,
    pub process_id: u32,
    pub debug_port: Option<u16>,
    pub profile_path: Option<String>,
}

/// The mathematical value of a [`BrowserInstance`].
pub ghost struct InstanceModel {
    pub browser_type: BrowserType,
    pub version: Seq<char>,
    pub process_id: u32,
    pub debug_port: Option<u16>,
    pub profile_path: Option<Seq<char>>,
}

impl View for BrowserInstance {
    type V = InstanceModel;

    open spec fn view(&self) -> InstanceModel {
        InstanceModel {
            browser_type: self.browser_type,
            version: self.version@,
            process_id: self.process_id,
            debug_port: self.debug_port,
            profile_path: opt_view(self.profile_path),
        }
    }
}

impl BrowserInstance {
    /// The instance record that a unified page keeps of a browser: the
    /// browser's type and nothing else known.
    pub fn of_type(browser_type: BrowserType) -> (r: BrowserInstance)
        ensures
            r@ == instance_of_type(browser_type),
    {
        BrowserInstance {
            browser_type,
            version: String::new(),
            process_id: 0,
            debug_port: None,
            profile_path: None,
        }
    }

    /// A copy of this instance.
    pub fn duplicate(&self) -> (r: BrowserInstance)
        ensures
            r@ == self@,
    {
        BrowserInstance {
            browser_type: self.browser_type,
            version: copy_string(&self.version),
            process_id: self.process_id,
            debug_port: self.debug_port,
            profile_path: copy_opt_string(&self.profile_path),
        }
    }
}

/// The instance record of a browser of which only the type is known.
pub open spec fn instance_of_type(b: BrowserType) -> InstanceModel {
    InstanceModel {
        browser_type: b,
        version: seq![],
        process_id: 0,
        debug_port: None,
        profile_path: None,
    }
}

/// A page as the library sees it: the merge of a tab, a bookmark and the
/// results of analysing the page.
#[derive(Clone, Debug)]
pub struct UnifiedPageInfo {
    pub id: u128,
    pub url: String,
    pub title: String,
    pub favicon_url: Option<String>,
    pub content_summary: Option<ContentSummary>,
    pub keywords: Vec<String>,
    pub category: Option<String>,
    pub source_type: PageSourceType,
    pub browser_info: Option<BrowserInstance>,
    pub tab_info: Option<TabInfo>,
    pub bookmark_info: Option<BookmarkInfo>,
    pub created_at: i64,
    pub last_accessed: i64,
    pub access_count: u64,
}

/// The mathematical value of a [`UnifiedPageInfo`].
pub ghost struct PageModel {
    pub id: u128,
    pub url: Seq<char>,
    pub title: Seq<char>,
    pub favicon_url: Option<Seq<char>>,
    pub content_summary: Option<SummaryModel>,
    pub keywords: Seq<Seq<char>>,
    pub category: Option<Seq<char>>,
    pub source_type: SourceModel,
    pub browser_info: Option<InstanceModel>,
    pub tab_info: Option<TabModel>,
    pub bookmark_info: Option<BookmarkModel>,
    pub created_at: i64,
    pub last_accessed: i64,
    pub access_count: u64,
}

/// The view of an optional value.
pub open spec fn opt_model<T: View>(o: Option<T>) -> Option<T::V> {
    match o {
        Some(x) => Some(x@),
        None => None,
    }
}

impl View for UnifiedPageInfo {
    type V = PageModel;

    open spec fn view(&self) -> PageModel {
        PageModel {
            id: self.id,
            url: self.url@,
            title: self.title@,
            favicon_url: opt_view(self.favicon_url),
            content_summary: opt_model(self.content_summary),
            keywords: strings_view(self.keywords@),
            category: opt_view(self.category),
            source_type: self.source_type@,
            browser_info: opt_model(self.browser_info),
            tab_info: opt_model(self.tab_info),
            bookmark_info: opt_model(self.bookmark_info),
            created_at: self.created_at,
            last_accessed: self.last_accessed,
            access_count: self.access_count,
        }
    }
}

/// A copy of an optional summary.
pub fn copy_opt_summary(s: &Option<ContentSummary>) -> (r: Option<ContentSummary>)
    ensures
        opt_model(r) == opt_model(*s),
{
    match s {
        Some(x) => Some(x.duplicate()),
        None => None,
    }
}

/// A copy of an optional tab.
pub fn copy_opt_tab(s: &Option<TabInfo>) -> (r: Option<TabInfo>)
    ensures
        opt_model(r) == opt_model(*s),
{
    match s {
        Some(x) => Some(x.duplicate()),
        None => None,
    }
}

/// A copy of an optional bookmark.
pub fn copy_opt_bookmark(s: &Option<BookmarkInfo>) -> (r: Option<BookmarkInfo>)
    ensures
        opt_model(r) == opt_model(*s),
{
    match s {
        Some(x) => Some(x.duplicate()),
        None => None,
    }
}

impl UnifiedPageInfo {
    /// A copy of this page.
    pub fn duplicate(&self) -> (r: UnifiedPageInfo)
        ensures
            r@ == self@,
    {
        UnifiedPageInfo {
            id: self.id,
            url: copy_string(&self.url),
            title: copy_string(&self.title),
            favicon_url: copy_opt_string(&self.favicon_url),
            content_summary: copy_opt_summary(&self.content_summary),
            keywords: copy_strings(&self.keywords),
            category: copy_opt_string(&self.category),
            source_type: self.source_type.duplicate(),
            browser_info: match &self.browser_info {
                Some(b) => Some(b.duplicate()),
                None => None,
            },
            tab_info: copy_opt_tab(&self.tab_info),
            bookmark_info: copy_opt_bookmark(&self.bookmark_info),
            created_at: self.created_at,
            last_accessed: self.last_accessed,
            access_count: self.access_count,
        }
    }
}

/// A page's archived content.
#[derive(Clone, Debug)]
pub struct ContentArchive {
    pub id: u128,
    pub page_id: u128,
    pub url: String,
    pub title: String,
    pub content_html: String,
    pub content_text: String,
    pub media_files: Vec<String>,
    pub archived_at: i64,
    pub file_size: u64,
    pub checksum: Option<String>,
}

impl ContentArchive {
    /// A copy of this archive.
    pub fn duplicate(&self) -> (r: ContentArchive)
        ensures
            r.id == self.id,
            r.page_id == self.page_id,
            r.url@ == self.url@,
            r.title@ == self.title@,
            r.content_html@ == self.content_html@,
            r.content_text@ == self.content_text@,
            strings_view(r.media_files@) == strings_view(self.media_files@),
            r.archived_at == self.archived_at,
            r.file_size == self.file_size,
            opt_view(r.checksum) == opt_view(self.checksum),
    {
        ContentArchive {
            id: self.id,
            page_id: self.page_id,
            url: copy_string(&self.url),
            title: copy_string(&self.title),
            content_html: copy_string(&self.content_html),
            content_text: copy_string(&self.content_text),
            media_files: copy_strings(&self.media_files),
            archived_at: self.archived_at,
            file_size: self.file_size,
            checksum: copy_opt_string(&self.checksum),
        }
    }
}

} // verus!
