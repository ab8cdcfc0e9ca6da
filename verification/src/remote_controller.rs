//! Remote control of browser tabs: the record of each close, activation or
//! creation, the bounded history of operations, statistics, and the
//! decisions of undoing an operation. The browser itself is driven by the
//! caller, which hands each outcome back.

use vstd::prelude::*;
use crate::model::{BrowserType, TabInfo};
use crate::text::{copy_opt_string, copy_string, opt_view, string_from_chars};

verus! {

/// Settings of a [`RemoteTabController`].
#[derive(Clone, Copy, Debug)]
pub struct RemoteTabControllerConfig {
    /// The most operations kept in the history.
    pub max_history_size: usize,
    pub verify_operations: bool,
    pub verification_timeout_ms: u64,
    /// Whether operations are kept for undoing.
    pub enable_undo: bool,
    pub max_retry_attempts: u32,
}

/// The default size of the operation history.
pub const DEFAULT_MAX_HISTORY_SIZE: usize = 100;

impl Default for RemoteTabControllerConfig {
    fn default() -> (r: Self)
        ensures
            r.max_history_size == 100,
            r.verify_operations,
            r.verification_timeout_ms == 5000,
            r.enable_undo,
            r.max_retry_attempts == 2,
    {
        RemoteTabControllerConfig {
            max_history_size: DEFAULT_MAX_HISTORY_SIZE,
            verify_operations: true,
            verification_timeout_ms: 5000,
            enable_undo: true,
            max_retry_attempts: 2,
        }
    }
}

/// What an operation does to a tab.
#[derive(Clone, Copy, Debug, PartialEq, Eq, Hash, Structural)]
pub enum TabOperationType {
    Close,
    Activate,
    Create,
}

impl TabOperationType {
    /// The operation's name.
    pub fn name(&self) -> (r: &'static str)
        ensures
            r@ == match *self {
                TabOperationType::Close => "Close"@,
                TabOperationType::Activate => "Activate"@,
                TabOperationType::Create => "Create"@,
            },
    {
        match self {
            TabOperationType::Close => "Close",
            TabOperationType::Activate => "Activate",
            TabOperationType::Create => "Create",
        }
    }
}

/// How an operation ended.
#[derive(Clone, Debug, PartialEq, Eq)]
pub enum OperationStatus {
    Success,
    Failed(String),
    PendingVerification,
    RolledBack,
}

/// The mathematical value of an [`OperationStatus`].
pub ghost enum StatusModel {
    Success,
    Failed(Seq<char>),
    PendingVerification,
    RolledBack,
}

impl View for OperationStatus {
    type V = StatusModel;

    open spec fn view(&self) -> StatusModel {
        match self {
            OperationStatus::Success => StatusModel::Success,
            OperationStatus::Failed(e) => StatusModel::Failed(e@),
            OperationStatus::PendingVerification => StatusModel::PendingVerification,
            OperationStatus::RolledBack => StatusModel::RolledBack,
        }
    }
}

impl OperationStatus {
    /// Whether the operation succeeded.
    pub fn is_success(&self) -> (r: bool)
        ensures
            r == (self@ is Success),
    {
        match self {
            OperationStatus::Success => true,
            _ => false,
        }
    }

    /// Whether the operation failed.
    pub fn is_failed(&self) -> (r: bool)
        ensures
            r == (self@ is Failed),
    {
        match self {
            OperationStatus::Failed(_) => true,
            _ => false,
        }
    }

    /// A copy of this status.
    pub fn duplicate(&self) -> (r: OperationStatus)
        ensures
            r@ == self@,
    {
        match self {
            OperationStatus::Success => OperationStatus::Success,
            OperationStatus::Failed(e) => OperationStatus::Failed(copy_string(e)),
            OperationStatus::PendingVerification => OperationStatus::PendingVerification,
            OperationStatus::RolledBack => OperationStatus::RolledBack,
        }
    }
}

/// The record of one operation.
#[derive(Clone, Debug)]
pub struct TabOperationRecord {
    pub id: u128,
    pub operation_type: TabOperationType,
    pub browser_type: BrowserType,
    pub tab_id: String,
    pub url: Option<String>,
    pub title: Option<String>,
    pub status: OperationStatus,
    pub executed_at: i64,
    pub undoable: bool,
    /// The operation that this one undoes.
    pub related_operation_id: Option<u128>,
}

/// The mathematical value of a [`TabOperationRecord`].
pub ghost struct RecordModel {
    pub id: u128,
    pub op: TabOperationType,
    pub browser: BrowserType,
    pub tab_id: Seq<char>,
    pub url: Option<Seq<char>>,
    pub title: Option<Seq<char>>,
    pub status: StatusModel,
    pub executed_at: i64,
    pub undoable: bool,
    pub related: Option<u128>,
}

impl View for TabOperationRecord {
    type V = RecordModel;

    open spec fn view(&self) -> RecordModel {
        RecordModel {
            id: self.id,
            op: self.operation_type,
            browser: self.browser_type,
            tab_id: self.tab_id@,
            url: opt_view(self.url),
            title: opt_view(self.title),
            status: self.status@,
            executed_at: self.executed_at,
            undoable: self.undoable,
            related: self.related_operation_id,
        }
    }
}

/// The views of records.
pub open spec fn records_view(v: Seq<TabOperationRecord>) -> Seq<RecordModel> {
    v.map_values(|r: TabOperationRecord| r@)
}

/// A new record, awaiting verification: closes and creations can be undone.
pub open spec fn new_record(
    op: TabOperationType,
    browser: BrowserType,
    tab_id: Seq<char>,
    url: Option<Seq<char>>,
    title: Option<Seq<char>>,
    id: u128,
    now: i64,
) -> RecordModel {
    RecordModel {
        id,
        op,
        browser,
        tab_id,
        url,
        title,
        status: StatusModel::PendingVerification,
        executed_at: now,
        undoable: op == TabOperationType::Close || op == TabOperationType::Create,
        related: None,
    }
}

impl TabOperationRecord {
    /// A new record named `id`, made at `now`.
    pub fn new_at(
        operation_type: TabOperationType,
        browser_type: BrowserType,
        tab_id: String,
        url: Option<String>,
        title: Option<String>,
        id: u128,
        now: i64,
    ) -> (r: Self)
        ensures
            r@ == new_record(operation_type, browser_type, tab_id@, opt_view(url), opt_view(title), id, now),
    {
        let undoable = match operation_type {
            TabOperationType::Close | TabOperationType::Create => true,
            TabOperationType::Activate => false,
        };
        TabOperationRecord {
            id,
            operation_type,
            browser_type,
            tab_id,
            url,
            title,
            status: OperationStatus::PendingVerification,
            executed_at: now,
            undoable,
            related_operation_id: None,
        }
    }

    /// A new record, named and made now.
    pub fn new(
        operation_type: TabOperationType,
        browser_type: BrowserType,
        tab_id: String,
        url: Option<String>,
        title: Option<String>,
    ) -> (r: Self)
        ensures
            exists|id: u128, now: i64|
                r@ == #[trigger] new_record(
                    operation_type,
                    browser_type,
                    tab_id@,
                    opt_view(url),
                    opt_view(title),
                    id,
                    now,
                ),
    {
        let id = crate::platform::new_uuid();
        let now = crate::platform::now_millis();
        Self::new_at(operation_type, browser_type, tab_id, url, title, id, now)
    }

    /// Marks the operation as successful.
    pub fn mark_success(&mut self)
        ensures
            final(self)@ == (RecordModel { status: StatusModel::Success, ..old(self)@ }),
    {
        self.status = OperationStatus::Success;
    }

    /// Marks the operation as failed.
    pub fn mark_failed(&mut self, error: String)
        ensures
            final(self)@ == (RecordModel { status: StatusModel::Failed(error@), ..old(self)@ }),
    {
        self.status = OperationStatus::Failed(error);
    }

    /// Marks the operation as rolled back; it can no longer be undone.
    pub fn mark_rolled_back(&mut self)
        ensures
            final(self)@ == (RecordModel {
                status: StatusModel::RolledBack,
                undoable: false,
                ..old(self)@
            }),
    {
        self.status = OperationStatus::RolledBack;
        self.undoable = false;
    }

    /// A copy of this record.
    pub fn duplicate(&self) -> (r: TabOperationRecord)
        ensures
            r@ == self@,
    {
        TabOperationRecord {
            id: self.id,
            operation_type: self.operation_type,
            browser_type: self.browser_type,
            tab_id: copy_string(&self.tab_id),
            url: copy_opt_string(&self.url),
            title: copy_opt_string(&self.title),
            status: self.status.duplicate(),
            executed_at: self.executed_at,
            undoable: self.undoable,
            related_operation_id: self.related_operation_id,
        }
    }
}

/// The outcome of an operation.
#[derive(Clone, Debug)]
pub struct TabOperationResult {
    pub record: TabOperationRecord,
    /// The tab that a creation made.
    pub new_tab_id: Option<String>,
    pub verified: bool,
}

impl TabOperationResult {
    /// Whether the operation succeeded.
    pub fn is_success(&self) -> (r: bool)
        ensures
            r == (self.record@.status is Success),
    {
        self.record.status.is_success()
    }

    /// The error of a failed operation.
    pub fn error_message(&self) -> (r: Option<&str>)
        ensures
            match self.record@.status {
                StatusModel::Failed(e) => r matches Some(m) && m@ == e,
                _ => r is None,
            },
    {
        match &self.record.status {
            OperationStatus::Failed(msg) => Some(msg.as_str()),
            _ => None,
        }
    }
}

/// How many operations of a kind were recorded.
#[derive(Clone, Copy, Debug)]
pub struct TypeCount {
    pub operation_type: TabOperationType,
    pub count: usize,
}

/// How many operations in a browser were recorded.
#[derive(Clone, Copy, Debug)]
pub struct BrowserOperationCount {
    pub browser_type: BrowserType,
    pub count: usize,
}

/// Counts of the operations recorded.
#[derive(Clone, Debug)]
pub struct RemoteControllerStats {
    pub total_operations: usize,
    pub successful_operations: usize,
    pub failed_operations: usize,
    /// Per kind, in order of the kind's first operation.
    pub operations_by_type: Vec<TypeCount>,
    /// Per browser, in order of the browser's first operation.
    pub operations_by_browser: Vec<BrowserOperationCount>,
    pub undo_operations: usize,
    pub history_size: usize,
}

/// The counter after one more, saturating.
pub open spec fn bumped(n: usize) -> usize {
    if n < usize::MAX {
        (n + 1) as usize
    } else {
        n
    }
}

/// One more.
fn bump(n: usize) -> (r: usize)
    ensures
        r == bumped(n),
{
    if n < usize::MAX {
        n + 1
    } else {
        n
    }
}

/// The per-kind counts after one more operation of kind `t`.
pub open spec fn types_bumped(v: Seq<TypeCount>, t: TabOperationType) -> Seq<TypeCount> {
    if exists|k: int| 0 <= k < v.len() && (#[trigger] v[k]).operation_type == t {
        let k = choose|k: int| 0 <= k < v.len() && (#[trigger] v[k]).operation_type == t;
        v.update(k, TypeCount { operation_type: t, count: bumped(v[k].count) })
    } else {
        v.push(TypeCount { operation_type: t, count: 1 })
    }
}

/// The per-browser counts after one more operation in browser `b`.
pub open spec fn browsers_bumped(v: Seq<BrowserOperationCount>, b: BrowserType) -> Seq<BrowserOperationCount> {
    if exists|k: int| 0 <= k < v.len() && (#[trigger] v[k]).browser_type == b {
        let k = choose|k: int| 0 <= k < v.len() && (#[trigger] v[k]).browser_type == b;
        v.update(k, BrowserOperationCount { browser_type: b, count: bumped(v[k].count) })
    } else {
        v.push(BrowserOperationCount { browser_type: b, count: 1 })
    }
}

/// Whether each kind occurs at most once.
pub open spec fn types_distinct(v: Seq<TypeCount>) -> bool {
    forall|i: int, j: int|
        0 <= i < j < v.len() ==> (#[trigger] v[i]).operation_type != (#[trigger] v[j]).operation_type
}

/// Whether each browser occurs at most once.
pub open spec fn browsers_distinct(v: Seq<BrowserOperationCount>) -> bool {
    forall|i: int, j: int|
        0 <= i < j < v.len() ==> (#[trigger] v[i]).browser_type != (#[trigger] v[j]).browser_type
}

/// Counts one more operation of a kind.
fn bump_type(v: &mut Vec<TypeCount>, t: TabOperationType)
    requires
        types_distinct(old(v)@),
    ensures
        final(v)@ == types_bumped(old(v)@, t),
        types_distinct(final(v)@),
{
    let mut k: usize = 0;
    while k < v.len()
        invariant
            k <= v@.len(),
            v@ == old(v)@,
            forall|j: int| 0 <= j < k ==> (#[trigger] v@[j]).operation_type != t,
            types_distinct(v@),
        decreases v@.len() - k,
    {
        if v[k].operation_type == t {
            let c = bump(v[k].count);
            proof {
                let ch = choose|j: int| 0 <= j < v@.len() && (#[trigger] v@[j]).operation_type == t;
                assert(v@[ch].operation_type == t);
                if ch > k {
                    assert(v@[k as int].operation_type != v@[ch].operation_type);
                }
                assert(ch == k as int);
            }
            let ghost ov = v@;
            v.set(k, TypeCount { operation_type: t, count: c });
            assert forall|i: int, j: int| 0 <= i < j < v@.len() implies (#[trigger] v@[i]).operation_type != (#[trigger] v@[j]).operation_type by {
                assert(ov[i].operation_type != ov[j].operation_type);
            }
            return;
        }
        k += 1;
    }
    let ghost ov = v@;
    v.push(TypeCount { operation_type: t, count: 1 });
    assert forall|i: int, j: int| 0 <= i < j < v@.len() implies (#[trigger] v@[i]).operation_type != (#[trigger] v@[j]).operation_type by {
        if j < ov.len() {
            assert(ov[i].operation_type != ov[j].operation_type);
        }
    }
}

/// Counts one more operation in a browser.
fn bump_browser(v: &mut Vec<BrowserOperationCount>, b: BrowserType)
    requires
        browsers_distinct(old(v)@),
    ensures
        final(v)@ == browsers_bumped(old(v)@, b),
        browsers_distinct(final(v)@),
{
    let mut k: usize = 0;
    while k < v.len()
        invariant
            k <= v@.len(),
            v@ == old(v)@,
            forall|j: int| 0 <= j < k ==> (#[trigger] v@[j]).browser_type != b,
            browsers_distinct(v@),
        decreases v@.len() - k,
    {
        if v[k].browser_type == b {
            let c = bump(v[k].count);
            proof {
                let ch = choose|j: int| 0 <= j < v@.len() && (#[trigger] v@[j]).browser_type == b;
                assert(v@[ch].browser_type == b);
                if ch > k {
                    assert(v@[k as int].browser_type != v@[ch].browser_type);
                }
                assert(ch == k as int);
            }
            let ghost ov = v@;
            v.set(k, BrowserOperationCount { browser_type: b, count: c });
            assert forall|i: int, j: int| 0 <= i < j < v@.len() implies (#[trigger] v@[i]).browser_type != (#[trigger] v@[j]).browser_type by {
                assert(ov[i].browser_type != ov[j].browser_type);
            }
            return;
        }
        k += 1;
    }
    let ghost ov = v@;
    v.push(BrowserOperationCount { browser_type: b, count: 1 });
    assert forall|i: int, j: int| 0 <= i < j < v@.len() implies (#[trigger] v@[i]).browser_type != (#[trigger] v@[j]).browser_type by {
        if j < ov.len() {
            assert(ov[i].browser_type != ov[j].browser_type);
        }
    }
}

/// The mathematical state of a [`RemoteTabController`].
pub ghost struct ControllerState {
    pub history: Seq<RecordModel>,
    pub total: usize,
    pub successful: usize,
    pub failed: usize,
    pub by_type: Seq<TypeCount>,
    pub by_browser: Seq<BrowserOperationCount>,
    pub undos: usize,
    pub history_size: usize,
}

/// The controller of remote tab operations.
pub struct RemoteTabController {
    config: RemoteTabControllerConfig,
    operation_history: Vec<TabOperationRecord>,
    stats: RemoteControllerStats,
}

impl View for RemoteTabController {
    type V = ControllerState;

    closed spec fn view(&self) -> ControllerState {
        ControllerState {
            history: records_view(self.operation_history@),
            total: self.stats.total_operations,
            successful: self.stats.successful_operations,
            failed: self.stats.failed_operations,
            by_type: self.stats.operations_by_type@,
            by_browser: self.stats.operations_by_browser@,
            undos: self.stats.undo_operations,
            history_size: self.stats.history_size,
        }
    }
}

/// The state once an operation is recorded: counted, and, where undoing is
/// enabled, added to the history, whose oldest records leave while it holds
/// more than `max`.
pub open spec fn after_record(cfg: RemoteTabControllerConfig, st: ControllerState, rec: RecordModel) -> ControllerState {
    let counted = ControllerState {
        total: bumped(st.total),
        successful: if rec.status is Success {
            bumped(st.successful)
        } else {
            st.successful
        },
        failed: if rec.status is Failed {
            bumped(st.failed)
        } else {
            st.failed
        },
        by_type: types_bumped(st.by_type, rec.op),
        by_browser: browsers_bumped(st.by_browser, rec.browser),
        ..st
    };
    if cfg.enable_undo {
        let h = st.history.push(rec);
        let h2 = if h.len() > cfg.max_history_size {
            h.skip(h.len() - cfg.max_history_size)
        } else {
            h
        };
        ControllerState { history: h2, history_size: h2.len() as usize, ..counted }
    } else {
        counted
    }
}

/// The record of an operation once its outcome is known.
pub open spec fn settled(rec: RecordModel, outcome: Result<(), Seq<char>>) -> RecordModel {
    match outcome {
        Ok(()) => RecordModel { status: StatusModel::Success, ..rec },
        Err(e) => RecordModel { status: StatusModel::Failed(e), ..rec },
    }
}

/// The view of an outcome.
pub open spec fn outcome_view<T>(o: Result<T, String>) -> Result<(), Seq<char>> {
    match o {
        Ok(_) => Ok(()),
        Err(e) => Err(e@),
    }
}

/// Why an operation cannot be undone.
#[derive(Clone, Debug, PartialEq, Eq)]
pub enum UndoError {
    /// No operation in the history has the id.
    EntryNotFound { history_id: String },
    /// The operation cannot be undone, for the reason given.
    RestoreFailed { reason: String },
}

/// The index of the first record with an id.
pub open spec fn record_index(h: Seq<RecordModel>, id: u128) -> Option<int>
    decreases h.len(),
{
    if h.len() == 0 {
        None
    } else {
        match record_index(h.drop_last(), id) {
            Some(k) => Some(k),
            None => if h.last().id == id {
                Some(h.len() - 1)
            } else {
                None
            },
        }
    }
}

/// `record_index` is a valid index of a record with the id.
pub proof fn lemma_record_index(h: Seq<RecordModel>, id: u128)
    ensures
        record_index(h, id) matches Some(k) ==> 0 <= k < h.len() && h[k].id == id,
    decreases h.len(),
{
    if h.len() > 0 {
        lemma_record_index(h.drop_last(), id);
    }
}

/// `record_index` on a prefix that ends in a match.
pub proof fn lemma_record_index_prefix(v: Seq<RecordModel>, id: u128, n: int)
    requires
        0 < n <= v.len(),
        record_index(v.take(n - 1), id) is None,
        v[n - 1].id == id,
    ensures
        record_index(v, id) == Some(n - 1),
    decreases v.len(),
{
    assert(v.take(n).drop_last() == v.take(n - 1));
    assert(record_index(v.take(n), id) == Some(n - 1));
    if v.len() > n {
        assert(v.drop_last().take(n) == v.take(n));
        assert(v.drop_last().take(n - 1) == v.take(n - 1));
        lemma_record_index_prefix(v.drop_last(), id, n);
    } else {
        assert(v.take(n) == v);
    }
}

/// The text of an operation id.
pub open spec fn id_text(id: u128) -> Seq<char> {
    crate::text::uuid_text(id)
}

/// Whether undoing operation `id` of kind `kind` may proceed, and with what:
/// the operation must be in the history, of that kind, undoable, and (for a
/// close) have a URL. Gives the URL of a close, the tab of a creation.
pub open spec fn undo_check(h: Seq<RecordModel>, id: u128, kind: TabOperationType) -> Result<
    Seq<char>,
    (bool, Seq<char>),
> {
    match record_index(h, id) {
        None => Err((false, id_text(id))),
        Some(k) => {
            let r = h[k];
            if r.op != kind {
                Err(
                    (
                        true,
                        if kind == TabOperationType::Close {
                            "Can only undo close operations"@
                        } else {
                            "Can only undo create operations with this method"@
                        },
                    ),
                )
            } else if !r.undoable {
                Err((true, "Operation cannot be undone"@))
            } else if kind == TabOperationType::Close {
                match r.url {
                    Some(u) => Ok(u),
                    None => Err((true, "No URL available for undo"@)),
                }
            } else {
                Ok(r.tab_id)
            }
        },
    }
}

/// The view of an undo error: whether it is a restore failure, and its text.
pub open spec fn undo_error_view(e: UndoError) -> (bool, Seq<char>) {
    match e {
        UndoError::EntryNotFound { history_id } => (false, history_id@),
        UndoError::RestoreFailed { reason } => (true, reason@),
    }
}

/// The record of an undoing operation, linked to the operation it undid.
pub open spec fn linked_to(rec: RecordModel, operation_id: u128) -> RecordModel {
    RecordModel { related: Some(operation_id), ..rec }
}

/// The state once undoing operation `operation_id` is finished with the
/// record `rec` of the operation that undid it: the original can no longer
/// be undone, and a successful undo is counted.
pub open spec fn undo_finished(st: ControllerState, operation_id: u128, rec: RecordModel) -> ControllerState {
    ControllerState {
        history: no_longer_undoable(st.history, operation_id),
        undos: if rec.status is Success {
            bumped(st.undos)
        } else {
            st.undos
        },
        ..st
    }
}

/// The history once the operation with an id can no longer be undone.
pub open spec fn no_longer_undoable(h: Seq<RecordModel>, id: u128) -> Seq<RecordModel> {
    match record_index(h, id) {
        Some(k) => h.update(k, RecordModel { undoable: false, ..h[k] }),
        None => h,
    }
}

/// The index of the most recent successful undoable record.
pub open spec fn last_undoable_index(h: Seq<RecordModel>) -> Option<int>
    decreases h.len(),
{
    if h.len() == 0 {
        None
    } else if h.last().undoable && h.last().status is Success {
        Some(h.len() - 1)
    } else {
        last_undoable_index(h.drop_last())
    }
}

/// Copies of records.
fn copy_records(v: &[TabOperationRecord]) -> (r: Vec<TabOperationRecord>)
    ensures
        records_view(r@) == records_view(v@),
{
    let mut r: Vec<TabOperationRecord> = Vec::new();
    let mut i: usize = 0;
    while i < v.len()
        invariant
            i <= v@.len(),
            records_view(r@) == records_view(v@).take(i as int),
        decreases v@.len() - i,
    {
        let ghost o = records_view(r@);
        let d = v[i].duplicate();
        r.push(d);
        assert(records_view(r@) =~= o.push(d@));
        assert(records_view(v@).take(i as int + 1) =~= records_view(v@).take(i as int).push(v@[i as int]@));
        i += 1;
    }
    assert(records_view(v@).take(v@.len() as int) == records_view(v@));
    r
}

/// Which records a query keeps: 0 all, 1 those of a browser, 2 those of a
/// kind, 3 the failed ones, 4 the successful undoable ones.
pub open spec fn record_kept(mode: u8, browser: BrowserType, kind: TabOperationType, r: RecordModel) -> bool {
    if mode == 1 {
        r.browser == browser
    } else if mode == 2 {
        r.op == kind
    } else if mode == 3 {
        r.status is Failed
    } else if mode == 4 {
        r.undoable && r.status is Success
    } else {
        true
    }
}

/// Copies of the records a query keeps, in order.
fn select_records(v: &[TabOperationRecord], mode: u8, browser: BrowserType, kind: TabOperationType) -> (r: Vec<
    TabOperationRecord,
>)
    ensures
        records_view(r@) == records_view(v@).filter(|x: RecordModel| record_kept(mode, browser, kind, x)),
{
    let ghost rv = records_view(v@);
    let ghost p = |x: RecordModel| record_kept(mode, browser, kind, x);
    let mut r: Vec<TabOperationRecord> = Vec::new();
    let mut i: usize = 0;
    proof {
        reveal(Seq::filter);
    }
    assert(rv.take(0) =~= Seq::<RecordModel>::empty());
    assert(records_view(r@) =~= seq![]);
    while i < v.len()
        invariant
            i <= v@.len(),
            rv == records_view(v@),
            p == |x: RecordModel| record_kept(mode, browser, kind, x),
            records_view(r@) == rv.take(i as int).filter(p),
        decreases v@.len() - i,
    {
        let x = &v[i];
        assert(rv.take(i as int + 1) == rv.take(i as int).push(x@));
        proof {
            rv.take(i as int).lemma_filter_push(x@, p);
        }
        let keep = if mode == 1 {
            x.browser_type == browser
        } else if mode == 2 {
            x.operation_type == kind
        } else if mode == 3 {
            x.status.is_failed()
        } else if mode == 4 {
            x.undoable && x.status.is_success()
        } else {
            true
        };
        if keep {
            let ghost o = records_view(r@);
            let d = x.duplicate();
            r.push(d);
            assert(records_view(r@) =~= o.push(x@));
        }
        i += 1;
    }
    assert(rv.take(rv.len() as int) == rv);
    r
}

impl RemoteTabController {
    /// The settings.
    pub closed spec fn settings(self) -> RemoteTabControllerConfig {
        self.config
    }

    /// The statistics lists hold each kind and browser once.
    pub closed spec fn wf(self) -> bool {
        types_distinct(self.stats.operations_by_type@) && browsers_distinct(
            self.stats.operations_by_browser@,
        )
    }

    /// A controller with default settings and nothing recorded.
    pub fn new() -> (r: Self)
        ensures
            r.wf(),
            r.settings().max_history_size == 100,
            r.settings().enable_undo,
            r@.history.len() == 0,
            r@.total == 0 && r@.successful == 0 && r@.failed == 0 && r@.undos == 0,
            r@.by_type.len() == 0 && r@.by_browser.len() == 0 && r@.history_size == 0,
    {
        Self::with_config(RemoteTabControllerConfig::default())
    }

    /// A controller with the given settings and nothing recorded.
    pub fn with_config(config: RemoteTabControllerConfig) -> (r: Self)
        ensures
            r.wf(),
            r.settings() == config,
            r@.history.len() == 0,
            r@.total == 0 && r@.successful == 0 && r@.failed == 0 && r@.undos == 0,
            r@.by_type.len() == 0 && r@.by_browser.len() == 0 && r@.history_size == 0,
    {
        RemoteTabController {
            config,
            operation_history: Vec::new(),
            stats: RemoteControllerStats {
                total_operations: 0,
                successful_operations: 0,
                failed_operations: 0,
                operations_by_type: Vec::new(),
                operations_by_browser: Vec::new(),
                undo_operations: 0,
                history_size: 0,
            },
        }
    }

    /// The settings.
    pub fn config(&self) -> (r: &RemoteTabControllerConfig)
        ensures
            *r == self.settings(),
    {
        &self.config
    }

    /// Records an operation: see [`after_record`].
    pub fn record_operation(&mut self, record: &TabOperationRecord)
        requires
            old(self).wf(),
        ensures
            final(self).wf(),
            final(self).settings() == old(self).settings(),
            final(self)@ == after_record(old(self).settings(), old(self)@, record@),
    {
        self.stats.total_operations = bump(self.stats.total_operations);
        if record.status.is_success() {
            self.stats.successful_operations = bump(self.stats.successful_operations);
        } else if record.status.is_failed() {
            self.stats.failed_operations = bump(self.stats.failed_operations);
        }
        bump_type(&mut self.stats.operations_by_type, record.operation_type);
        bump_browser(&mut self.stats.operations_by_browser, record.browser_type);
        if self.config.enable_undo {
            let ghost oh = records_view(self.operation_history@);
            self.operation_history.push(record.duplicate());
            assert(records_view(self.operation_history@) =~= oh.push(record@));
            let max = self.config.max_history_size;
            if self.operation_history.len() > max {
                let drop = self.operation_history.len() - max;
                let ghost hv = records_view(self.operation_history@);
                let mut kept: Vec<TabOperationRecord> = Vec::new();
                let mut i = drop;
                while i < self.operation_history.len()
                    invariant
                        drop <= i <= self.operation_history@.len(),
                        hv == records_view(self.operation_history@),
                        records_view(kept@) == hv.subrange(drop as int, i as int),
                    decreases self.operation_history@.len() - i,
                {
                    let ghost o = records_view(kept@);
                    let d = self.operation_history[i].duplicate();
                    kept.push(d);
                    assert(records_view(kept@) =~= o.push(d@));
                    assert(records_view(kept@) =~= hv.subrange(drop as int, i + 1));
                    i += 1;
                }
                assert(hv.subrange(drop as int, hv.len() as int) == hv.skip(drop as int));
                self.operation_history = kept;
            }
            self.stats.history_size = self.operation_history.len();
        }
    }

    /// Records the close of tab `tab_id` (named by `tab_info` where known)
    /// in a browser, whose outcome was `outcome`; the record takes `id` and
    /// `now`.
    pub fn complete_close(
        &mut self,
        browser_type: BrowserType,
        tab_id: &str,
        tab_info: Option<&TabInfo>,
        outcome: Result<(), String>,
        id: u128,
        now: i64,
    ) -> (r: TabOperationResult)
        requires
            old(self).wf(),
        ensures
            final(self).wf(),
            final(self).settings() == old(self).settings(),
            r.record@ == settled(
                new_record(
                    TabOperationType::Close,
                    browser_type,
                    tab_id@,
                    match tab_info {
                        Some(t) => Some(t.url@),
                        None => None,
                    },
                    match tab_info {
                        Some(t) => Some(t.title@),
                        None => None,
                    },
                    id,
                    now,
                ),
                outcome_view(outcome),
            ),
            r.new_tab_id is None,
            !r.verified,
            final(self)@ == after_record(old(self).settings(), old(self)@, r.record@),
    {
        let url = match tab_info {
            Some(t) => Some(copy_string(&t.url)),
            None => None,
        };
        let title = match tab_info {
            Some(t) => Some(copy_string(&t.title)),
            None => None,
        };
        let mut record = TabOperationRecord::new_at(
            TabOperationType::Close,
            browser_type,
            string_from_chars(&crate::text::chars_of(tab_id)),
            url,
            title,
            id,
            now,
        );
        match outcome {
            Ok(()) => record.mark_success(),
            Err(e) => record.mark_failed(e),
        }
        self.record_operation(&record);
        TabOperationResult { record, new_tab_id: None, verified: false }
    }

    /// Records the activation of a tab in a browser, whose outcome was
    /// `outcome`; activations cannot be undone.
    pub fn complete_activate(
        &mut self,
        browser_type: BrowserType,
        tab_id: &str,
        outcome: Result<(), String>,
        id: u128,
        now: i64,
    ) -> (r: TabOperationResult)
        requires
            old(self).wf(),
        ensures
            final(self).wf(),
            final(self).settings() == old(self).settings(),
            r.record@ == settled(
                new_record(TabOperationType::Activate, browser_type, tab_id@, None, None, id, now),
                outcome_view(outcome),
            ),
            !r.record@.undoable,
            r.new_tab_id is None,
            final(self)@ == after_record(old(self).settings(), old(self)@, r.record@),
    {
        let mut record = TabOperationRecord::new_at(
            TabOperationType::Activate,
            browser_type,
            string_from_chars(&crate::text::chars_of(tab_id)),
            None,
            None,
            id,
            now,
        );
        record.undoable = false;
        match outcome {
            Ok(()) => record.mark_success(),
            Err(e) => record.mark_failed(e),
        }
        self.record_operation(&record);
        TabOperationResult { record, new_tab_id: None, verified: false }
    }

    /// Records the creation of a tab for `url` in a browser: `outcome` is
    /// the new tab's id or the error; until then the record names the tab
    /// `placeholder_id`.
    pub fn complete_create(
        &mut self,
        browser_type: BrowserType,
        url: &str,
        outcome: Result<String, String>,
        placeholder_id: String,
        id: u128,
        now: i64,
    ) -> (r: TabOperationResult)
        requires
            old(self).wf(),
        ensures
            final(self).wf(),
            final(self).settings() == old(self).settings(),
            r.record@ == settled(
                new_record(
                    TabOperationType::Create,
                    browser_type,
                    match outcome {
                        Ok(t) => t@,
                        Err(_) => placeholder_id@,
                    },
                    Some(url@),
                    None,
                    id,
                    now,
                ),
                outcome_view(outcome),
            ),
            match outcome {
                Ok(t) => r.new_tab_id matches Some(n) && n@ == t@,
                Err(_) => r.new_tab_id is None,
            },
            final(self)@ == after_record(old(self).settings(), old(self)@, r.record@),
    {
        let mut record = TabOperationRecord::new_at(
            TabOperationType::Create,
            browser_type,
            placeholder_id,
            Some(string_from_chars(&crate::text::chars_of(url))),
            None,
            id,
            now,
        );
        let new_tab_id = match outcome {
            Ok(t) => {
                record.tab_id = copy_string(&t);
                record.mark_success();
                Some(t)
            },
            Err(e) => {
                record.mark_failed(e);
                None
            },
        };
        self.record_operation(&record);
        TabOperationResult { record, new_tab_id, verified: false }
    }

    fn find_record(&self, id: u128) -> (r: Option<usize>)
        ensures
            r matches Some(k) ==> record_index(self@.history, id) == Some(k as int),
            r is None ==> record_index(self@.history, id) is None,
    {
        let ghost v = records_view(self.operation_history@);
        let mut i: usize = 0;
        while i < self.operation_history.len()
            invariant
                i <= self.operation_history@.len(),
                v == records_view(self.operation_history@),
                v == self@.history,
                record_index(v.take(i as int), id) is None,
            decreases self.operation_history@.len() - i,
        {
            assert(v.take(i as int + 1).drop_last() == v.take(i as int));
            if self.operation_history[i].id == id {
                proof {
                    lemma_record_index_prefix(v, id, i as int + 1);
                }
                return Some(i);
            }
            i += 1;
        }
        assert(v.take(v.len() as int) == v);
        None
    }

    fn check_undo(&self, operation_id: u128, kind: TabOperationType) -> (r: Result<String, UndoError>)
        ensures
            match r {
                Ok(v) => undo_check(self@.history, operation_id, kind) == Ok::<Seq<char>, (bool, Seq<char>)>(v@),
                Err(e) => undo_check(self@.history, operation_id, kind) == Err::<Seq<char>, (bool, Seq<char>)>(
                    undo_error_view(e),
                ),
            },
    {
        match self.find_record(operation_id) {
            None => {
                let mut v: Vec<char> = Vec::new();
                crate::text::push_uuid(&mut v, operation_id);
                Err(UndoError::EntryNotFound { history_id: string_from_chars(&v) })
            },
            Some(k) => {
                proof {
                    lemma_record_index(self@.history, operation_id);
                }
                let r = &self.operation_history[k];
                if r.operation_type != kind {
                    let reason = match kind {
                        TabOperationType::Close => "Can only undo close operations",
                        _ => "Can only undo create operations with this method",
                    };
                    return Err(UndoError::RestoreFailed { reason: reason.to_string() });
                }
                if !r.undoable {
                    return Err(
                        UndoError::RestoreFailed { reason: "Operation cannot be undone".to_string() },
                    );
                }
                match kind {
                    TabOperationType::Close => match &r.url {
                        Some(u) => Ok(copy_string(u)),
                        None => Err(
                            UndoError::RestoreFailed { reason: "No URL available for undo".to_string() },
                        ),
                    },
                    _ => Ok(copy_string(&r.tab_id)),
                }
            },
        }
    }

    /// Whether a close can be undone: the URL to reopen, or why not.
    pub fn prepare_undo_close(&self, operation_id: u128) -> (r: Result<String, UndoError>)
        ensures
            match r {
                Ok(v) => undo_check(self@.history, operation_id, TabOperationType::Close) == Ok::<
                    Seq<char>,
                    (bool, Seq<char>),
                >(v@),
                Err(e) => undo_check(self@.history, operation_id, TabOperationType::Close) == Err::<
                    Seq<char>,
                    (bool, Seq<char>),
                >(undo_error_view(e)),
            },
    {
        self.check_undo(operation_id, TabOperationType::Close)
    }

    /// Whether a creation can be undone: the tab to close, or why not.
    pub fn prepare_undo_create(&self, operation_id: u128) -> (r: Result<String, UndoError>)
        ensures
            match r {
                Ok(v) => undo_check(self@.history, operation_id, TabOperationType::Create) == Ok::<
                    Seq<char>,
                    (bool, Seq<char>),
                >(v@),
                Err(e) => undo_check(self@.history, operation_id, TabOperationType::Create) == Err::<
                    Seq<char>,
                    (bool, Seq<char>),
                >(undo_error_view(e)),
            },
    {
        self.check_undo(operation_id, TabOperationType::Create)
    }

    /// Completes undoing operation `operation_id` with the result of the
    /// operation that undid it: the result is linked to the original, which
    /// can no longer be undone, and a successful undo is counted.
    pub fn finish_undo(&mut self, operation_id: u128, result: TabOperationResult) -> (r: TabOperationResult)
        requires
            old(self).wf(),
        ensures
            final(self).wf(),
            final(self).settings() == old(self).settings(),
            r.record@ == linked_to(result.record@, operation_id),
            r.new_tab_id == result.new_tab_id,
            r.verified == result.verified,
            final(self)@ == undo_finished(old(self)@, operation_id, result.record@),
    {
        let mut result = result;
        result.record.related_operation_id = Some(operation_id);
        if let Some(k) = self.find_record(operation_id) {
            proof {
                lemma_record_index(self@.history, operation_id);
            }
            let ghost o = records_view(self.operation_history@);
            let mut rec = self.operation_history[k].duplicate();
            rec.undoable = false;
            let ghost rv = rec@;
            self.operation_history.set(k, rec);
            assert(records_view(self.operation_history@) =~= o.update(k as int, rv));
        }
        if result.is_success() {
            self.stats.undo_operations = bump(self.stats.undo_operations);
        }
        result
    }

    /// The most recent successful operation that can be undone.
    pub fn last_undoable(&self) -> (r: Option<TabOperationRecord>)
        ensures
            match last_undoable_index(self@.history) {
                Some(k) => r matches Some(x) && x@ == self@.history[k],
                None => r is None,
            },
    {
        let ghost v = records_view(self.operation_history@);
        let mut i = self.operation_history.len();
        assert(v.take(i as int) == v);
        while i > 0
            invariant
                i <= self.operation_history@.len(),
                v == records_view(self.operation_history@),
                v == self@.history,
                last_undoable_index(v) == last_undoable_index(v.take(i as int)),
            decreases i,
        {
            assert(v.take(i as int).drop_last() == v.take(i as int - 1));
            assert(v.take(i as int).last() == self.operation_history@[i - 1]@);
            let r = &self.operation_history[i - 1];
            if r.undoable && r.status.is_success() {
                return Some(r.duplicate());
            }
            i -= 1;
        }
        None
    }

    /// Copies of all recorded operations, oldest first.
    pub fn get_history(&self) -> (r: Vec<TabOperationRecord>)
        ensures
            records_view(r@) == self@.history,
    {
        copy_records(&self.operation_history)
    }

    /// The `count` most recent operations, newest first.
    pub fn get_recent_operations(&self, count: usize) -> (r: Vec<TabOperationRecord>)
        ensures
            records_view(r@) == if count < self@.history.len() {
                self@.history.reverse().take(count as int)
            } else {
                self@.history.reverse()
            },
    {
        let ghost hv = records_view(self.operation_history@);
        let n = self.operation_history.len();
        let m = if count < n {
            count
        } else {
            n
        };
        let mut r: Vec<TabOperationRecord> = Vec::new();
        let mut i: usize = 0;
        while i < m
            invariant
                i <= m,
                m <= n,
                n == self.operation_history@.len(),
                hv == records_view(self.operation_history@),
                records_view(r@) == hv.reverse().take(i as int),
            decreases m - i,
        {
            let ghost o = records_view(r@);
            let d = self.operation_history[n - 1 - i].duplicate();
            r.push(d);
            assert(hv.reverse()[i as int] == hv[n - 1 - i]);
            assert(records_view(r@) =~= o.push(hv[n - 1 - i]));
            assert(hv.reverse().take(i as int + 1) =~= hv.reverse().take(i as int).push(hv.reverse()[i as int]));
            i += 1;
        }
        assert(hv.reverse().take(n as int) == hv.reverse());
        r
    }

    /// The successful operations that can be undone, oldest first.
    pub fn get_undoable_operations(&self) -> (r: Vec<TabOperationRecord>)
        ensures
            records_view(r@) == self@.history.filter(
                |x: RecordModel| record_kept(4, BrowserType::Chrome, TabOperationType::Close, x),
            ),
    {
        select_records(&self.operation_history, 4, BrowserType::Chrome, TabOperationType::Close)
    }

    /// The first recorded operation with an id.
    pub fn get_operation(&self, operation_id: u128) -> (r: Option<TabOperationRecord>)
        ensures
            match record_index(self@.history, operation_id) {
                Some(k) => r matches Some(x) && x@ == self@.history[k],
                None => r is None,
            },
    {
        match self.find_record(operation_id) {
            Some(k) => {
                proof {
                    lemma_record_index(self@.history, operation_id);
                }
                Some(self.operation_history[k].duplicate())
            },
            None => None,
        }
    }

    /// The recorded operations in a browser.
    pub fn get_operations_for_browser(&self, browser_type: BrowserType) -> (r: Vec<TabOperationRecord>)
        ensures
            records_view(r@) == self@.history.filter(
                |x: RecordModel| record_kept(1, browser_type, TabOperationType::Close, x),
            ),
    {
        select_records(&self.operation_history, 1, browser_type, TabOperationType::Close)
    }

    /// The recorded operations of a kind.
    pub fn get_operations_by_type(&self, operation_type: TabOperationType) -> (r: Vec<TabOperationRecord>)
        ensures
            records_view(r@) == self@.history.filter(
                |x: RecordModel| record_kept(2, BrowserType::Chrome, operation_type, x),
            ),
    {
        select_records(&self.operation_history, 2, BrowserType::Chrome, operation_type)
    }

    /// The recorded operations that failed.
    pub fn get_failed_operations(&self) -> (r: Vec<TabOperationRecord>)
        ensures
            records_view(r@) == self@.history.filter(
                |x: RecordModel| record_kept(3, BrowserType::Chrome, TabOperationType::Close, x),
            ),
    {
        select_records(&self.operation_history, 3, BrowserType::Chrome, TabOperationType::Close)
    }

    /// The statistics.
    pub fn get_stats(&self) -> (r: RemoteControllerStats)
        ensures
            r.total_operations == self@.total,
            r.successful_operations == self@.successful,
            r.failed_operations == self@.failed,
            r.operations_by_type@ == self@.by_type,
            r.operations_by_browser@ == self@.by_browser,
            r.undo_operations == self@.undos,
            r.history_size == self@.history_size,
    {
        let mut t: Vec<TypeCount> = Vec::new();
        let mut i: usize = 0;
        while i < self.stats.operations_by_type.len()
            invariant
                i <= self.stats.operations_by_type@.len(),
                t@ == self.stats.operations_by_type@.take(i as int),
            decreases self.stats.operations_by_type@.len() - i,
        {
            t.push(self.stats.operations_by_type[i]);
            assert(t@ =~= self.stats.operations_by_type@.take(i as int + 1));
            i += 1;
        }
        assert(self.stats.operations_by_type@.take(i as int) == self.stats.operations_by_type@);
        let mut b: Vec<BrowserOperationCount> = Vec::new();
        let mut j: usize = 0;
        while j < self.stats.operations_by_browser.len()
            invariant
                j <= self.stats.operations_by_browser@.len(),
                b@ == self.stats.operations_by_browser@.take(j as int),
            decreases self.stats.operations_by_browser@.len() - j,
        {
            b.push(self.stats.operations_by_browser[j]);
            assert(b@ =~= self.stats.operations_by_browser@.take(j as int + 1));
            j += 1;
        }
        assert(self.stats.operations_by_browser@.take(j as int) == self.stats.operations_by_browser@);
        RemoteControllerStats {
            total_operations: self.stats.total_operations,
            successful_operations: self.stats.successful_operations,
            failed_operations: self.stats.failed_operations,
            operations_by_type: t,
            operations_by_browser: b,
            undo_operations: self.stats.undo_operations,
            history_size: self.stats.history_size,
        }
    }

    /// Forgets the recorded operations.
    pub fn clear_history(&mut self)
        requires
            old(self).wf(),
        ensures
            final(self).wf(),
            final(self).settings() == old(self).settings(),
            final(self)@ == (ControllerState { history: seq![], history_size: 0, ..old(self)@ }),
    {
        self.operation_history = Vec::new();
        self.stats.history_size = 0;
        assert(records_view(self.operation_history@) =~= seq![]);
    }
}

impl Default for RemoteTabController {
    fn default() -> (r: Self)
        ensures
            r.wf(),
            r@.history.len() == 0,
            r@.total == 0,
    {
        Self::new()
    }
}


/// Finding a record by id looks at ids alone.
proof fn lemma_record_index_same_ids(h: Seq<RecordModel>, g: Seq<RecordModel>, id: u128)
    requires
        h.len() == g.len(),
        forall|k: int| 0 <= k < h.len() ==> (#[trigger] h[k]).id == g[k].id,
    ensures
        record_index(h, id) == record_index(g, id),
    decreases h.len(),
{
    if h.len() > 0 {
        lemma_record_index_same_ids(h.drop_last(), g.drop_last(), id);
        assert(h.last().id == h[h.len() - 1].id);
    }
}

/// The history never grows past its limit: recording an operation into a
/// history within the limit leaves it within the limit.
pub proof fn law_history_stays_bounded(cfg: RemoteTabControllerConfig, st: ControllerState, rec: RecordModel)
    requires
        st.history.len() <= cfg.max_history_size,
    ensures
        after_record(cfg, st, rec).history.len() <= cfg.max_history_size,
{
}

/// The sum of the per-kind counts.
pub open spec fn type_total(v: Seq<TypeCount>) -> int
    decreases v.len(),
{
    if v.len() == 0 {
        0
    } else {
        type_total(v.drop_last()) + v.last().count
    }
}

/// The sum of the per-browser counts.
pub open spec fn browser_total(v: Seq<BrowserOperationCount>) -> int
    decreases v.len(),
{
    if v.len() == 0 {
        0
    } else {
        browser_total(v.drop_last()) + v.last().count
    }
}

/// What the controller's statistics and history keep true: the history
/// holds at most `max_history_size` records and none where undoing is off,
/// its recorded size is its length, and every operation counted is counted
/// once as a success or a failure, once under its kind and once under its
/// browser.
pub open spec fn controller_consistent(cfg: RemoteTabControllerConfig, st: ControllerState) -> bool {
    &&& st.history.len() <= cfg.max_history_size
    &&& !cfg.enable_undo ==> st.history.len() == 0
    &&& st.history_size == st.history.len()
    &&& st.total == st.successful + st.failed
    &&& type_total(st.by_type) == st.total
    &&& browser_total(st.by_browser) == st.total
}

proof fn lemma_type_total_update(v: Seq<TypeCount>, k: int, x: TypeCount)
    requires
        0 <= k < v.len(),
    ensures
        type_total(v.update(k, x)) == type_total(v) - v[k].count + x.count,
        v[k].count <= type_total(v),
    decreases v.len(),
{
    lemma_type_total_nonneg(v.drop_last());
    if k == v.len() - 1 {
        assert(v.update(k, x).drop_last() =~= v.drop_last());
    } else {
        lemma_type_total_update(v.drop_last(), k, x);
        assert(v.update(k, x).drop_last() =~= v.drop_last().update(k, x));
    }
}

proof fn lemma_type_total_nonneg(v: Seq<TypeCount>)
    ensures
        type_total(v) >= 0,
    decreases v.len(),
{
    if v.len() > 0 {
        lemma_type_total_nonneg(v.drop_last());
    }
}

proof fn lemma_browser_total_update(v: Seq<BrowserOperationCount>, k: int, x: BrowserOperationCount)
    requires
        0 <= k < v.len(),
    ensures
        browser_total(v.update(k, x)) == browser_total(v) - v[k].count + x.count,
        v[k].count <= browser_total(v),
    decreases v.len(),
{
    lemma_browser_total_nonneg(v.drop_last());
    if k == v.len() - 1 {
        assert(v.update(k, x).drop_last() =~= v.drop_last());
    } else {
        lemma_browser_total_update(v.drop_last(), k, x);
        assert(v.update(k, x).drop_last() =~= v.drop_last().update(k, x));
    }
}

proof fn lemma_browser_total_nonneg(v: Seq<BrowserOperationCount>)
    ensures
        browser_total(v) >= 0,
    decreases v.len(),
{
    if v.len() > 0 {
        lemma_browser_total_nonneg(v.drop_last());
    }
}

/// A controller with nothing recorded is consistent.
pub proof fn law_new_controller_consistent(cfg: RemoteTabControllerConfig)
    ensures
        controller_consistent(
            cfg,
            ControllerState {
                history: seq![],
                total: 0,
                successful: 0,
                failed: 0,
                by_type: seq![],
                by_browser: seq![],
                undos: 0,
                history_size: 0,
            },
        ),
{
}

/// Recording an operation whose outcome is known (a success or a failure)
/// keeps the controller consistent, while the total count has room to grow.
pub proof fn law_record_keeps_consistent(cfg: RemoteTabControllerConfig, st: ControllerState, rec: RecordModel)
    requires
        controller_consistent(cfg, st),
        st.total < usize::MAX,
        rec.status is Success || rec.status is Failed,
    ensures
        controller_consistent(cfg, after_record(cfg, st, rec)),
{
    let t = st.by_type;
    if exists|k: int| 0 <= k < t.len() && (#[trigger] t[k]).operation_type == rec.op {
        let k = choose|k: int| 0 <= k < t.len() && (#[trigger] t[k]).operation_type == rec.op;
        lemma_type_total_update(t, k, TypeCount { operation_type: rec.op, count: bumped(t[k].count) });
    } else {
        assert(t.push(TypeCount { operation_type: rec.op, count: 1 }).drop_last() =~= t);
    }
    let b = st.by_browser;
    if exists|k: int| 0 <= k < b.len() && (#[trigger] b[k]).browser_type == rec.browser {
        let k = choose|k: int| 0 <= k < b.len() && (#[trigger] b[k]).browser_type == rec.browser;
        lemma_browser_total_update(
            b,
            k,
            BrowserOperationCount { browser_type: rec.browser, count: bumped(b[k].count) },
        );
    } else {
        assert(b.push(BrowserOperationCount { browser_type: rec.browser, count: 1 }).drop_last() =~= b);
    }
}

/// Finishing an undo keeps the controller consistent: the history keeps its
/// length, and only the undo count may change.
pub proof fn law_finish_undo_keeps_consistent(
    cfg: RemoteTabControllerConfig,
    st: ControllerState,
    id: u128,
    undos: usize,
)
    requires
        controller_consistent(cfg, st),
    ensures
        controller_consistent(
            cfg,
            ControllerState { history: no_longer_undoable(st.history, id), undos, ..st },
        ),
{
    lemma_record_index(st.history, id);
}

/// Clearing the history keeps the controller consistent.
pub proof fn law_clear_keeps_consistent(cfg: RemoteTabControllerConfig, st: ControllerState)
    requires
        controller_consistent(cfg, st),
    ensures
        controller_consistent(cfg, ControllerState { history: seq![], history_size: 0, ..st }),
{
}

/// After undoing, the operation undone can no longer be undone: the record
/// found under its id is marked so, and undoing it again is refused.
proof fn lemma_undone_is_retired(h: Seq<RecordModel>, operation_id: u128, kind: TabOperationType)
    ensures
        record_index(no_longer_undoable(h, operation_id), operation_id) matches Some(k) ==> !no_longer_undoable(
            h,
            operation_id,
        )[k].undoable,
        undo_check(no_longer_undoable(h, operation_id), operation_id, kind) is Err,
{
    lemma_record_index(h, operation_id);
    law_undo_at_most_once(h, operation_id, kind);
    let g = no_longer_undoable(h, operation_id);
    assert forall|j: int| 0 <= j < h.len() implies (#[trigger] h[j]).id == g[j].id by {}
    lemma_record_index_same_ids(h, g, operation_id);
}

/// Undoing a close, as its steps compose: where the close `operation_id`
/// can be undone and gives `url`, a tab is opened at `url` (its outcome
/// `outcome`, the record taking `id` and `now`), and the undo finished. The
/// result is a creation at `url` linked to the close; the close can no
/// longer be undone; one operation is counted, and one undo where the
/// creation succeeded.
pub proof fn law_undo_close(
    cfg: RemoteTabControllerConfig,
    st: ControllerState,
    operation_id: u128,
    url: Seq<char>,
    browser: BrowserType,
    outcome: Result<String, String>,
    placeholder: Seq<char>,
    id: u128,
    now: i64,
)
    requires
        undo_check(st.history, operation_id, TabOperationType::Close) == Ok::<Seq<char>, (bool, Seq<char>)>(url),
    ensures
        ({
            let rec = settled(
                new_record(
                    TabOperationType::Create,
                    browser,
                    match outcome {
                        Ok(t) => t@,
                        Err(_) => placeholder,
                    },
                    Some(url),
                    None,
                    id,
                    now,
                ),
                outcome_view(outcome),
            );
            let fin = undo_finished(after_record(cfg, st, rec), operation_id, rec);
            &&& linked_to(rec, operation_id).op == TabOperationType::Create
            &&& linked_to(rec, operation_id).url == Some(url)
            &&& linked_to(rec, operation_id).related == Some(operation_id)
            &&& record_index(fin.history, operation_id) matches Some(k) ==> !fin.history[k].undoable
            &&& undo_check(fin.history, operation_id, TabOperationType::Close) is Err
            &&& fin.undos == (if outcome is Ok {
                bumped(st.undos)
            } else {
                st.undos
            })
            &&& fin.total == bumped(st.total)
        }),
{
    let rec = settled(
        new_record(
            TabOperationType::Create,
            browser,
            match outcome {
                Ok(t) => t@,
                Err(_) => placeholder,
            },
            Some(url),
            None,
            id,
            now,
        ),
        outcome_view(outcome),
    );
    lemma_undone_is_retired(after_record(cfg, st, rec).history, operation_id, TabOperationType::Close);
}

/// Undoing a creation, as its steps compose: where the creation
/// `operation_id` can be undone and gives its tab `tab_id`, that tab is
/// closed (its outcome `outcome`, the record taking `id` and `now`), and the
/// undo finished. The result is a close of `tab_id` linked to the creation;
/// the creation can no longer be undone; one operation is counted, and one
/// undo where the close succeeded.
pub proof fn law_undo_create(
    cfg: RemoteTabControllerConfig,
    st: ControllerState,
    operation_id: u128,
    tab_id: Seq<char>,
    browser: BrowserType,
    outcome: Result<(), String>,
    id: u128,
    now: i64,
)
    requires
        undo_check(st.history, operation_id, TabOperationType::Create) == Ok::<Seq<char>, (bool, Seq<char>)>(
            tab_id,
        ),
    ensures
        ({
            let rec = settled(
                new_record(TabOperationType::Close, browser, tab_id, None, None, id, now),
                outcome_view(outcome),
            );
            let fin = undo_finished(after_record(cfg, st, rec), operation_id, rec);
            &&& linked_to(rec, operation_id).op == TabOperationType::Close
            &&& linked_to(rec, operation_id).tab_id == tab_id
            &&& linked_to(rec, operation_id).related == Some(operation_id)
            &&& record_index(fin.history, operation_id) matches Some(k) ==> !fin.history[k].undoable
            &&& undo_check(fin.history, operation_id, TabOperationType::Create) is Err
            &&& fin.undos == (if outcome is Ok {
                bumped(st.undos)
            } else {
                st.undos
            })
            &&& fin.total == bumped(st.total)
        }),
{
    let rec = settled(
        new_record(TabOperationType::Close, browser, tab_id, None, None, id, now),
        outcome_view(outcome),
    );
    lemma_undone_is_retired(after_record(cfg, st, rec).history, operation_id, TabOperationType::Create);
}

/// An operation is undone at most once: once its undo is finished, undoing
/// it again is refused, whatever kind of undo is asked.
pub proof fn law_undo_at_most_once(h: Seq<RecordModel>, id: u128, kind: TabOperationType)
    ensures
        undo_check(no_longer_undoable(h, id), id, kind) is Err,
{
    lemma_record_index(h, id);
    match record_index(h, id) {
        Some(k) => {
            let g = no_longer_undoable(h, id);
            assert forall|j: int| 0 <= j < h.len() implies (#[trigger] h[j]).id == g[j].id by {}
            lemma_record_index_same_ids(h, g, id);
        },
        None => {},
    }
}

} // verus!
