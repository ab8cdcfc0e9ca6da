//! Performance monitoring and adaptive resource management: response times,
//! recent errors and cache statistics gathered into metrics, a bounded
//! history of them, the resource level that the metrics put the process in,
//! the processing priority that follows from it, and the application's
//! settings.
//!
//! Percentages are integers here: a CPU load is given in hundredths of a
//! percent, and a cache hit rate as the pair of hits and lookups.

use vstd::prelude::*;

verus! {

/// How heavily the process uses its resources.
#[derive(Clone, Copy, Debug, PartialEq, Eq, Structural)]
pub enum ResourceLevel {
    /// Low usage: processing may increase.
    Low,
    Normal,
    /// High usage: processing should be reduced.
    High,
    /// Critical usage: processing must be reduced at once.
    Critical,
}

impl Default for ResourceLevel {
    fn default() -> (r: Self)
        ensures
            r == ResourceLevel::Normal,
    {
        ResourceLevel::Normal
    }
}

/// The priority of a piece of processing.
#[derive(Clone, Copy, Debug, PartialEq, Eq, Structural)]
pub enum ProcessingPriority {
    Background,
    Normal,
    /// User-initiated work.
    High,
    /// Work that must complete at once.
    Critical,
}

/// Limits of resource management.
#[derive(Clone, Copy, Debug)]
pub struct ResourceConfig {
    /// Memory, in MB, above which processing is throttled.
    pub max_memory_mb: u64,
    /// CPU load, in percent, above which processing is throttled.
    pub max_cpu_percent: u32,
    pub max_concurrent_ai_tasks: usize,
    pub max_database_size_mb: u64,
    /// Whether the processing priority follows the resource level.
    pub adaptive_management: bool,
    pub background_interval_secs: u64,
    pub cache_size_mb: u64,
}

/// The default limits: 512 MB of memory, 50 percent of CPU, 4 concurrent
/// analysis tasks, a 1024 MB database, adaptive management, a 30 second
/// background interval and a 100 MB cache.
pub open spec fn default_resource_config() -> ResourceConfig {
    ResourceConfig {
        max_memory_mb: 512,
        max_cpu_percent: 50,
        max_concurrent_ai_tasks: 4,
        max_database_size_mb: 1024,
        adaptive_management: true,
        background_interval_secs: 30,
        cache_size_mb: 100,
    }
}

impl Default for ResourceConfig {
    fn default() -> (r: Self)
        ensures
            r == default_resource_config(),
    {
        ResourceConfig {
            max_memory_mb: 512,
            max_cpu_percent: 50,
            max_concurrent_ai_tasks: 4,
            max_database_size_mb: 1024,
            adaptive_management: true,
            background_interval_secs: 30,
            cache_size_mb: 100,
        }
    }
}

/// The colour scheme of the application.
#[derive(Clone, Copy, Debug, PartialEq, Eq, Structural)]
pub enum ThemeMode {
    Light,
    Dark,
    /// Follow the system.
    System,
}

impl Default for ThemeMode {
    fn default() -> (r: Self)
        ensures
            r == ThemeMode::System,
    {
        ThemeMode::System
    }
}

/// The application's settings.
#[derive(Clone, Debug)]
pub struct AppSettings {
    pub theme_mode: ThemeMode,
    /// Whether closing the window minimizes to the tray.
    pub minimize_to_tray: bool,
    pub show_notifications: bool,
    pub enable_hotkeys: bool,
    pub auto_refresh: bool,
    pub auto_refresh_interval_secs: u32,
    /// The browser that opens links.
    pub default_browser: String,
    pub resource_config: ResourceConfig,
    pub enable_performance_monitoring: bool,
    /// How long performance history is kept, in hours.
    pub performance_history_hours: u32,
}

impl Default for AppSettings {
    fn default() -> (r: Self)
        ensures
            r.theme_mode == ThemeMode::System,
            r.minimize_to_tray,
            r.show_notifications,
            r.enable_hotkeys,
            r.auto_refresh,
            r.auto_refresh_interval_secs == 30,
            r.default_browser@ == "chrome"@,
            r.resource_config == default_resource_config(),
            r.enable_performance_monitoring,
            r.performance_history_hours == 24,
    {
        AppSettings {
            theme_mode: ThemeMode::System,
            minimize_to_tray: true,
            show_notifications: true,
            enable_hotkeys: true,
            auto_refresh: true,
            auto_refresh_interval_secs: 30,
            default_browser: String::from_str("chrome"),
            resource_config: ResourceConfig::default(),
            enable_performance_monitoring: true,
            performance_history_hours: 24,
        }
    }
}

/// A snapshot of the process's performance.
#[derive(Clone, Copy, Debug)]
pub struct PerformanceMetrics {
    /// When it was taken, in milliseconds since the Unix epoch.
    pub timestamp_ms: i64,
    pub memory_usage_bytes: u64,
    /// CPU load in hundredths of a percent.
    pub cpu_usage_basis_points: u32,
    pub active_connections: usize,
    pub managed_pages: usize,
    pub pending_ai_tasks: usize,
    pub database_size_bytes: u64,
    /// Cache hits so far; the hit rate is `cache_hits / cache_lookups`.
    pub cache_hits: u64,
    /// Cache lookups so far, hits and misses.
    pub cache_lookups: u64,
    /// The mean of the recent response times, in milliseconds, rounded down.
    pub avg_response_time_ms: u64,
    /// Errors within the last minute.
    pub recent_error_count: usize,
}

impl PerformanceMetrics {
    /// A snapshot with nothing measured, taken at `timestamp_ms`.
    pub fn empty_at(timestamp_ms: i64) -> (r: Self)
        ensures
            r == empty_metrics(timestamp_ms),
    {
        PerformanceMetrics {
            timestamp_ms,
            memory_usage_bytes: 0,
            cpu_usage_basis_points: 0,
            active_connections: 0,
            managed_pages: 0,
            pending_ai_tasks: 0,
            database_size_bytes: 0,
            cache_hits: 0,
            cache_lookups: 0,
            avg_response_time_ms: 0,
            recent_error_count: 0,
        }
    }
}

/// A snapshot with nothing measured.
pub open spec fn empty_metrics(timestamp_ms: i64) -> PerformanceMetrics {
    PerformanceMetrics {
        timestamp_ms,
        memory_usage_bytes: 0,
        cpu_usage_basis_points: 0,
        active_connections: 0,
        managed_pages: 0,
        pending_ai_tasks: 0,
        database_size_bytes: 0,
        cache_hits: 0,
        cache_lookups: 0,
        avg_response_time_ms: 0,
        recent_error_count: 0,
    }
}

/// The most response times kept for the mean.
pub const RESPONSE_SAMPLES: usize = 100;

/// The most snapshots kept in the history.
pub const MAX_HISTORY: usize = 1000;

/// How long an error counts as recent, in milliseconds.
pub const ERROR_WINDOW_MS: i64 = 60000;

/// The sum of a sequence.
pub open spec fn sum_of(s: Seq<u64>) -> nat
    decreases s.len(),
{
    if s.len() == 0 {
        0
    } else {
        sum_of(s.drop_last()) + (s.last() as nat)
    }
}

/// The mean of a sequence, rounded down; 0 for none.
pub open spec fn mean_of(s: Seq<u64>) -> nat {
    if s.len() == 0 {
        0
    } else {
        sum_of(s) / s.len()
    }
}

/// The largest element of a sequence, or 0.
pub open spec fn max_of(s: Seq<u64>) -> nat
    decreases s.len(),
{
    if s.len() == 0 {
        0
    } else if max_of(s.drop_last()) < s.last() {
        s.last() as nat
    } else {
        max_of(s.drop_last())
    }
}

/// A sum is at most the length times the largest `u64`.
pub proof fn lemma_sum_bound(s: Seq<u64>)
    ensures
        sum_of(s) <= s.len() * (u64::MAX as nat),
    decreases s.len(),
{
    if s.len() > 0 {
        lemma_sum_bound(s.drop_last());
    }
}

/// Sums and largest element of a vector.
fn sum_and_max(v: &Vec<u64>) -> (r: (u128, u64))
    ensures
        r.0 == sum_of(v@),
        r.1 == max_of(v@),
{
    let mut sum: u128 = 0;
    let mut max: u64 = 0;
    let mut i: usize = 0;
    while i < v.len()
        invariant
            i <= v@.len(),
            sum == sum_of(v@.take(i as int)),
            max == max_of(v@.take(i as int)),
        decreases v@.len() - i,
    {
        assert(v@.take(i as int + 1).drop_last() == v@.take(i as int));
        proof {
            lemma_sum_bound(v@.take(i as int));
            assert(i * (u64::MAX as nat) + u64::MAX <= (usize::MAX as nat) * (u64::MAX as nat)
                + u64::MAX) by (nonlinear_arith)
                requires
                    i <= usize::MAX,
            ;
            assert((usize::MAX as nat) * (u64::MAX as nat) + u64::MAX <= u128::MAX) by (nonlinear_arith)
                requires
                    usize::MAX <= u64::MAX,
            ;
        }
        sum = sum + v[i] as u128;
        if max < v[i] {
            max = v[i];
        }
        i += 1;
    }
    assert(v@.take(v@.len() as int) == v@);
    (sum, max)
}

/// The mean of a sum over `n` values, as the values' type.
fn mean_from(sum: u128, n: usize, Ghost(s): Ghost<Seq<u64>>) -> (r: u64)
    requires
        sum == sum_of(s),
        n == s.len(),
    ensures
        r == mean_of(s),
{
    if n == 0 {
        0
    } else {
        proof {
            lemma_sum_bound(s);
            assert((sum as int) / (n as int) <= u64::MAX) by (nonlinear_arith)
                requires
                    sum <= n * (u64::MAX as nat),
                    n > 0,
            ;
        }
        (sum / (n as u128)) as u64
    }
}

/// The times of errors once those more than a minute before `now` leave
/// the front.
pub open spec fn without_stale(s: Seq<i64>, now: i64) -> Seq<i64>
    decreases s.len(),
{
    if s.len() > 0 && now - s[0] > ERROR_WINDOW_MS {
        without_stale(s.drop_first(), now)
    } else {
        s
    }
}

/// Whether an error at `t` is recent at `now`.
pub open spec fn is_recent(t: i64, now: i64) -> bool {
    now - t <= ERROR_WINDOW_MS
}

/// The test of recency at `now`.
pub open spec fn recent_at(now: i64) -> spec_fn(i64) -> bool {
    |t: i64| is_recent(t, now)
}

/// The number of recent errors.
pub open spec fn recent_count(s: Seq<i64>, now: i64) -> nat {
    s.filter(recent_at(now)).len()
}

/// Counts the recent errors.
fn count_recent(v: &Vec<i64>, now: i64) -> (r: usize)
    ensures
        r == recent_count(v@, now),
{
    let mut c: usize = 0;
    let mut i: usize = 0;
    assert(v@.take(0).filter(recent_at(now)) =~= seq![]) by {
        reveal(Seq::filter);
    }
    while i < v.len()
        invariant
            i <= v@.len(),
            c <= i,
            c == v@.take(i as int).filter(recent_at(now)).len(),
        decreases v@.len() - i,
    {
        assert(v@.take(i as int + 1) == v@.take(i as int).push(v@[i as int]));
        proof {
            v@.take(i as int).lemma_filter_push(v@[i as int], recent_at(now));
        }
        if (now as i128) - (v[i] as i128) <= (ERROR_WINDOW_MS as i128) {
            c = c + 1;
        }
        i += 1;
    }
    assert(v@.take(v@.len() as int) == v@);
    c
}

/// A bounded sequence once `x` is added: the oldest leaves first where it
/// is full.
pub open spec fn bounded_push<T>(s: Seq<T>, x: T, bound: nat) -> Seq<T> {
    if s.len() >= bound && s.len() > 0 {
        s.drop_first().push(x)
    } else {
        s.push(x)
    }
}

/// The resource level of a memory use, in bytes, and a CPU load, in
/// hundredths of a percent, against a memory limit in MB. The memory is
/// compared as a percentage of the limit: above 90 critical, above 75
/// high, above 50 normal; likewise the CPU load.
pub open spec fn level_for(memory: u64, cpu_basis_points: u32, max_memory_mb: u64) -> ResourceLevel {
    let limit = max_memory_mb * 1048576;
    if memory * 100 > 90 * limit || cpu_basis_points > 9000 {
        ResourceLevel::Critical
    } else if memory * 100 > 75 * limit || cpu_basis_points > 7500 {
        ResourceLevel::High
    } else if memory * 100 > 50 * limit || cpu_basis_points > 5000 {
        ResourceLevel::Normal
    } else {
        ResourceLevel::Low
    }
}

/// The processing priority that a resource level calls for.
pub open spec fn priority_for(level: ResourceLevel) -> ProcessingPriority {
    match level {
        ResourceLevel::Critical => ProcessingPriority::Background,
        ResourceLevel::High => ProcessingPriority::Normal,
        ResourceLevel::Normal => ProcessingPriority::Normal,
        ResourceLevel::Low => ProcessingPriority::High,
    }
}

/// Computes the resource level.
pub fn resource_level_for(memory: u64, cpu_basis_points: u32, max_memory_mb: u64) -> (r: ResourceLevel)
    ensures
        r == level_for(memory, cpu_basis_points, max_memory_mb),
{
    let used: u128 = memory as u128 * 100;
    let limit: u128 = max_memory_mb as u128 * 1048576;
    if used > 90 * limit || cpu_basis_points > 9000 {
        ResourceLevel::Critical
    } else if used > 75 * limit || cpu_basis_points > 7500 {
        ResourceLevel::High
    } else if used > 50 * limit || cpu_basis_points > 5000 {
        ResourceLevel::Normal
    } else {
        ResourceLevel::Low
    }
}

/// Computes the priority that a resource level calls for.
pub fn priority_for_level(level: ResourceLevel) -> (r: ProcessingPriority)
    ensures
        r == priority_for(level),
{
    match level {
        ResourceLevel::Critical => ProcessingPriority::Background,
        ResourceLevel::High => ProcessingPriority::Normal,
        ResourceLevel::Normal => ProcessingPriority::Normal,
        ResourceLevel::Low => ProcessingPriority::High,
    }
}


/// A summary of the history for display.
#[derive(Clone, Copy, Debug)]
pub struct PerformanceSummary {
    pub current_memory_mb: u64,
    /// In hundredths of a percent.
    pub current_cpu_basis_points: u32,
    /// The mean memory use of the history, in whole MB.
    pub avg_memory_mb: u64,
    /// The mean CPU load of the history, in hundredths of a percent,
    /// rounded down.
    pub avg_cpu_basis_points: u32,
    pub max_memory_mb: u64,
    pub max_cpu_basis_points: u32,
    /// The mean of the snapshots' mean response times, rounded down.
    pub avg_response_time_ms: u64,
    /// The errors counted over all snapshots.
    pub total_errors: usize,
    /// The cache hits and lookups of the current snapshot.
    pub cache_hits: u64,
    pub cache_lookups: u64,
    pub resource_level: ResourceLevel,
    pub memory_limit_mb: u64,
    pub cpu_limit_percent: u32,
    /// The number of snapshots in the history.
    pub samples_count: usize,
}

/// The summary of an empty history.
pub open spec fn empty_summary() -> PerformanceSummary {
    PerformanceSummary {
        current_memory_mb: 0,
        current_cpu_basis_points: 0,
        avg_memory_mb: 0,
        avg_cpu_basis_points: 0,
        max_memory_mb: 0,
        max_cpu_basis_points: 0,
        avg_response_time_ms: 0,
        total_errors: 0,
        cache_hits: 0,
        cache_lookups: 0,
        resource_level: ResourceLevel::Normal,
        memory_limit_mb: 0,
        cpu_limit_percent: 0,
        samples_count: 0,
    }
}

impl Default for PerformanceSummary {
    fn default() -> (r: Self)
        ensures
            r == empty_summary(),
    {
        PerformanceSummary {
            current_memory_mb: 0,
            current_cpu_basis_points: 0,
            avg_memory_mb: 0,
            avg_cpu_basis_points: 0,
            max_memory_mb: 0,
            max_cpu_basis_points: 0,
            avg_response_time_ms: 0,
            total_errors: 0,
            cache_hits: 0,
            cache_lookups: 0,
            resource_level: ResourceLevel::Normal,
            memory_limit_mb: 0,
            cpu_limit_percent: 0,
            samples_count: 0,
        }
    }
}

/// A measured quantity of a snapshot.
#[derive(Clone, Copy, Debug, PartialEq, Eq, Structural)]
pub enum MetricField {
    Memory,
    Cpu,
    ResponseTime,
    Errors,
}

/// A quantity of a snapshot.
pub open spec fn field_of(m: PerformanceMetrics, f: MetricField) -> u64 {
    match f {
        MetricField::Memory => m.memory_usage_bytes,
        MetricField::Cpu => m.cpu_usage_basis_points as u64,
        MetricField::ResponseTime => m.avg_response_time_ms,
        MetricField::Errors => m.recent_error_count as u64,
    }
}

/// A quantity of each snapshot.
pub open spec fn field_values(h: Seq<PerformanceMetrics>, f: MetricField) -> Seq<u64> {
    h.map_values(|m: PerformanceMetrics| field_of(m, f))
}

/// The memory uses of snapshots.
pub open spec fn memories(h: Seq<PerformanceMetrics>) -> Seq<u64> {
    field_values(h, MetricField::Memory)
}

/// The CPU loads of snapshots.
pub open spec fn cpu_loads(h: Seq<PerformanceMetrics>) -> Seq<u64> {
    field_values(h, MetricField::Cpu)
}

/// The mean response times of snapshots.
pub open spec fn response_means(h: Seq<PerformanceMetrics>) -> Seq<u64> {
    field_values(h, MetricField::ResponseTime)
}

/// The error counts of snapshots.
pub open spec fn error_counts(h: Seq<PerformanceMetrics>) -> Seq<u64> {
    field_values(h, MetricField::Errors)
}

/// Gathers a quantity of each snapshot.
fn values_of(h: &Vec<PerformanceMetrics>, f: MetricField) -> (r: Vec<u64>)
    ensures
        r@ == field_values(h@, f),
{
    let mut r: Vec<u64> = Vec::new();
    let mut i: usize = 0;
    while i < h.len()
        invariant
            i <= h@.len(),
            r@ == field_values(h@.take(i as int), f),
        decreases h@.len() - i,
    {
        let m = h[i];
        let x: u64 = match f {
            MetricField::Memory => m.memory_usage_bytes,
            MetricField::Cpu => m.cpu_usage_basis_points as u64,
            MetricField::ResponseTime => m.avg_response_time_ms,
            MetricField::Errors => m.recent_error_count as u64,
        };
        r.push(x);
        assert(field_values(h@.take(i as int + 1), f) =~= field_values(h@.take(i as int), f).push(x));
        i += 1;
    }
    assert(h@.take(h@.len() as int) == h@);
    r
}

/// A sum of values at most `b` is at most the length times `b`.
proof fn lemma_sum_bounded(s: Seq<u64>, b: nat)
    requires
        forall|i: int| 0 <= i < s.len() ==> s[i] <= b,
    ensures
        sum_of(s) <= s.len() * b,
    decreases s.len(),
{
    if s.len() > 0 {
        lemma_sum_bounded(s.drop_last(), b);
        assert(sum_of(s) <= (s.len() - 1) * b + b);
        assert((s.len() - 1) * b + b == s.len() * b) by (nonlinear_arith);
    }
}

/// The largest of values at most `b` is at most `b`.
proof fn lemma_max_bounded(s: Seq<u64>, b: nat)
    requires
        forall|i: int| 0 <= i < s.len() ==> s[i] <= b,
    ensures
        max_of(s) <= b,
    decreases s.len(),
{
    if s.len() > 0 {
        lemma_max_bounded(s.drop_last(), b);
    }
}

/// The mean of values at most `b` is at most `b`.
proof fn lemma_mean_bounded(s: Seq<u64>, b: nat)
    requires
        forall|i: int| 0 <= i < s.len() ==> s[i] <= b,
    ensures
        mean_of(s) <= b,
{
    if s.len() > 0 {
        lemma_sum_bounded(s, b);
        let n = s.len();
        let t = sum_of(s);
        assert(t / n <= b) by (nonlinear_arith)
            requires
                t <= n * b,
                n > 0,
        ;
    }
}

/// The summary of a non-empty history, given the current snapshot, the
/// limits and the resource level. Sizes in MB are rounded down.
pub open spec fn summary_of(
    h: Seq<PerformanceMetrics>,
    current: PerformanceMetrics,
    config: ResourceConfig,
    level: ResourceLevel,
) -> PerformanceSummary {
    PerformanceSummary {
        current_memory_mb: current.memory_usage_bytes / 1048576,
        current_cpu_basis_points: current.cpu_usage_basis_points,
        avg_memory_mb: (mean_of(memories(h)) / 1048576) as u64,
        avg_cpu_basis_points: mean_of(cpu_loads(h)) as u32,
        max_memory_mb: (max_of(memories(h)) / 1048576) as u64,
        max_cpu_basis_points: max_of(cpu_loads(h)) as u32,
        avg_response_time_ms: mean_of(response_means(h)) as u64,
        total_errors: if sum_of(error_counts(h)) <= usize::MAX {
            sum_of(error_counts(h)) as usize
        } else {
            usize::MAX
        },
        cache_hits: current.cache_hits,
        cache_lookups: current.cache_lookups,
        resource_level: level,
        memory_limit_mb: config.max_memory_mb,
        cpu_limit_percent: config.max_cpu_percent,
        samples_count: h.len() as usize,
    }
}

/// The state of a [`PerformanceMonitor`].
pub ghost struct MonitorState {
    /// The latest snapshot.
    pub current: PerformanceMetrics,
    /// Snapshots, oldest first.
    pub history: Seq<PerformanceMetrics>,
    pub config: ResourceConfig,
    pub level: ResourceLevel,
    pub priority: ProcessingPriority,
    pub monitoring: bool,
    /// Recent response times, oldest first.
    pub response_times: Seq<u64>,
    /// Times of errors, oldest first.
    pub error_times: Seq<i64>,
    pub cache_hits: u64,
    pub cache_misses: u64,
}

/// The state after a snapshot `m` is taken: it becomes the current one and
/// joins the history, the resource level follows it and, under adaptive
/// management, so does the processing priority.
pub open spec fn after_collect(st: MonitorState, m: PerformanceMetrics) -> MonitorState {
    let level = level_for(m.memory_usage_bytes, m.cpu_usage_basis_points, st.config.max_memory_mb);
    MonitorState {
        current: m,
        history: bounded_push(st.history, m, MAX_HISTORY as nat),
        level,
        priority: if st.config.adaptive_management {
            priority_for(level)
        } else {
            st.priority
        },
        ..st
    }
}

/// The snapshot taken at `now` of a state, with the memory use and CPU
/// load measured.
pub open spec fn snapshot(st: MonitorState, now: i64, memory: u64, cpu_basis_points: u32) -> PerformanceMetrics {
    PerformanceMetrics {
        timestamp_ms: now,
        memory_usage_bytes: memory,
        cpu_usage_basis_points: cpu_basis_points,
        active_connections: 0,
        managed_pages: 0,
        pending_ai_tasks: 0,
        database_size_bytes: 0,
        cache_hits: st.cache_hits,
        cache_lookups: (st.cache_hits + st.cache_misses) as u64,
        avg_response_time_ms: mean_of(st.response_times) as u64,
        recent_error_count: recent_count(st.error_times, now) as usize,
    }
}

/// Tracks the application's performance and decides how much processing
/// its resources allow.
pub struct PerformanceMonitor {
    current: PerformanceMetrics,
    history: Vec<PerformanceMetrics>,
    config: ResourceConfig,
    level: ResourceLevel,
    priority: ProcessingPriority,
    monitoring: bool,
    response_times: Vec<u64>,
    error_times: Vec<i64>,
    cache_hits: u64,
    cache_misses: u64,
}

impl View for PerformanceMonitor {
    type V = MonitorState;

    closed spec fn view(&self) -> MonitorState {
        MonitorState {
            current: self.current,
            history: self.history@,
            config: self.config,
            level: self.level,
            priority: self.priority,
            monitoring: self.monitoring,
            response_times: self.response_times@,
            error_times: self.error_times@,
            cache_hits: self.cache_hits,
            cache_misses: self.cache_misses,
        }
    }
}

/// Whether a state keeps its bounds: at most [`MAX_HISTORY`] snapshots and
/// [`RESPONSE_SAMPLES`] response times, and a count of lookups that fits.
pub open spec fn monitor_wf(st: MonitorState) -> bool {
    &&& st.history.len() <= MAX_HISTORY
    &&& st.response_times.len() <= RESPONSE_SAMPLES
    &&& st.cache_hits + st.cache_misses <= u64::MAX
}

/// The state of a new monitor with some limits.
pub open spec fn initial_monitor(config: ResourceConfig, now: i64) -> MonitorState {
    MonitorState {
        current: empty_metrics(now),
        history: seq![],
        config,
        level: ResourceLevel::Normal,
        priority: ProcessingPriority::Normal,
        monitoring: false,
        response_times: seq![],
        error_times: seq![],
        cache_hits: 0,
        cache_misses: 0,
    }
}

impl PerformanceMonitor {
    /// A monitor with the default limits, created at `now` (milliseconds
    /// since the Unix epoch).
    pub fn new_at(now: i64) -> (r: Self)
        ensures
            r@ == initial_monitor(default_resource_config(), now),
    {
        Self::with_config_at(ResourceConfig::default(), now)
    }

    /// A monitor with the default limits.
    pub fn new() -> (r: Self)
        ensures
            exists|now: i64| r@ == initial_monitor(default_resource_config(), now),
    {
        Self::new_at(crate::platform::now_millis())
    }

    /// A monitor with some limits, created at `now`.
    pub fn with_config_at(config: ResourceConfig, now: i64) -> (r: Self)
        ensures
            r@ == initial_monitor(config, now),
    {
        let r = PerformanceMonitor {
            current: PerformanceMetrics::empty_at(now),
            history: Vec::new(),
            config,
            level: ResourceLevel::Normal,
            priority: ProcessingPriority::Normal,
            monitoring: false,
            response_times: Vec::new(),
            error_times: Vec::new(),
            cache_hits: 0,
            cache_misses: 0,
        };
        assert(r@ =~= initial_monitor(config, now));
        r
    }

    /// A monitor with some limits.
    pub fn with_config(config: ResourceConfig) -> (r: Self)
        ensures
            exists|now: i64| r@ == initial_monitor(config, now),
    {
        Self::with_config_at(config, crate::platform::now_millis())
    }

    /// Starts monitoring.
    pub fn start_monitoring(&mut self)
        ensures
            final(self)@ == (MonitorState { monitoring: true, ..old(self)@ }),
    {
        self.monitoring = true;
    }

    /// Stops monitoring.
    pub fn stop_monitoring(&mut self)
        ensures
            final(self)@ == (MonitorState { monitoring: false, ..old(self)@ }),
    {
        self.monitoring = false;
    }

    /// Whether monitoring is on.
    pub fn is_monitoring(&self) -> (r: bool)
        ensures
            r == self@.monitoring,
    {
        self.monitoring
    }

    /// Replaces the limits.
    pub fn update_config(&mut self, config: ResourceConfig)
        ensures
            final(self)@ == (MonitorState { config, ..old(self)@ }),
    {
        self.config = config;
    }

    /// The limits.
    pub fn get_config(&self) -> (r: ResourceConfig)
        ensures
            r == self@.config,
    {
        self.config
    }

    /// Records a response time; the oldest of [`RESPONSE_SAMPLES`] leaves.
    pub fn record_response_time(&mut self, duration_ms: u64)
        requires
            monitor_wf(old(self)@),
        ensures
            monitor_wf(final(self)@),
            final(self)@ == (MonitorState {
                response_times: bounded_push(old(self)@.response_times, duration_ms, RESPONSE_SAMPLES as nat),
                ..old(self)@
            }),
    {
        if self.response_times.len() >= RESPONSE_SAMPLES {
            self.response_times.remove(0);
        }
        self.response_times.push(duration_ms);
    }

    /// Records an error at `now`; those more than a minute older leave the
    /// front first.
    pub fn record_error_at(&mut self, now: i64)
        requires
            monitor_wf(old(self)@),
        ensures
            monitor_wf(final(self)@),
            final(self)@ == (MonitorState {
                error_times: without_stale(old(self)@.error_times, now).push(now),
                ..old(self)@
            }),
    {
        let ghost old_times = self.error_times@;
        let mut times: Vec<i64> = Vec::new();
        std::mem::swap(&mut times, &mut self.error_times);
        while times.len() > 0 && (now as i128) - (times[0] as i128) > (ERROR_WINDOW_MS as i128)
            invariant
                without_stale(times@, now) == without_stale(old_times, now),
            decreases times@.len(),
        {
            times.remove(0);
        }
        times.push(now);
        self.error_times = times;
    }

    /// Records an error now.
    pub fn record_error(&mut self)
        requires
            monitor_wf(old(self)@),
        ensures
            monitor_wf(final(self)@),
            exists|now: i64| final(self)@ == (MonitorState {
                error_times: (#[trigger] without_stale(old(self)@.error_times, now)).push(now),
                ..old(self)@
            }),
    {
        self.record_error_at(crate::platform::now_millis());
    }

    /// Records a cache hit.
    pub fn record_cache_hit(&mut self)
        requires
            monitor_wf(old(self)@),
            old(self)@.cache_hits + old(self)@.cache_misses < u64::MAX,
        ensures
            monitor_wf(final(self)@),
            final(self)@ == (MonitorState { cache_hits: (old(self)@.cache_hits + 1) as u64, ..old(self)@ }),
    {
        self.cache_hits = self.cache_hits + 1;
    }

    /// Records a cache miss.
    pub fn record_cache_miss(&mut self)
        requires
            monitor_wf(old(self)@),
            old(self)@.cache_hits + old(self)@.cache_misses < u64::MAX,
        ensures
            monitor_wf(final(self)@),
            final(self)@ == (MonitorState { cache_misses: (old(self)@.cache_misses + 1) as u64, ..old(self)@ }),
    {
        self.cache_misses = self.cache_misses + 1;
    }

    /// Takes a snapshot at `now` with the memory use and CPU load measured:
    /// the mean response time, the errors of the last minute and the cache
    /// counts; it becomes the current snapshot, joins the history (the
    /// oldest of [`MAX_HISTORY`] leaves), and the resource level and
    /// priority follow it.
    pub fn collect_metrics_at(&mut self, now: i64, memory_usage_bytes: u64, cpu_basis_points: u32) -> (r: PerformanceMetrics)
        requires
            monitor_wf(old(self)@),
        ensures
            monitor_wf(final(self)@),
            r == snapshot(old(self)@, now, memory_usage_bytes, cpu_basis_points),
            final(self)@ == after_collect(old(self)@, r),
    {
        let (sum, _) = sum_and_max(&self.response_times);
        let avg = mean_from(sum, self.response_times.len(), Ghost(self.response_times@));
        let recent = count_recent(&self.error_times, now);
        let m = PerformanceMetrics {
            timestamp_ms: now,
            memory_usage_bytes,
            cpu_usage_basis_points: cpu_basis_points,
            active_connections: 0,
            managed_pages: 0,
            pending_ai_tasks: 0,
            database_size_bytes: 0,
            cache_hits: self.cache_hits,
            cache_lookups: self.cache_hits + self.cache_misses,
            avg_response_time_ms: avg,
            recent_error_count: recent,
        };
        self.current = m;
        if self.history.len() >= MAX_HISTORY {
            self.history.remove(0);
        }
        self.history.push(m);
        let level = resource_level_for(memory_usage_bytes, cpu_basis_points, self.config.max_memory_mb);
        self.level = level;
        if self.config.adaptive_management {
            self.priority = priority_for_level(level);
        }
        m
    }

    /// Takes a snapshot now.
    pub fn collect_metrics(&mut self, memory_usage_bytes: u64, cpu_basis_points: u32) -> (r: PerformanceMetrics)
        requires
            monitor_wf(old(self)@),
        ensures
            monitor_wf(final(self)@),
            exists|now: i64| #[trigger] snapshot(old(self)@, now, memory_usage_bytes, cpu_basis_points) == r,
            final(self)@ == after_collect(old(self)@, r),
    {
        self.collect_metrics_at(crate::platform::now_millis(), memory_usage_bytes, cpu_basis_points)
    }

    /// The current snapshot.
    pub fn get_current_metrics(&self) -> (r: PerformanceMetrics)
        ensures
            r == self@.current,
    {
        self.current
    }

    /// The history, oldest first.
    pub fn get_metrics_history(&self) -> (r: Vec<PerformanceMetrics>)
        ensures
            r@ == self@.history,
    {
        self.history.clone()
    }

    /// The resource level.
    pub fn get_resource_level(&self) -> (r: ResourceLevel)
        ensures
            r == self@.level,
    {
        self.level
    }

    /// The processing priority.
    pub fn get_processing_priority(&self) -> (r: ProcessingPriority)
        ensures
            r == self@.priority,
    {
        self.priority
    }

    /// Whether a task of some priority should wait: at a critical level
    /// background work waits; at a high level background work waits unless
    /// the processing priority is critical; otherwise nothing waits.
    pub fn should_throttle(&self, task_priority: ProcessingPriority) -> (r: bool)
        ensures
            r == throttles(self@.level, self@.priority, task_priority),
    {
        match self.level {
            ResourceLevel::Critical => task_priority == ProcessingPriority::Background,
            ResourceLevel::High => task_priority == ProcessingPriority::Background && self.priority
                != ProcessingPriority::Critical,
            ResourceLevel::Normal | ResourceLevel::Low => false,
        }
    }

    /// The delay, in seconds, recommended before background work.
    pub fn get_recommended_delay(&self) -> (r: u64)
        ensures
            r == delay_for(self@.level),
    {
        match self.level {
            ResourceLevel::Critical => 30,
            ResourceLevel::High => 10,
            ResourceLevel::Normal => 5,
            ResourceLevel::Low => 1,
        }
    }

    /// Empties the history.
    pub fn clear_history(&mut self)
        requires
            monitor_wf(old(self)@),
        ensures
            monitor_wf(final(self)@),
            final(self)@ == (MonitorState { history: seq![], ..old(self)@ }),
    {
        self.history = Vec::new();
    }

    /// The summary of the history; the empty summary where there is none.
    pub fn get_summary(&self) -> (r: PerformanceSummary)
        requires
            monitor_wf(self@),
        ensures
            self@.history.len() == 0 ==> r == empty_summary(),
            self@.history.len() > 0 ==> r == summary_of(self@.history, self@.current, self@.config, self@.level),
    {
        let n = self.history.len();
        if n == 0 {
            return PerformanceSummary::default();
        }
        let ghost h = self.history@;
        let mem = values_of(&self.history, MetricField::Memory);
        let cpu = values_of(&self.history, MetricField::Cpu);
        let resp = values_of(&self.history, MetricField::ResponseTime);
        let errs = values_of(&self.history, MetricField::Errors);
        let (mem_sum, mem_max) = sum_and_max(&mem);
        let (cpu_sum, cpu_max) = sum_and_max(&cpu);
        let (resp_sum, _) = sum_and_max(&resp);
        let (err_sum, _) = sum_and_max(&errs);
        let avg_mem = mean_from(mem_sum, n, Ghost(memories(h)));
        let avg_cpu = mean_from(cpu_sum, n, Ghost(cpu_loads(h)));
        let avg_resp = mean_from(resp_sum, n, Ghost(response_means(h)));
        proof {
            assert forall|i: int| 0 <= i < cpu_loads(h).len() implies cpu_loads(h)[i] <= u32::MAX by {
                assert(cpu_loads(h)[i] == h[i].cpu_usage_basis_points as u64);
            }
            lemma_mean_bounded(cpu_loads(h), u32::MAX as nat);
            lemma_max_bounded(cpu_loads(h), u32::MAX as nat);
        }
        let total_errors: usize = if err_sum <= usize::MAX as u128 {
            err_sum as usize
        } else {
            usize::MAX
        };
        let r = PerformanceSummary {
            current_memory_mb: self.current.memory_usage_bytes / 1048576,
            current_cpu_basis_points: self.current.cpu_usage_basis_points,
            avg_memory_mb: avg_mem / 1048576,
            avg_cpu_basis_points: avg_cpu as u32,
            max_memory_mb: mem_max / 1048576,
            max_cpu_basis_points: cpu_max as u32,
            avg_response_time_ms: avg_resp,
            total_errors,
            cache_hits: self.current.cache_hits,
            cache_lookups: self.current.cache_lookups,
            resource_level: self.level,
            memory_limit_mb: self.config.max_memory_mb,
            cpu_limit_percent: self.config.max_cpu_percent,
            samples_count: n,
        };
        r
    }
}

impl Default for PerformanceMonitor {
    fn default() -> (r: Self)
        ensures
            exists|now: i64| r@ == initial_monitor(default_resource_config(), now),
    {
        Self::new()
    }
}

/// Whether a task waits at a resource level and processing priority.
pub open spec fn throttles(level: ResourceLevel, priority: ProcessingPriority, task: ProcessingPriority) -> bool {
    match level {
        ResourceLevel::Critical => task == ProcessingPriority::Background,
        ResourceLevel::High => task == ProcessingPriority::Background && priority
            != ProcessingPriority::Critical,
        _ => false,
    }
}

/// The delay, in seconds, recommended before background work at a level.
pub open spec fn delay_for(level: ResourceLevel) -> u64 {
    match level {
        ResourceLevel::Critical => 30,
        ResourceLevel::High => 10,
        ResourceLevel::Normal => 5,
        ResourceLevel::Low => 1,
    }
}


/// The rank of a resource level, from low to critical.
pub open spec fn level_rank(level: ResourceLevel) -> int {
    match level {
        ResourceLevel::Low => 0,
        ResourceLevel::Normal => 1,
        ResourceLevel::High => 2,
        ResourceLevel::Critical => 3,
    }
}

/// Only background work is ever held back, and nothing is held back below
/// a high resource level.
pub proof fn law_only_background_work_waits(level: ResourceLevel, priority: ProcessingPriority, task: ProcessingPriority)
    ensures
        throttles(level, priority, task) ==> task == ProcessingPriority::Background,
        level_rank(level) <= 1 ==> !throttles(level, priority, task),
{
}

/// More memory in use, or more CPU load, never lowers the resource level.
pub proof fn law_level_rises_with_load(m1: u64, m2: u64, c1: u32, c2: u32, max_memory_mb: u64)
    requires
        m1 <= m2,
        c1 <= c2,
    ensures
        level_rank(level_for(m1, c1, max_memory_mb)) <= level_rank(level_for(m2, c2, max_memory_mb)),
{
}

/// A higher resource level never recommends a shorter delay.
pub proof fn law_delay_rises_with_level(a: ResourceLevel, b: ResourceLevel)
    requires
        level_rank(a) <= level_rank(b),
    ensures
        delay_for(a) <= delay_for(b),
{
}

/// Taking a snapshot keeps the monitor within its bounds, and the snapshot
/// is the newest of the history.
pub proof fn law_snapshot_joins_history(st: MonitorState, m: PerformanceMetrics)
    requires
        monitor_wf(st),
    ensures
        monitor_wf(after_collect(st, m)),
        after_collect(st, m).history.last() == m,
        after_collect(st, m).history.len() == if st.history.len() < MAX_HISTORY {
            st.history.len() + 1
        } else {
            st.history.len()
        },
{
}

} // verus!
