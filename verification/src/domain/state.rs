//! The daemon's mutable state between polls, with its empty starting
//! values.

use vstd::prelude::*;

use std::collections::BTreeMap;
use std::time::Duration;

use crate::domain::boundary::ClockSnapshot;

verus! {

/// Charging state of a system battery.
#[derive(Debug, Clone, Copy, PartialEq, Eq, Structural)]
pub enum BatteryState {
    /// The state was not reported.
    Unknown,
    /// The battery is charging.
    Charging,
    /// The battery is discharging.
    Discharging,
    /// The battery is full.
    FullyCharged,
}

impl Default for BatteryState {
    /// A battery starts in the unknown state.
    fn default() -> (r: Self)
        ensures
            r == BatteryState::Unknown,
    {
        BatteryState::Unknown
    }
}

/// One row of the top-process table: the process, its CPU share and its
/// memory share in tenths of a percent.
#[derive(Debug, Clone, PartialEq, Eq)]
pub struct TopProcessDetails {
    /// Process id.
    pub pid: u32,
    /// Command line.
    pub command: String,
    /// CPU usage percentage.
    pub cpu_percent: i32,
    /// Memory usage in tenths of a percent.
    pub memory_tenths: u32,
}

/// Cached value with the monotonic instant at which it was sampled.
#[derive(Debug, Clone, PartialEq, Eq)]
pub struct TimedValue<T> {
    /// Cached value, or `None` when the latest refresh failed.
    pub value: Option<T>,
    /// Monotonic instant of the cached sample.
    pub sampled_at: Option<Duration>,
}

impl<T> Default for TimedValue<T> {
    /// Empty and never sampled.
    fn default() -> (r: Self)
        ensures
            r.value is None,
            r.sampled_at is None,
    {
        TimedValue { value: None, sampled_at: None }
    }
}

/// Cached system-battery reading retained between polls.
#[derive(Debug, Clone, PartialEq, Eq)]
pub struct BatterySystemCache {
    /// Visible charge percentage.
    pub charge_percent: Option<i32>,
    /// Rounded power rate in watts.
    pub rate_watts: i32,
    /// Current charging state.
    pub state: BatteryState,
    /// Configured charge limit when known.
    pub charge_limit_percent: Option<i32>,
    /// Monotonic instant of the cached sample.
    pub sampled_at: Option<Duration>,
}

impl Default for BatterySystemCache {
    /// Nothing known: no charge, no rate, unknown state, no limit.
    fn default() -> (r: Self)
        ensures
            r.charge_percent is None,
            r.rate_watts == 0,
            r.state == BatteryState::Unknown,
            r.charge_limit_percent is None,
            r.sampled_at is None,
    {
        BatterySystemCache {
            charge_percent: None,
            rate_watts: 0,
            state: BatteryState::Unknown,
            charge_limit_percent: None,
            sampled_at: None,
        }
    }
}

/// Cached peripheral-battery reading retained between polls.
#[derive(Debug, Clone, PartialEq, Eq)]
pub struct BatteryPeripheralCache {
    /// Human-readable peripheral model name.
    pub name: String,
    /// Visible charge percentage.
    pub charge_percent: Option<i32>,
    /// Monotonic instant of the cached sample.
    pub sampled_at: Option<Duration>,
}

impl Default for BatteryPeripheralCache {
    /// No device name, no charge, never sampled.
    fn default() -> (r: Self)
        ensures
            r.name@ == Seq::<char>::empty(),
            r.charge_percent is None,
            r.sampled_at is None,
    {
        BatteryPeripheralCache { name: String::new(), charge_percent: None, sampled_at: None }
    }
}

/// Cached network identity retained between polls.
#[derive(Debug, Clone, PartialEq, Eq)]
pub struct NetworkInfoCache {
    /// Active route device.
    pub device: Option<String>,
    /// Active route IP address.
    pub ip_address: Option<String>,
    /// Active wifi SSID.
    pub ssid: Option<String>,
    /// Active wifi signal quality percentage.
    pub signal_percent: Option<i32>,
    /// Monotonic instant of the cached sample.
    pub sampled_at: Option<Duration>,
}

impl Default for NetworkInfoCache {
    /// No route, address, network or signal known.
    fn default() -> (r: Self)
        ensures
            r.device is None,
            r.ip_address is None,
            r.ssid is None,
            r.signal_percent is None,
            r.sampled_at is None,
    {
        NetworkInfoCache { device: None, ip_address: None, ssid: None, signal_percent: None, sampled_at: None }
    }
}

/// Previous cumulative counters retained to compute byte-rate deltas.
#[derive(Debug, Clone, PartialEq, Eq)]
pub struct CounterRateState {
    /// Previous `a` counter value.
    pub prev_a: u64,
    /// Previous `b` counter value.
    pub prev_b: u64,
    /// Monotonic instant of the previous sample.
    pub sampled_at: Option<Duration>,
}

impl Default for CounterRateState {
    /// Zero counters, never sampled.
    fn default() -> (r: Self)
        ensures
            r.prev_a == 0,
            r.prev_b == 0,
            r.sampled_at is None,
    {
        CounterRateState { prev_a: 0, prev_b: 0, sampled_at: None }
    }
}

/// Cached GPU snapshot retained between polls.
#[derive(Debug, Clone, PartialEq, Eq)]
pub struct GpuCache {
    /// GPU temperature in °C.
    pub temp_celsius: Option<i32>,
    /// GPU usage percentage.
    pub usage_percent: Option<i32>,
    /// GPU memory usage percentage.
    pub memory_percent: Option<i32>,
    /// GPU decoder usage percentage.
    pub decoder_percent: Option<i32>,
    /// GPU fan percentage.
    pub fan_percent: Option<i32>,
    /// Monotonic instant of the cached sample.
    pub sampled_at: Option<Duration>,
}

impl Default for GpuCache {
    /// No GPU reading known.
    fn default() -> (r: Self)
        ensures
            r.temp_celsius is None,
            r.usage_percent is None,
            r.memory_percent is None,
            r.decoder_percent is None,
            r.fan_percent is None,
            r.sampled_at is None,
    {
        GpuCache {
            temp_celsius: None,
            usage_percent: None,
            memory_percent: None,
            decoder_percent: None,
            fan_percent: None,
            sampled_at: None,
        }
    }
}

/// Cross-poll state of one sustained alert: whether it has fired, and when
/// (monotonic nanoseconds) its value first stood over the trip point.
#[derive(Debug, Clone, Copy, PartialEq, Eq)]
pub struct NotificationLatch {
    /// The alert has fired and waits for the value to clear.
    pub active: bool,
    /// Monotonic instant, in nanoseconds, since which the value has been
    /// over the trip point.
    pub since: Option<u128>,
}

impl Default for NotificationLatch {
    /// Not fired and not over.
    fn default() -> (r: Self)
        ensures
            r == (NotificationLatch { active: false, since: None }),
    {
        NotificationLatch { active: false, since: None }
    }
}

/// Edge state of every notification, kept across polls; the per-device
/// tables hold one pair per device key.
#[derive(Debug, Clone, PartialEq, Eq)]
pub struct NotificationState {
    /// CPU temperature latch.
    pub cpu_temp: NotificationLatch,
    /// GPU temperature latch.
    pub gpu_nvidia_temp: NotificationLatch,
    /// Whether each mount was over its usage threshold.
    pub disk: Vec<(String, bool)>,
    /// Whether each disk failed its SMART check.
    pub disk_smart: Vec<(String, bool)>,
    /// Temperature latch of each disk.
    pub hd_temp: Vec<(String, NotificationLatch)>,
    /// Whether each system battery was low.
    pub battery_sys: Vec<(String, bool)>,
    /// Whether the mouse battery was low.
    pub battery_mouse: bool,
    /// Whether the keyboard battery was low.
    pub battery_kbd: bool,
    /// Load-average latch.
    pub load_avg: NotificationLatch,
    /// Whether the checked server was down.
    pub server: bool,
}

impl Default for NotificationState {
    /// Nothing fired, nothing over, no device seen.
    fn default() -> (r: Self)
        ensures
            r.cpu_temp == (NotificationLatch { active: false, since: None }),
            r.gpu_nvidia_temp == (NotificationLatch { active: false, since: None }),
            r.disk@.len() == 0,
            r.disk_smart@.len() == 0,
            r.hd_temp@.len() == 0,
            r.battery_sys@.len() == 0,
            !r.battery_mouse,
            !r.battery_kbd,
            r.load_avg == (NotificationLatch { active: false, since: None }),
            !r.server,
    {
        NotificationState {
            cpu_temp: NotificationLatch::default(),
            gpu_nvidia_temp: NotificationLatch::default(),
            disk: Vec::new(),
            disk_smart: Vec::new(),
            hd_temp: Vec::new(),
            battery_sys: Vec::new(),
            battery_mouse: false,
            battery_kbd: false,
            load_avg: NotificationLatch::default(),
            server: false,
        }
    }
}

/// Aggregate mutable daemon state shared across collection polls.
#[derive(Debug, Clone, PartialEq)]
pub struct DaemonStateSnapshot {
    /// Previous aggregate `/proc/stat` counters.
    pub cpu_prev_times: Vec<u64>,
    /// Shared CPU history for panel/tooltip traces and graphs.
    pub cpu_history: Vec<i32>,
    /// Monotonic instant of the last CPU-history sample.
    pub cpu_history_sample_at: Option<Duration>,
    /// Shared memory history for panel/tooltip traces and graphs.
    pub mem_history: Vec<i32>,
    /// Monotonic instant of the last memory-history sample.
    pub mem_history_sample_at: Option<Duration>,
    /// Active GPU usage history for the graphs page.
    pub gpu_usage_history: Vec<i32>,
    /// Active GPU decoder history for the graphs page.
    pub gpu_dec_history: Vec<i32>,
    /// Monotonic instant of the last GPU-history sample.
    pub gpu_history_sample_at: Option<Duration>,
    /// Network upload history for the graphs page.
    pub net_up_history: Vec<u64>,
    /// Network download history for the graphs page.
    pub net_down_history: Vec<u64>,
    /// Monotonic instant of the last network-history sample.
    pub net_history_sample_at: Option<Duration>,
    /// Previous per-core `/proc/stat` counters.
    pub cpu_core_prev_times: Vec<Vec<u64>>,
    /// Per-core CPU histories.
    pub cpu_core_history: Vec<Vec<i32>>,
    /// Monotonic instant of the last per-core-history sample.
    pub cpu_core_history_sample_at: Option<Duration>,
    /// Previous process CPU totals keyed by pid.
    pub proc_prev_times: BTreeMap<u32, u64>,
    /// Monotonic instant of the previous process sample.
    pub proc_prev_sample_at: Option<Duration>,
    /// Cached panel top-process rows.
    pub top_process_cache: Option<Vec<TopProcessDetails>>,
    /// Monotonic instant of the cached top-process sample.
    pub top_process_cache_sample_at: Option<Duration>,
    /// Page-local previous process CPU totals keyed by pid.
    pub page_proc_prev_times: BTreeMap<u32, u64>,
    /// Monotonic instant of the previous page-process sample.
    pub page_proc_prev_sample_at: Option<Duration>,
    /// Previous Intel DRM engine counters keyed by DRM client id.
    pub intel_gpu_engine_prev: BTreeMap<u32, BTreeMap<String, u64>>,
    /// Monotonic instant of the previous Intel GPU sample.
    pub intel_gpu_prev_sample_at: Option<Duration>,
    /// Cached Intel GPU usage keyed by engine name.
    pub intel_gpu_usage_cache: BTreeMap<String, i32>,
    /// Monotonic instant of the cached Intel GPU usage sample.
    pub intel_gpu_usage_cache_sample_at: Option<Duration>,
    /// Previous network byte counters.
    pub net_rate: CounterRateState,
    /// Previous disk byte counters.
    pub disk_rate: CounterRateState,
    /// Cached system battery readings keyed by battery id.
    pub battery_sys_cache: BTreeMap<String, BatterySystemCache>,
    /// Cached mouse-battery reading.
    pub battery_mouse_cache: BatteryPeripheralCache,
    /// Cached keyboard-battery reading.
    pub battery_kbd_cache: BatteryPeripheralCache,
    /// Cached network identity reading.
    pub net_info_cache: NetworkInfoCache,
    /// Cached disk temperatures keyed by disk label.
    pub hd_temp_cache: BTreeMap<String, TimedValue<i32>>,
    /// Cached SMART health keyed by disk label.
    pub disk_smart_cache: BTreeMap<String, TimedValue<bool>>,
    /// Cached fan speeds keyed by fan label.
    pub fan_speed_cache: BTreeMap<String, TimedValue<i32>>,
    /// Cached GPU reading.
    pub gpu_cache: GpuCache,
    /// Active tooltip page index.
    pub active_page: usize,
    /// Number of published pages.
    pub page_count: usize,
    /// Wall/monotonic timestamp of the most recent successful poll.
    pub last_poll: Option<ClockSnapshot>,
}

impl Default for DaemonStateSnapshot {
    /// The state before the first poll: every history, counter table and
    /// cache empty, the first of one page active, and no poll yet.
    fn default() -> (r: Self)
        ensures
            r.cpu_prev_times@.len() == 0,
            r.cpu_history@.len() == 0,
            r.cpu_history_sample_at is None,
            r.mem_history@.len() == 0,
            r.mem_history_sample_at is None,
            r.gpu_usage_history@.len() == 0,
            r.gpu_dec_history@.len() == 0,
            r.gpu_history_sample_at is None,
            r.net_up_history@.len() == 0,
            r.net_down_history@.len() == 0,
            r.net_history_sample_at is None,
            r.cpu_core_prev_times@.len() == 0,
            r.cpu_core_history@.len() == 0,
            r.cpu_core_history_sample_at is None,
            r.proc_prev_times@ == Map::<u32, u64>::empty(),
            r.proc_prev_sample_at is None,
            r.top_process_cache is None,
            r.top_process_cache_sample_at is None,
            r.page_proc_prev_times@ == Map::<u32, u64>::empty(),
            r.page_proc_prev_sample_at is None,
            r.intel_gpu_engine_prev@ == Map::<u32, BTreeMap<String, u64>>::empty(),
            r.intel_gpu_prev_sample_at is None,
            r.intel_gpu_usage_cache@ == Map::<String, i32>::empty(),
            r.intel_gpu_usage_cache_sample_at is None,
            r.net_rate.prev_a == 0 && r.net_rate.prev_b == 0 && r.net_rate.sampled_at is None,
            r.disk_rate.prev_a == 0 && r.disk_rate.prev_b == 0 && r.disk_rate.sampled_at is None,
            r.battery_sys_cache@ == Map::<String, BatterySystemCache>::empty(),
            r.battery_mouse_cache.name@.len() == 0 && r.battery_mouse_cache.charge_percent is None
                && r.battery_mouse_cache.sampled_at is None,
            r.battery_kbd_cache.name@.len() == 0 && r.battery_kbd_cache.charge_percent is None
                && r.battery_kbd_cache.sampled_at is None,
            r.net_info_cache.device is None && r.net_info_cache.ip_address is None
                && r.net_info_cache.ssid is None && r.net_info_cache.signal_percent is None
                && r.net_info_cache.sampled_at is None,
            r.hd_temp_cache@ == Map::<String, TimedValue<i32>>::empty(),
            r.disk_smart_cache@ == Map::<String, TimedValue<bool>>::empty(),
            r.fan_speed_cache@ == Map::<String, TimedValue<i32>>::empty(),
            r.gpu_cache.temp_celsius is None && r.gpu_cache.usage_percent is None
                && r.gpu_cache.memory_percent is None && r.gpu_cache.decoder_percent is None
                && r.gpu_cache.fan_percent is None && r.gpu_cache.sampled_at is None,
            r.active_page == 0,
            r.page_count == 1,
            r.last_poll is None,
    {
        DaemonStateSnapshot {
            cpu_prev_times: Vec::new(),
            cpu_history: Vec::new(),
            cpu_history_sample_at: None,
            mem_history: Vec::new(),
            mem_history_sample_at: None,
            gpu_usage_history: Vec::new(),
            gpu_dec_history: Vec::new(),
            gpu_history_sample_at: None,
            net_up_history: Vec::new(),
            net_down_history: Vec::new(),
            net_history_sample_at: None,
            cpu_core_prev_times: Vec::new(),
            cpu_core_history: Vec::new(),
            cpu_core_history_sample_at: None,
            proc_prev_times: BTreeMap::new(),
            proc_prev_sample_at: None,
            top_process_cache: None,
            top_process_cache_sample_at: None,
            page_proc_prev_times: BTreeMap::new(),
            page_proc_prev_sample_at: None,
            intel_gpu_engine_prev: BTreeMap::new(),
            intel_gpu_prev_sample_at: None,
            intel_gpu_usage_cache: BTreeMap::new(),
            intel_gpu_usage_cache_sample_at: None,
            net_rate: CounterRateState::default(),
            disk_rate: CounterRateState::default(),
            battery_sys_cache: BTreeMap::new(),
            battery_mouse_cache: BatteryPeripheralCache::default(),
            battery_kbd_cache: BatteryPeripheralCache::default(),
            net_info_cache: NetworkInfoCache::default(),
            hd_temp_cache: BTreeMap::new(),
            disk_smart_cache: BTreeMap::new(),
            fan_speed_cache: BTreeMap::new(),
            gpu_cache: GpuCache::default(),
            active_page: 0,
            page_count: 1,
            last_poll: None,
        }
    }
}

} // verus!
