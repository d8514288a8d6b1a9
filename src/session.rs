//! The long-lived session: accepts fresh samples, keeps the power statistics and
//! the restart cadence, and assembles what the dashboard shows.
use crate::config::{interval_seconds_of, Cli};
use crate::io_stats::IoStats;
use crate::memory::{has_swap, MemoryStats};
use crate::metrics::{CpuMetrics, GpuMetrics, PowermetricsReading};
use crate::soc::SocInfo;
use crate::stats::{keep_last, mean, History, RollingAverage};
use crate::text::{trimmed, trimmed_equals};
use crate::thermal::ThermalLevel;
use crate::ui::{color_from_arg, palette_of, Palette};
use vstd::prelude::*;

verus! {

/// Samples kept for the power sparkline.
pub const HISTORY_LEN: usize = 120;

/// A sample is taken when no sample was seen yet in this session, or when it is
/// strictly newer than the last one taken.
pub open spec fn accepts(last: Option<u64>, timestamp: u64) -> bool {
    match last {
        None => true,
        Some(t) => timestamp > t,
    }
}

/// Power in milliwatts of an energy in millijoules spread over the interval.
pub open spec fn power_of(energy_mj: u64, config: Cli) -> u64 {
    (energy_mj as int / interval_seconds_of(config)) as u64
}

pub open spec fn sat_add(a: u64, b: u64) -> u64 {
    if a + b > u64::MAX {
        u64::MAX
    } else {
        (a + b) as u64
    }
}

pub open spec fn max_u64(a: u64, b: u64) -> u64 {
    if a >= b {
        a
    } else {
        b
    }
}

/// Whether the thermal state counts as throttling: by the warning level when it
/// is known, else by the sample's pressure label, which is fine only when it reads
/// `Nominal`.
pub open spec fn throttled_of(level: Option<ThermalLevel>, pressure: Seq<char>) -> bool {
    match level {
        Some(l) => !(l is Normal),
        None => trimmed(pressure) != "Nominal"@,
    }
}

/// Share of a power ceiling in percent, rounded down and capped at 999; 0 without
/// a ceiling.
pub open spec fn tdp_percent_of(power_mw: u64, ceiling_w: u64) -> u64 {
    if ceiling_w == 0 {
        0
    } else {
        let p = power_mw as int / (10 * ceiling_w);
        if p > 999 {
            999
        } else {
            p as u64
        }
    }
}

/// Current, average and peak power of one component, in milliwatts.
#[derive(Clone, Copy, Debug, PartialEq, Eq, Structural)]
pub struct PowerSnapshot {
    pub current: u64,
    pub average: u64,
    pub peak: u64,
    pub percent_of_tdp: u64,
}

/// Everything a dashboard redraw needs.
#[derive(Debug)]
pub struct UiSnapshot<'a> {
    pub soc: &'a SocInfo,
    pub cpu: &'a CpuMetrics,
    pub gpu: &'a GpuMetrics,
    pub memory: &'a MemoryStats,
    pub io: IoStats,
    pub thermal_throttle: bool,
    pub color: Palette,
    pub show_cores: bool,
    pub ane_power_mw: u64,
    pub ram_has_swap: bool,
    pub swap_used_bytes: u64,
    pub swap_total_bytes: u64,
    pub cpu_power: PowerSnapshot,
    pub gpu_power: PowerSnapshot,
    pub package_power: PowerSnapshot,
    pub power_history: Vec<u64>,
}

/// The session's state. Powers are in milliwatts.
#[derive(Debug)]
pub struct AppState {
    pub config: Cli,
    pub soc: SocInfo,
    pub color: Palette,
    pub memory_stats: MemoryStats,
    pub cpu_metrics: CpuMetrics,
    pub gpu_metrics: GpuMetrics,
    pub io_stats: IoStats,
    pub thermal_pressure: String,
    pub thermal_level: Option<ThermalLevel>,
    pub last_timestamp: Option<u64>,
    pub power_history: History,
    pub cpu_avg: RollingAverage,
    pub gpu_avg: RollingAverage,
    pub package_avg: RollingAverage,
    pub cpu_peak: u64,
    pub gpu_peak: u64,
    pub package_peak: u64,
    pub cpu_power: u64,
    pub gpu_power: u64,
    pub package_power: u64,
    pub ane_power: u64,
    pub samples_taken: u64,
}

/// `new` holds the power figures of `metrics` fed into the statistics of `old`:
/// powers from the energies over the interval, peaks raised, averages and the
/// CPU+GPU history extended.
pub open spec fn power_fed(old: AppState, metrics: CpuMetrics, new: AppState) -> bool {
    let cpu = power_of(metrics.cpu_mj, old.config);
    let gpu = power_of(metrics.gpu_mj, old.config);
    let package = power_of(metrics.package_mj, old.config);
    &&& new.cpu_power == cpu
    &&& new.gpu_power == gpu
    &&& new.package_power == package
    &&& new.ane_power == power_of(metrics.ane_mj, old.config)
    &&& new.cpu_peak == max_u64(old.cpu_peak, cpu)
    &&& new.gpu_peak == max_u64(old.gpu_peak, gpu)
    &&& new.package_peak == max_u64(old.package_peak, package)
    &&& new.cpu_avg.window() == old.cpu_avg.window()
    &&& new.gpu_avg.window() == old.gpu_avg.window()
    &&& new.package_avg.window() == old.package_avg.window()
    &&& new.cpu_avg@ == keep_last(old.cpu_avg@.push(cpu), old.cpu_avg.window())
    &&& new.gpu_avg@ == keep_last(old.gpu_avg@.push(gpu), old.gpu_avg.window())
    &&& new.package_avg@ == keep_last(old.package_avg@.push(package), old.package_avg.window())
    &&& new.power_history.capacity() == old.power_history.capacity()
    &&& new.power_history@ == keep_last(
        old.power_history@.push(sat_add(cpu, gpu)),
        old.power_history.capacity(),
    )
}

/// The parts of the state that samples leave alone.
pub open spec fn same_setting(a: AppState, b: AppState) -> bool {
    &&& a.config == b.config
    &&& a.soc == b.soc
    &&& a.color == b.color
    &&& a.memory_stats == b.memory_stats
    &&& a.io_stats == b.io_stats
    &&& a.thermal_level == b.thermal_level
}

/// `new` is `old` after taking `reading` as the latest sample.
pub open spec fn sample_taken(old: AppState, reading: PowermetricsReading, new: AppState) -> bool {
    &&& same_setting(old, new)
    &&& new.last_timestamp == Some(reading.timestamp_ns)
    &&& new.thermal_pressure == reading.thermal_pressure
    &&& new.cpu_metrics == reading.cpu
    &&& new.gpu_metrics == reading.gpu
    &&& new.samples_taken == sat_add(old.samples_taken, 1)
    &&& power_fed(old, reading.cpu, new)
}

/// One offer of `reading` to the session `old`, as `update_if_new` makes it: taken
/// exactly when it is newer than the last sample, and then recorded; otherwise
/// nothing changes.
pub open spec fn offered(old: AppState, reading: PowermetricsReading, taken: bool, new: AppState) -> bool {
    &&& taken == accepts(old.last_timestamp, reading.timestamp_ns)
    &&& taken ==> sample_taken(old, reading, new)
    &&& !taken ==> new == old
}

/// Offering samples stamped `t`, `t` and `t + 1`, in that order, to a session that
/// has seen nothing newer than `t` takes the first and the third and drops the
/// repeat: the sample count rises by exactly two (short of saturation) and the
/// last timestamp is `t + 1`.
pub proof fn lemma_repeated_timestamp_taken_once(
    s0: AppState,
    r1: PowermetricsReading,
    taken1: bool,
    s1: AppState,
    r2: PowermetricsReading,
    taken2: bool,
    s2: AppState,
    r3: PowermetricsReading,
    taken3: bool,
    s3: AppState,
)
    requires
        r1.timestamp_ns == r2.timestamp_ns,
        r3.timestamp_ns == r1.timestamp_ns + 1,
        accepts(s0.last_timestamp, r1.timestamp_ns),
        s0.samples_taken + 2 <= u64::MAX,
        offered(s0, r1, taken1, s1),
        offered(s1, r2, taken2, s2),
        offered(s2, r3, taken3, s3),
    ensures
        taken1,
        !taken2,
        taken3,
        s3.samples_taken == s0.samples_taken + 2,
        s3.last_timestamp == Some(r3.timestamp_ns),
{
}

fn max_of(a: u64, b: u64) -> (m: u64)
    ensures
        m == max_u64(a, b),
{
    if a >= b {
        a
    } else {
        b
    }
}

impl AppState {
    /// A session before its first sample.
    pub fn new(config: Cli, soc: SocInfo, memory_stats: MemoryStats) -> (s: AppState)
        ensures
            s.config == config,
            s.soc == soc,
            s.color == palette_of(config.color),
            s.memory_stats == memory_stats,
            s.last_timestamp is None,
            s.thermal_level is None,
            s.samples_taken == 0,
            s.power_history@.len() == 0,
            s.power_history.capacity() == HISTORY_LEN,
            s.cpu_avg@.len() == 0 && s.gpu_avg@.len() == 0 && s.package_avg@.len() == 0,
            s.cpu_avg.window() == crate::config::averaging_window_of(config),
            s.gpu_avg.window() == crate::config::averaging_window_of(config),
            s.package_avg.window() == crate::config::averaging_window_of(config),
            s.cpu_peak == 0 && s.gpu_peak == 0 && s.package_peak == 0,
            s.cpu_power == 0 && s.gpu_power == 0 && s.package_power == 0 && s.ane_power == 0,
    {
        let window = config.averaging_window();
        AppState {
            color: color_from_arg(config.color),
            config,
            soc,
            memory_stats,
            cpu_metrics: CpuMetrics::empty(),
            gpu_metrics: GpuMetrics { active_pct: 0, freq_mhz: 0 },
            io_stats: IoStats { net_in: 0, net_out: 0, disk_read: 0, disk_write: 0 },
            thermal_pressure: String::new(),
            thermal_level: None,
            last_timestamp: None,
            power_history: History::new(HISTORY_LEN),
            cpu_avg: RollingAverage::new(window),
            gpu_avg: RollingAverage::new(window),
            package_avg: RollingAverage::new(window),
            cpu_peak: 0,
            gpu_peak: 0,
            package_peak: 0,
            cpu_power: 0,
            gpu_power: 0,
            package_power: 0,
            ane_power: 0,
            samples_taken: 0,
        }
    }

    /// Feeds the energies of the current metrics into the power statistics.
    pub fn update_power_stats(&mut self)
        ensures
            power_fed(*old(self), old(self).cpu_metrics, *final(self)),
            same_setting(*old(self), *final(self)),
            final(self).last_timestamp == old(self).last_timestamp,
            final(self).thermal_pressure == old(self).thermal_pressure,
            final(self).cpu_metrics == old(self).cpu_metrics,
            final(self).gpu_metrics == old(self).gpu_metrics,
            final(self).samples_taken == old(self).samples_taken,
    {
        let interval = self.config.interval_seconds();
        self.cpu_power = self.cpu_metrics.cpu_mj / interval;
        self.gpu_power = self.cpu_metrics.gpu_mj / interval;
        self.package_power = self.cpu_metrics.package_mj / interval;
        self.ane_power = self.cpu_metrics.ane_mj / interval;
        self.cpu_peak = max_of(self.cpu_peak, self.cpu_power);
        self.gpu_peak = max_of(self.gpu_peak, self.gpu_power);
        self.package_peak = max_of(self.package_peak, self.package_power);
        self.cpu_avg.push(self.cpu_power);
        self.gpu_avg.push(self.gpu_power);
        self.package_avg.push(self.package_power);
        let combined = if self.cpu_power > u64::MAX - self.gpu_power {
            u64::MAX
        } else {
            self.cpu_power + self.gpu_power
        };
        self.power_history.push(combined);
    }

    /// Takes a sample unconditionally.
    pub fn apply_reading(&mut self, reading: PowermetricsReading)
        ensures
            sample_taken(*old(self), reading, *final(self)),
    {
        self.last_timestamp = Some(reading.timestamp_ns);
        self.thermal_pressure = reading.thermal_pressure;
        self.cpu_metrics = reading.cpu;
        self.gpu_metrics = reading.gpu;
        self.update_power_stats();
        if self.samples_taken < u64::MAX {
            self.samples_taken = self.samples_taken + 1;
        }
    }

    /// Takes a sample only when it is newer than the last one taken; a stale or
    /// repeated read leaves the state as it was. Returns whether it was taken.
    pub fn update_if_new(&mut self, reading: PowermetricsReading) -> (taken: bool)
        ensures
            offered(*old(self), reading, taken, *final(self)),
    {
        if let Some(last) = self.last_timestamp {
            if reading.timestamp_ns <= last {
                return false;
            }
        }
        self.apply_reading(reading);
        true
    }

    /// Whether the sampler is due for a restart: restarts are enabled and the
    /// session has taken its quota of samples.
    pub fn restart_due(&self) -> (due: bool)
        ensures
            due == (self.config.max_count > 0 && self.samples_taken >= self.config.max_count),
    {
        self.config.max_count > 0 && self.samples_taken >= self.config.max_count
    }

    /// Starts counting afresh after a restart; the next sample is taken whatever
    /// its timestamp.
    pub fn begin_new_session(&mut self)
        ensures
            *final(self) == (AppState { samples_taken: 0, last_timestamp: None, ..*old(self) }),
    {
        self.samples_taken = 0;
        self.last_timestamp = None;
    }

    /// Whether the machine is throttling.
    pub fn thermal_throttle(&self) -> (t: bool)
        ensures
            t == throttled_of(self.thermal_level, self.thermal_pressure@),
    {
        match self.thermal_level {
            Some(level) => level.is_throttled(),
            None => {
                let nominal = "Nominal";
                !trimmed_equals(self.thermal_pressure.as_str(), nominal)
            },
        }
    }

    /// What the dashboard shows now.
    pub fn snapshot(&self) -> (s: UiSnapshot<'_>)
        ensures
            s.soc == &self.soc,
            s.cpu == &self.cpu_metrics,
            s.gpu == &self.gpu_metrics,
            s.memory == &self.memory_stats,
            s.io == self.io_stats,
            s.thermal_throttle == throttled_of(self.thermal_level, self.thermal_pressure@),
            s.color == self.color,
            s.show_cores == self.config.show_cores,
            s.ane_power_mw == self.ane_power,
            s.ram_has_swap == (self.memory_stats.swap_total_bytes * 10 >= 1024 * 1024 * 1024),
            s.swap_used_bytes == self.memory_stats.swap_used_bytes,
            s.swap_total_bytes == self.memory_stats.swap_total_bytes,
            s.cpu_power == (PowerSnapshot {
                current: self.cpu_power,
                average: mean(self.cpu_avg@) as u64,
                peak: self.cpu_peak,
                percent_of_tdp: tdp_percent_of(self.cpu_power, self.soc.cpu_max_power),
            }),
            s.gpu_power == (PowerSnapshot {
                current: self.gpu_power,
                average: mean(self.gpu_avg@) as u64,
                peak: self.gpu_peak,
                percent_of_tdp: tdp_percent_of(self.gpu_power, self.soc.gpu_max_power),
            }),
            s.package_power == (PowerSnapshot {
                current: self.package_power,
                average: mean(self.package_avg@) as u64,
                peak: self.package_peak,
                percent_of_tdp: 0,
            }),
            s.power_history@ == self.power_history@,
    {
        UiSnapshot {
            soc: &self.soc,
            cpu: &self.cpu_metrics,
            gpu: &self.gpu_metrics,
            memory: &self.memory_stats,
            io: self.io_stats,
            thermal_throttle: self.thermal_throttle(),
            color: self.color,
            show_cores: self.config.show_cores,
            ane_power_mw: self.ane_power,
            ram_has_swap: has_swap(&self.memory_stats),
            swap_used_bytes: self.memory_stats.swap_used_bytes,
            swap_total_bytes: self.memory_stats.swap_total_bytes,
            cpu_power: PowerSnapshot {
                current: self.cpu_power,
                average: self.cpu_avg.average(),
                peak: self.cpu_peak,
                percent_of_tdp: tdp_percent(self.cpu_power, self.soc.cpu_max_power),
            },
            gpu_power: PowerSnapshot {
                current: self.gpu_power,
                average: self.gpu_avg.average(),
                peak: self.gpu_peak,
                percent_of_tdp: tdp_percent(self.gpu_power, self.soc.gpu_max_power),
            },
            package_power: PowerSnapshot {
                current: self.package_power,
                average: self.package_avg.average(),
                peak: self.package_peak,
                percent_of_tdp: 0,
            },
            power_history: self.power_history.values(),
        }
    }
}

/// Share of a power ceiling in percent, rounded down and capped at 999.
pub fn tdp_percent(power_mw: u64, ceiling_w: u64) -> (p: u64)
    ensures
        p == tdp_percent_of(power_mw, ceiling_w),
{
    if ceiling_w == 0 {
        return 0;
    }
    let p = power_mw as u128 / (10 * ceiling_w as u128);
    if p > 999 {
        999
    } else {
        p as u64
    }
}

} // verus!
