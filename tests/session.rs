use asitop::config::Cli;
use asitop::memory::memory_unavailable;
use asitop::metrics::{CpuMetrics, GpuMetrics, PowermetricsReading};
use asitop::session::{tdp_percent, AppState};
use asitop::soc::SocInfo;
use asitop::thermal::ThermalLevel;
use asitop::ui::Palette;

fn cli(interval: u64, avg: u64, max_count: u64) -> Cli {
    Cli { interval, color: 2, avg, show_cores: false, max_count }
}

fn state(config: Cli) -> AppState {
    let soc = SocInfo::from_parts("Apple M1 Pro".to_string(), 2, 8, 16);
    AppState::new(config, soc, memory_unavailable(16 << 30))
}

fn reading(ts: u64, cpu_mj: u64, gpu_mj: u64) -> PowermetricsReading {
    let mut cpu = CpuMetrics::empty();
    cpu.cpu_mj = cpu_mj;
    cpu.gpu_mj = gpu_mj;
    cpu.package_mj = cpu_mj + gpu_mj;
    cpu.ane_mj = 10;
    PowermetricsReading { timestamp_ns: ts, thermal_pressure: "Nominal".to_string(), cpu, gpu: GpuMetrics { active_pct: 5, freq_mhz: 400 } }
}

#[test]
fn duplicate_timestamps_are_taken_once() {
    let mut s = state(cli(1, 30, 0));
    let t = 1_000_000_000u64;
    assert!(s.update_if_new(reading(t, 1_000, 0)));
    assert!(!s.update_if_new(reading(t, 5_000, 0)));
    assert!(s.update_if_new(reading(t + 1, 3_000, 0)));
    assert_eq!(s.samples_taken, 2);
    assert_eq!(s.cpu_peak, 3_000);
    assert_eq!(s.cpu_avg.average(), 2_000);
    assert!(!s.update_if_new(reading(t - 5, 9_000, 0)));
    assert_eq!(s.samples_taken, 2);
}

#[test]
fn restart_after_quota_accepts_older_sample() {
    let mut s = state(cli(1, 30, 2));
    assert!(s.update_if_new(reading(100, 1, 1)));
    assert!(!s.restart_due());
    assert!(s.update_if_new(reading(200, 1, 1)));
    assert!(s.restart_due());
    s.begin_new_session();
    assert_eq!(s.samples_taken, 0);
    assert!(s.last_timestamp.is_none());
    assert!(s.update_if_new(reading(50, 1, 1)));
    assert_eq!(s.samples_taken, 1);
}

#[test]
fn zero_quota_never_restarts() {
    let mut s = state(cli(1, 30, 0));
    for ts in 1..10 {
        s.update_if_new(reading(ts, 1, 1));
    }
    assert!(!s.restart_due());
}

#[test]
fn energy_is_divided_by_interval() {
    let mut s = state(cli(2, 10, 0));
    s.apply_reading(reading(1, 3_000, 1_001));
    assert_eq!(s.cpu_power, 1_500);
    assert_eq!(s.gpu_power, 500);
    assert_eq!(s.package_power, 2_000);
    assert_eq!(s.ane_power, 5);
    assert_eq!(s.power_history.values(), vec![2_000]);
    let mut z = state(cli(0, 10, 0));
    z.apply_reading(reading(1, 3_000, 0));
    assert_eq!(z.cpu_power, 3_000);
}

#[test]
fn averaging_window_from_config() {
    let mut s = state(cli(10, 30, 0));
    for (i, mj) in [10_000u64, 20_000, 30_000, 40_000].iter().enumerate() {
        s.apply_reading(reading(i as u64 + 1, *mj, 0));
    }
    // window of 3 samples: (2000 + 3000 + 4000) / 3 mW
    assert_eq!(s.cpu_avg.average(), 3_000);
    assert_eq!(s.cpu_peak, 4_000);
}

#[test]
fn snapshot_figures() {
    let mut s = state(cli(1, 30, 0));
    s.apply_reading(reading(1, 20_000, 4_000));
    s.apply_reading(reading(2, 10_000, 2_000));
    let snap = s.snapshot();
    assert_eq!(snap.cpu_power.current, 10_000);
    assert_eq!(snap.cpu_power.peak, 20_000);
    assert_eq!(snap.cpu_power.average, 15_000);
    // 10 W of a 40 W ceiling
    assert_eq!(snap.cpu_power.percent_of_tdp, 25);
    assert_eq!(snap.gpu_power.percent_of_tdp, 5);
    assert_eq!(snap.package_power.percent_of_tdp, 0);
    assert_eq!(snap.power_history, vec![24_000, 12_000]);
    assert!(!snap.thermal_throttle);
    assert!(!snap.ram_has_swap);
    assert_eq!(snap.color, Palette::Green);
}

#[test]
fn throttle_by_level_then_label() {
    let mut s = state(cli(1, 30, 0));
    s.thermal_pressure = "  Nominal\n".to_string();
    assert!(!s.thermal_throttle());
    s.thermal_pressure = "Heavy".to_string();
    assert!(s.thermal_throttle());
    s.thermal_level = Some(ThermalLevel::Normal);
    assert!(!s.thermal_throttle());
    s.thermal_level = Some(ThermalLevel::Unknown(3));
    assert!(s.thermal_throttle());
}

#[test]
fn tdp_share_is_capped() {
    assert_eq!(tdp_percent(5_000, 20), 25);
    assert_eq!(tdp_percent(u64::MAX, 20), 999);
    assert_eq!(tdp_percent(5_000, 0), 0);
}
