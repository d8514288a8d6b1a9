use asitop::config::Cli;
use asitop::io_stats::{rate_from_delta, IoSampler};
use asitop::memory::{has_swap, memory_unavailable, memory_usage, VmCounts};
use asitop::soc::{lookup_caps, SocInfo};
use asitop::text::{ends_with, matches_at, trimmed_equals};
use asitop::thermal::ThermalLevel;
use asitop::ui::{
    bar_fill, block_bar, color_from_arg, core_columns, fit_to_width, history_percentages, sparkline_max, usage_level,
    Palette, UsageLevel,
};

#[test]
fn thermal_codes_and_labels() {
    assert_eq!(ThermalLevel::from_code(0), ThermalLevel::Normal);
    assert_eq!(ThermalLevel::from(100), ThermalLevel::Danger);
    assert_eq!(ThermalLevel::from(10), ThermalLevel::Crisis);
    assert_eq!(ThermalLevel::from(110), ThermalLevel::Crisis);
    assert_eq!(ThermalLevel::from(7), ThermalLevel::Unknown(7));
    assert_eq!(ThermalLevel::Normal.label(), "Nominal");
    assert!(!ThermalLevel::Normal.is_throttled());
    assert!(ThermalLevel::Danger.is_throttled());
    assert_eq!(ThermalLevel::Crisis.to_text(), "Crisis");
    assert_eq!(ThermalLevel::Unknown(4096).to_text(), "Unknown(4096)");
}

#[test]
fn config_derived_values() {
    let c = Cli { interval: 1, color: 2, avg: 30, show_cores: false, max_count: 0 };
    assert_eq!(c.averaging_window(), 30);
    assert_eq!(c.interval_ms(), 1_000);
    let c = Cli { interval: 0, color: 2, avg: 30, show_cores: false, max_count: 0 };
    assert_eq!(c.interval_seconds(), 1);
    assert_eq!(c.averaging_window(), 30);
    assert_eq!(c.interval_ms(), 0);
    let c = Cli { interval: 60, color: 2, avg: 30, show_cores: false, max_count: 0 };
    assert_eq!(c.averaging_window(), 1);
    let c = Cli { interval: u64::MAX, color: 2, avg: 0, show_cores: false, max_count: 0 };
    assert_eq!(c.interval_ms(), u64::MAX);
}

#[test]
fn power_ceilings_by_chip_name() {
    assert_eq!(lookup_caps("Apple M1 Pro"), (40, 40));
    assert_eq!(lookup_caps("Apple M2 Max"), (90, 90));
    assert_eq!(lookup_caps("Apple M1 Ultra"), (140, 140));
    assert_eq!(lookup_caps("Apple M3"), (20, 20));
    assert_eq!(lookup_caps("Pro Apple"), (20, 20));
    let soc = SocInfo::from_parts("Apple M2 Max".to_string(), 4, 8, 38);
    assert_eq!((soc.cpu_max_power, soc.gpu_max_power, soc.gpu_core_count), (90, 90, 38));
}

#[test]
fn memory_from_page_counts() {
    let counts = VmCounts { active: 100, wired: 50, compressed: 25, inactive: 40, free: 30, speculative: 10 };
    let m = memory_usage(counts, 16_384, 0, 2 << 30, 1 << 30);
    let page = 16_384u64;
    assert_eq!(m.total_bytes, (40 + 20 + 100 + 50 + 25) * page);
    assert_eq!(m.used_bytes, 175 * page);
    assert_eq!(m.used_percent, 74);
    assert!(has_swap(&m));
    let small_page = memory_usage(counts, 0, 1 << 40, 0, 0);
    assert_eq!(small_page.total_bytes, 1 << 40);
    assert_eq!(small_page.used_bytes, (1 << 40) - 60 * 4096);
    assert!(!has_swap(&small_page));
    let none = memory_unavailable(8 << 30);
    assert_eq!((none.total_bytes, none.used_bytes, none.used_percent), (8 << 30, 0, 0));
    let huge = VmCounts { active: u64::MAX, wired: 0, compressed: 0, inactive: 0, free: 0, speculative: 0 };
    assert_eq!(memory_usage(huge, 4096, 0, 0, 0).total_bytes, u64::MAX);
}

#[test]
fn io_rates_from_counter_growth() {
    assert_eq!(rate_from_delta(3_000, 1_000, 1_000), 2_000);
    assert_eq!(rate_from_delta(1_000, 3_000, 1_000), 0);
    assert_eq!(rate_from_delta(u64::MAX, 0, 1), u64::MAX);
    let mut s = IoSampler::new();
    assert!(s.is_due(0));
    let first = s.sample(10_000, Some((1_000, 2_000)), Some((0, 0)));
    assert_eq!((first.net_in, first.net_out), (0, 0));
    assert!(!s.is_due(10_400));
    let skipped = s.sample(10_400, Some((9_000_000, 9_000_000)), None);
    assert_eq!(skipped.net_in, 0);
    let second = s.sample(12_000, Some((5_000, 2_000)), None);
    assert_eq!((second.net_in, second.net_out), (2_000, 0));
    let third = s.sample(15_000, None, Some((4_096, 1_024)));
    assert_eq!((third.net_in, third.disk_read, third.disk_write), (2_000, 1_365, 341));
}

#[test]
fn text_checks() {
    assert!(trimmed_equals(" \tNominal\r\n", "Nominal"));
    assert!(trimmed_equals("Nominal", "Nominal"));
    assert!(!trimmed_equals("Nominal!", "Nominal"));
    assert!(!trimmed_equals("   ", "Nominal"));
    assert!(trimmed_equals("\u{3000}", ""));
    assert!(ends_with("Apple M1 Pro", "Pro"));
    assert!(!ends_with("Pr", "Pro"));
    assert!(matches_at("E-Cluster", 1, "-Cl"));
    assert!(!matches_at("E", 2, ""));
}

#[test]
fn palette_choice() {
    assert_eq!(color_from_arg(0), Palette::Reset);
    assert_eq!(color_from_arg(2), Palette::Green);
    assert_eq!(color_from_arg(8), Palette::LightMagenta);
    assert_eq!(color_from_arg(200), Palette::Green);
}

#[test]
fn core_grid_and_bars() {
    assert_eq!(core_columns(100, 0), 1);
    assert_eq!(core_columns(100, 8), 4);
    assert_eq!(core_columns(200, 8), 4);
    assert_eq!(core_columns(50, 8), 2);
    assert_eq!(core_columns(10, 8), 1);
    assert_eq!(core_columns(100, 3), 3);
    assert_eq!(bar_fill(50, 10), (5, 5));
    assert_eq!(bar_fill(1, 10), (1, 9));
    assert_eq!(bar_fill(250, 7), (7, 0));
    assert_eq!(block_bar(50, 4), "█████░░░░░");
    assert_eq!(block_bar(0, 12), "░░░░░░░░░░░░");
    assert_eq!(usage_level(95), UsageLevel::Critical);
    assert_eq!(usage_level(70), UsageLevel::High);
    assert_eq!(usage_level(50), UsageLevel::Medium);
    assert_eq!(usage_level(30), UsageLevel::Moderate);
    assert_eq!(usage_level(29), UsageLevel::Low);
}

#[test]
fn sparkline_values() {
    assert_eq!(history_percentages(&vec![0, 500, 1_000, 3_000], 2_000), vec![0, 25, 50, 150]);
    assert_eq!(history_percentages(&vec![1], 200), vec![1]);
    assert_eq!(fit_to_width(vec![1, 2, 3], 5), vec![0, 0, 1, 2, 3]);
    assert_eq!(fit_to_width(vec![1, 2, 3], 2), vec![2, 3]);
    assert_eq!(fit_to_width(vec![], 0), vec![0]);
    assert_eq!(fit_to_width(vec![4], 0), vec![4]);
    assert_eq!(sparkline_max(&vec![5, 250, 7]), 250);
    assert_eq!(sparkline_max(&vec![5]), 100);
}
