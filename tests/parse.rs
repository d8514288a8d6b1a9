use asitop::powermetrics::{startup_progress, startup_step, startup_timeout_secs, StartupStep, MAX_WAIT_ATTEMPTS};
use asitop::soc::gpu_core_count_from_line;
use asitop::text::{decimal_text, parse_u32, trim_bounds};

#[test]
fn unsigned_numbers_as_from_str_reads_them() {
    assert_eq!(parse_u32("0"), Some(0));
    assert_eq!(parse_u32("42"), Some(42));
    assert_eq!(parse_u32("+7"), Some(7));
    assert_eq!(parse_u32("007"), Some(7));
    assert_eq!(parse_u32("4294967295"), Some(u32::MAX));
    assert_eq!(parse_u32("4294967296"), None);
    assert_eq!(parse_u32("99999999999x"), None);
    assert_eq!(parse_u32(""), None);
    assert_eq!(parse_u32("+"), None);
    assert_eq!(parse_u32("-1"), None);
    assert_eq!(parse_u32("1 2"), None);
    assert_eq!(parse_u32(" 3"), None);
    for s in ["0", "+12", "12a", "", "4294967296", "٣"] {
        assert_eq!(parse_u32(s), s.parse::<u32>().ok());
    }
}

#[test]
fn gpu_core_count_lines() {
    assert_eq!(gpu_core_count_from_line("      Total Number of Cores: 10"), Some(10));
    assert_eq!(gpu_core_count_from_line("Total Number of Cores:  38  \r"), Some(38));
    assert_eq!(gpu_core_count_from_line("Total Number of Cores: many"), None);
    assert_eq!(gpu_core_count_from_line("Chipset Model: Apple M1"), None);
    assert_eq!(gpu_core_count_from_line("Total Number of Cores:"), None);
    let report = "Graphics/Displays:\n\n    Apple M2:\n\n      Chipset Model: Apple M2\n      Total Number of Cores: 10\n";
    assert_eq!(report.lines().find_map(gpu_core_count_from_line), Some(10));
}

#[test]
fn trimming_bounds() {
    assert_eq!(trim_bounds("  ab c \n"), (2, 6));
    assert_eq!(trim_bounds("   "), (3, 3));
    assert_eq!(trim_bounds(""), (0, 0));
}

#[test]
fn startup_wait_reports_every_five_seconds() {
    assert_eq!(MAX_WAIT_ATTEMPTS, 300);
    assert_eq!(startup_progress(0), None);
    assert_eq!(startup_progress(48), None);
    assert_eq!(startup_progress(49), Some(5));
    assert_eq!(startup_progress(99), Some(10));
    assert_eq!(startup_progress(299), Some(30));
    assert_eq!(startup_progress(u32::MAX), None);
}

#[test]
fn decimal_digits() {
    assert_eq!(decimal_text(0), "0");
    assert_eq!(decimal_text(7), "7");
    assert_eq!(decimal_text(10), "10");
    assert_eq!(decimal_text(1_700_000_000), "1700000000");
    assert_eq!(decimal_text(u64::MAX), u64::MAX.to_string());
}

#[test]
fn startup_wait_steps() {
    assert_eq!(startup_step(0), StartupStep::Wait(None));
    assert_eq!(startup_step(49), StartupStep::Wait(Some(5)));
    assert_eq!(startup_step(298), StartupStep::Wait(None));
    assert_eq!(startup_step(299), StartupStep::GiveUp);
    assert_eq!(startup_step(u32::MAX), StartupStep::GiveUp);
    assert_eq!(startup_timeout_secs(100), 30);
    assert_eq!(startup_timeout_secs(u64::MAX), u64::MAX / 1000);
}
