use asitop::metrics::{
    aggregate_cluster, cluster_stats, convert_snapshot, core_average, core_max_freq, display_freq, ratio_to_pct,
    ClusterData, CoreMetrics, RawCluster, RawCore, RawGpu, RawSample, RATIO_ONE,
};

fn core_of(id: u32, active_pct: u64, freq_mhz: u64) -> CoreMetrics {
    CoreMetrics { id, active_pct, freq_mhz }
}

fn cluster(name: &str, active_pct: u64, freq_mhz: u64) -> ClusterData {
    ClusterData { name: name.to_string(), active_pct, freq_mhz }
}

#[test]
fn active_percent_endpoints_and_range() {
    assert_eq!(ratio_to_pct(0), 100);
    assert_eq!(ratio_to_pct(RATIO_ONE), 0);
    for r in [-5_000_000i64, -1, 0, 1, 123_456, 500_000, 999_999, 1_000_000, 1_000_001, 42_000_000, 100_000_000, i64::MAX, i64::MIN] {
        assert!(ratio_to_pct(r) <= 100);
    }
}

#[test]
fn active_percent_rounds_and_rescales() {
    assert_eq!(ratio_to_pct(250_000), 75);
    // 0.995 idle -> 0.5% active, rounded half up
    assert_eq!(ratio_to_pct(995_000), 1);
    assert_eq!(ratio_to_pct(996_000), 0);
    // values above 1.0 are read on a 0..100 scale
    assert_eq!(ratio_to_pct(50_000_000), 50);
    assert_eq!(ratio_to_pct(90_000_000), 10);
    assert_eq!(ratio_to_pct(250_000_000), 0);
    assert_eq!(ratio_to_pct(-300_000), 100);
}

#[test]
fn frequency_heuristic() {
    // reported values are in thousandths of the reported unit
    assert_eq!(display_freq(0), 0);
    assert_eq!(display_freq(2_400_000), 2_400);
    assert_eq!(display_freq(972_700), 973);
    assert_eq!(display_freq(972_499), 972);
    assert_eq!(display_freq(99_999_400), 99_999);
    // 99 999.6 MHz rounds to 100 000 without being taken for Hz
    assert_eq!(display_freq(99_999_600), 100_000);
    assert_eq!(display_freq(100_000_000), 0);
    assert_eq!(display_freq(1_500_000_000_000), 1_500);
    // 1 499 999.6 Hz is 1.4999996 MHz
    assert_eq!(display_freq(1_499_999_600), 1);
    assert_eq!(display_freq(2_499_999_000), 2);
    assert_eq!(display_freq(2_500_000_000), 3);
    assert_eq!(display_freq(u64::MAX), 18_446_744_074);
}

#[test]
fn frequency_normalization_is_idempotent() {
    for f in [0u64, 1, 972_000, 99_999_499, 100_000_000, 600_000_000_000, 3_228_000_000_000, 99_999_499_999_999] {
        let once = display_freq(f);
        assert_eq!(display_freq(once * 1_000), once);
    }
}

#[test]
fn fallback_to_core_average_without_clusters() {
    let cores = vec![core_of(0, 50, 1_000), core_of(1, 70, 2_000)];
    assert_eq!(aggregate_cluster(&vec![], &cores, 'P'), (60, 2_000));
}

#[test]
fn primary_cluster_wins_per_figure() {
    let clusters = vec![cluster("PX-Cluster", 90, 3_000), cluster("P-Cluster", 40, 0)];
    let cores = vec![core_of(4, 10, 1_200)];
    assert_eq!(cluster_stats(&clusters, 'P'), (Some(40), None));
    assert_eq!(aggregate_cluster(&clusters, &cores, 'P'), (40, 1_200));
}

#[test]
fn matching_clusters_are_averaged() {
    let clusters = vec![cluster("PX-Cluster", 30, 2_000), cluster("PY-Cluster", 61, 3_200), cluster("E-Other", 99, 9_999)];
    assert_eq!(cluster_stats(&clusters, 'P'), (Some(45), Some(3_200)));
    assert_eq!(cluster_stats(&clusters, 'E'), (Some(99), Some(9_999)));
    assert_eq!(cluster_stats(&vec![cluster("PZ", 0, 0)], 'P'), (None, None));
    assert_eq!(cluster_stats(&vec![], 'E'), (None, None));
}

#[test]
fn no_data_reports_zero() {
    assert_eq!(aggregate_cluster(&vec![], &vec![], 'E'), (0, 0));
    assert_eq!(core_average(&vec![]), 0);
    assert_eq!(core_max_freq(&vec![]), 0);
    assert_eq!(core_average(&vec![core_of(0, 33, 0), core_of(1, 34, 0)]), 33);
}

fn raw_core(cpu: u32, freq: u64, idle_ratio: i64) -> RawCore {
    RawCore { cpu, freq, idle_ratio }
}

#[test]
fn snapshot_is_normalized_per_class() {
    let raw = RawSample {
        timestamp_ns: 7,
        thermal_pressure: "Nominal".to_string(),
        clusters: vec![
            RawCluster {
                name: "E-Cluster".to_string(),
                freq: 972_000_000_000,
                idle_ratio: 750_000,
                cpus: vec![raw_core(0, 972_000_000_000, 500_000), raw_core(1, 600_000, 1_000_000)],
            },
            RawCluster { name: "PX-Cluster".to_string(), freq: 0, idle_ratio: 1_000_000, cpus: vec![raw_core(2, 3_200_000_000_000, 0)] },
            RawCluster { name: "X-Cluster".to_string(), freq: 5_000, idle_ratio: 0, cpus: vec![raw_core(3, 1_000_000, 800_000)] },
        ],
        gpu: RawGpu { freq: 1_398_000_000_000, idle_ratio: 900_000 },
        cpu_energy_mj: 1_500,
        gpu_energy_mj: 200,
        ane_energy_mj: 0,
        combined_energy_mj: 1_700,
    };
    let r = convert_snapshot(raw);
    assert_eq!(r.timestamp_ns, 7);
    assert_eq!(r.thermal_pressure, "Nominal");
    assert_eq!(r.cpu.e_cores, vec![core_of(0, 50, 972), core_of(1, 0, 600)]);
    assert_eq!(r.cpu.p_cores, vec![core_of(2, 100, 3_200), core_of(3, 20, 1_000)]);
    assert_eq!((r.cpu.e_cluster_active, r.cpu.e_cluster_freq_mhz), (25, 972));
    // the only P cluster reports nothing: fall back to the P cores
    assert_eq!((r.cpu.p_cluster_active, r.cpu.p_cluster_freq_mhz), (60, 3_200));
    assert_eq!((r.gpu.active_pct, r.gpu.freq_mhz), (10, 1_398));
    assert_eq!((r.cpu.cpu_mj, r.cpu.gpu_mj, r.cpu.ane_mj, r.cpu.package_mj), (1_500, 200, 0, 1_700));
}

#[test]
fn small_cluster_activity_is_kept_over_cores() {
    // summed activity 1%, mean rounds down to 0: the cluster level still decides
    let clusters = vec![cluster("PX-Cluster", 1, 2_000), cluster("PY-Cluster", 0, 1_000)];
    let cores = vec![core_of(0, 50, 3_000)];
    assert_eq!(cluster_stats(&clusters, 'P'), (Some(0), Some(2_000)));
    assert_eq!(aggregate_cluster(&clusters, &cores, 'P'), (0, 2_000));
}
