//! Normalization of one raw sample into display-ready metrics.
//!
//! Fractions arrive as fixed-point integers in millionths (`RATIO_ONE` is 1.0),
//! frequencies in thousandths of whatever unit the producer reported (Hz or MHz).
use vstd::prelude::*;
use crate::text::{matches_at, starts_with_char};

verus! {

/// Fixed-point scale of a ratio: this value stands for 1.0.
pub const RATIO_ONE: i64 = 1_000_000;

/// Fixed-point scale of a reported frequency: this value stands for 1 (Hz or MHz).
pub const FREQ_ONE: u64 = 1_000;

/// Reported frequencies at or above this (100 000 units) are taken to be in Hz.
pub const HZ_THRESHOLD: u64 = 100_000_000;

/// A reported Hz frequency of this value is one MHz.
pub const HZ_PER_MHZ: u64 = 1_000_000_000;

pub open spec fn clamp(x: int, lo: int, hi: int) -> int {
    if x < lo {
        lo
    } else if x > hi {
        hi
    } else {
        x
    }
}

/// An idle ratio rescaled to hundredths of `RATIO_ONE`: ratios above 1.0 are read
/// as already given on a 0..100 scale.
pub open spec fn ratio_in_hundredths(idle: int) -> int {
    if idle > RATIO_ONE {
        idle
    } else {
        100 * idle
    }
}

/// `round((1 - ratio) * 100)` with the ratio rescaled and clamped to `[0, 1]`;
/// halves round up.
pub open spec fn active_percent(idle: int) -> int {
    let n = clamp(ratio_in_hundredths(idle), 0, 100 * RATIO_ONE);
    (100 * RATIO_ONE - n + RATIO_ONE / 2) / RATIO_ONE as int
}

/// `f / d` rounded to the nearest whole number, halves up.
pub open spec fn rounded_div(f: int, d: int) -> int {
    f / d + if f % d >= d / 2 {
        1int
    } else {
        0int
    }
}

/// A reported frequency in whole MHz: values of at least `HZ_THRESHOLD` are Hz and
/// are divided by a million, smaller values are already MHz; either way rounded
/// to the nearest MHz, halves up.
pub open spec fn normalized_freq(f: int) -> int {
    if f >= HZ_THRESHOLD {
        rounded_div(f, HZ_PER_MHZ as int)
    } else {
        rounded_div(f, FREQ_ONE as int)
    }
}

/// Active percentage of a component from its idle ratio.
pub fn ratio_to_pct(idle_ratio: i64) -> (pct: u64)
    ensures
        pct == active_percent(idle_ratio as int),
        pct <= 100,
{
    let n: i64 = if idle_ratio > RATIO_ONE {
        if idle_ratio > 100 * RATIO_ONE {
            100 * RATIO_ONE
        } else {
            idle_ratio
        }
    } else if idle_ratio < 0 {
        0
    } else {
        idle_ratio * 100
    };
    let pct: i64 = (100 * RATIO_ONE - n + RATIO_ONE / 2) / RATIO_ONE;
    pct as u64
}

/// Frequency in MHz from a reported value in Hz or MHz.
pub fn display_freq(freq: u64) -> (mhz: u64)
    ensures
        mhz == normalized_freq(freq as int),
{
    let d: u64 = if freq >= HZ_THRESHOLD {
        HZ_PER_MHZ
    } else {
        FREQ_ONE
    };
    let whole: u64 = freq / d;
    proof {
        assert(whole <= u64::MAX / 1000) by (nonlinear_arith)
            requires
                whole == freq / d,
                d >= 1000,
        ;
    }
    if freq % d >= d / 2 {
        whole + 1
    } else {
        whole
    }
}

/// One CPU core's normalized figures.
#[derive(Clone, Copy, Debug, PartialEq, Eq)]
pub struct CoreMetrics {
    pub id: u32,
    pub active_pct: u64,
    pub freq_mhz: u64,
}

/// One cluster's normalized figures, kept for cluster-level aggregation.
#[derive(Debug)]
pub struct ClusterData {
    pub name: String,
    pub active_pct: u64,
    pub freq_mhz: u64,
}

/// The name of the cluster that carries a class's own rollup: `"E-Cluster"` for
/// `'E'`.
pub open spec fn primary_label(prefix: char) -> Seq<char> {
    seq![prefix, '-', 'C', 'l', 'u', 's', 't', 'e', 'r']
}

pub open spec fn begins_with(name: Seq<char>, c: char) -> bool {
    name.len() > 0 && name[0] == c
}

pub open spec fn nonzero(x: u64) -> Option<u64> {
    if x > 0 {
        Some(x)
    } else {
        None
    }
}

pub open spec fn max(a: int, b: int) -> int {
    if a >= b {
        a
    } else {
        b
    }
}

/// Sum of the cores' active percentages.
pub open spec fn active_sum(cores: Seq<CoreMetrics>) -> int
    decreases cores.len(),
{
    if cores.len() == 0 {
        0
    } else {
        active_sum(cores.drop_last()) + cores.last().active_pct
    }
}

/// Highest core frequency, 0 for no cores.
pub open spec fn max_core_freq(cores: Seq<CoreMetrics>) -> int
    decreases cores.len(),
{
    if cores.len() == 0 {
        0
    } else {
        max(max_core_freq(cores.drop_last()), cores.last().freq_mhz as int)
    }
}

/// Unweighted mean of the cores' active percentages, rounded down; 0 for no cores.
pub open spec fn core_average_of(cores: Seq<CoreMetrics>) -> int {
    if cores.len() == 0 {
        0
    } else {
        active_sum(cores) / cores.len() as int
    }
}

/// `i` is the first position of a cluster named `primary_label(prefix)`.
pub open spec fn is_first_primary(cs: Seq<ClusterData>, prefix: char, i: int) -> bool {
    &&& 0 <= i < cs.len()
    &&& cs[i].name@ == primary_label(prefix)
    &&& forall|j: int| 0 <= j < i ==> cs[j].name@ != primary_label(prefix)
}

pub open spec fn has_primary(cs: Seq<ClusterData>, prefix: char) -> bool {
    exists|i: int| 0 <= i < cs.len() && cs[i].name@ == primary_label(prefix)
}

/// Number of clusters whose name begins with `prefix`.
pub open spec fn matching_count(cs: Seq<ClusterData>, prefix: char) -> int
    decreases cs.len(),
{
    if cs.len() == 0 {
        0
    } else {
        matching_count(cs.drop_last(), prefix) + if begins_with(cs.last().name@, prefix) {
            1int
        } else {
            0int
        }
    }
}

/// Sum of the active percentages of the clusters whose name begins with `prefix`.
pub open spec fn matching_active_sum(cs: Seq<ClusterData>, prefix: char) -> int
    decreases cs.len(),
{
    if cs.len() == 0 {
        0
    } else {
        matching_active_sum(cs.drop_last(), prefix) + if begins_with(cs.last().name@, prefix) {
            cs.last().active_pct as int
        } else {
            0int
        }
    }
}

/// Highest frequency among the clusters whose name begins with `prefix`, 0 for none.
pub open spec fn matching_max_freq(cs: Seq<ClusterData>, prefix: char) -> int
    decreases cs.len(),
{
    if cs.len() == 0 {
        0
    } else if begins_with(cs.last().name@, prefix) {
        max(matching_max_freq(cs.drop_last(), prefix), cs.last().freq_mhz as int)
    } else {
        matching_max_freq(cs.drop_last(), prefix)
    }
}

/// Cluster-level active percentage and frequency of a class, each `None` where the
/// cluster level has nothing nonzero to offer: the first cluster named
/// `"{prefix}-Cluster"` if there is one, else, over the clusters whose name begins
/// with `prefix`, the mean active percentage (when their summed activity is
/// nonzero) and the highest frequency.
pub open spec fn cluster_level(cs: Seq<ClusterData>, prefix: char) -> (Option<u64>, Option<u64>) {
    if has_primary(cs, prefix) {
        let p = cs[choose|i: int| is_first_primary(cs, prefix, i)];
        (nonzero(p.active_pct), nonzero(p.freq_mhz))
    } else if matching_count(cs, prefix) > 0 {
        let avg = matching_active_sum(cs, prefix) / matching_count(cs, prefix);
        (
            if matching_active_sum(cs, prefix) > 0 {
                Some(avg as u64)
            } else {
                None
            },
            nonzero(matching_max_freq(cs, prefix) as u64),
        )
    } else {
        (None, None)
    }
}

/// A class's aggregate active percentage and frequency: the cluster level where it
/// gives a nonzero figure, else the cores' mean activity and highest frequency.
pub open spec fn aggregate_of(cs: Seq<ClusterData>, cores: Seq<CoreMetrics>, prefix: char) -> (u64, u64) {
    let (active, freq) = cluster_level(cs, prefix);
    (
        match active {
            Some(a) => a,
            None => core_average_of(cores) as u64,
        },
        match freq {
            Some(f) => f,
            None => max_core_freq(cores) as u64,
        },
    )
}

proof fn lemma_mean_fits(sum: int, count: int)
    requires
        0 < count,
        0 <= sum <= count * u64::MAX,
    ensures
        0 <= sum / count <= u64::MAX,
{
    assert(sum / count <= u64::MAX) by (nonlinear_arith)
        requires
            0 < count,
            0 <= sum <= count * u64::MAX,
    ;
    assert(sum / count >= 0) by (nonlinear_arith)
        requires
            0 < count,
            0 <= sum,
    ;
}

/// Mean active percentage of the cores, rounded down; 0 when there are none.
pub fn core_average(cores: &Vec<CoreMetrics>) -> (avg: u64)
    ensures
        avg == core_average_of(cores@),
{
    if cores.len() == 0 {
        return 0;
    }
    let mut sum: u128 = 0;
    let mut i: usize = 0;
    while i < cores.len()
        invariant
            i <= cores.len(),
            sum == active_sum(cores@.subrange(0, i as int)),
            sum <= i * u64::MAX,
        decreases cores.len() - i,
    {
        assert(cores@.subrange(0, i + 1).drop_last() =~= cores@.subrange(0, i as int));
        sum = sum + cores[i].active_pct as u128;
        i += 1;
    }
    assert(cores@.subrange(0, cores.len() as int) =~= cores@);
    proof {
        lemma_mean_fits(sum as int, cores.len() as int);
    }
    (sum / cores.len() as u128) as u64
}

/// Highest core frequency; 0 when there are no cores.
pub fn core_max_freq(cores: &Vec<CoreMetrics>) -> (f: u64)
    ensures
        f == max_core_freq(cores@),
{
    let mut best: u64 = 0;
    let mut i: usize = 0;
    while i < cores.len()
        invariant
            i <= cores.len(),
            best == max_core_freq(cores@.subrange(0, i as int)),
        decreases cores.len() - i,
    {
        assert(cores@.subrange(0, i + 1).drop_last() =~= cores@.subrange(0, i as int));
        if cores[i].freq_mhz > best {
            best = cores[i].freq_mhz;
        }
        i += 1;
    }
    assert(cores@.subrange(0, cores.len() as int) =~= cores@);
    best
}

/// Whether `name` is `"{prefix}-Cluster"`.
fn is_primary_name(name: &str, prefix: char) -> (r: bool)
    ensures
        r == (name@ == primary_label(prefix)),
{
    let rest = "-Cluster";
    proof {
        reveal_strlit("-Cluster");
    }
    let r = starts_with_char(name, prefix) && name.unicode_len() == 9 && matches_at(name, 1, rest);
    proof {
        if r {
            assert(name@ =~= primary_label(prefix)) by {
                assert(name@.subrange(1, 9) == rest@);
                assert forall|j: int| 0 <= j < 9 implies name@[j] == primary_label(prefix)[j] by {
                    if j > 0 {
                        assert(name@[j] == name@.subrange(1, 9)[j - 1]);
                    }
                }
            }
        } else if name@ == primary_label(prefix) {
            assert(name@.subrange(1, 9) =~= rest@);
        }
    }
    r
}

/// Cluster-level figures of the class named by `prefix`, each `None` where the
/// clusters give nothing nonzero.
pub fn cluster_stats(clusters: &Vec<ClusterData>, prefix: char) -> (r: (Option<u64>, Option<u64>))
    ensures
        r == cluster_level(clusters@, prefix),
{
    let mut i: usize = 0;
    while i < clusters.len()
        invariant
            i <= clusters.len(),
            forall|j: int| 0 <= j < i ==> clusters@[j].name@ != primary_label(prefix),
        decreases clusters.len() - i,
    {
        if is_primary_name(clusters[i].name.as_str(), prefix) {
            let active = clusters[i].active_pct;
            let freq = clusters[i].freq_mhz;
            proof {
                let cs = clusters@;
                assert(is_first_primary(cs, prefix, i as int));
                let k = choose|k: int| is_first_primary(cs, prefix, k);
                assert(k == i) by {
                    if k < i {
                        assert(cs[k].name@ != primary_label(prefix));
                    } else if k > i {
                        assert(cs[i as int].name@ != primary_label(prefix));
                    }
                }
            }
            return (if active > 0 { Some(active) } else { None }, if freq > 0 { Some(freq) } else { None });
        }
        i += 1;
    }
    let mut count: u64 = 0;
    let mut sum: u128 = 0;
    let mut best: u64 = 0;
    let mut i: usize = 0;
    while i < clusters.len()
        invariant
            i <= clusters.len(),
            count == matching_count(clusters@.subrange(0, i as int), prefix),
            sum == matching_active_sum(clusters@.subrange(0, i as int), prefix),
            best == matching_max_freq(clusters@.subrange(0, i as int), prefix),
            count <= i,
            sum <= count * u64::MAX,
        decreases clusters.len() - i,
    {
        assert(clusters@.subrange(0, i + 1).drop_last() =~= clusters@.subrange(0, i as int));
        if starts_with_char(clusters[i].name.as_str(), prefix) {
            proof {
                assert(sum + clusters@[i as int].active_pct <= (count + 1) * u64::MAX) by (nonlinear_arith)
                    requires
                        sum <= count * u64::MAX,
                        clusters@[i as int].active_pct <= u64::MAX,
                ;
            }
            count = count + 1;
            sum = sum + clusters[i].active_pct as u128;
            if clusters[i].freq_mhz > best {
                best = clusters[i].freq_mhz;
            }
        }
        i += 1;
    }
    assert(clusters@.subrange(0, clusters.len() as int) =~= clusters@);
    if count == 0 {
        return (None, None);
    }
    proof {
        lemma_mean_fits(sum as int, count as int);
    }
    let avg = (sum / count as u128) as u64;
    (if sum > 0 { Some(avg) } else { None }, if best > 0 { Some(best) } else { None })
}

/// Aggregate active percentage and frequency of one class (`'E'` or `'P'`),
/// falling back from the cluster level to the class's cores.
pub fn aggregate_cluster(clusters: &Vec<ClusterData>, cores: &Vec<CoreMetrics>, prefix: char) -> (r: (u64, u64))
    ensures
        r == aggregate_of(clusters@, cores@, prefix),
{
    let (cluster_active, cluster_freq) = cluster_stats(clusters, prefix);
    let active = match cluster_active {
        Some(a) => a,
        None => core_average(cores),
    };
    let freq = match cluster_freq {
        Some(f) => f,
        None => core_max_freq(cores),
    };
    (active, freq)
}

/// One core of a raw sample.
#[derive(Clone, Copy, Debug, PartialEq, Eq)]
pub struct RawCore {
    pub cpu: u32,
    /// Reported frequency in thousandths of Hz or of MHz.
    pub freq: u64,
    /// Idle ratio in millionths.
    pub idle_ratio: i64,
}

/// One cluster of a raw sample, with its cores.
#[derive(Debug)]
pub struct RawCluster {
    pub name: String,
    /// Reported frequency in thousandths of Hz or of MHz.
    pub freq: u64,
    pub idle_ratio: i64,
    pub cpus: Vec<RawCore>,
}

/// The GPU of a raw sample.
#[derive(Clone, Copy, Debug, PartialEq, Eq)]
pub struct RawGpu {
    /// Reported frequency in thousandths of Hz or of MHz.
    pub freq: u64,
    pub idle_ratio: i64,
}

/// One decoded telemetry record. Energies are millijoules over the sampling
/// interval; the timestamp is nanoseconds since the Unix epoch.
#[derive(Debug)]
pub struct RawSample {
    pub timestamp_ns: u64,
    pub thermal_pressure: String,
    pub clusters: Vec<RawCluster>,
    pub gpu: RawGpu,
    pub cpu_energy_mj: u64,
    pub gpu_energy_mj: u64,
    pub ane_energy_mj: u64,
    pub combined_energy_mj: u64,
}

/// GPU activity and frequency.
#[derive(Clone, Copy, Debug, PartialEq, Eq)]
pub struct GpuMetrics {
    pub active_pct: u64,
    pub freq_mhz: u64,
}

/// CPU figures of one sample: the per-class aggregates, the cores of each class
/// and the energies (millijoules over the sampling interval).
#[derive(Debug)]
pub struct CpuMetrics {
    pub e_cluster_active: u64,
    pub e_cluster_freq_mhz: u64,
    pub p_cluster_active: u64,
    pub p_cluster_freq_mhz: u64,
    pub e_cores: Vec<CoreMetrics>,
    pub p_cores: Vec<CoreMetrics>,
    pub cpu_mj: u64,
    pub gpu_mj: u64,
    pub ane_mj: u64,
    pub package_mj: u64,
}

impl CpuMetrics {
    /// Figures before any sample: all zero, no cores.
    pub fn empty() -> (m: CpuMetrics)
        ensures
            m.e_cluster_active == 0,
            m.e_cluster_freq_mhz == 0,
            m.p_cluster_active == 0,
            m.p_cluster_freq_mhz == 0,
            m.e_cores@.len() == 0,
            m.p_cores@.len() == 0,
            m.cpu_mj == 0,
            m.gpu_mj == 0,
            m.ane_mj == 0,
            m.package_mj == 0,
    {
        CpuMetrics {
            e_cluster_active: 0,
            e_cluster_freq_mhz: 0,
            p_cluster_active: 0,
            p_cluster_freq_mhz: 0,
            e_cores: Vec::new(),
            p_cores: Vec::new(),
            cpu_mj: 0,
            gpu_mj: 0,
            ane_mj: 0,
            package_mj: 0,
        }
    }
}

/// One normalized sample.
#[derive(Debug)]
pub struct PowermetricsReading {
    pub timestamp_ns: u64,
    pub thermal_pressure: String,
    pub cpu: CpuMetrics,
    pub gpu: GpuMetrics,
}

pub open spec fn core_metric(c: RawCore) -> CoreMetrics {
    CoreMetrics {
        id: c.cpu,
        active_pct: active_percent(c.idle_ratio as int) as u64,
        freq_mhz: normalized_freq(c.freq as int) as u64,
    }
}

pub open spec fn gpu_metric(g: RawGpu) -> GpuMetrics {
    GpuMetrics {
        active_pct: active_percent(g.idle_ratio as int) as u64,
        freq_mhz: normalized_freq(g.freq as int) as u64,
    }
}

pub open spec fn cluster_data(c: RawCluster) -> ClusterData {
    ClusterData {
        name: c.name,
        active_pct: active_percent(c.idle_ratio as int) as u64,
        freq_mhz: normalized_freq(c.freq as int) as u64,
    }
}

/// Efficiency clusters are named with a leading `E` or `e`.
pub open spec fn is_efficiency(name: Seq<char>) -> bool {
    begins_with(name, 'E') || begins_with(name, 'e')
}

/// Performance clusters are named with a leading `P` or `p`.
pub open spec fn is_performance(name: Seq<char>) -> bool {
    begins_with(name, 'P') || begins_with(name, 'p')
}

/// The clusters of one class, in order: efficiency clusters, or performance
/// clusters. Clusters of neither class belong to none.
pub open spec fn class_clusters(cs: Seq<RawCluster>, efficiency: bool) -> Seq<ClusterData>
    decreases cs.len(),
{
    if cs.len() == 0 {
        seq![]
    } else {
        let rest = class_clusters(cs.drop_last(), efficiency);
        let c = cs.last();
        if (efficiency && is_efficiency(c.name@)) || (!efficiency && is_performance(c.name@)) {
            rest.push(cluster_data(c))
        } else {
            rest
        }
    }
}

/// The cores shown for one class, in order: those of efficiency clusters, or
/// those of every other cluster.
pub open spec fn class_cores(cs: Seq<RawCluster>, efficiency: bool) -> Seq<CoreMetrics>
    decreases cs.len(),
{
    if cs.len() == 0 {
        seq![]
    } else {
        let rest = class_cores(cs.drop_last(), efficiency);
        let c = cs.last();
        if is_efficiency(c.name@) == efficiency {
            rest + c.cpus@.map_values(|k: RawCore| core_metric(k))
        } else {
            rest
        }
    }
}

fn core_metrics(core: &RawCore) -> (m: CoreMetrics)
    ensures
        m == core_metric(*core),
{
    CoreMetrics { id: core.cpu, active_pct: ratio_to_pct(core.idle_ratio), freq_mhz: display_freq(core.freq) }
}

fn append_cores(dst: &mut Vec<CoreMetrics>, cpus: &Vec<RawCore>)
    ensures
        final(dst)@ == old(dst)@ + cpus@.map_values(|k: RawCore| core_metric(k)),
{
    let ghost start = dst@;
    let mut j: usize = 0;
    while j < cpus.len()
        invariant
            j <= cpus.len(),
            dst@ == start + cpus@.subrange(0, j as int).map_values(|k: RawCore| core_metric(k)),
        decreases cpus.len() - j,
    {
        dst.push(core_metrics(&cpus[j]));
        assert(cpus@.subrange(0, j + 1).map_values(|k: RawCore| core_metric(k))
            =~= cpus@.subrange(0, j as int).map_values(|k: RawCore| core_metric(k)).push(core_metric(cpus@[j as int])));
        j += 1;
    }
    assert(cpus@.subrange(0, cpus.len() as int) =~= cpus@);
}

/// `r` is the normalized form of `raw`: per-core and per-cluster activity and
/// frequency, the E and P aggregates, the GPU, and the energies carried over.
pub open spec fn normalized_from(raw: RawSample, r: PowermetricsReading) -> bool {
    &&& r.timestamp_ns == raw.timestamp_ns
    &&& r.thermal_pressure == raw.thermal_pressure
    &&& r.cpu.e_cores@ == class_cores(raw.clusters@, true)
    &&& r.cpu.p_cores@ == class_cores(raw.clusters@, false)
    &&& (r.cpu.e_cluster_active, r.cpu.e_cluster_freq_mhz) == aggregate_of(
        class_clusters(raw.clusters@, true),
        class_cores(raw.clusters@, true),
        'E',
    )
    &&& (r.cpu.p_cluster_active, r.cpu.p_cluster_freq_mhz) == aggregate_of(
        class_clusters(raw.clusters@, false),
        class_cores(raw.clusters@, false),
        'P',
    )
    &&& r.cpu.cpu_mj == raw.cpu_energy_mj
    &&& r.cpu.gpu_mj == raw.gpu_energy_mj
    &&& r.cpu.ane_mj == raw.ane_energy_mj
    &&& r.cpu.package_mj == raw.combined_energy_mj
    &&& r.gpu == gpu_metric(raw.gpu)
}

/// Normalizes one raw sample: per-core and per-cluster activity and frequency,
/// the E and P aggregates, the GPU, and the energies carried over unchanged.
pub fn convert_snapshot(raw: RawSample) -> (r: PowermetricsReading)
    ensures
        normalized_from(raw, r),
{
    let mut e_clusters: Vec<ClusterData> = Vec::new();
    let mut p_clusters: Vec<ClusterData> = Vec::new();
    let mut e_cores: Vec<CoreMetrics> = Vec::new();
    let mut p_cores: Vec<CoreMetrics> = Vec::new();
    let clusters = &raw.clusters;
    let mut i: usize = 0;
    while i < clusters.len()
        invariant
            i <= clusters.len(),
            e_clusters@ == class_clusters(clusters@.subrange(0, i as int), true),
            p_clusters@ == class_clusters(clusters@.subrange(0, i as int), false),
            e_cores@ == class_cores(clusters@.subrange(0, i as int), true),
            p_cores@ == class_cores(clusters@.subrange(0, i as int), false),
        decreases clusters.len() - i,
    {
        let cluster = &clusters[i];
        assert(clusters@.subrange(0, i + 1).drop_last() =~= clusters@.subrange(0, i as int));
        let data = ClusterData {
            name: cluster.name.clone(),
            active_pct: ratio_to_pct(cluster.idle_ratio),
            freq_mhz: display_freq(cluster.freq),
        };
        let name = cluster.name.as_str();
        let is_e = starts_with_char(name, 'E') || starts_with_char(name, 'e');
        if is_e {
            e_clusters.push(data);
            append_cores(&mut e_cores, &cluster.cpus);
        } else {
            if starts_with_char(name, 'P') || starts_with_char(name, 'p') {
                p_clusters.push(data);
            }
            append_cores(&mut p_cores, &cluster.cpus);
        }
        i += 1;
    }
    assert(clusters@.subrange(0, clusters.len() as int) =~= clusters@);
    let (e_cluster_active, e_cluster_freq_mhz) = aggregate_cluster(&e_clusters, &e_cores, 'E');
    let (p_cluster_active, p_cluster_freq_mhz) = aggregate_cluster(&p_clusters, &p_cores, 'P');
    let gpu = GpuMetrics { active_pct: ratio_to_pct(raw.gpu.idle_ratio), freq_mhz: display_freq(raw.gpu.freq) };
    PowermetricsReading {
        timestamp_ns: raw.timestamp_ns,
        thermal_pressure: raw.thermal_pressure,
        cpu: CpuMetrics {
            e_cluster_active,
            e_cluster_freq_mhz,
            p_cluster_active,
            p_cluster_freq_mhz,
            e_cores,
            p_cores,
            cpu_mj: raw.cpu_energy_mj,
            gpu_mj: raw.gpu_energy_mj,
            ane_mj: raw.ane_energy_mj,
            package_mj: raw.combined_energy_mj,
        },
        gpu,
    }
}

/// The active percentage lies in `[0, 100]`; a ratio of 0 is fully active and a
/// ratio of 1 fully idle.
pub proof fn lemma_active_percent_bounds(idle: int)
    ensures
        0 <= active_percent(idle) <= 100,
        active_percent(0) == 100,
        active_percent(RATIO_ONE as int) == 0,
{
}

/// Reading a normalized frequency back in (as whole MHz) leaves it unchanged, for
/// every reported value outside two bands: MHz values of 99 999.5 or more, which
/// round up to 100 000 and so read as Hz; and Hz values of 99.9995 GHz or more,
/// whose MHz figure is itself large enough to read as Hz.
pub proof fn lemma_normalized_freq_idempotent(f: int)
    requires
        0 <= f < 99_999_500 || 100_000_000 <= f < 99_999_500_000_000,
    ensures
        normalized_freq(normalized_freq(f) * FREQ_ONE) == normalized_freq(f),
{
    let n = normalized_freq(f);
    if f >= HZ_THRESHOLD {
        assert(f / 1_000_000_000 <= 99_999);
        assert(f / 1_000_000_000 == 99_999 ==> f % 1_000_000_000 < 500_000_000);
    } else {
        assert(f / 1000 <= 99_999);
        assert(f / 1000 == 99_999 ==> f % 1000 < 500);
    }
    assert(0 <= n <= 99_999);
    assert((n * 1000) / 1000 == n && (n * 1000) % 1000 == 0) by (nonlinear_arith)
        requires
            0 <= n,
    ;
}

} // verus!
