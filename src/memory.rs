//! Memory usage from the virtual-memory page counters.
use vstd::prelude::*;

verus! {

/// Memory and swap usage in bytes; `used_percent` lies in `[0, 100]`.
#[derive(Clone, Copy, Debug, PartialEq, Eq, Structural)]
pub struct MemoryStats {
    pub total_bytes: u64,
    pub used_bytes: u64,
    pub used_percent: u64,
    pub swap_total_bytes: u64,
    pub swap_used_bytes: u64,
}

/// Page counts reported by the virtual-memory statistics.
#[derive(Clone, Copy, Debug, PartialEq, Eq, Structural)]
pub struct VmCounts {
    pub active: u64,
    pub wired: u64,
    pub compressed: u64,
    pub inactive: u64,
    pub free: u64,
    pub speculative: u64,
}

/// Smallest page size assumed.
pub const MIN_PAGE_SIZE: u64 = 4096;

pub open spec fn sat(x: int) -> int {
    if x > u64::MAX {
        u64::MAX as int
    } else if x < 0 {
        0
    } else {
        x
    }
}

/// Memory usage from page counts: available memory is the inactive pages plus the
/// free ones that are not speculative; the total is the installed memory when
/// known, else the sum of the counted pages; usage is the total less what is
/// available. Byte figures saturate.
pub open spec fn usage_of(counts: VmCounts, page_size: u64, installed: u64, swap_total: u64, swap_used: u64) -> MemoryStats {
    let p = if page_size >= MIN_PAGE_SIZE { page_size as int } else { MIN_PAGE_SIZE as int };
    let active = sat(counts.active * p);
    let wired = sat(counts.wired * p);
    let compressed = sat(counts.compressed * p);
    let inactive = sat(counts.inactive * p);
    let free = sat(sat(counts.free * p) - sat(counts.speculative * p));
    let available = sat(inactive + free);
    let total = if installed > 0 {
        installed as int
    } else {
        sat(sat(sat(available + active) + wired) + compressed)
    };
    let used = sat(total - available);
    MemoryStats {
        total_bytes: total as u64,
        used_bytes: used as u64,
        used_percent: if total > 0 {
            (used * 100 / total) as u64
        } else {
            0
        },
        swap_total_bytes: swap_total,
        swap_used_bytes: swap_used,
    }
}

fn mul_sat(a: u64, b: u64) -> (r: u64)
    ensures
        r == sat(a * b),
{
    if b == 0 || a <= u64::MAX / b {
        proof {
            if b > 0 {
                assert(a * b <= u64::MAX) by (nonlinear_arith)
                    requires
                        b > 0,
                        a <= u64::MAX / b,
                ;
            }
            assert(a * b >= 0) by (nonlinear_arith);
        }
        a * b
    } else {
        proof {
            assert(a * b > u64::MAX) by (nonlinear_arith)
                requires
                    b > 0,
                    a > u64::MAX / b,
            ;
        }
        u64::MAX
    }
}

fn add_sat(a: u64, b: u64) -> (r: u64)
    ensures
        r == sat(a + b),
{
    if a > u64::MAX - b {
        u64::MAX
    } else {
        a + b
    }
}

fn sub_sat(a: u64, b: u64) -> (r: u64)
    ensures
        r == sat(a - b),
{
    if a > b {
        a - b
    } else {
        0
    }
}

/// Memory usage from the page counters, the page size, the installed memory
/// (0 when unknown) and the swap figures.
pub fn memory_usage(counts: VmCounts, page_size: u64, installed: u64, swap_total: u64, swap_used: u64) -> (m: MemoryStats)
    ensures
        m == usage_of(counts, page_size, installed, swap_total, swap_used),
        m.used_percent <= 100,
{
    let p = if page_size >= MIN_PAGE_SIZE {
        page_size
    } else {
        MIN_PAGE_SIZE
    };
    let active = mul_sat(counts.active, p);
    let wired = mul_sat(counts.wired, p);
    let compressed = mul_sat(counts.compressed, p);
    let inactive = mul_sat(counts.inactive, p);
    let free = sub_sat(mul_sat(counts.free, p), mul_sat(counts.speculative, p));
    let available = add_sat(inactive, free);
    let total = if installed > 0 {
        installed
    } else {
        add_sat(add_sat(add_sat(available, active), wired), compressed)
    };
    let used = sub_sat(total, available);
    let used_percent = if total > 0 {
        proof {
            assert(used as int * 100 / total as int <= 100) by (nonlinear_arith)
                requires
                    used <= total,
                    total > 0,
            ;
        }
        ((used as u128 * 100) / total as u128) as u64
    } else {
        0
    };
    MemoryStats {
        total_bytes: total,
        used_bytes: used,
        used_percent,
        swap_total_bytes: swap_total,
        swap_used_bytes: swap_used,
    }
}

/// What is shown when the counters cannot be read: the installed memory and
/// nothing else.
pub fn memory_unavailable(installed: u64) -> (m: MemoryStats)
    ensures
        m == (MemoryStats {
            total_bytes: installed,
            used_bytes: 0,
            used_percent: 0,
            swap_total_bytes: 0,
            swap_used_bytes: 0,
        }),
{
    MemoryStats { total_bytes: installed, used_bytes: 0, used_percent: 0, swap_total_bytes: 0, swap_used_bytes: 0 }
}

/// Swap counts as active from a tenth of a GiB on.
pub fn has_swap(m: &MemoryStats) -> (r: bool)
    ensures
        r == (m.swap_total_bytes * 10 >= 1024 * 1024 * 1024),
{
    m.swap_total_bytes >= 107_374_183
}

} // verus!
