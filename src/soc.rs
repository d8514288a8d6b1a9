//! What is known of the machine: its chip name, core counts and power ceilings.
use crate::text::{ends_with, matches_at, parse_u32, parsed_u32, trim_bounds, trimmed};
use vstd::prelude::*;

verus! {

/// Chip description with its CPU and GPU power ceilings in watts.
#[derive(Clone, Debug)]
pub struct SocInfo {
    pub name: String,
    pub e_core_count: u32,
    pub p_core_count: u32,
    pub gpu_core_count: u32,
    pub cpu_max_power: u64,
    pub gpu_max_power: u64,
}

pub open spec fn has_suffix(s: Seq<char>, suffix: Seq<char>) -> bool {
    suffix.len() <= s.len() && s.subrange(s.len() - suffix.len(), s.len() as int) == suffix
}

/// CPU and GPU power ceilings (watts) by chip tier, read from the end of the
/// chip's name.
pub open spec fn caps_of(name: Seq<char>) -> (u64, u64) {
    if has_suffix(name, "Pro"@) {
        (40, 40)
    } else if has_suffix(name, "Max"@) {
        (90, 90)
    } else if has_suffix(name, "Ultra"@) {
        (140, 140)
    } else {
        (20, 20)
    }
}

/// Power ceilings for a chip name.
pub fn lookup_caps(name: &str) -> (caps: (u64, u64))
    ensures
        caps == caps_of(name@),
{
    if ends_with(name, "Pro") {
        (40, 40)
    } else if ends_with(name, "Max") {
        (90, 90)
    } else if ends_with(name, "Ultra") {
        (140, 140)
    } else {
        (20, 20)
    }
}

impl SocInfo {
    /// Device info from its detected parts; the power ceilings follow the name.
    pub fn from_parts(name: String, e_core_count: u32, p_core_count: u32, gpu_core_count: u32) -> (s: SocInfo)
        ensures
            s.name == name,
            s.e_core_count == e_core_count,
            s.p_core_count == p_core_count,
            s.gpu_core_count == gpu_core_count,
            (s.cpu_max_power, s.gpu_max_power) == caps_of(name@),
    {
        let (cpu_max_power, gpu_max_power) = lookup_caps(name.as_str());
        SocInfo { name, e_core_count, p_core_count, gpu_core_count, cpu_max_power, gpu_max_power }
    }
}

/// The GPU core count a line of the display report gives: the line, trimmed,
/// starts with `Total Number of Cores: ` and the trimmed rest is a number.
pub open spec fn gpu_cores_of_line(line: Seq<char>) -> Option<u32> {
    let t = trimmed(line);
    let p = "Total Number of Cores: "@;
    if p.len() <= t.len() && t.subrange(0, p.len() as int) == p {
        parsed_u32(trimmed(t.subrange(p.len() as int, t.len() as int)))
    } else {
        None
    }
}

/// Reads the GPU core count from one line of the display report.
pub fn gpu_core_count_from_line(line: &str) -> (r: Option<u32>)
    ensures
        r == gpu_cores_of_line(line@),
{
    let prefix = "Total Number of Cores: ";
    let (a, b) = trim_bounds(line);
    let ghost t = line@.subrange(a as int, b as int);
    let plen = prefix.unicode_len();
    if b - a < plen || !matches_at(line, a, prefix) {
        proof {
            if prefix@.len() <= t.len() {
                assert(t.subrange(0, prefix@.len() as int) =~= line@.subrange(a as int, a + prefix@.len()));
            }
        }
        return None;
    }
    assert(t.subrange(0, prefix@.len() as int) =~= line@.subrange(a as int, a + prefix@.len()));
    let rest = line.substring_char(a + plen, b);
    assert(rest@ =~= t.subrange(prefix@.len() as int, t.len() as int));
    let (c, d) = trim_bounds(rest);
    let digits = rest.substring_char(c, d);
    parse_u32(digits)
}

} // verus!
