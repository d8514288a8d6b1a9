//! Network and disk throughput from successive byte counters.
use vstd::prelude::*;

verus! {

/// Throughput in bytes per second.
#[derive(Clone, Copy, Debug, PartialEq, Eq, Structural)]
pub struct IoStats {
    pub net_in: u64,
    pub net_out: u64,
    pub disk_read: u64,
    pub disk_write: u64,
}

/// Samples closer together than this (milliseconds) reuse the last figures.
pub const MIN_SAMPLE_INTERVAL_MS: u64 = 500;

pub open spec fn zero_stats() -> IoStats {
    IoStats { net_in: 0, net_out: 0, disk_read: 0, disk_write: 0 }
}

/// Bytes per second between two counter readings `delta_ms` apart; 0 when the
/// counter did not grow. Saturates.
pub open spec fn rate_of(current: u64, previous: u64, delta_ms: u64) -> u64 {
    if current <= previous || delta_ms == 0 {
        0
    } else {
        let r = (current - previous) * 1000 / delta_ms as int;
        if r > u64::MAX {
            u64::MAX
        } else {
            r as u64
        }
    }
}

pub fn rate_from_delta(current: u64, previous: u64, delta_ms: u64) -> (r: u64)
    ensures
        r == rate_of(current, previous, delta_ms),
{
    if current <= previous || delta_ms == 0 {
        0
    } else {
        let diff = (current - previous) as u128;
        proof {
            assert(diff * 1000 <= u128::MAX) by (nonlinear_arith)
                requires
                    diff <= u64::MAX,
            ;
        }
        let r = diff * 1000 / delta_ms as u128;
        if r > u64::MAX as u128 {
            u64::MAX
        } else {
            r as u64
        }
    }
}

/// Rate-limited sampler of cumulative network and disk byte counters.
#[derive(Debug)]
pub struct IoSampler {
    pub last_net: Option<(u64, u64)>,
    pub last_disk: Option<(u64, u64)>,
    pub last_ms: Option<u64>,
    pub current: IoStats,
}

impl IoSampler {
    /// Fresh counters are wanted on the first sample, and once at least
    /// `MIN_SAMPLE_INTERVAL_MS` has passed since the last one.
    pub open spec fn is_due_spec(&self, now_ms: u64) -> bool {
        match self.last_ms {
            None => true,
            Some(last) => now_ms >= last + MIN_SAMPLE_INTERVAL_MS,
        }
    }

    pub fn new() -> (s: IoSampler)
        ensures
            s.last_net is None,
            s.last_disk is None,
            s.last_ms is None,
            s.current == zero_stats(),
    {
        IoSampler { last_net: None, last_disk: None, last_ms: None, current: IoStats { net_in: 0, net_out: 0, disk_read: 0, disk_write: 0 } }
    }

    /// Whether fresh counters are wanted at time `now_ms`.
    pub fn is_due(&self, now_ms: u64) -> (r: bool)
        ensures
            r == self.is_due_spec(now_ms),
    {
        match self.last_ms {
            None => true,
            Some(last) => now_ms >= last && now_ms - last >= MIN_SAMPLE_INTERVAL_MS,
        }
    }

    /// Takes counters read at `now_ms` (each `None` when unreadable) and returns the
    /// current throughput. When not due, the last figures stand. The first sample
    /// only records the counters; later ones turn the growth since the last
    /// readable counters into rates.
    pub fn sample(&mut self, now_ms: u64, net: Option<(u64, u64)>, disk: Option<(u64, u64)>) -> (r: IoStats)
        ensures
            r == final(self).current,
            !old(self).is_due_spec(now_ms) ==> *final(self) == *old(self),
            old(self).is_due_spec(now_ms) && old(self).last_ms is None ==> *final(self) == (IoSampler {
                last_net: net,
                last_disk: disk,
                last_ms: Some(now_ms),
                current: zero_stats(),
            }),
            old(self).is_due_spec(now_ms) && old(self).last_ms is Some ==> {
                let delta = if now_ms - old(self).last_ms->0 >= 1 {
                    (now_ms - old(self).last_ms->0) as u64
                } else {
                    1u64
                };
                &&& final(self).last_ms == Some(now_ms)
                &&& final(self).last_net == if net is Some { net } else { old(self).last_net }
                &&& final(self).last_disk == if disk is Some { disk } else { old(self).last_disk }
                &&& (final(self).current.net_in, final(self).current.net_out) == match (net, old(self).last_net) {
                    (Some((i, o)), Some((pi, po))) => (rate_of(i, pi, delta), rate_of(o, po, delta)),
                    _ => (old(self).current.net_in, old(self).current.net_out),
                }
                &&& (final(self).current.disk_read, final(self).current.disk_write) == match (disk, old(self).last_disk) {
                    (Some((rd, wr)), Some((prd, pwr))) => (rate_of(rd, prd, delta), rate_of(wr, pwr, delta)),
                    _ => (old(self).current.disk_read, old(self).current.disk_write),
                }
            },
    {
        if !self.is_due(now_ms) {
            return self.current;
        }
        match self.last_ms {
            None => {
                self.last_ms = Some(now_ms);
                self.last_net = net;
                self.last_disk = disk;
                self.current = IoStats { net_in: 0, net_out: 0, disk_read: 0, disk_write: 0 };
                self.current
            },
            Some(last) => {
                let delta = if now_ms - last >= 1 {
                    now_ms - last
                } else {
                    1
                };
                if let Some((in_bytes, out_bytes)) = net {
                    if let Some((prev_in, prev_out)) = self.last_net {
                        self.current.net_in = rate_from_delta(in_bytes, prev_in, delta);
                        self.current.net_out = rate_from_delta(out_bytes, prev_out, delta);
                    }
                    self.last_net = Some((in_bytes, out_bytes));
                }
                if let Some((read_bytes, write_bytes)) = disk {
                    if let Some((prev_read, prev_write)) = self.last_disk {
                        self.current.disk_read = rate_from_delta(read_bytes, prev_read, delta);
                        self.current.disk_write = rate_from_delta(write_bytes, prev_write, delta);
                    }
                    self.last_disk = Some((read_bytes, write_bytes));
                }
                self.last_ms = Some(now_ms);
                self.current
            },
        }
    }
}

} // verus!
