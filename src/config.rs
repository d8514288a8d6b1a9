//! Sampling configuration, as given on the command line.
use vstd::prelude::*;

verus! {

/// Command-line options controlling sampling and layout.
#[derive(Clone, Copy, Debug, PartialEq, Eq, Structural)]
pub struct Cli {
    /// Sampling interval in seconds; also handed to the sampler.
    pub interval: u64,
    /// Palette index (0-8).
    pub color: u8,
    /// Span in seconds over which power averages are taken.
    pub avg: u64,
    /// Whether per-core figures are shown.
    pub show_cores: bool,
    /// Restart the sampler after this many accepted samples; 0 never restarts.
    pub max_count: u64,
}

pub open spec fn interval_seconds_of(cli: Cli) -> int {
    if cli.interval >= 1 {
        cli.interval as int
    } else {
        1
    }
}

/// Number of samples in an averaging window: the averaging span over the
/// interval, at least 1 (and at most what a `usize` holds).
pub open spec fn averaging_window_of(cli: Cli) -> int {
    let w = (cli.avg as int) / interval_seconds_of(cli);
    if w < 1 {
        1
    } else if w > usize::MAX {
        usize::MAX as int
    } else {
        w
    }
}

impl Cli {
    /// The interval in seconds, at least 1.
    pub fn interval_seconds(&self) -> (s: u64)
        ensures
            s == interval_seconds_of(*self),
    {
        if self.interval >= 1 {
            self.interval
        } else {
            1
        }
    }

    /// Number of samples that make up one averaging window.
    pub fn averaging_window(&self) -> (w: usize)
        ensures
            w == averaging_window_of(*self),
    {
        let w = self.avg / self.interval_seconds();
        if w < 1 {
            1
        } else if w > usize::MAX as u64 {
            usize::MAX
        } else {
            w as usize
        }
    }

    /// The interval handed to the sampler, in milliseconds (saturating).
    pub fn interval_ms(&self) -> (ms: u64)
        ensures
            ms == if self.interval * 1000 > u64::MAX {
                u64::MAX as int
            } else {
                self.interval * 1000
            },
    {
        if self.interval > u64::MAX / 1000 {
            u64::MAX
        } else {
            self.interval * 1000
        }
    }
}

} // verus!
