//! The sampling utility's output artifact: where it lives, how it is invoked, and
//! how the latest complete record is picked out of its tail.
use crate::metrics::{convert_snapshot, normalized_from, PowermetricsReading, RawSample};
use crate::text::{decimal, decimal_text, matches_at};
use vstd::prelude::*;
use vstd::string::*;

verus! {

/// Common start of every artifact path; the session token follows it.
pub const POWER_FILE_PREFIX: &'static str = "/tmp/asitop_powermetrics";

/// File name start shared by all artifacts, used to clear stale ones.
pub const POWER_FILE_NAME_PREFIX: &'static str = "asitop_powermetrics";

/// At most this many bytes are read from the end of the artifact: enough for one
/// record.
pub const MAX_READ_BYTES: u64 = 1024 * 1024;

/// Relies on `SystemTime::now` and `duration_since(UNIX_EPOCH)`: whole seconds
/// since the epoch, 0 for a clock set before it. Nothing is known of the value.
#[verifier::external_body]
fn unix_seconds_now() -> (secs: u64) {
    std::time::SystemTime::now().duration_since(std::time::UNIX_EPOCH).unwrap_or_default().as_secs()
}

/// The artifact path of a session.
pub fn powermetrics_path(timecode: &str) -> (path: String)
    ensures
        path@ == POWER_FILE_PREFIX@ + timecode@,
{
    String::from_str(POWER_FILE_PREFIX).concat(timecode)
}

/// A fresh session token: the current time in whole seconds, in decimal.
pub fn new_timecode() -> (token: String)
    ensures
        exists|secs: u64| token@ == decimal(secs as nat),
{
    decimal_text(unix_seconds_now())
}

/// Whether a file name belongs to an artifact of some session.
pub fn is_artifact_name(name: &str) -> (r: bool)
    ensures
        r == (POWER_FILE_NAME_PREFIX@.len() <= name@.len() && name@.subrange(
            0,
            POWER_FILE_NAME_PREFIX@.len() as int,
        ) == POWER_FILE_NAME_PREFIX@),
{
    matches_at(name, 0, POWER_FILE_NAME_PREFIX)
}

/// The arguments that launch the sampler (after `sudo`): low priority, the CPU,
/// GPU and thermal samplers, property-list output to `path`, one sample every
/// `interval_ms` milliseconds.
pub fn powermetrics_args(path: &str, interval_ms: u64) -> (args: Vec<String>)
    ensures
        args@.map_values(|a: String| a@) == seq![
            "nice"@,
            "-n"@,
            "10"@,
            "powermetrics"@,
            "--samplers"@,
            "cpu_power,gpu_power,thermal"@,
            "-o"@,
            path@,
            "-f"@,
            "plist"@,
            "-i"@,
            decimal(interval_ms as nat),
        ],
{
    let mut args: Vec<String> = Vec::new();
    args.push(String::from_str("nice"));
    args.push(String::from_str("-n"));
    args.push(String::from_str("10"));
    args.push(String::from_str("powermetrics"));
    args.push(String::from_str("--samplers"));
    args.push(String::from_str("cpu_power,gpu_power,thermal"));
    args.push(String::from_str("-o"));
    args.push(String::from_str(path));
    args.push(String::from_str("-f"));
    args.push(String::from_str("plist"));
    args.push(String::from_str("-i"));
    args.push(decimal_text(interval_ms));
    assert(args@.map_values(|a: String| a@) =~= seq![
        "nice"@,
        "-n"@,
        "10"@,
        "powermetrics"@,
        "--samplers"@,
        "cpu_power,gpu_power,thermal"@,
        "-o"@,
        path@,
        "-f"@,
        "plist"@,
        "-i"@,
        decimal(interval_ms as nat),
    ]);
    args
}

/// Offset from which the tail of an artifact of `len` bytes is read.
pub fn read_window_start(len: u64) -> (start: u64)
    ensures
        start == if len > MAX_READ_BYTES {
            len - MAX_READ_BYTES
        } else {
            0
        },
{
    len.saturating_sub(MAX_READ_BYTES)
}

/// The records of a window: the non-empty runs between zero bytes, in order.
pub open spec fn frames_of(data: Seq<u8>) -> Seq<Seq<u8>>
    decreases data.len(),
{
    if data.len() == 0 {
        seq![]
    } else {
        let before = data.drop_last();
        let b = data.last();
        let fs = frames_of(before);
        if b == 0 {
            fs
        } else if before.len() == 0 || before.last() == 0 {
            fs.push(seq![b])
        } else {
            fs.drop_last().push(fs.last().push(b))
        }
    }
}

/// Splits a window on zero bytes, dropping empty fragments.
pub fn split_frames(data: &[u8]) -> (frames: Vec<Vec<u8>>)
    ensures
        frames@.map_values(|f: Vec<u8>| f@) == frames_of(data@),
{
    let mut frames: Vec<Vec<u8>> = Vec::new();
    let mut cur: Vec<u8> = Vec::new();
    let mut i: usize = 0;
    while i < data.len()
        invariant
            i <= data@.len(),
            frames_of(data@.subrange(0, i as int)) == if cur@.len() == 0 {
                frames@.map_values(|f: Vec<u8>| f@)
            } else {
                frames@.map_values(|f: Vec<u8>| f@).push(cur@)
            },
            cur@.len() > 0 <==> (i > 0 && data@[i - 1] != 0),
        decreases data@.len() - i,
    {
        let b = data[i];
        let ghost prev = data@.subrange(0, i as int);
        let ghost old_frames = frames@.map_values(|f: Vec<u8>| f@);
        assert(data@.subrange(0, i + 1).drop_last() =~= prev);
        if b == 0 {
            if cur.len() > 0 {
                let done = cur;
                cur = Vec::new();
                frames.push(done);
                assert(frames@.map_values(|f: Vec<u8>| f@) =~= old_frames.push(done@));
            }
        } else {
            let ghost old_cur = cur@;
            cur.push(b);
            proof {
                if old_cur.len() == 0 {
                    assert(cur@ =~= seq![b]);
                } else {
                    assert(old_frames.push(old_cur).drop_last() =~= old_frames);
                }
            }
        }
        i += 1;
    }
    assert(data@.subrange(0, data@.len() as int) =~= data@);
    if cur.len() > 0 {
        let ghost old_frames = frames@.map_values(|f: Vec<u8>| f@);
        frames.push(cur);
        assert(frames@.map_values(|f: Vec<u8>| f@) =~= old_frames.push(frames@.last()@));
    }
    frames
}

/// `decode` may return `out` for some slice that holds `bytes`.
pub open spec fn decodes_to<F: Fn(&[u8]) -> Option<RawSample>>(
    decode: F,
    bytes: Seq<u8>,
    out: Option<RawSample>,
) -> bool {
    exists|b: &[u8]| b@ == bytes && decode.ensures((b,), out)
}

/// The latest record of a window that `decode` accepts. Records are tried from the
/// most recent backward, so a partly written last record does not hide the
/// complete one before it; `None` when no record decodes.
pub fn latest_record<F: Fn(&[u8]) -> Option<RawSample>>(data: &[u8], decode: F) -> (r: Option<RawSample>)
    requires
        forall|b: &[u8]| decode.requires((b,)),
    ensures
        ({
            let fs = frames_of(data@);
            match r {
                Some(s) => exists|i: int|
                    0 <= i < fs.len() && decodes_to(decode, fs[i], Some(s)) && forall|j: int|
                        i < j < fs.len() ==> decodes_to(decode, fs[j], None),
                None => forall|j: int| 0 <= j < fs.len() ==> decodes_to(decode, fs[j], None),
            }
        }),
{
    let frames = split_frames(data);
    let ghost fs = frames_of(data@);
    assert(frames@.len() == fs.len());
    let mut k: usize = frames.len();
    while k > 0
        invariant
            k <= frames@.len(),
            fs == frames_of(data@),
            frames@.map_values(|f: Vec<u8>| f@) == fs,
            forall|b: &[u8]| decode.requires((b,)),
            forall|j: int| k <= j < fs.len() ==> decodes_to(decode, fs[j], None),
        decreases k,
    {
        k -= 1;
        let chunk = frames[k].as_slice();
        assert(chunk@ == fs[k as int]);
        let decoded = decode(chunk);
        match decoded {
            Some(s) => {
                let r = Some(s);
                proof {
                    let i = k as int;
                    assert(decodes_to(decode, fs[i], Some(r->0)));
                    assert(forall|j: int| i < j < fs.len() ==> decodes_to(decode, fs[j], None));
                }
                return r;
            },
            None => {
                assert(decodes_to(decode, fs[k as int], None));
            },
        }
    }
    None
}

/// Why a poll produced nothing usable.
#[derive(Clone, Copy, Debug, PartialEq, Eq)]
pub enum PollError {
    /// Reading the artifact failed before any byte came back.
    ReadFailed,
}

/// The outcome of one poll over a window read from the artifact's tail:
/// an error only when the read failed with nothing read, else the latest record
/// that decodes, normalized, or `None`.
pub fn reading_from_window<F: Fn(&[u8]) -> Option<RawSample>>(
    data: &[u8],
    read_failed: bool,
    decode: F,
) -> (r: Result<Option<PowermetricsReading>, PollError>)
    requires
        forall|b: &[u8]| decode.requires((b,)),
    ensures
        r is Err <==> (read_failed && data@.len() == 0),
        r is Err ==> r == Err::<Option<PowermetricsReading>, PollError>(PollError::ReadFailed),
        data@.len() == 0 && !read_failed ==> r == Ok::<Option<PowermetricsReading>, PollError>(None),
        ({
            let fs = frames_of(data@);
            match r {
                Ok(Some(reading)) => exists|i: int, s: RawSample|
                    0 <= i < fs.len() && decodes_to(decode, fs[i], Some(s)) && (forall|j: int|
                        i < j < fs.len() ==> decodes_to(decode, fs[j], None)) && normalized_from(s, reading),
                Ok(None) => forall|j: int| 0 <= j < fs.len() ==> decodes_to(decode, fs[j], None),
                Err(_) => true,
            }
        }),
{
    if data.len() == 0 {
        if read_failed {
            return Err(PollError::ReadFailed);
        }
        assert(frames_of(data@) =~= Seq::<Seq<u8>>::empty());
        return Ok(None);
    }
    match latest_record(data, decode) {
        Some(raw) => Ok(Some(convert_snapshot(raw))),
        None => Ok(None),
    }
}

/// Polls made for the first sample before startup gives up.
pub const MAX_WAIT_ATTEMPTS: u32 = 300;

/// While waiting for the first sample, every fiftieth poll reports how long the
/// wait has lasted, in seconds at ten polls a second.
pub open spec fn progress_of(attempt: u32) -> Option<u32> {
    if attempt % 50 == 49 {
        Some(((attempt + 1) / 10) as u32)
    } else {
        None
    }
}

pub fn startup_progress(attempt: u32) -> (seconds: Option<u32>)
    ensures
        seconds == progress_of(attempt),
{
    if attempt % 50 == 49 {
        assert(attempt < u32::MAX) by {
            assert(u32::MAX % 50 == 45);
        }
        Some((attempt + 1) / 10)
    } else {
        None
    }
}

/// What the startup wait does at a poll that found no sample.
#[derive(Clone, Copy, Debug, PartialEq, Eq, Structural)]
pub enum StartupStep {
    /// Keep waiting, first reporting the seconds waited when given.
    Wait(Option<u32>),
    /// The startup timeout has passed.
    GiveUp,
}

/// The startup wait after poll `attempt` (counting from 0) found no sample: give
/// up once `MAX_WAIT_ATTEMPTS` polls have failed, else wait for the next one.
pub fn startup_step(attempt: u32) -> (step: StartupStep)
    ensures
        step == if attempt + 1 >= MAX_WAIT_ATTEMPTS {
            StartupStep::GiveUp
        } else {
            StartupStep::Wait(progress_of(attempt))
        },
{
    if attempt >= MAX_WAIT_ATTEMPTS - 1 {
        StartupStep::GiveUp
    } else {
        StartupStep::Wait(startup_progress(attempt))
    }
}

/// Length of the startup timeout in whole seconds when polls are `wait_ms` apart
/// (saturating for waits too long to count).
pub fn startup_timeout_secs(wait_ms: u64) -> (secs: u64)
    ensures
        secs == if wait_ms > u64::MAX / 300 {
            u64::MAX / 1000
        } else {
            (MAX_WAIT_ATTEMPTS * wait_ms / 1000) as u64
        },
{
    if wait_ms > u64::MAX / 300 {
        u64::MAX / 1000
    } else {
        300 * wait_ms / 1000
    }
}

} // verus!
