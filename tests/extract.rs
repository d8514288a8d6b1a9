use asitop::metrics::{RawGpu, RawSample};
use asitop::powermetrics::{
    is_artifact_name, latest_record, new_timecode, powermetrics_args, powermetrics_path, read_window_start,
    reading_from_window, split_frames, PollError, MAX_READ_BYTES,
};
use std::io::Cursor;

fn sample_with(timestamp_ns: u64) -> RawSample {
    RawSample {
        timestamp_ns,
        thermal_pressure: "Nominal".to_string(),
        clusters: vec![],
        gpu: RawGpu { freq: 0, idle_ratio: 0 },
        cpu_energy_mj: 0,
        gpu_energy_mj: 0,
        ane_energy_mj: 0,
        combined_energy_mj: 0,
    }
}

/// Decodes a property list whose `timestamp` entry is an integer.
fn decode_plist(bytes: &[u8]) -> Option<RawSample> {
    let value = plist::Value::from_reader(Cursor::new(bytes)).ok()?;
    let ts = value.as_dictionary()?.get("timestamp")?.as_unsigned_integer()?;
    Some(sample_with(ts))
}

fn record(ts: u64) -> Vec<u8> {
    let mut dict = plist::Dictionary::new();
    dict.insert("timestamp".to_string(), plist::Value::Integer(ts.into()));
    let mut out = Vec::new();
    plist::Value::Dictionary(dict).to_writer_xml(&mut out).unwrap();
    out
}

#[test]
fn split_on_zero_bytes_dropping_empty_fragments() {
    let frames = split_frames(b"\0ab\0\0cd\0e");
    assert_eq!(frames, vec![b"ab".to_vec(), b"cd".to_vec(), b"e".to_vec()]);
    assert!(split_frames(b"").is_empty());
    assert!(split_frames(b"\0\0").is_empty());
}

#[test]
fn valid_record_after_truncated_fragment() {
    let full = record(41);
    let mut data = full[..full.len() / 2].to_vec();
    data.push(0);
    data.extend_from_slice(&record(42));
    let got = latest_record(&data, decode_plist).expect("a record decodes");
    assert_eq!(got.timestamp_ns, 42);
}

#[test]
fn truncated_trailing_record_falls_back_to_previous() {
    let mut data = record(1);
    data.push(0);
    data.extend_from_slice(&record(2));
    data.push(0);
    let partial = record(3);
    data.extend_from_slice(&partial[..partial.len() - 10]);
    assert_eq!(latest_record(&data, decode_plist).map(|s| s.timestamp_ns), Some(2));
}

#[test]
fn nothing_decodes_is_no_sample() {
    assert!(latest_record(b"garbage\0more", decode_plist).is_none());
    assert!(matches!(reading_from_window(b"garbage", false, decode_plist), Ok(None)));
}

#[test]
fn read_failure_only_without_data() {
    assert_eq!(reading_from_window(b"", true, decode_plist).err(), Some(PollError::ReadFailed));
    assert!(matches!(reading_from_window(b"", false, decode_plist), Ok(None)));
    let mut data = record(9);
    data.push(0);
    let got = reading_from_window(&data, true, decode_plist).unwrap().unwrap();
    assert_eq!(got.timestamp_ns, 9);
}

#[test]
fn window_start_bounds_the_read() {
    assert_eq!(read_window_start(10), 0);
    assert_eq!(read_window_start(MAX_READ_BYTES), 0);
    assert_eq!(read_window_start(MAX_READ_BYTES + 5), 5);
}

#[test]
fn artifact_paths_and_names() {
    assert_eq!(powermetrics_path("1700000000"), "/tmp/asitop_powermetrics1700000000");
    assert!(is_artifact_name("asitop_powermetrics123"));
    assert!(is_artifact_name("asitop_powermetrics"));
    assert!(!is_artifact_name("asitop_power"));
    assert!(!is_artifact_name("other_asitop_powermetrics"));
}

#[test]
fn timecode_is_decimal_seconds() {
    let t = new_timecode();
    assert!(!t.is_empty());
    assert!(t.chars().all(|c| c.is_ascii_digit()));
    assert!(t.parse::<u64>().unwrap() > 1_600_000_000);
}

#[test]
fn sampler_arguments() {
    let args = powermetrics_args("/tmp/x", 1000);
    assert_eq!(
        args,
        vec!["nice", "-n", "10", "powermetrics", "--samplers", "cpu_power,gpu_power,thermal", "-o", "/tmp/x", "-f", "plist", "-i", "1000"]
    );
    assert_eq!(powermetrics_args("p", 0)[11], "0");
}
