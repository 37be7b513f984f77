use flashlog::{RollingConfig, Worker, WorkerCommand, WorkerSettings};

const NEVER: u64 = u64::MAX;

fn settings(threshold: usize, interval: u64, console: bool, file: bool) -> WorkerSettings {
    WorkerSettings {
        buffer_threshold: threshold,
        flush_interval: interval,
        console_report: console,
        file_report: file,
    }
}

fn entry(text: &str) -> WorkerCommand {
    WorkerCommand::Entry(text.to_string())
}

#[test]
fn small_records_accumulate_into_one_console_flush() {
    let mut w = Worker::new(settings(10, NEVER, true, false), 0);
    let a = w.step(entry("a"), 1);
    assert!(a.output.is_none());
    let a = w.step(entry("b"), 2);
    assert!(a.output.is_none());
    let a = w.step(entry("c"), 3);
    assert!(a.output.is_none());
    assert_eq!(w.buffered_len(), 3);
    let a = w.step(entry("0123456"), 4);
    assert_eq!(a.output.as_deref(), Some("abc0123456"));
    assert!(a.to_console);
    assert!(!a.to_file);
    assert_eq!(w.buffered_len(), 0);
}

#[test]
fn flush_comes_when_threshold_is_first_reached() {
    let mut w = Worker::new(settings(10, NEVER, true, false), 0);
    assert!(w.step(entry("abcd"), 1).output.is_none());
    assert!(w.step(entry("efgh"), 2).output.is_none());
    assert_eq!(w.buffered_len(), 8);
    let a = w.step(entry("ij"), 3);
    assert_eq!(a.output.as_deref(), Some("abcdefghij"));
    assert!(w.step(entry("k"), 4).output.is_none());
}

#[test]
fn threshold_counts_bytes_not_characters() {
    let mut w = Worker::new(settings(4, NEVER, true, false), 0);
    assert!(w.step(entry("é"), 1).output.is_none());
    assert_eq!(w.buffered_len(), 2);
    let a = w.step(entry("ü"), 2);
    assert_eq!(a.output.as_deref(), Some("éü"));
}

#[test]
fn single_large_record_flushes_whole() {
    let mut w = Worker::new(settings(5, NEVER, false, false), 0);
    let a = w.step(entry("0123456789"), 1);
    assert_eq!(a.output.as_deref(), Some("0123456789"));
    assert!(!a.to_console);
}

#[test]
fn flush_interval_triggers_flush() {
    let mut w = Worker::new(settings(1_000_000, 100, true, false), 1000);
    assert!(w.step(entry("x"), 1050).output.is_none());
    assert!(w.step(entry("y"), 1099).output.is_none());
    let a = w.step(entry("z"), 1100);
    assert_eq!(a.output.as_deref(), Some("xyz"));
    assert!(w.step(entry("w"), 1150).output.is_none());
    assert_eq!(w.step(entry("v"), 1200).output.as_deref(), Some("wv"));
}

#[test]
fn records_leave_in_arrival_order() {
    let mut w = Worker::new(settings(6, NEVER, true, false), 0);
    let mut out = String::new();
    for (i, r) in ["1\n", "2\n", "3\n", "4\n", "5\n", "6\n", "7\n"].iter().enumerate() {
        if let Some(t) = w.step(entry(r), i as u64).output {
            out.push_str(&t);
        }
    }
    if let Some(t) = w.step(WorkerCommand::Shutdown, 100).output {
        out.push_str(&t);
    }
    assert_eq!(out, "1\n2\n3\n4\n5\n6\n7\n");
}

#[test]
fn shutdown_flushes_everything_once_and_stops() {
    let mut w = Worker::new(settings(1_000_000, NEVER, true, true), 0);
    let open = w.step(WorkerCommand::SetOutput(RollingConfig::default()), 0);
    assert!(open.open_output.is_some());
    assert!(w.step(entry("first\n"), 1).output.is_none());
    let f = w.step(WorkerCommand::FlushingEntry("second\n".to_string()), 2);
    assert_eq!(f.output.as_deref(), Some("first\nsecond\n"));
    assert!(f.to_file);
    assert!(w.step(entry("third\n"), 3).output.is_none());
    let s = w.step(WorkerCommand::Shutdown, 4);
    assert_eq!(s.output.as_deref(), Some("third\n"));
    assert!(s.stop);
    assert!(s.sync_output);
    assert!(s.to_file);
    assert!(w.is_terminated());
    let after = w.step(entry("late\n"), 5);
    assert!(after.output.is_none());
    assert!(!after.stop);
}

#[test]
fn force_flush_of_empty_buffer_hands_out_empty_text() {
    let mut w = Worker::new(settings(10, NEVER, true, false), 0);
    let a = w.step(WorkerCommand::ForceFlush, 1);
    assert_eq!(a.output.as_deref(), Some(""));
    assert!(!a.sync_output);
}

#[test]
fn second_output_only_syncs_the_first() {
    let mut w = Worker::new(settings(10, NEVER, false, true), 0);
    let a = w.step(WorkerCommand::SetOutput(RollingConfig::default()), 0);
    assert!(a.open_output.is_some());
    assert!(!a.sync_output);
    let b = w.step(WorkerCommand::SetOutput(RollingConfig::default()), 1);
    assert!(b.open_output.is_none());
    assert!(b.sync_output);
    let c = w.step(WorkerCommand::PinWorkerCore, 2);
    assert!(c.pin_core);
    assert!(c.output.is_none());
}

#[test]
fn without_output_file_nothing_goes_to_file() {
    let mut w = Worker::new(settings(1, NEVER, false, true), 0);
    let a = w.step(entry("x"), 1);
    assert_eq!(a.output.as_deref(), Some("x"));
    assert!(!a.to_file);
    assert!(!a.to_console);
}
