use flashlog::{
    assemble_record, choose_core, format_record, offset_hours_of_seconds, usize_to_level, LogLevel, Logger, LoggerError,
    RollingPeriod, TimeZone, Worker, WorkerCommand,
};

const TS: u64 = 1_726_400_070_684_921_877;

fn emit(
    worker: &mut Worker,
    out: &mut String,
    level: LogLevel,
    topic: &str,
    message: &str,
    data: &str,
    now: u64,
) {
    let record = format_record(now, 9, false, level, "tests/logger.rs:1", topic, Some(message), data);
    if let Some(t) = worker.step(WorkerCommand::Entry(record), now).output {
        out.push_str(&t);
    }
}

fn run_levels(mut logger_out: String, plan: flashlog::LaunchPlan) -> String {
    let mut worker = Worker::new(plan.worker, 0);
    for c in plan.startup {
        worker.step(c, 0);
    }
    let data_version = r#"{"version":"0.1.0"}"#;
    let data_both = r#"{"author":"John Doe","version":"0.1.0"}"#;
    let data_kv = r#"{"struct_info":1,"struct_info2":2}"#;
    let data_struct = r#"{"TestStruct":{"test":1},"TestStruct2":{"test":2}}"#;
    let levels = [LogLevel::Error, LogLevel::Warn, LogLevel::Info, LogLevel::Debug, LogLevel::Trace];
    let mut now = TS;
    for level in levels {
        if !level.enabled_under(plan.settings.max_log_level) {
            continue;
        }
        let w = &mut worker;
        emit(w, &mut logger_out, level, "FlashLog", "", "\"\"", now);
        emit(w, &mut logger_out, level, "World", "", "\"\"", now + 1);
        emit(w, &mut logger_out, level, "Hello", "", "\"\"", now + 2);
        emit(w, &mut logger_out, level, "Hello", "FlashLog", "\"\"", now + 3);
        emit(w, &mut logger_out, level, "Hello", "FlashLog", data_version, now + 4);
        emit(w, &mut logger_out, level, "Hello", "FlashLog", data_both, now + 5);
        emit(w, &mut logger_out, level, "", "", data_version, now + 6);
        emit(w, &mut logger_out, level, "", "", data_both, now + 7);
        emit(w, &mut logger_out, level, "topic1", &format!("message {} {}", 1, 2), "\"\"", now + 8);
        emit(w, &mut logger_out, level, "topic2", &format!("message {} {}", 1, 2), data_kv, now + 9);
        emit(w, &mut logger_out, level, "topic2", &format!("message {} {}", 1, 2), data_struct, now + 10);
        if let Some(t) = worker.step(WorkerCommand::ForceFlush, now + 11).output {
            logger_out.push_str(&t);
        }
        now += 100;
    }
    logger_out
}

#[test]
fn test_logger() -> anyhow::Result<()> {
    let plan = Logger::initialize()
        .with_console_report(true)
        .with_msg_buffer_size(1_000_000)
        .with_msg_flush_interval(1_000_000_000)
        .with_max_log_level(LogLevel::Trace)
        .with_timezone(TimeZone::Local)
        .include_unixnano(false)
        .launch();
    assert_eq!(plan.startup.len(), 1);
    let out = run_levels(String::new(), plan);
    assert_eq!(out.lines().count(), 55);
    assert!(true);
    Ok(())
}

#[test]
fn test_ct() -> anyhow::Result<()> {
    let plan = Logger::initialize()
        .with_console_report(true)
        .with_msg_buffer_size(1_000_000)
        .with_msg_flush_interval(1_000_000_000)
        .with_max_log_level(LogLevel::Trace)
        .with_timezone(TimeZone::Local)
        .include_unixnano(false)
        .launch();
    let out = run_levels(String::new(), plan);
    assert!(out.contains("\"message\":\"message 1 2\""));
    assert!(true);
    Ok(())
}

#[test]
fn record_has_sorted_keys_and_newline() {
    let r = format_record(TS, 9, false, LogLevel::Info, "src/a.rs:3", "topic1", Some("message 1 2"), "\"\"");
    assert_eq!(
        r,
        "{\"data\":\"\",\"date\":\"20240915\",\"level\":\"Info\",\"message\":\"message 1 2\",\"offset\":9,\"src\":\"src/a.rs:3\",\"time\":\"20:34:30.684:921:877\",\"topic\":\"topic1\"}\n"
    );
    let v: serde_json::Value = serde_json::from_str(r.trim_end()).unwrap();
    assert_eq!(v["date"], "20240915");
}

#[test]
fn record_escapes_text_and_carries_timestamp() {
    let r = format_record(0, -5, true, LogLevel::Warn, "f:1", "say \"hi\"\n", None, "{\"k\":1}");
    assert_eq!(
        r,
        "{\"data\":{\"k\":1},\"date\":\"19691231\",\"level\":\"Warn\",\"offset\":-5,\"src\":\"f:1\",\"time\":\"19:00:00.000:000:000\",\"topic\":\"say \\\"hi\\\"\\n\",\"unixnano\":0}\n"
    );
    let v: serde_json::Value = serde_json::from_str(r.trim_end()).unwrap();
    assert_eq!(v["topic"], "say \"hi\"\n");
    assert_eq!(v["unixnano"], 0);
}

#[test]
fn assembled_record_uses_given_json() {
    let r = assemble_record("1", "\"d\"", "\"L\"", Some("\"m\""), -12, "\"s\"", "\"t\"", "\"p\"", Some(18_446_744_073_709_551_615));
    assert_eq!(
        r,
        "{\"data\":1,\"date\":\"d\",\"level\":\"L\",\"message\":\"m\",\"offset\":-12,\"src\":\"s\",\"time\":\"t\",\"topic\":\"p\",\"unixnano\":18446744073709551615}\n"
    );
}

#[test]
fn level_numbers_round_trip() {
    for n in 0..6usize {
        let l = LogLevel::from_usize(n).unwrap();
        assert_eq!(l.as_usize(), n);
    }
    assert_eq!(LogLevel::from_usize(6), Err("Invalid log level"));
    assert_eq!(LogLevel::Trace.as_str(), "Trace");
    assert_eq!(LogLevel::NIL.as_str(), "Nil");
    assert!(LogLevel::Error.enabled_under(LogLevel::Warn));
    assert!(!LogLevel::Debug.enabled_under(LogLevel::Info));
    assert!(!LogLevel::Error.enabled_under(LogLevel::NIL));
}

#[test]
fn level_setting_names() {
    assert_eq!(usize_to_level(0), "Off");
    assert_eq!(usize_to_level(1), "Error");
    assert_eq!(usize_to_level(3), "Info");
    assert_eq!(usize_to_level(5), "Trace");
    assert_eq!(usize_to_level(9), "Unknown");
}

#[test]
fn named_zones_have_fixed_offsets() {
    assert_eq!(TimeZone::Seoul.as_offset_hour(), 9);
    assert_eq!(TimeZone::Japan.as_offset_hour(), 9);
    assert_eq!(TimeZone::NewYork.as_offset_hour(), -4);
    let local = TimeZone::Local.as_offset_hour();
    assert!(-24 < local && local < 24);
}

#[test]
fn defaults_and_builders() {
    let l = Logger::initialize();
    assert!(l.file_config.is_none());
    assert_eq!(l.settings.msg_buffer_size, 1_000_000);
    assert_eq!(l.settings.msg_flush_interval, 1_000_000);
    assert_eq!(l.settings.max_log_level, LogLevel::NIL);
    assert_eq!(l.settings.logger_core, -1);
    assert!(!l.settings.console_report);
    let l = l.with_logger_core(2).with_timezone(TimeZone::Seoul).include_unixnano(true);
    assert_eq!(l.settings.logger_core, 2);
    assert_eq!(l.settings.timezone, 9);
    assert!(l.settings.include_unixnano);
}

#[test]
fn file_options_need_a_file() {
    assert_eq!(Logger::initialize().with_compress(true).err(), Some(LoggerError::UnsetFile));
    assert_eq!(Logger::initialize().with_roll_period(RollingPeriod::Hourly).err(), Some(LoggerError::UnsetFile));
    assert_eq!(Logger::initialize().with_max_roll_files(3).err(), Some(LoggerError::UnsetFile));
    assert_eq!(LoggerError::UnsetFile.message(), "File config is not set. Use with_file first");
}

#[test]
fn file_options_apply_to_the_file() {
    let l = Logger::initialize()
        .with_file("logs", "message")
        .with_roll_period(RollingPeriod::Never)
        .unwrap()
        .with_max_roll_files(4)
        .unwrap()
        .with_compress(true)
        .unwrap();
    assert!(l.settings.file_report);
    let c = l.file_config.clone().unwrap();
    assert_eq!(c.base_path, "logs");
    assert_eq!(c.file_name_prefix, "message");
    assert!(matches!(c.roll_period, Some(RollingPeriod::Never)));
    assert_eq!(c.max_roll_files, Some(4));
    assert!(c.compress);
    let plan = l.launch();
    assert_eq!(plan.startup.len(), 2);
    assert!(matches!(plan.startup[0], WorkerCommand::PinWorkerCore));
    assert!(matches!(plan.startup[1], WorkerCommand::SetOutput(_)));
    assert!(plan.worker.file_report);
}

#[test]
fn with_file_defaults_to_no_roll_and_ten_files() {
    let c = Logger::initialize().with_file("d", "p").file_config.unwrap();
    assert!(c.roll_period.is_none());
    assert_eq!(c.max_roll_files, Some(10));
    assert!(!c.compress);
}

#[test]
fn core_choice() {
    let cores = vec![0usize, 1, 2, 3];
    assert_eq!(choose_core(2, &cores), Some(2));
    assert_eq!(choose_core(-1, &cores), Some(0));
    assert_eq!(choose_core(7, &cores), Some(0));
    assert_eq!(choose_core(1, &vec![]), None);
}

#[test]
fn payload_default() {
    let p = flashlog::LogStruct::default();
    assert_eq!(p.data, [1, 2, 3, 4, 5, 6, 7, 8, 9, 10]);
}

#[test]
fn offset_seconds_truncate_toward_zero() {
    assert_eq!(offset_hours_of_seconds(32_400), 9);
    assert_eq!(offset_hours_of_seconds(19_800), 5);
    assert_eq!(offset_hours_of_seconds(-12_600), -3);
    assert_eq!(offset_hours_of_seconds(-3_599), 0);
    assert_eq!(offset_hours_of_seconds(86_399), 23);
    assert_eq!(offset_hours_of_seconds(-86_399), -23);
}

#[test]
fn record_escapes_control_characters() {
    let r = format_record(0, 0, false, LogLevel::Error, "a\\b", "t\tq\u{1}\u{1f}\u{7f}é", None, "0");
    assert!(r.contains("\"src\":\"a\\\\b\""));
    assert!(r.contains("\"topic\":\"t\\tq\\u0001\\u001f\u{7f}é\""));
    let v: serde_json::Value = serde_json::from_str(r.trim_end()).unwrap();
    assert_eq!(v["topic"], "t\tq\u{1}\u{1f}\u{7f}é");
}
