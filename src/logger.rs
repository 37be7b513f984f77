//! Severity levels, time zones and the logger's configuration.
use vstd::prelude::*;
use crate::rolling_file::{RollingConfig, RollingPeriod};
use crate::worker::{WorkerCommand, WorkerSettings};

verus! {

/// Severity of a record; `NIL` enables none.
#[derive(Debug, Clone, Copy, PartialEq, Eq, Structural, PartialOrd, Ord, Hash)]
pub enum LogLevel {
    NIL,
    Error,
    Warn,
    Info,
    Debug,
    Trace,
}

/// The number of a level, from 0 for `NIL` to 5 for `Trace`.
pub open spec fn level_number(level: LogLevel) -> nat {
    match level {
        LogLevel::NIL => 0,
        LogLevel::Error => 1,
        LogLevel::Warn => 2,
        LogLevel::Info => 3,
        LogLevel::Debug => 4,
        LogLevel::Trace => 5,
    }
}

/// The name under which `level` is shown in records.
pub open spec fn level_text(level: LogLevel) -> Seq<char> {
    match level {
        LogLevel::NIL => "Nil"@,
        LogLevel::Error => "Error"@,
        LogLevel::Warn => "Warn"@,
        LogLevel::Info => "Info"@,
        LogLevel::Debug => "Debug"@,
        LogLevel::Trace => "Trace"@,
    }
}

/// The name of a maximum-level setting, `Off` for none enabled.
pub open spec fn level_setting_text(level: usize) -> Seq<char> {
    if level == 5 {
        "Trace"@
    } else if level == 4 {
        "Debug"@
    } else if level == 3 {
        "Info"@
    } else if level == 2 {
        "Warn"@
    } else if level == 1 {
        "Error"@
    } else if level == 0 {
        "Off"@
    } else {
        "Unknown"@
    }
}

pub fn usize_to_level(level: usize) -> (r: &'static str)
    ensures
        r@ == level_setting_text(level),
{
    match level {
        5 => "Trace",
        4 => "Debug",
        3 => "Info",
        2 => "Warn",
        1 => "Error",
        0 => "Off",
        _ => "Unknown",
    }
}

impl LogLevel {
    pub fn as_usize(&self) -> (r: usize)
        ensures
            r == level_number(*self),
    {
        match self {
            LogLevel::NIL => 0,
            LogLevel::Error => 1,
            LogLevel::Warn => 2,
            LogLevel::Info => 3,
            LogLevel::Debug => 4,
            LogLevel::Trace => 5,
        }
    }

    pub fn from_usize(level: usize) -> (r: Result<LogLevel, &'static str>)
        ensures
            r is Ok <==> level <= 5,
            r matches Ok(l) ==> level_number(l) == level,
            r matches Err(e) ==> e@ == "Invalid log level"@,
    {
        match level {
            0 => Ok(LogLevel::NIL),
            1 => Ok(LogLevel::Error),
            2 => Ok(LogLevel::Warn),
            3 => Ok(LogLevel::Info),
            4 => Ok(LogLevel::Debug),
            5 => Ok(LogLevel::Trace),
            _ => Err("Invalid log level"),
        }
    }

    /// The level's name as shown in records.
    pub fn as_str(&self) -> (r: &'static str)
        ensures
            r@ == level_text(*self),
    {
        match self {
            LogLevel::NIL => "Nil",
            LogLevel::Error => "Error",
            LogLevel::Warn => "Warn",
            LogLevel::Info => "Info",
            LogLevel::Debug => "Debug",
            LogLevel::Trace => "Trace",
        }
    }

    /// Whether a record of this level passes the maximum level `max`.
    pub fn enabled_under(&self, max: LogLevel) -> (r: bool)
        ensures
            r == (level_number(*self) <= level_number(max)),
    {
        self.as_usize() <= max.as_usize()
    }
}

/// The zone whose offset from UTC timestamps are shown in.
pub enum TimeZone {
    Local,
    Seoul,
    Japan,
    NewYork,
}

/// Relies on chrono's `Local::now().offset().local_minus_utc()`: the
/// machine's current offset from UTC in seconds, which chrono's
/// `FixedOffset` keeps strictly within one day.
#[verifier::external_body]
fn local_offset_seconds() -> (r: i32)
    ensures
        -86_400 < r < 86_400,
{
    chrono::Local::now().offset().local_minus_utc()
}

/// The offset of a named zone, in hours east of UTC; none for the local
/// zone, whose offset depends on the machine.
pub open spec fn fixed_offset(timezone: TimeZone) -> Option<int> {
    match timezone {
        TimeZone::Local => None,
        TimeZone::Seoul => Some(9),
        TimeZone::Japan => Some(9),
        TimeZone::NewYork => Some(-4),
    }
}

/// Whole hours in an offset of `secs` seconds, truncated toward zero.
pub open spec fn hours_toward_zero(secs: int) -> int {
    if secs >= 0 {
        secs / 3600
    } else {
        -((-secs) / 3600)
    }
}

pub fn offset_hours_of_seconds(secs: i32) -> (r: i32)
    requires
        -86_400 < secs < 86_400,
    ensures
        r as int == hours_toward_zero(secs as int),
        -24 < r < 24,
{
    if secs >= 0 {
        secs / 3600
    } else {
        -((-secs) / 3600)
    }
}

impl TimeZone {
    /// Whole hours east of UTC; for the local zone, the machine's current
    /// offset in seconds truncated toward zero (`offset_hours_of_seconds`).
    pub fn as_offset_hour(&self) -> (r: i32)
        ensures
            -24 < r < 24,
            fixed_offset(*self) matches Some(h) ==> r == h,
            fixed_offset(*self) is None ==> exists|secs: int|
                -86_400 < secs < 86_400 && r == hours_toward_zero(secs),
    {
        match self {
            TimeZone::Local => offset_hours_of_seconds(local_offset_seconds()),
            TimeZone::Seoul => 9,
            TimeZone::Japan => 9,
            TimeZone::NewYork => -4,
        }
    }
}

#[derive(Debug, Clone, Copy, PartialEq, Eq, Structural)]
pub enum LoggerError {
    UnsetFile,
}

impl LoggerError {
    pub fn message(&self) -> (r: &'static str)
        ensures
            r@ == "File config is not set. Use with_file first"@,
    {
        match self {
            LoggerError::UnsetFile => "File config is not set. Use with_file first",
        }
    }
}

/// The settings that the whole process reads once the logger runs.
#[derive(Debug, Clone, Copy, PartialEq, Eq, Structural)]
pub struct LoggerSettings {
    /// Buffered bytes at which the worker flushes.
    pub msg_buffer_size: usize,
    /// Nanoseconds after the last flush at which the worker flushes.
    pub msg_flush_interval: u64,
    pub include_unixnano: bool,
    pub max_log_level: LogLevel,
    /// Hours east of UTC in which timestamps are shown.
    pub timezone: i32,
    pub console_report: bool,
    pub file_report: bool,
    /// Core the worker is pinned to; -1 for the first available one.
    pub logger_core: i32,
}

pub const DEFAULT_MSG_BUFFER_SIZE: usize = 1_000_000;
pub const DEFAULT_MSG_FLUSH_INTERVAL: u64 = 1_000_000;

/// The settings a logger starts from.
pub open spec fn default_settings() -> LoggerSettings {
    LoggerSettings {
        msg_buffer_size: DEFAULT_MSG_BUFFER_SIZE,
        msg_flush_interval: DEFAULT_MSG_FLUSH_INTERVAL,
        include_unixnano: false,
        max_log_level: LogLevel::NIL,
        timezone: 0,
        console_report: false,
        file_report: false,
        logger_core: -1i32,
    }
}

/// The worker's part of the settings.
pub open spec fn worker_settings(s: LoggerSettings) -> WorkerSettings {
    WorkerSettings {
        buffer_threshold: s.msg_buffer_size,
        flush_interval: s.msg_flush_interval,
        console_report: s.console_report,
        file_report: s.file_report,
    }
}

/// A logger being configured.
pub struct Logger {
    pub file_config: Option<RollingConfig>,
    pub settings: LoggerSettings,
}

/// What a configured logger starts with: its settings, the worker's settings,
/// and the commands the worker handles first.
pub struct LaunchPlan {
    pub settings: LoggerSettings,
    pub worker: WorkerSettings,
    pub startup: Vec<WorkerCommand>,
}

impl Logger {
    pub fn initialize() -> (r: Logger)
        ensures
            r.file_config.is_none(),
            r.settings == default_settings(),
    {
        Logger {
            file_config: None,
            settings: LoggerSettings {
                msg_buffer_size: DEFAULT_MSG_BUFFER_SIZE,
                msg_flush_interval: DEFAULT_MSG_FLUSH_INTERVAL,
                include_unixnano: false,
                max_log_level: LogLevel::NIL,
                timezone: 0,
                console_report: false,
                file_report: false,
                logger_core: -1,
            },
        }
    }

    /// Writes to files named `file_name` under `file_path`, never rolled
    /// unless a roll period is set, ten kept, uncompressed. The directory is
    /// to be created by the caller.
    pub fn with_file(self, file_path: &str, file_name: &str) -> (r: Logger)
        ensures
            r.settings == (LoggerSettings { file_report: true, ..self.settings }),
            r.file_config matches Some(c) && c.base_path@ == file_path@ && c.file_name_prefix@
                == file_name@ && c.roll_period.is_none() && c.max_roll_files
                == Some(10usize) && !c.compress,
    {
        let config = RollingConfig {
            base_path: String::from_str(file_path),
            file_name_prefix: String::from_str(file_name),
            roll_period: None,
            max_roll_files: Some(10),
            compress: false,
        };
        Logger { file_config: Some(config), settings: LoggerSettings { file_report: true, ..self.settings } }
    }

    pub fn with_compress(self, compress: bool) -> (r: Result<Logger, LoggerError>)
        ensures
            r is Err <==> self.file_config is None,
            r matches Err(e) ==> e == LoggerError::UnsetFile,
            r matches Ok(l) ==> l.settings == self.settings && l.file_config == (match self.file_config {
                Some(c) => Some(RollingConfig { compress, ..c }),
                None => None,
            }),
    {
        let mut this = self;
        match this.file_config {
            Some(ref mut config) => {
                config.compress = compress;
                Ok(this)
            },
            None => Err(LoggerError::UnsetFile),
        }
    }

    pub fn with_roll_period(self, period: RollingPeriod) -> (r: Result<Logger, LoggerError>)
        ensures
            r is Err <==> self.file_config is None,
            r matches Err(e) ==> e == LoggerError::UnsetFile,
            r matches Ok(l) ==> l.settings == self.settings && l.file_config == (match self.file_config {
                Some(c) => Some(RollingConfig { roll_period: Some(period), ..c }),
                None => None,
            }),
    {
        let mut this = self;
        match this.file_config {
            Some(ref mut config) => {
                config.roll_period = Some(period);
                Ok(this)
            },
            None => Err(LoggerError::UnsetFile),
        }
    }

    pub fn with_max_roll_files(self, max_roll_files: usize) -> (r: Result<Logger, LoggerError>)
        ensures
            r is Err <==> self.file_config is None,
            r matches Err(e) ==> e == LoggerError::UnsetFile,
            r matches Ok(l) ==> l.settings == self.settings && l.file_config == (match self.file_config {
                Some(c) => Some(RollingConfig { max_roll_files: Some(max_roll_files), ..c }),
                None => None,
            }),
    {
        let mut this = self;
        match this.file_config {
            Some(ref mut config) => {
                config.max_roll_files = Some(max_roll_files);
                Ok(this)
            },
            None => Err(LoggerError::UnsetFile),
        }
    }

    pub fn with_logger_core(self, core: i32) -> (r: Logger)
        ensures
            r.file_config == self.file_config,
            r.settings == (LoggerSettings { logger_core: core, ..self.settings }),
    {
        Logger { settings: LoggerSettings { logger_core: core, ..self.settings }, ..self }
    }

    pub fn include_unixnano(self, enabled: bool) -> (r: Logger)
        ensures
            r.file_config == self.file_config,
            r.settings == (LoggerSettings { include_unixnano: enabled, ..self.settings }),
    {
        Logger { settings: LoggerSettings { include_unixnano: enabled, ..self.settings }, ..self }
    }

    pub fn with_console_report(self, console_report: bool) -> (r: Logger)
        ensures
            r.file_config == self.file_config,
            r.settings == (LoggerSettings { console_report, ..self.settings }),
    {
        Logger { settings: LoggerSettings { console_report, ..self.settings }, ..self }
    }

    pub fn with_msg_buffer_size(self, size: usize) -> (r: Logger)
        ensures
            r.file_config == self.file_config,
            r.settings == (LoggerSettings { msg_buffer_size: size, ..self.settings }),
    {
        Logger { settings: LoggerSettings { msg_buffer_size: size, ..self.settings }, ..self }
    }

    pub fn with_msg_flush_interval(self, interval: u64) -> (r: Logger)
        ensures
            r.file_config == self.file_config,
            r.settings == (LoggerSettings { msg_flush_interval: interval, ..self.settings }),
    {
        Logger { settings: LoggerSettings { msg_flush_interval: interval, ..self.settings }, ..self }
    }

    pub fn with_max_log_level(self, level: LogLevel) -> (r: Logger)
        ensures
            r.file_config == self.file_config,
            r.settings == (LoggerSettings { max_log_level: level, ..self.settings }),
    {
        Logger { settings: LoggerSettings { max_log_level: level, ..self.settings }, ..self }
    }

    pub fn with_timezone(self, timezone: TimeZone) -> (r: Logger)
        ensures
            r.file_config == self.file_config,
            r.settings == (LoggerSettings { timezone: r.settings.timezone, ..self.settings }),
            -24 < r.settings.timezone < 24,
            fixed_offset(timezone) matches Some(h) ==> r.settings.timezone == h,
            fixed_offset(timezone) is None ==> exists|secs: int|
                -86_400 < secs < 86_400 && r.settings.timezone == hours_toward_zero(secs),
    {
        let offset = timezone.as_offset_hour();
        Logger { settings: LoggerSettings { timezone: offset, ..self.settings }, ..self }
    }

    /// Ends configuration: the worker is pinned to its core first, then given
    /// the output file if one is configured.
    pub fn launch(self) -> (r: LaunchPlan)
        ensures
            r.settings == self.settings,
            r.worker == worker_settings(self.settings),
            r.startup@.len() == (if self.file_config is Some { 2int } else { 1int }),
            r.startup@[0] is PinWorkerCore,
            self.file_config matches Some(c) ==> r.startup@[1] == WorkerCommand::SetOutput(c),
    {
        let mut startup: Vec<WorkerCommand> = Vec::new();
        startup.push(WorkerCommand::PinWorkerCore);
        match self.file_config {
            Some(config) => startup.push(WorkerCommand::SetOutput(config)),
            None => {},
        }
        let worker = WorkerSettings {
            buffer_threshold: self.settings.msg_buffer_size,
            flush_interval: self.settings.msg_flush_interval,
            console_report: self.settings.console_report,
            file_report: self.settings.file_report,
        };
        LaunchPlan { settings: self.settings, worker, startup }
    }
}

/// The core the worker is pinned to: the requested one when it is among the
/// available ones, else the first available one.
pub fn choose_core(requested: i32, available: &Vec<usize>) -> (r: Option<usize>)
    ensures
        requested >= 0 && available@.contains(requested as usize) ==> r == Some(requested as usize),
        !(requested >= 0 && available@.contains(requested as usize)) ==> r == (if available@.len()
            > 0 {
            Some(available@[0])
        } else {
            None
        }),
{
    if requested >= 0 {
        let want = requested as usize;
        let mut i: usize = 0;
        while i < available.len()
            invariant
                requested >= 0,
                want == requested as usize,
                i <= available@.len(),
                forall|j: int| 0 <= j < i ==> available@[j] != want,
            decreases available@.len() - i,
        {
            if available[i] == want {
                assert(available@[i as int] == want);
                return Some(want);
            }
            i = i + 1;
        }
    }
    assert(!(requested >= 0 && available@.contains(requested as usize)));
    if available.len() > 0 {
        Some(available[0])
    } else {
        None
    }
}

} // verus!
