//! An asynchronous structured logger, split into its verified decision logic:
//! calendar conversion of nanosecond timestamps, the worker's buffering and
//! flush policy, the rolling file schedule and retention plan, and the
//! logger's configuration.
use vstd::prelude::*;

pub mod text;
pub mod timer;
pub mod rolling_file;
pub mod worker;
pub mod logger;
pub mod clock;
pub mod record;
pub mod payload;

pub use clock::UnixClock;
pub use logger::{choose_core, offset_hours_of_seconds, usize_to_level, LaunchPlan, LogLevel, Logger, LoggerError, LoggerSettings, TimeZone};
pub use record::{assemble_record, format_record};
pub use rolling_file::{RollSchedule, RollingConfig, RollingPeriod};
pub use timer::{convert_unix_nano_to_date_and_time, time_components_from_unix_nano};
pub use worker::{Worker, WorkerAction, WorkerCommand, WorkerSettings};
pub use payload::LogStruct;
