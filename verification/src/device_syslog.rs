//! Parsing, filtering and delivery of a device's system log.
pub mod filter;
pub mod format;
pub mod logger;
pub mod parser;
pub mod record;
pub mod worker;

pub use filter::LogFilter;
pub use format::{get_parsed_log, get_parsed_log_colored};
pub use logger::DeviceSysLog;
pub use parser::{process_log_line, process_logs};
pub use record::{LogRecord, LogsData};
pub use worker::{LogSink, LogWorker, LoggerCommand, WorkerAction};
