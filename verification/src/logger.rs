//! The logging choice.  Registering a logger with the logging facade and
//! opening a log file are process-wide side effects that live outside the
//! library; the decision of which backend a run uses is made here.

use vstd::prelude::*;
use vstd::string::*;
use crate::config::LogType;

verus! {

/// Why configuring logging failed.
#[derive(Clone, Copy, PartialEq, Eq, Structural, Debug)]
pub enum LoggerError {
    /// The log file could not be created or written.
    Io,
    /// A logger was already registered for the process.
    SetLogger,
}

impl LoggerError {
    /// A human-readable description of the failure.
    pub fn message(&self) -> (m: String)
        ensures
            match self {
                LoggerError::Io => m@ == "failed to create or write the log file"@,
                LoggerError::SetLogger => m@ == "a logger is already registered"@,
            },
    {
        match self {
            LoggerError::Io => "failed to create or write the log file".to_owned(),
            LoggerError::SetLogger => "a logger is already registered".to_owned(),
        }
    }
}

/// Chooses the logging backend for a run: a log path selects the file
/// logger, no path the console logger.  The surrounding program performs
/// the registration itself and reports its failures as [`LoggerError`].
pub fn init_logger(log_path: &Option<String>) -> (t: LogType)
    ensures
        t == (if log_path is Some {
            LogType::File
        } else {
            LogType::Console
        }),
{
    match log_path {
        Some(_) => LogType::File,
        None => LogType::Console,
    }
}

} // verus!
