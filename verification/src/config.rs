//! The run configuration the pipeline consumes: row and batch counts,
//! worker count, output destination and logging choice.  How the values are
//! obtained (command line, defaults) is the surrounding program's business;
//! the library plans and validates a run from the finished bundle.

use vstd::prelude::*;
use crate::text::str_eq;

verus! {

/// Where generated batches are sent.
#[derive(Clone, Copy, PartialEq, Eq, Structural, Debug)]
pub enum OutputMode {
    /// No usable output was selected: an unrecognized mode name.
    Unrecognized,
    Stdout,
    File,
    PostgreSQL,
    S3,
}

/// Where log lines go.
#[derive(Clone, Copy, PartialEq, Eq, Structural, Debug)]
pub enum LogType {
    Console,
    File,
}

/// The configuration bundle for one run.
pub struct Config {
    pub num_rows: u64,
    pub batch_size: u64,
    pub log_type: LogType,
    pub num_threads: u64,
    pub output_mode: OutputMode,
    pub input_file: String,
    pub output_file: Option<String>,
    pub display_header: bool,
}

/// The mode a mode name selects; anything unrecognized selects
/// `Unrecognized`, which planning later rejects.
pub open spec fn spec_output_mode(name: Seq<char>) -> OutputMode {
    if name == "stdout"@ {
        OutputMode::Stdout
    } else if name == "file"@ {
        OutputMode::File
    } else if name == "postgresql"@ {
        OutputMode::PostgreSQL
    } else if name == "s3"@ {
        OutputMode::S3
    } else {
        OutputMode::Unrecognized
    }
}

/// Maps a mode name from the configuration surface to an output mode.
pub fn parse_output_mode(name: &str) -> (m: OutputMode)
    ensures
        m == spec_output_mode(name@),
{
    if str_eq(name, "stdout") {
        OutputMode::Stdout
    } else if str_eq(name, "file") {
        OutputMode::File
    } else if str_eq(name, "postgresql") {
        OutputMode::PostgreSQL
    } else if str_eq(name, "s3") {
        OutputMode::S3
    } else {
        OutputMode::Unrecognized
    }
}

} // verus!
