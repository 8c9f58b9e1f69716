//! Planning a run: batch accounting, worker fan-out and the sink choice.
//!
//! The pipeline itself — threads, the output channel, the sink's I/O — is
//! the surrounding program's business.  Everything it decides is computed
//! and checked here: how many batches there are, how many each worker
//! takes, which sink consumes them, and which configurations are rejected
//! before any work begins.

use vstd::prelude::*;
use vstd::arithmetic::div_mod::lemma_fundamental_div_mod;
use vstd::string::*;
use crate::config::{Config, OutputMode};
use crate::text::str_eq;

verus! {

/// A configuration rejected before any row is generated.
#[derive(Clone, Copy, PartialEq, Eq, Structural, Debug)]
pub enum ConfigError {
    /// The batch count does not divide evenly across the workers.
    UnevenBatches,
    /// The selected output mode needs an output file and none was given.
    MissingOutputFile,
    /// An object-store location must look like `bucket:key`.
    BadObjectLocation,
    /// The database output mode is not implemented.
    UnimplementedOutput,
    /// No usable output mode was selected.
    InvalidOutput,
}

impl ConfigError {
    /// A human-readable description of the rejection.
    pub fn message(&self) -> (m: String)
        ensures
            match self {
                ConfigError::UnevenBatches => m@ == "number of batches must be evenly divisible by number of threads"@,
                ConfigError::MissingOutputFile => m@ == "the selected output mode requires an output file"@,
                ConfigError::BadObjectLocation => m@ == "the output location must follow the format bucket:key"@,
                ConfigError::UnimplementedOutput => m@ == "database output is not yet implemented"@,
                ConfigError::InvalidOutput => m@ == "an invalid output mode was specified"@,
            },
    {
        match self {
            ConfigError::UnevenBatches => "number of batches must be evenly divisible by number of threads".to_owned(),
            ConfigError::MissingOutputFile => "the selected output mode requires an output file".to_owned(),
            ConfigError::BadObjectLocation => "the output location must follow the format bucket:key".to_owned(),
            ConfigError::UnimplementedOutput => "database output is not yet implemented".to_owned(),
            ConfigError::InvalidOutput => "an invalid output mode was specified".to_owned(),
        }
    }
}

/// The sink a run streams its batches to.
pub enum SinkPlan {
    /// Buffered standard output.
    Console,
    /// One destination file for the whole run.
    File { path: String },
    /// A multipart upload to an object store.
    ObjectStore { bucket: String, key: String },
}

/// Everything the pipeline needs to run: batch accounting and the sink.
pub struct RunPlan {
    pub num_batches: u64,
    pub batches_per_thread: u64,
    pub sink: SinkPlan,
}

/// The first position of `c` in `s` at or after `start`; the length of `s`
/// when `c` does not occur there.
pub open spec fn find_char_from(s: Seq<char>, c: char, start: int) -> int
    decreases s.len() - start when 0 <= start <= s.len()
{
    if start >= s.len() {
        s.len() as int
    } else if s[start] == c {
        start
    } else {
        find_char_from(s, c, start + 1)
    }
}

/// Finds the first occurrence of `c` at or after `from`.
pub fn find_char(s: &str, c: char, from: usize) -> (idx: usize)
    requires
        from <= s@.len(),
    ensures
        idx == find_char_from(s@, c, from as int),
        from <= idx <= s@.len(),
        idx < s@.len() ==> s@[idx as int] == c,
{
    let n = s.unicode_len();
    let mut i: usize = from;
    while i < n
        invariant
            from <= i <= n,
            n == s@.len(),
            find_char_from(s@, c, from as int) == find_char_from(s@, c, i as int),
        decreases n - i,
    {
        if s.get_char(i) == c {
            return i;
        }
        i = i + 1;
    }
    n
}

/// Splits an object-store location of the form `bucket:key` at its first
/// two colons: the bucket is everything before the first colon, the key
/// everything between the first and the second (or the end).  A location
/// with no colon at all is rejected.
pub fn split_object_location(loc: &str) -> (res: Option<(String, String)>)
    ensures
        match res {
            Some(parts) => {
                let i = find_char_from(loc@, ':', 0);
                &&& i < loc@.len()
                &&& parts.0@ == loc@.subrange(0, i)
                &&& parts.1@ == loc@.subrange(i + 1, find_char_from(loc@, ':', i + 1))
            },
            None => find_char_from(loc@, ':', 0) == loc@.len(),
        },
{
    let n = loc.unicode_len();
    let i = find_char(loc, ':', 0);
    if i == n {
        return None;
    }
    let j = find_char(loc, ':', i + 1);
    let bucket = loc.substring_char(0, i).to_owned();
    let key = loc.substring_char(i + 1, j).to_owned();
    Some((bucket, key))
}

/// How many batches the configuration asks for.
pub open spec fn spec_num_batches(c: Config) -> int {
    c.num_rows as int / c.batch_size as int
}

/// The batch count divides evenly across the workers.
pub open spec fn divides_evenly(c: Config) -> bool {
    spec_num_batches(c) % (c.num_threads as int) == 0
}

/// The rejection the configured sink earns, if any.
pub open spec fn sink_config_error(c: Config) -> Option<ConfigError> {
    match c.output_mode {
        OutputMode::Stdout => None,
        OutputMode::File => if c.output_file is None {
            Some(ConfigError::MissingOutputFile)
        } else {
            None
        },
        OutputMode::S3 => if c.output_file is None {
            Some(ConfigError::MissingOutputFile)
        } else if find_char_from(c.output_file->0@, ':', 0) == c.output_file->0@.len() {
            Some(ConfigError::BadObjectLocation)
        } else {
            None
        },
        OutputMode::PostgreSQL => Some(ConfigError::UnimplementedOutput),
        OutputMode::Unrecognized => Some(ConfigError::InvalidOutput),
    }
}

/// The planned sink matches the configured mode and location.
pub open spec fn sink_matches(p: SinkPlan, c: Config) -> bool {
    match c.output_mode {
        OutputMode::Stdout => p is Console,
        OutputMode::File => (p matches SinkPlan::File { path } && c.output_file matches Some(f)
            && path@ == f@),
        OutputMode::S3 => (p matches SinkPlan::ObjectStore { bucket, key }
            && c.output_file matches Some(f) && {
            let i = find_char_from(f@, ':', 0);
            &&& bucket@ == f@.subrange(0, i)
            &&& key@ == f@.subrange(i + 1, find_char_from(f@, ':', i + 1))
        }),
        OutputMode::PostgreSQL => false,
        OutputMode::Unrecognized => false,
    }
}

/// Plans a run, rejecting bad configurations before any work begins: the
/// batch count must divide evenly across the workers, and the sink must be
/// usable.  On success the plan's accounting is exact: the per-worker share
/// times the worker count is the whole batch count.
pub fn plan_run(config: &Config) -> (res: Result<RunPlan, ConfigError>)
    requires
        config.batch_size > 0,
        1 <= config.num_threads <= 128,
    ensures
        match res {
            Ok(plan) => {
                &&& divides_evenly(*config)
                &&& sink_config_error(*config) is None
                &&& plan.num_batches as int == spec_num_batches(*config)
                &&& plan.batches_per_thread as int == spec_num_batches(*config) / (
                config.num_threads as int)
                &&& plan.num_batches == plan.batches_per_thread * config.num_threads
                &&& sink_matches(plan.sink, *config)
            },
            Err(e) => {
                &&& (e == ConfigError::UnevenBatches <==> !divides_evenly(*config))
                &&& (divides_evenly(*config) ==> sink_config_error(*config) == Some(e))
            },
        },
        res is Err <==> (!divides_evenly(*config) || sink_config_error(*config) is Some),
{
    let num_batches = config.num_rows / config.batch_size;
    if num_batches % config.num_threads != 0 {
        return Err(ConfigError::UnevenBatches);
    }
    let batches_per_thread = num_batches / config.num_threads;
    proof {
        lemma_fundamental_div_mod(num_batches as int, config.num_threads as int);
        assert(num_batches as int == config.num_threads as int * (num_batches as int
            / config.num_threads as int));
        assert(batches_per_thread as int == num_batches as int / config.num_threads as int);
        assert(num_batches as int == batches_per_thread as int * config.num_threads as int);
    }
    let sink = match config.output_mode {
        OutputMode::Stdout => SinkPlan::Console,
        OutputMode::File => {
            match &config.output_file {
                Some(path) => SinkPlan::File { path: path.clone() },
                None => {
                    return Err(ConfigError::MissingOutputFile);
                },
            }
        },
        OutputMode::S3 => {
            match &config.output_file {
                Some(loc) => {
                    match split_object_location(loc.as_str()) {
                        Some(parts) => SinkPlan::ObjectStore { bucket: parts.0, key: parts.1 },
                        None => {
                            return Err(ConfigError::BadObjectLocation);
                        },
                    }
                },
                None => {
                    return Err(ConfigError::MissingOutputFile);
                },
            }
        },
        OutputMode::PostgreSQL => {
            return Err(ConfigError::UnimplementedOutput);
        },
        OutputMode::Unrecognized => {
            return Err(ConfigError::InvalidOutput);
        },
    };
    Ok(RunPlan { num_batches, batches_per_thread, sink })
}

} // verus!
