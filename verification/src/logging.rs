//! Where the server logs: numbered files in a log directory, each run taking
//! the first number that no file has yet.

use vstd::prelude::*;

use crate::cli::{optional_text, ServerConfig};
use crate::text::{decimal, path_join, push_decimal, push_path_component};

verus! {

/// The path of the log file numbered `index` in `dir`: `dir/{index}.log`.
pub fn log_file_path(dir: &str, index: u32) -> (r: String)
    ensures
        r@ == path_join(dir@, decimal(index as nat) + ".log"@),
{
    let mut name = String::new();
    push_decimal(&mut name, index as u64);
    name.append(".log");
    let mut r = dir.to_owned();
    push_path_component(&mut r, name.as_str());
    r
}

/// What looking for a log file found.
#[derive(Debug, Clone, Copy, PartialEq, Eq, Structural)]
pub enum LogFileProbe {
    /// A file of that number exists.
    Exists,
    /// No file of that number exists.
    NotFound,
    /// Looking failed for another reason.
    Failed,
}

/// What to do next in the search for a free log file number.
#[derive(Debug, Clone, Copy, PartialEq, Eq, Structural)]
pub enum LogIndexStep {
    /// Use this number.
    Use(u32),
    /// Look at this number next.
    Probe(u32),
    /// Every number is taken.
    Exhausted,
    /// Looking failed; the log file cannot be created.
    Fail,
}

/// The first number to look at.
pub fn first_log_index() -> (r: u32)
    ensures
        r == 0,
{
    0
}

/// The step that follows looking at the log file numbered `index`.
pub open spec fn log_step(index: u32, probe: LogFileProbe) -> LogIndexStep {
    match probe {
        LogFileProbe::NotFound => LogIndexStep::Use(index),
        LogFileProbe::Exists => if index < u32::MAX {
            LogIndexStep::Probe((index + 1) as u32)
        } else {
            LogIndexStep::Exhausted
        },
        LogFileProbe::Failed => LogIndexStep::Fail,
    }
}

/// The step that follows looking at the log file numbered `index`: a free
/// number is used, a taken one is passed over.
pub fn next_log_index_step(index: u32, probe: LogFileProbe) -> (r: LogIndexStep)
    ensures
        r == log_step(index, probe),
{
    match probe {
        LogFileProbe::NotFound => LogIndexStep::Use(index),
        LogFileProbe::Exists => {
            if index < u32::MAX {
                LogIndexStep::Probe(index + 1)
            } else {
                LogIndexStep::Exhausted
            }
        },
        LogFileProbe::Failed => LogIndexStep::Fail,
    }
}

/// What looking at a log file finds, where `taken` says which numbers have
/// a file (the numbers past its end have none).
pub open spec fn probe_of(taken: Seq<bool>, index: u32) -> LogFileProbe {
    if index < taken.len() && taken[index as int] {
        LogFileProbe::Exists
    } else {
        LogFileProbe::NotFound
    }
}

/// Where the search that starts at `index` ends, following the steps, where
/// `taken` says which numbers have a file.
pub open spec fn log_search_from(taken: Seq<bool>, index: u32) -> LogIndexStep
    decreases taken.len() - index,
{
    match log_step(index, probe_of(taken, index)) {
        LogIndexStep::Probe(next) => if index < taken.len() && next == index + 1 {
            log_search_from(taken, next)
        } else {
            LogIndexStep::Probe(next)
        },
        other => other,
    }
}

/// The search for a log file number, started at the first number, uses the
/// first number that has no file.
pub proof fn law_first_free_log_number(taken: Seq<bool>, k: u32)
    requires
        k < taken.len(),
        forall|i: int| 0 <= i < k ==> taken[i],
        !taken[k as int],
    ensures
        log_search_from(taken, 0) == LogIndexStep::Use(k),
{
    lemma_search_reaches(taken, k, 0);
}

/// From any number up to the first free one, the search reaches it.
proof fn lemma_search_reaches(taken: Seq<bool>, k: u32, i: u32)
    requires
        k < taken.len(),
        forall|j: int| 0 <= j < k ==> taken[j],
        !taken[k as int],
        i <= k,
    ensures
        log_search_from(taken, i) == LogIndexStep::Use(k),
    decreases k - i,
{
    if i < k {
        assert(taken[i as int]);
        lemma_search_reaches(taken, k, (i + 1) as u32);
    }
}

/// How much is logged: each level takes in the ones above it.
#[derive(Debug, Clone, Copy, PartialEq, Eq, Structural)]
pub enum LogLevel {
    Error,
    Warn,
    Info,
    Debug,
    Trace,
}

/// The loggers that logging starts with: standard output, for messages up to
/// `stdout_level`; and, where a directory is given, a new numbered file in
/// it, for messages up to `file_level`. Messages up to `max_level` are
/// handed to them.
#[derive(Debug, Clone)]
pub struct LogSetup {
    pub stdout_level: LogLevel,
    pub file_dir: Option<String>,
    pub file_level: LogLevel,
    pub max_level: LogLevel,
}

/// The logging that starts with the log directory `log_path`, if any:
/// informational messages to standard output, debugging messages to the
/// file, everything handed on.
pub fn log_setup(log_path: Option<&str>) -> (r: LogSetup)
    ensures
        r.stdout_level == LogLevel::Info,
        r.file_level == LogLevel::Debug,
        r.max_level == LogLevel::Trace,
        match log_path {
            Some(p) => r.file_dir matches Some(d) && d@ == p@,
            None => r.file_dir is None,
        },
{
    LogSetup {
        stdout_level: LogLevel::Info,
        file_dir: match log_path {
            Some(p) => Some(p.to_owned()),
            None => None,
        },
        file_level: LogLevel::Debug,
        max_level: LogLevel::Trace,
    }
}

/// The logging that a server with the configuration `config` starts: that
/// of its log directory.
pub fn log_init_config(config: &ServerConfig) -> (r: LogSetup)
    ensures
        r.stdout_level == LogLevel::Info,
        r.file_level == LogLevel::Debug,
        r.max_level == LogLevel::Trace,
        optional_text(r.file_dir) == config.log_path_spec(),
{
    log_setup(config.log_path())
}

} // verus!
