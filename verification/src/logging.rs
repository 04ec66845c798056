//! Settings of the application's log: level, directory, format.
use vstd::prelude::*;

use crate::text::str_equal;

verus! {

/// Severity of a log record, from the most to the least verbose.
#[derive(Clone, Copy, Debug, PartialEq, Eq, Structural)]
pub enum LogLevel {
    Trace,
    Debug,
    Info,
    Warn,
    Error,
}

/// Configuration for the logging system.
#[derive(Clone, Debug)]
pub struct LoggingConfig {
    /// Log level for file output.
    pub file_level: LogLevel,
    /// Directory where log files are written; none disables file logs.
    pub log_dir: Option<String>,
    /// Whether logs are written as JSON.
    pub json_format: bool,
    /// Maximum number of log files kept by rotation.
    pub max_files: Option<usize>,
}

/// `c` with ASCII capitals made small.
pub open spec fn ascii_lower(c: char) -> char {
    if 'A' <= c && c <= 'Z' {
        ((c as u32) + 32) as char
    } else {
        c
    }
}

/// Equal, ignoring the case of ASCII letters.
pub open spec fn eq_ignore_ascii_case(a: Seq<char>, b: Seq<char>) -> bool {
    a.len() == b.len() && forall|i: int| 0 <= i < a.len() ==> ascii_lower(#[trigger] a[i]) == ascii_lower(b[i])
}

/// The number written by decimal digits only (none for an empty text or
/// any other character).
pub open spec fn digits_value(s: Seq<char>) -> Option<int>
    decreases s.len(),
{
    if s.len() == 0 {
        None
    } else if !('0' <= s.last() && s.last() <= '9') {
        None
    } else {
        let d = (s.last() as u32) - ('0' as u32);
        if s.len() == 1 {
            Some(d)
        } else {
            match digits_value(s.drop_last()) {
                Some(v) => Some(10 * v + d),
                None => None,
            }
        }
    }
}

/// The number a text reads as an unsigned integer: an optional `+`, then digits.
pub open spec fn unsigned_value(s: Seq<char>) -> Option<int> {
    if s.len() > 0 && s[0] == '+' {
        digits_value(s.drop_first())
    } else {
        digits_value(s)
    }
}

/// The level a text names: a number from 1 (error) to 5 (trace), or a
/// level's name in any case.
pub open spec fn level_named(s: Seq<char>) -> Option<LogLevel> {
    let n = unsigned_value(s);
    if n == Some(1int) {
        Some(LogLevel::Error)
    } else if n == Some(2int) {
        Some(LogLevel::Warn)
    } else if n == Some(3int) {
        Some(LogLevel::Info)
    } else if n == Some(4int) {
        Some(LogLevel::Debug)
    } else if n == Some(5int) {
        Some(LogLevel::Trace)
    } else {
        if eq_ignore_ascii_case(s, "error"@) {
            Some(LogLevel::Error)
        } else if eq_ignore_ascii_case(s, "warn"@) {
            Some(LogLevel::Warn)
        } else if eq_ignore_ascii_case(s, "info"@) {
            Some(LogLevel::Info)
        } else if eq_ignore_ascii_case(s, "debug"@) {
            Some(LogLevel::Debug)
        } else if eq_ignore_ascii_case(s, "trace"@) {
            Some(LogLevel::Trace)
        } else {
            None
        }
    }
}

/// Parses a level with `tracing::Level`'s `FromStr`, which reads a number
/// from 1 to 5 or a level's name ignoring ASCII case, as `level_named` says.
#[verifier::external_body]
fn parse_level(s: &str) -> (r: Option<LogLevel>)
    ensures
        r == level_named(s@),
{
    match s.parse::<tracing::Level>() {
        Ok(tracing::Level::TRACE) => Some(LogLevel::Trace),
        Ok(tracing::Level::DEBUG) => Some(LogLevel::Debug),
        Ok(tracing::Level::INFO) => Some(LogLevel::Info),
        Ok(tracing::Level::WARN) => Some(LogLevel::Warn),
        Ok(_) => Some(LogLevel::Error),
        Err(_) => None,
    }
}

impl LoggingConfig {
    /// Debug-level logs as text in `default_dir`, keeping ten files.
    pub fn default_in(default_dir: String) -> (r: LoggingConfig)
        ensures
            r.file_level == LogLevel::Debug,
            r.log_dir == Some(default_dir),
            !r.json_format,
            r.max_files == Some(10usize),
    {
        LoggingConfig {
            file_level: LogLevel::Debug,
            log_dir: Some(default_dir),
            json_format: false,
            max_files: Some(10),
        }
    }

    /// The configuration the environment asks for, starting from the
    /// defaults: `level` (a valid level replaces the default), `log_dir`
    /// (replaces the directory), `no_file_logs` (drops the directory) and
    /// `json_logs` (switches to JSON).
    pub fn from_env_values(
        default_dir: String,
        level: Option<String>,
        log_dir: Option<String>,
        no_file_logs: bool,
        json_logs: bool,
    ) -> (r: LoggingConfig)
        ensures
            r.file_level == match level {
                Some(l) => match level_named(l@) {
                    Some(v) => v,
                    None => LogLevel::Debug,
                },
                None => LogLevel::Debug,
            },
            r.log_dir == if no_file_logs {
                None
            } else {
                match log_dir {
                    Some(d) => Some(d),
                    None => Some(default_dir),
                }
            },
            r.json_format == json_logs,
            r.max_files == Some(10usize),
    {
        let mut config = LoggingConfig::default_in(default_dir);
        if let Some(l) = &level {
            if let Some(parsed) = parse_level(l.as_str()) {
                config.file_level = parsed;
            }
        }
        if let Some(d) = log_dir {
            config.log_dir = Some(d);
        }
        if no_file_logs {
            config.log_dir = None;
        }
        if json_logs {
            config.json_format = true;
        }
        config
    }
}

impl LoggingConfig {
    /// The configuration once the level named in the configuration file is
    /// taken into account: a valid level replaces the file level, and `Off`
    /// turns file logs off.
    pub fn with_configured_level(self, level: &Option<String>) -> (r: LoggingConfig)
        ensures
            r.json_format == self.json_format,
            r.max_files == self.max_files,
            match level {
                Some(l) => {
                    &&& r.file_level == match level_named(l@) {
                        Some(v) => v,
                        None => self.file_level,
                    }
                    &&& r.log_dir == if l@ == "Off"@ {
                        None
                    } else {
                        self.log_dir
                    }
                },
                None => r == self,
            },
    {
        let mut config = self;
        if let Some(l) = level {
            if let Some(parsed) = parse_level(l.as_str()) {
                config.file_level = parsed;
            }
            if str_equal(l.as_str(), "Off") {
                config.log_dir = None;
            }
        }
        config
    }
}

} // verus!
