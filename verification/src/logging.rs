//! Settings for the log output.

use vstd::prelude::*;

verus! {

/// How log records are filtered and printed.
#[derive(Debug, Clone)]
pub struct LoggingConfig {
    pub env_filter: String,
    pub with_ansi: bool,
    pub with_target: bool,
    pub with_thread_ids: bool,
}

impl LoggingConfig {
    /// The defaults: `info` generally, `debug` for this crate; coloured
    /// output with targets and without thread ids.
    pub open spec fn is_default(&self) -> bool {
        &&& self.env_filter@ == "info,agent_collaboration=debug"@
        &&& self.with_ansi
        &&& self.with_target
        &&& !self.with_thread_ids
    }

    pub fn new() -> (c: Self)
        ensures
            c.is_default(),
    {
        LoggingConfig {
            env_filter: String::from_str("info,agent_collaboration=debug"),
            with_ansi: true,
            with_target: true,
            with_thread_ids: false,
        }
    }

    pub fn with_filter(self, filter: &str) -> (c: Self)
        ensures
            c.env_filter@ == filter@,
            c.with_ansi == self.with_ansi,
            c.with_target == self.with_target,
            c.with_thread_ids == self.with_thread_ids,
    {
        LoggingConfig { env_filter: String::from_str(filter), ..self }
    }

    pub fn without_ansi(self) -> (c: Self)
        ensures
            c == (LoggingConfig { with_ansi: false, ..self }),
    {
        LoggingConfig { with_ansi: false, ..self }
    }

    pub fn without_target(self) -> (c: Self)
        ensures
            c == (LoggingConfig { with_target: false, ..self }),
    {
        LoggingConfig { with_target: false, ..self }
    }
}

impl Default for LoggingConfig {
    fn default() -> (c: Self)
        ensures
            c.is_default(),
    {
        LoggingConfig::new()
    }
}

} // verus!
