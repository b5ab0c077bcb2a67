use vstd::prelude::*;

verus! {

/// How the process is being driven: as a CLI or as an MCP stdio server.
#[derive(Debug, Clone, Copy, PartialEq, Eq)]
pub enum LoggingMode {
    Cli,
    McpStdio,
}

/// Where log lines are written.
#[derive(Debug, Clone, Copy, PartialEq, Eq)]
pub enum LogDestination {
    Stderr,
}

/// Logging configuration derived from the process mode.
#[derive(Debug, Clone, Copy, PartialEq, Eq)]
pub struct LoggingPolicy {
    pub destination: LogDestination,
    pub ansi: bool,
    pub quiet_stdout: bool,
}

impl LoggingMode {
    /// Logs always go to stderr without ANSI colors; the MCP stdio server also
    /// keeps stdout quiet because stdout carries the protocol.
    pub fn policy(self) -> (policy: LoggingPolicy)
        ensures
            policy.destination == LogDestination::Stderr,
            !policy.ansi,
            policy.quiet_stdout == (self == LoggingMode::McpStdio),
    {
        match self {
            LoggingMode::Cli => LoggingPolicy {
                destination: LogDestination::Stderr,
                ansi: false,
                quiet_stdout: false,
            },
            LoggingMode::McpStdio => LoggingPolicy {
                destination: LogDestination::Stderr,
                ansi: false,
                quiet_stdout: true,
            },
        }
    }
}

} // verus!
