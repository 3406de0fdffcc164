//! The command line options, as the library sees them.
//!
//! Argument parsing itself is done by the program, which fills this in.

use vstd::prelude::*;

verus! {

/// A beautiful network speed test for your terminal.
pub struct Cli {
    /// Run headless: progress on stderr, summary on stdout.
    pub no_tui: bool,
    /// Run headless and print the report as one JSON object on stdout.
    pub json: bool,
    /// Pick a server whose name or host contains this text
    /// (case-insensitive).
    pub server: Option<String>,
    /// List reachable servers (nearest first) and exit.
    pub list_servers: bool,
    /// Override the duration of each transfer phase, in seconds (3-60).
    pub duration: Option<u64>,
    /// Override the number of parallel connections (1-16).
    pub connections: Option<usize>,
}

impl Cli {
    /// Whether any flag requests a run without the TUI.
    pub fn headless(&self) -> (r: bool)
        ensures
            r == (self.no_tui || self.json || self.list_servers),
    {
        self.no_tui || self.json || self.list_servers
    }
}

} // verus!
