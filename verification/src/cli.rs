//! Command-line interface data: what the binary was asked to do. Argument
//! parsing itself happens outside the crate; the parsed request arrives as
//! these plain values.

use vstd::prelude::*;

verus! {

/// A parsed command line.
#[derive(Debug)]
pub struct Cli {
    /// Subcommand to run; `None` runs the daemon.
    pub command: Option<Command>,
}

/// Available subcommands.
#[derive(Debug)]
pub enum Command {
    /// Query notification history.
    History {
        /// Number of recent notifications to show.
        count: usize,
        /// Search for notifications matching this query.
        search: Option<String>,
        /// Show all notifications, ignoring the count.
        all: bool,
        /// Output in JSON format.
        json: bool,
        /// Clear all history.
        clear: bool,
        /// Show the path to the history file.
        path: bool,
    },
}

} // verus!
