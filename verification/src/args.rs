//! The resolved configuration of one probe.

use vstd::prelude::*;

use crate::Level;

verus! {

/// The channel on which the findings are reported.
#[derive(Debug, PartialEq, Eq)]
pub enum Command {
    /// Prints the findings on the console.
    Print {  },
    /// Sends a chat card to the given address.
    NotifyTeams { callback_url: String },
    /// Sends the findings as plain JSON to the given address.
    NotifyWebhook { callback_url: String },
}

/// What a probe is asked to do.
#[derive(Debug, PartialEq, Eq)]
pub struct Args {
    /// The label that marks the containers which ought to run.
    pub label: String,
    /// The name of the engine's host, for the reader of the notification.
    pub hostname: Option<String>,
    /// Whether running containers without a health check are reported too.
    pub report_no_health: bool,
    pub command: Command,
    /// The most verbose level to log, or nothing at all.
    pub verbose: Option<Level>,
}

} // verus!
