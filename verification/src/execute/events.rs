//! Events emitted while a plan runs.

use vstd::prelude::*;
use crate::model::{ActionStatus, OutputStream};

verus! {

/// Maximum output lines per step in the interactive view.
pub const MAX_TUI_OUTPUT_LINES: usize = 1000;

/// A progress event of a running plan.
#[derive(Debug)]
pub enum ExecuteEvent {
    ItemStarted { index: usize, name: String },
    ActionStarted { item_index: usize, action_index: usize, item: String, action: String },
    ActionFinished {
        item_index: usize,
        action_index: usize,
        item: String,
        action: String,
        status: ActionStatus,
    },
    /// Real-time stdout/stderr output line.
    Output { item: String, stream: OutputStream, line: String },
    /// Structured action feedback (link, create, clean).
    ActionMessage { item: String, message: String },
    ActionError { item: String, message: String },
    ItemFinished { index: usize, name: String, status: ActionStatus },
    /// The item needs sudo credentials; the runner asks the user.
    SudoPrompt { item: String },
    Aborted,
}

} // verus!
