//! The modes the program runs in, and which of them work from a config.

use vstd::prelude::*;

verus! {

/// What the program was asked to do.
#[derive(Debug, Clone)]
pub enum Mode {
    Menu,
    Deploy,
    Plan,
    History,
    Run(String),
}

impl Mode {
    /// Whether the mode works from a config: the menu, deploy and plan do;
    /// the history and a run's details do not.
    pub fn needs_config(&self) -> (r: bool)
        ensures
            r == (self is Menu || self is Deploy || self is Plan),
    {
        match self {
            Mode::Menu | Mode::Deploy | Mode::Plan => true,
            Mode::History | Mode::Run(_) => false,
        }
    }
}

} // verus!
