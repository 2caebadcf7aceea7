//! Deployment operations: the decisions behind link, clean and shell steps.

pub mod clean;
pub mod link;
pub mod shell;
pub mod install;
