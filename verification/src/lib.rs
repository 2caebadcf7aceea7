//! dotman: a dotfiles deployment manager.
//!
//! The verified core: plan building, run bookkeeping, configuration
//! normalisation, command rendering, and the text handling they share.

pub mod text;
pub mod model;
pub mod ops;
pub mod execute;
pub mod config;
pub mod package_managers;
pub mod path;
pub mod plan;
pub mod stamp;
pub mod demo;
pub mod agent;
pub mod icons;
pub mod http;
pub mod shell;
pub mod platform;
pub mod archive;
pub mod diff;
pub mod headless;
pub mod installers;
pub mod profile;
pub mod store;
pub mod init;
pub mod status;
pub mod add;
pub mod width;
pub mod yaml;
pub mod self_update;
pub mod doctor;
pub mod bootstrap;
pub mod sorted_map;
pub mod screen;
pub mod cli;
