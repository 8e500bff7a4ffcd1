//! graft: versioned dependencies on files from GitHub repositories.

pub mod cache;
pub mod checksum;
pub mod cli;
pub mod commands;
pub mod config;
pub mod error;
pub mod github;
pub mod merge;
pub mod source;
pub mod state;
pub mod text;
