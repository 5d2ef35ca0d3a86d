//! Project-root resolution and persisted clean configuration for a
//! build-artifact cleaning tool.

pub mod config;
pub mod config_helper;
pub mod error;
pub mod executor;
pub mod git_helper;
pub mod path;
pub mod process;
pub mod root;
pub mod run;
pub mod text;
