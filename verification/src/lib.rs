//! Core state-synchronization layer of a single-operator terminal dashboard:
//! the text/task codec, the network-health monitor protocol, the view state
//! machine, and the command-runner output assembly.

pub mod codec;
pub mod config;
pub mod monitor;
pub mod runner;
pub mod text;
pub mod types;
pub mod utils;
pub mod view;
