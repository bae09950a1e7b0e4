//! Library synchronisation, release installation and single-instance
//! coordination for a desktop game-distribution client.

pub mod api;
pub mod archive;
pub mod catalog;
pub mod config;
pub mod decimal;
pub mod download;
pub mod errors;
pub mod games;
pub mod instance;
pub mod launch;
pub mod reconcile;
pub mod session;
pub mod shortcut;
pub mod text;
pub mod utils;
