//! Playlist daemon for `linux-wallpaperengine`: the parsers, the runner's
//! state machine and the registry of runners, with their contracts.

pub mod backend;
pub mod command;
pub mod ipc;
pub mod paths;
pub mod playlist;
pub mod props;
pub mod registry;
pub mod runner;
pub mod text;
