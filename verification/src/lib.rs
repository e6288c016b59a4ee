//! Wallpaper management for Wayland compositors: the cache file format,
//! the per-monitor wallpaper bookkeeping, and the decisions of the daemon,
//! with their contracts proved by Verus.

pub mod encoding;
pub mod cache;
pub mod text;
pub mod monitor_map;
pub mod renderer;
pub mod surface;
pub mod state;
pub mod config;
pub mod ipc;
pub mod cli;
pub mod daemon;
pub mod commands;
pub mod colors;
pub mod backend;
pub mod image_ops;
pub mod worker;
