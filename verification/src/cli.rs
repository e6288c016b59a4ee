//! The command line: the subcommands and their arguments.

use vstd::prelude::*;

verus! {

/// The parsed command line.
pub struct Cli {
    pub command: Commands,
}

/// The subcommands.
pub enum Commands {
    /// Set a wallpaper, for one monitor or for all of them.
    SetWallpaper { image: String, mode: Option<String>, monitor: Option<String>, blur: Option<u32> },
    /// Run the wallpaper daemon.
    Daemon,
    /// Show whether the daemon runs.
    Status,
    /// Draw the current wallpapers again.
    Reload,
    /// Stop the daemon.
    Stop,
    /// Show or change the configuration.
    Config { command: ConfigCommands },
}

/// The configuration subcommands.
pub enum ConfigCommands {
    /// Show the configuration.
    Show,
    /// Change a setting.
    SetValue { setting: ConfigSetCommands },
}

/// The settings that can be changed.
pub enum ConfigSetCommands {
    /// The default scaling mode.
    Mode { mode: String },
    /// The wallpaper backend.
    Backend { backend: String },
}

} // verus!
