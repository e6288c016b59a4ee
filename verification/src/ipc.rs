//! The messages that clients send to the daemon, one per line.

use vstd::prelude::*;

verus! {

/// A request to the daemon.
#[derive(Debug)]
pub enum Command {
    /// Show `image` with `mode` and `blur` on `monitor`, or on every monitor
    /// when `monitor` is empty.
    SetWallpaper { image: String, mode: String, monitor: String, blur: u32 },
    /// Draw the current wallpapers again.
    Reload,
    /// Shut the daemon down.
    Stop,
}

} // verus!
