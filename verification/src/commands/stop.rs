//! The `stop` subcommand.

use vstd::prelude::*;
use crate::ipc::Command;

verus! {

/// The request that the `stop` subcommand sends to the daemon.
pub fn run() -> (c: Command)
    ensures
        c == Command::Stop,
{
    Command::Stop
}

} // verus!
