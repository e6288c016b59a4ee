//! The computing part of the client's subcommands.

pub mod set;
pub mod stop;
