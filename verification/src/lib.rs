//! Core of a minimal interactive shell: parsing a raw input line into a
//! structured command, resolving external program names against a search
//! path, and building the exact output lines for the built-in commands.
//!
//! Reading lines from the terminal, touching the file system and spawning
//! child processes are left to the surrounding program; this crate holds the
//! decisions and proves them against sequence-level specifications.

pub mod classify;
pub mod command;
pub mod dispatch;
pub mod message;
pub mod number;
pub mod resolve;
pub mod text;
