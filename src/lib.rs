//! Directory-aware Node.js version switching.
//!
//! The library finds the version a project declares, picks the version
//! manager that can serve it, and produces the shell commands that switch the
//! parent shell to it. Every decision is a verified function over plain values;
//! probing the machine and talking to the shell is left to the caller.
pub mod activation;
pub mod config;
pub mod errors;
pub mod init;
pub mod engines;
pub mod output;
pub mod plugins;
pub mod registry;
pub mod setup;
pub mod shell;
pub mod text;
pub mod version;
pub mod version_file;
