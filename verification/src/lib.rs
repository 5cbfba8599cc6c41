//! Machine-bootstrap library: probes the user's identity and the host
//! operating system from well-known text formats, and drives idempotent
//! provisioning of dotfile directories and required packages.
//!
//! All parsing and decision logic lives here, specified and verified. A
//! caller performs the process and filesystem calls and feeds their
//! results back in as plain values; the one lookup the library makes
//! itself, resolving an executable name against the search path, is
//! declared as a trusted call whose result nothing is promised of.

pub mod command;
pub mod dotfiles_presence;
pub mod gather_info;
pub mod git_pull;
pub mod install_packages;
pub mod text;
pub mod validate_sys;
