//! Wrapper scripts and Cargo configuration for cross-compiling with `zig`.
//!
//! The library decides what is to be done and says so in values: which
//! wrapper files a target needs and what they hold ([`wrappers`]), how the
//! section for a target merges into a configuration file ([`config`]), in
//! which order an atomic write proceeds ([`atomic`]) and how a failure is
//! reported ([`failure`]). Touching the disk is left to the caller.

pub mod atomic;
pub mod atomic_laws;
pub mod config;
pub mod environment;
pub mod failure;
pub mod single_section;
pub mod static_flags;
pub mod text;
pub mod wrapper_laws;
pub mod wrappers;

pub use crate::config::install_cargo_config;
pub use crate::environment::find_zig;
pub use crate::wrappers::generate_wrappers;
