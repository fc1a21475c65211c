//! Shell alias generation from a single configuration document.
//!
//! The library turns a configuration (YAML, JSON or JSON with comments) into an
//! ordered map from alias names to commands, filtered for one shell and one
//! platform, and renders that map as Bash/Zsh aliases, Fish aliases or
//! PowerShell functions.

pub mod alias_map;
pub mod config;
pub mod document;
pub mod render;
pub mod utils;
