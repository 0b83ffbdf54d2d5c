//! Core of a small npm-style package manager: request parsing, registry
//! resolution, cache naming, archive extraction planning, manifest and
//! lockfile mutation, and the install and removal decisions.

pub mod text;
pub mod json;
pub mod request;
pub mod registry;
pub mod cache;
pub mod extract;
pub mod manifest;
pub mod install;
pub mod config;
pub mod status;
pub mod remove;
pub mod run;
pub mod uninstall;
pub mod init;
