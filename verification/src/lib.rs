//! Refreshes pinned dependency version declarations in package manifests.
//!
//! The engine parses a manifest, walks its dependency sections, asks a
//! registry snapshot for the latest version of each declared crate that the
//! resolution policy accepts, and rewrites only the declarations that are out
//! of date, preserving every other byte of the manifest.

pub mod engine;
pub mod errors;
pub mod laws;
pub mod matcher;
pub mod orchestrate;
pub mod policy;
pub mod registry;
pub mod semver_api;
pub mod text;
pub mod toml_api;
pub mod walker;
