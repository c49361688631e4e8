//! The decisions behind a tool that turns a macOS application tree into a
//! self-contained bundle, signs it, has it notarized, and merges the bundles
//! of several architectures into one.
//!
//! The library touches no file and runs no process. Whoever drives it reads
//! the file system and runs the platform tools, hands the library what was
//! found as plain values, and does what the library answers:
//!
//! - [`macos::copier::TreeCopier`] mirrors the source bundle. It is a state
//!   machine: each call of `step` takes the outcome of the last action as
//!   an event and returns the next action, such as a directory to list, a
//!   link to recreate or a file to copy.
//! - [`macos::bundle::SelfContained`] walks the dependencies of the
//!   binaries that the copier found, in the same way: a path to resolve,
//!   candidates to probe, a binary to list, two files to compare, a
//!   dependency to copy, a link edit to make.
//! - [`macos::progress`] shows why a run of the bundler ends.
//! - [`macos::codesign`], [`macos::notarize`] and [`macos::universal`] give
//!   the decisions and the tool arguments of the other workflows.
//! - [`paths`] and [`text`] hold the model of paths and strings that the
//!   contracts are stated over.
//!
//! Paths are text, with `/` between components. Two outside crates do work
//! that the library relies on without proof: `pathdiff` makes relative
//! paths, and `plist` reads property lists.
pub mod error;
pub mod macos;
pub mod paths;
pub mod property_list;
pub mod text;
pub mod utils;
