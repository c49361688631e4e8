//! The macOS bundling workflows.
pub mod bundle;
pub mod codesign;
pub mod copier;
pub mod layout;
pub mod listing;
pub mod notarize;
pub mod progress;
pub mod record;
pub mod universal;
pub mod utils;
