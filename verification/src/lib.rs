//! Per-project wallpaper management for the `wechsel` project switcher.
//!
//! The library is the state-consistency core of the plugin: it models the
//! plugin's on-disk footprint (the two generated scripts, the ledger of
//! installed projects, the hook script and the per-project wallpaper stores)
//! as plain byte values and verifies the five lifecycle operations — init,
//! deinit, install, remove and save — as exact transitions on that state.
//! All file and subprocess traffic lives outside the library, which only
//! decides what every file must contain afterwards.

pub mod bytes;
pub mod errors;
pub mod laws;
pub mod ledger;
pub mod model;
pub mod orchestrator;
pub mod paths;
pub mod store;
