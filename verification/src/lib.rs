//! Core logic of a small top-down survival/building game.
//!
//! The world is a grid of 50-unit square tiles. A single occupancy map
//! ([`grid::Grid`]) records which tile each placed object occupies; an
//! inventory tracks item counts, the equipped tool and recipe gating; a
//! task queue defers area-effect commands that are executed by
//! path-finding-driven movement; planted crops advance through growth
//! stages as a pure function of elapsed time.
//!
//! Rendering, input polling and physics are presentation concerns and live
//! outside this crate: the library consumes player intents and plain values
//! and returns the resulting state changes.
#![verifier::loop_isolation(false)]

pub mod actions;
pub mod grid;
pub mod growth;
pub mod inventory;
pub mod path;
pub mod tasks;
pub mod worldgen;
