//! Companion library for a rhythm-game client: chart transformations
//! (time rescaling, long-note synthesis and removal), note-density
//! profiling, per-rate difficulty fan-out, the monitoring state machine
//! and the admission-controlled download manager.
pub mod chart;
pub mod config;
pub mod connection;
pub mod download;
pub mod edit;
pub mod monitor;
pub mod ln;
pub mod nps;
pub mod pack;
pub mod rates;
pub mod rescale;
pub mod serialize;
pub mod strings;
