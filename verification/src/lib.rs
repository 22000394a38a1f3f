//! Plato signal chain: a composable five-layer pipeline for room sensor readings.
//!
//! Each reading flows through up to five resolution layers:
//!   L0: deadband (algorithmic thresholds)
//!   L1: rules (condition-based classification)
//!   L2: a local language model, or a placeholder
//!   L3: cloud fallback
//!   L4: audit log (records what reaches it, never resolves)
//!
//! A layer that resolves a tile stops the chain; a layer that cannot handle it escalates
//! it to the next one.
pub mod builder;
pub mod chain;
mod clock;
pub mod laws;
pub mod layers;
pub mod stats;
pub mod text;
pub mod tile;

pub use builder::{all_noop_chain, SignalChainBuilder};
pub use chain::{ChainResult, ChainStep, PendingTile, SignalChain};
pub use layers::cloud::CloudLayer;
pub use layers::deadband::DeadbandLayer;
pub use layers::logging::{LogEntry, LoggingLayer};
pub use layers::noop::NoopLayer;
pub use layers::ollama::{ModelLayer, OllamaLayer};
pub use layers::rule::{Rule, RuleCondition, RuleLayer};
pub use stats::{ChainStats, LayerTally};
pub use tile::{make_reading, tile_from_reading, Layer, LayerResult, ResolutionLayer, SensorReading, Tile, TileType};
