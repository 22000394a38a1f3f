//! The layers a signal chain is built from.
pub mod cloud;
pub mod deadband;
pub mod logging;
pub mod noop;
pub mod ollama;
pub mod rule;
