//! Axon is a configuration-driven inference server for real-time model serving.

pub mod arithmetic;
pub mod backend;
pub mod config;
pub mod error;
pub mod health;
pub mod metrics;
pub mod numeric;
pub mod pipeline;
pub mod predictions;
pub mod registry;
pub mod rounding;
pub mod server;
pub mod startup;
pub mod store;
pub mod text;
pub mod types;
