//! Core of a terminal image viewer: protocol byte streams, placement geometry,
//! the writer and orchestrator state machines, and the caches behind them.

pub mod app;
pub mod cli;
pub mod config;
pub mod encoding;
pub mod files;
pub mod fit;
pub mod geometry;
pub mod kgp;
pub mod layout;
pub mod lru;
pub mod pixels;
pub mod prefetch;
pub mod sender;
pub mod session;
pub mod sizing;
pub mod text;
pub mod tiles;
pub mod worker;
