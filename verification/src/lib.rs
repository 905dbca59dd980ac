//! Headless browser sessions over WebSocket: pooling, admission, launch and
//! profile rules.

pub mod bridge;
pub mod capacity;
pub mod chrome;
pub mod cli;
pub mod config;
pub mod disk;
pub mod encoding;
pub mod factory;
pub mod json;
pub mod laws;
pub mod linux;
pub mod paths;
pub mod platform;
pub mod pool;
pub mod pressure;
pub mod profile;
pub mod random;
pub mod rss;
pub mod scalar;
pub mod server;
pub mod session_dirs;
pub mod template;
pub mod text;
