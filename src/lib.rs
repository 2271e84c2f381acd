//! Companion-process core: supervision of the local inference runtime and a
//! memoization cache for results already computed.

pub mod digest;
pub mod cache;
pub mod hot_cache;
pub mod status;
pub mod supervisor;
pub mod bridge;
pub mod locator;
pub mod text;
pub mod hardware;
pub mod settings;
pub mod client;
pub mod reply;
pub mod laws;
