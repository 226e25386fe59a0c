//! Provider-side context caches: their identity, their lifecycle, and how well they do.
pub mod key;
pub mod laws;
pub mod manager;
pub mod metrics;
pub mod tool_name;
