//! Parts of an agent runtime, each with its behaviour stated and proved.
//!
//! - [`cache`]: provider-side context caches: what identifies one, when it is reused, renewed
//!   and given up, and how much it saves.
//! - [`opencode_go`]: configuration of OpenCode Go models, and the wire API of each.
//! - [`sandbox_runner`]: the lifecycle of an agent run inside a sandbox.
//! - [`setup`]: where the `monty` worker binary is, and what to do when it is nowhere.
//! - [`text`]: comparison, ordering and joining of text.
pub mod cache;
pub mod opencode_go;
pub mod sandbox_runner;
pub mod setup;
pub mod text;
