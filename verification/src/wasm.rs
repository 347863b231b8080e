//! Sandboxed plugins that rewrite foreign source text into code the engine
//! can run.

pub mod plugin;
pub mod util;
pub mod laws;
