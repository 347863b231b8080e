//! The module pipeline: sources of named modules, extension loaders, and the
//! registry that routes every import through them.

pub mod chain;
pub mod module;
pub mod loader;
pub mod modules;
pub mod laws;
