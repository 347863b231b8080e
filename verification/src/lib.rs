//! Module resolution, loader dispatch and engine scheduling rules for a host
//! that embeds a single-threaded script engine.
//!
//! The library decides; the host performs. Everything that touches the engine,
//! the sandbox or the disk is described here as an action for the host to
//! carry out, and what came of it is handed back as a plain value.
//!
//! The library is for Unix targets: paths are Unix paths, and what is said
//! of them holds of `std::path` and `relative_path` as they work there.

pub mod error;
pub mod esm;
pub mod modules;
pub mod paths;
pub mod runtime;
pub mod scriptor;
pub mod text;
pub mod user_module;
pub mod utils;
pub mod vm;
pub mod vm_worker;
pub mod wasm;
pub mod wasm_loader;

pub use crate::error::{EngineError, LoadError, PluginInitError, ResolveError};
pub use crate::scriptor::{create, Features, ScriptorBuilder};
pub use crate::user_module::{IntoUserModule, UserModuleImpl};
pub use crate::utils::Either;
pub use crate::vm::{Vm, VmBuilder};
pub use crate::vm_worker::{QuickResult, Worker};
