//! The modules that the host offers to scripts, as far as their rules can
//! be stated without the engine.

pub mod bundle;
pub mod fs;
pub mod http;
pub mod os;
