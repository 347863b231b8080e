//! What the host exposes to every script besides modules.

pub mod file_desc;
pub mod global;
pub mod process;
pub mod stream;
