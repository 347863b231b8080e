//! What a plugin may reach from inside its sandbox.

use vstd::prelude::*;

verus! {

/// The capabilities granted to a sandbox.
#[derive(Debug, Clone, Copy, PartialEq, Eq)]
pub struct Grants {
    /// The standard streams of the host are inherited.
    pub stdio: bool,
    /// Directories of the host are opened to the plugin.
    pub filesystem: bool,
    /// The plugin may open sockets.
    pub network: bool,
}

/// The grants of every plugin: the standard streams of the host, and
/// nothing else.
pub fn default_wasi() -> (r: Grants)
    ensures
        r == (Grants { stdio: true, filesystem: false, network: false }),
{
    Grants { stdio: true, filesystem: false, network: false }
}

} // verus!
