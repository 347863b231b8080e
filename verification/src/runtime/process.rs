//! What a script may know of the process that hosts it.

use vstd::prelude::*;

verus! {

/// The arguments and the environment handed to a script.
#[derive(Debug, Clone, PartialEq, Eq)]
pub struct Process {
    pub argv: Vec<String>,
    pub env: Vec<(String, String)>,
}

} // verus!
