//! The module that gives scripts the standard streams of the host.

use crate::esm::module::NativeModule;
use crate::text::names;
use vstd::prelude::*;

verus! {

/// The definition of the module.
#[derive(Debug, Clone, Copy, PartialEq, Eq)]
pub struct Module;

impl Module {
    /// The names that the module exports, in the order of their declaration.
    pub fn exports() -> (r: Vec<String>)
        ensures
            names(r@) == seq!["stdout"@, "stderr"@, "stdin"@],
    {
        let mut out: Vec<String> = Vec::new();
        out.push("stdout".to_owned());
        out.push("stderr".to_owned());
        out.push("stdin".to_owned());
        proof {
            assert(names(out@) =~= seq!["stdout"@, "stderr"@, "stdin"@]);
        }
        out
    }
}

/// The module under the name by which scripts import it.
pub fn os() -> (r: NativeModule<Module, &'static str>)
    ensures
        r.0@ == "os"@,
{
    NativeModule::new("os")
}

} // verus!
