//! The modules that the host carries in its own binary.

use crate::esm::module::Bundle;
use crate::text::names;
use vstd::prelude::*;

verus! {

/// A bundle that holds the one module called `name`.
fn single(name: &str) -> (r: Bundle)
    ensures
        names(r.0@) == seq![name@],
{
    let mut list: Vec<String> = Vec::new();
    list.push(name.to_owned());
    proof {
        assert(names(list@) =~= seq![name@]);
    }
    Bundle(list)
}

/// Helpers for scripts.
pub fn util() -> (r: Bundle)
    ensures
        names(r.0@) == seq!["util"@],
{
    single("util")
}

/// Streams that feed one another.
pub fn pipe() -> (r: Bundle)
    ensures
        names(r.0@) == seq!["pipe"@],
{
    single("pipe")
}

/// Units of work that scripts schedule.
pub fn tasks() -> (r: Bundle)
    ensures
        names(r.0@) == seq!["tasks"@],
{
    single("tasks")
}

} // verus!
