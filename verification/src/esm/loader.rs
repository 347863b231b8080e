//! Extension loaders: what each one claims, and which of them a file goes to.

use crate::esm::chain::matching_within;
use crate::text::{contains, names};
use vstd::prelude::*;

verus! {

/// How a loader turns source bytes into a module.
#[derive(Debug, Clone, Copy, PartialEq, Eq)]
pub enum LoaderKind {
    /// The source is already in the engine's own syntax and is handed over
    /// as it is.
    PassThrough,
    /// The source is first rewritten by a plugin.
    Transform,
}

/// One registration of an extension loader: the extensions it claims and how
/// it loads. Its place in the registry's list is its priority.
#[derive(Debug, Clone, PartialEq, Eq)]
pub struct LoaderEntry {
    pub extensions: Vec<String>,
    pub kind: LoaderKind,
}

/// Whether the entry claims files with that extension.
pub open spec fn entry_claims(entry: LoaderEntry, extension: Seq<char>) -> bool {
    names(entry.extensions@).contains(extension)
}

/// The positions of the loaders that claim `extension`, in registration
/// order.
pub open spec fn claimants(loaders: Seq<LoaderEntry>, extension: Seq<char>) -> Seq<usize> {
    matching_within(|i: int| entry_claims(loaders[i], extension), loaders.len())
}

/// What the host asks of an extension loader before it runs it.
pub trait EsmLoader {
    /// The extensions the loader claims, with repetitions as declared.
    spec fn claimed(&self) -> Seq<Seq<char>>;

    /// How the loader loads.
    spec fn loads_as(&self) -> LoaderKind;

    /// The extensions the loader claims.
    fn extensions(&self) -> (r: &[String])
        ensures
            names(r@) == self.claimed(),
    ;

    /// The registration that stands for this loader in a registry.
    fn entry(&self) -> (r: LoaderEntry)
        ensures
            names(r.extensions@) == self.claimed(),
            r.kind == self.loads_as(),
    ;
}

/// Copies a list of extensions.
pub fn copy_names(list: &[String]) -> (r: Vec<String>)
    ensures
        names(r@) == names(list@),
{
    let mut out: Vec<String> = Vec::new();
    let mut i: usize = 0;
    while i < list.len()
        invariant
            i <= list.len(),
            out@.len() == i,
            forall|j: int| 0 <= j < i ==> out@[j]@ == list@[j]@,
        decreases list.len() - i,
    {
        out.push(list[i].clone());
        i += 1;
    }
    proof {
        assert(names(out@) =~= names(list@));
    }
    out
}

/// The loader for sources written in the engine's own syntax.
#[derive(Debug, Clone, PartialEq, Eq)]
pub struct ScriptLoader {
    pub extensions: Vec<String>,
}

impl Default for ScriptLoader {
    /// A loader that claims `js` and nothing else.
    fn default() -> (r: ScriptLoader)
        ensures
            names(r.extensions@) == seq!["js"@],
    {
        let mut extensions: Vec<String> = Vec::new();
        extensions.push("js".to_owned());
        proof {
            assert(names(extensions@) =~= seq!["js"@]);
        }
        ScriptLoader { extensions }
    }
}

impl EsmLoader for ScriptLoader {
    open spec fn claimed(&self) -> Seq<Seq<char>> {
        names(self.extensions@)
    }

    open spec fn loads_as(&self) -> LoaderKind {
        LoaderKind::PassThrough
    }

    fn extensions(&self) -> (r: &[String]) {
        self.extensions.as_slice()
    }

    fn entry(&self) -> (r: LoaderEntry) {
        LoaderEntry {
            extensions: copy_names(self.extensions.as_slice()),
            kind: LoaderKind::PassThrough,
        }
    }
}

impl EsmLoader for LoaderEntry {
    open spec fn claimed(&self) -> Seq<Seq<char>> {
        names(self.extensions@)
    }

    open spec fn loads_as(&self) -> LoaderKind {
        self.kind
    }

    fn extensions(&self) -> (r: &[String]) {
        self.extensions.as_slice()
    }

    fn entry(&self) -> (r: LoaderEntry) {
        LoaderEntry { extensions: copy_names(self.extensions.as_slice()), kind: self.kind }
    }
}

/// Picks, in registration order, the loaders that claim `extension`: the
/// candidates for a file with that extension.
pub fn claiming(loaders: &Vec<LoaderEntry>, extension: &str) -> (r: Vec<usize>)
    ensures
        r@ == claimants(loaders@, extension@),
{
    let mut found: Vec<usize> = Vec::new();
    let mut i: usize = 0;
    let ghost wanted = |i: int| entry_claims(loaders@[i], extension@);
    while i < loaders.len()
        invariant
            i <= loaders.len(),
            wanted == |i: int| entry_claims(loaders@[i], extension@),
            found@ == matching_within(wanted, i as nat),
        decreases loaders.len() - i,
    {
        if contains(&loaders[i].extensions, extension) {
            found.push(i);
        }
        i += 1;
    }
    found
}

} // verus!
