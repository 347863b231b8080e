//! Sources of named modules: host-defined native modules and bundles of
//! precompiled ones, each keyed by exact name.

use crate::error::{ResolveError, ResolveErrorView};
use crate::esm::chain::matching_within;
use crate::text::{contains, names, str_eq};
use std::marker::PhantomData;
use vstd::prelude::*;

verus! {

/// A text that can serve as the name of a module.
pub trait ModuleName {
    /// The characters of the name.
    spec fn text(&self) -> Seq<char>;

    /// The name as a string slice.
    fn as_text(&self) -> (r: &str)
        ensures
            r@ == self.text(),
    ;
}

impl ModuleName for String {
    open spec fn text(&self) -> Seq<char> {
        self@
    }

    fn as_text(&self) -> (r: &str) {
        self.as_str()
    }
}

impl<'a> ModuleName for &'a str {
    open spec fn text(&self) -> Seq<char> {
        self@
    }

    fn as_text(&self) -> (r: &str) {
        *self
    }
}

/// A source of modules as the registry keeps it: plain names, no capability.
#[derive(Debug, Clone, PartialEq, Eq)]
pub enum ModuleSource {
    /// One host-defined module.
    Native(String),
    /// Precompiled modules embedded in the host.
    Bundled(Vec<String>),
}

/// A `ModuleSource` with its names as character sequences.
pub enum SourceView {
    Native(Seq<char>),
    Bundled(Seq<Seq<char>>),
}

impl View for ModuleSource {
    type V = SourceView;

    open spec fn view(&self) -> SourceView {
        match self {
            ModuleSource::Native(own) => SourceView::Native(own@),
            ModuleSource::Bundled(list) => SourceView::Bundled(names(list@)),
        }
    }
}

/// The sources of a list, each with its names as character sequences.
pub open spec fn source_views(sources: Seq<ModuleSource>) -> Seq<SourceView> {
    sources.map_values(|s: ModuleSource| s@)
}

/// Whether a source holds a module of exactly that name.
pub open spec fn source_recognizes(source: ModuleSource, name: Seq<char>) -> bool {
    match source {
        ModuleSource::Native(own) => own@ == name,
        ModuleSource::Bundled(list) => names(list@).contains(name),
    }
}

/// The error every source gives for a name that it does not hold.
pub open spec fn not_found(base: Seq<char>, name: Seq<char>) -> ResolveErrorView {
    ResolveErrorView::NotFound { base, specifier: name }
}

/// What the host asks of a source of modules.
pub trait EsmModule {
    /// Whether the source holds a module of exactly that name.
    spec fn recognizes(&self, name: Seq<char>) -> bool;

    /// Whether the source will be asked to load `name`.
    fn claims(&self, name: &str) -> (r: bool)
        ensures
            r == self.recognizes(name@),
    ;

    /// The canonical name of `name`: the name itself where the source holds
    /// it, `NotFound` with the importing module where it does not.
    fn resolve(&self, base: &str, name: &str) -> (r: Result<String, ResolveError>)
        ensures
            match r {
                Ok(canonical) => self.recognizes(name@) && canonical@ == name@,
                Err(e) => !self.recognizes(name@) && e@ == not_found(base@, name@),
            },
    ;

    /// The source as plain names, for a registry to keep.
    fn to_source(&self) -> (r: ModuleSource)
        ensures
            forall|name: Seq<char>| source_recognizes(r, name) == self.recognizes(name),
    ;
}

/// Turns a description of a module into a source.
pub trait IntoEsmModule {
    type Module: EsmModule;

    fn into_module(self) -> Self::Module;
}

/// Builds the answer of a source about `name`.
fn answer(recognized: bool, base: &str, name: &str) -> (r: Result<String, ResolveError>)
    ensures
        match r {
            Ok(canonical) => recognized && canonical@ == name@,
            Err(e) => !recognized && e@ == not_found(base@, name@),
        },
{
    if recognized {
        Ok(name.to_owned())
    } else {
        Err(ResolveError::NotFound { base: base.to_owned(), specifier: name.to_owned() })
    }
}

/// A module defined by the host, known by one fixed name. `M` is the host's
/// definition of the module; the registry never looks at it.
#[derive(Debug)]
pub struct NativeModule<M, S>(pub S, pub PhantomData<M>);

impl<S> NativeModule<(), S> {
    /// A native module called `name`.
    pub fn new<M>(name: S) -> (r: NativeModule<M, S>)
        ensures
            r.0 == name,
    {
        NativeModule(name, PhantomData)
    }
}

impl<M, S: ModuleName> NativeModule<M, S> {
    /// The name the module is registered under.
    pub fn name(&self) -> (r: &str)
        ensures
            r@ == self.0.text(),
    {
        self.0.as_text()
    }
}

impl<M, S: ModuleName> EsmModule for NativeModule<M, S> {
    open spec fn recognizes(&self, name: Seq<char>) -> bool {
        name == self.0.text()
    }

    fn claims(&self, name: &str) -> (r: bool) {
        str_eq(name, self.0.as_text())
    }

    fn resolve(&self, base: &str, name: &str) -> (r: Result<String, ResolveError>) {
        answer(self.claims(name), base, name)
    }

    fn to_source(&self) -> (r: ModuleSource)
        ensures
            r@ == SourceView::Native(self.0.text()),
    {
        ModuleSource::Native(self.0.as_text().to_owned())
    }
}

impl<M, S: ModuleName> IntoEsmModule for NativeModule<M, S> {
    type Module = NativeModule<M, S>;

    fn into_module(self) -> (r: NativeModule<M, S>)
        ensures
            r == self,
    {
        self
    }
}

impl<M, S: ModuleName> IntoEsmModule for (S, M) {
    type Module = NativeModule<M, S>;

    fn into_module(self) -> (r: NativeModule<M, S>)
        ensures
            r.0 == self.0,
    {
        NativeModule::new(self.0)
    }
}

/// Modules compiled ahead of time and embedded in the host, keyed by name.
#[derive(Debug, Clone, PartialEq, Eq)]
pub struct Bundle(pub Vec<String>);

impl EsmModule for Bundle {
    open spec fn recognizes(&self, name: Seq<char>) -> bool {
        names(self.0@).contains(name)
    }

    fn claims(&self, name: &str) -> (r: bool) {
        contains(&self.0, name)
    }

    fn resolve(&self, base: &str, name: &str) -> (r: Result<String, ResolveError>) {
        answer(self.claims(name), base, name)
    }

    fn to_source(&self) -> (r: ModuleSource)
        ensures
            r@ == SourceView::Bundled(names(self.0@)),
    {
        ModuleSource::Bundled(self.0.clone())
    }
}

impl IntoEsmModule for Bundle {
    type Module = Bundle;

    fn into_module(self) -> (r: Bundle)
        ensures
            r == self,
    {
        self
    }
}

impl EsmModule for ModuleSource {
    open spec fn recognizes(&self, name: Seq<char>) -> bool {
        source_recognizes(*self, name)
    }

    fn claims(&self, name: &str) -> (r: bool) {
        match self {
            ModuleSource::Native(own) => str_eq(own.as_str(), name),
            ModuleSource::Bundled(list) => contains(list, name),
        }
    }

    fn resolve(&self, base: &str, name: &str) -> (r: Result<String, ResolveError>) {
        answer(self.claims(name), base, name)
    }

    fn to_source(&self) -> (r: ModuleSource)
        ensures
            r@ == self@,
    {
        match self {
            ModuleSource::Native(own) => ModuleSource::Native(own.clone()),
            ModuleSource::Bundled(list) => ModuleSource::Bundled(list.clone()),
        }
    }
}

/// Whether any of `sources` holds a module of exactly that name.
pub open spec fn any_recognizes(sources: Seq<ModuleSource>, name: Seq<char>) -> bool {
    exists|i: int| 0 <= i < sources.len() && source_recognizes(#[trigger] sources[i], name)
}

/// The positions of all the sources that hold `name`, in registration order.
pub open spec fn holders(sources: Seq<ModuleSource>, name: Seq<char>) -> Seq<usize> {
    matching_within(|i: int| source_recognizes(sources[i], name), sources.len())
}

impl EsmModule for Vec<ModuleSource> {
    open spec fn recognizes(&self, name: Seq<char>) -> bool {
        any_recognizes(self@, name)
    }

    fn claims(&self, name: &str) -> (r: bool) {
        first_holder(self, name).is_some()
    }

    fn resolve(&self, base: &str, name: &str) -> (r: Result<String, ResolveError>) {
        answer(self.claims(name), base, name)
    }

    fn to_source(&self) -> (r: ModuleSource) {
        let mut all: Vec<String> = Vec::new();
        let mut i: usize = 0;
        while i < self.len()
            invariant
                i <= self.len(),
                forall|name: Seq<char>|
                    names(all@).contains(name) == any_recognizes(self@.take(i as int), name),
            decreases self.len() - i,
        {
            let ghost before = all@;
            match &self[i] {
                ModuleSource::Native(own) => {
                    all.push(own.clone());
                },
                ModuleSource::Bundled(list) => {
                    let mut j: usize = 0;
                    while j < list.len()
                        invariant
                            j <= list.len(),
                            all@ == before + list@.take(j as int),
                        decreases list.len() - j,
                    {
                        all.push(list[j].clone());
                        j += 1;
                        proof {
                            assert(list@.take(j as int) == list@.take(j - 1).push(list@[j - 1]));
                        }
                    }
                    proof {
                        assert(list@.take(list.len() as int) == list@);
                    }
                },
            }
            proof {
                let added = all@.skip(before.len() as int);
                assert(all@ == before + added);
                let src = self@[i as int];
                assert forall|name: Seq<char>|
                    names(all@).contains(name) == any_recognizes(
                        self@.take(i + 1),
                        name,
                    ) by {
                    lemma_names_concat(before, added, name);
                    lemma_any_recognizes_push(self@.take(i as int), src, name);
                    assert(self@.take(i + 1) == self@.take(i as int).push(src));
                    match src {
                        ModuleSource::Native(own) => {
                            assert(added == seq![own]);
                            assert(names(added) == seq![own@]);
                            assert(names(added).contains(name) == (own@ == name)) by {
                                if own@ == name {
                                    assert(names(added)[0] == name);
                                }
                            }
                        },
                        ModuleSource::Bundled(list) => {
                            assert(added == list@);
                        },
                    }
                }
            }
            i += 1;
        }
        proof {
            assert(self@.take(self.len() as int) == self@);
        }
        ModuleSource::Bundled(all)
    }
}

/// Names of a concatenation are the names of its parts.
pub proof fn lemma_names_concat(a: Seq<String>, b: Seq<String>, name: Seq<char>)
    ensures
        names(a + b).contains(name) == (names(a).contains(name) || names(b).contains(name)),
{
    assert(names(a + b) == names(a) + names(b));
    let ab = names(a) + names(b);
    if names(a).contains(name) {
        let k = choose|k: int| 0 <= k < names(a).len() && names(a)[k] == name;
        assert(ab[k] == name);
    }
    if names(b).contains(name) {
        let k = choose|k: int| 0 <= k < names(b).len() && names(b)[k] == name;
        assert(ab[names(a).len() + k] == name);
    }
    if ab.contains(name) {
        let k = choose|k: int| 0 <= k < ab.len() && ab[k] == name;
        if k < names(a).len() {
            assert(names(a)[k] == name);
        } else {
            assert(names(b)[k - names(a).len()] == name);
        }
    }
}

/// A list of sources with one more source recognizes what either recognizes.
pub proof fn lemma_any_recognizes_push(
    sources: Seq<ModuleSource>,
    last: ModuleSource,
    name: Seq<char>,
)
    ensures
        any_recognizes(sources.push(last), name) == (any_recognizes(sources, name)
            || source_recognizes(last, name)),
{
    let all = sources.push(last);
    if any_recognizes(sources, name) {
        let i = choose|i: int| 0 <= i < sources.len() && source_recognizes(sources[i], name);
        assert(source_recognizes(all[i], name));
    }
    if source_recognizes(last, name) {
        assert(source_recognizes(all[sources.len() as int], name));
    }
    if any_recognizes(all, name) {
        let i = choose|i: int| 0 <= i < all.len() && source_recognizes(all[i], name);
        if i < sources.len() {
            assert(source_recognizes(sources[i], name));
        }
    }
}

/// The first of `sources` that holds `name`: the one that resolves it and the
/// first to be asked to load it.
pub fn first_holder(sources: &Vec<ModuleSource>, name: &str) -> (r: Option<usize>)
    ensures
        match r {
            Some(i) => i < sources.len() && source_recognizes(sources[i as int], name@)
                && forall|j: int| 0 <= j < i ==> !source_recognizes(sources[j], name@),
            None => !any_recognizes(sources@, name@),
        },
{
    let mut i: usize = 0;
    while i < sources.len()
        invariant
            i <= sources.len(),
            forall|j: int| 0 <= j < i ==> !source_recognizes(sources[j], name@),
        decreases sources.len() - i,
    {
        if sources[i].claims(name) {
            return Some(i);
        }
        i += 1;
    }
    None
}

/// Every source that holds `name`, by position and in registration order:
/// the candidates that a load of `name` goes through.
pub fn all_holders(sources: &Vec<ModuleSource>, name: &str) -> (r: Vec<usize>)
    ensures
        r@ == holders(sources@, name@),
{
    let mut found: Vec<usize> = Vec::new();
    let mut i: usize = 0;
    let ghost wanted = |i: int| source_recognizes(sources@[i], name@);
    while i < sources.len()
        invariant
            i <= sources.len(),
            wanted == |i: int| source_recognizes(sources@[i], name@),
            found@ == matching_within(wanted, i as nat),
        decreases sources.len() - i,
    {
        if sources[i].claims(name) {
            found.push(i);
        }
        i += 1;
    }
    found
}

} // verus!
