//! One of two alternatives behind a single interface.

use crate::error::ResolveError;
use crate::esm::loader::{EsmLoader, LoaderEntry, LoaderKind};
use crate::esm::module::{EsmModule, ModuleSource};
use vstd::prelude::*;

verus! {

/// Either of two sources of modules, or of two loaders; it behaves as the
/// one it holds.
#[derive(Debug, Clone)]
pub enum Either<L, R> {
    Left(L),
    Right(R),
}

impl<L: EsmModule, R: EsmModule> EsmModule for Either<L, R> {
    open spec fn recognizes(&self, name: Seq<char>) -> bool {
        match self {
            Either::Left(left) => left.recognizes(name),
            Either::Right(right) => right.recognizes(name),
        }
    }

    fn claims(&self, name: &str) -> (r: bool) {
        match self {
            Either::Left(left) => left.claims(name),
            Either::Right(right) => right.claims(name),
        }
    }

    fn resolve(&self, base: &str, name: &str) -> (r: Result<String, ResolveError>) {
        match self {
            Either::Left(left) => left.resolve(base, name),
            Either::Right(right) => right.resolve(base, name),
        }
    }

    fn to_source(&self) -> (r: ModuleSource) {
        match self {
            Either::Left(left) => left.to_source(),
            Either::Right(right) => right.to_source(),
        }
    }
}

impl<L: EsmLoader, R: EsmLoader> EsmLoader for Either<L, R> {
    open spec fn claimed(&self) -> Seq<Seq<char>> {
        match self {
            Either::Left(left) => left.claimed(),
            Either::Right(right) => right.claimed(),
        }
    }

    open spec fn loads_as(&self) -> LoaderKind {
        match self {
            Either::Left(left) => left.loads_as(),
            Either::Right(right) => right.loads_as(),
        }
    }

    fn extensions(&self) -> (r: &[String]) {
        match self {
            Either::Left(left) => left.extensions(),
            Either::Right(right) => right.extensions(),
        }
    }

    fn entry(&self) -> (r: LoaderEntry) {
        match self {
            Either::Left(left) => left.entry(),
            Either::Right(right) => right.entry(),
        }
    }
}

} // verus!
