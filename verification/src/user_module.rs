//! Modules that an embedding application defines under a name of its own.

use crate::esm::module::ModuleName;
use vstd::prelude::*;

verus! {

/// A module of the embedding application: its name, and its definition
/// until the definition has been handed to the engine.
#[derive(Debug)]
pub struct UserModuleImpl<M, S> {
    pub module: Option<M>,
    pub name: S,
}

impl<M, S> UserModuleImpl<M, S> {
    /// A module called `name`, defined by `module`.
    pub fn new(name: S, module: M) -> (r: UserModuleImpl<M, S>)
        ensures
            r.name == name,
            r.module == Some(module),
    {
        UserModuleImpl { module: Some(module), name }
    }
}

impl<M, S: ModuleName> UserModuleImpl<M, S> {
    /// Registers the module: its name joins the names that resolve to
    /// themselves, and its definition is handed out for the engine's loader.
    /// A module registers once: afterwards it holds no definition.
    pub fn register(&mut self, resolver: &mut Vec<String>) -> (r: M)
        requires
            old(self).module is Some,
        ensures
            final(resolver)@.len() == old(resolver)@.len() + 1,
            final(resolver)@.take(old(resolver)@.len() as int) == old(resolver)@,
            final(resolver)@.last()@ == old(self).name.text(),
            r == old(self).module->0,
            final(self).module is None,
            final(self).name == old(self).name,
    {
        resolver.push(self.name.as_text().to_owned());
        proof {
            assert(resolver@.take(old(resolver)@.len() as int) == old(resolver)@);
        }
        self.module.take().unwrap()
    }

    /// Whether the definition is still there to be registered.
    pub fn is_pending(&self) -> (r: bool)
        ensures
            r == (self.module is Some),
    {
        self.module.is_some()
    }
}

/// Turns a description of a module into a module of the application.
pub trait IntoUserModule {
    type UserModule;

    fn into_module(self) -> Self::UserModule;
}

impl<M, S> IntoUserModule for (S, M) {
    type UserModule = UserModuleImpl<M, S>;

    fn into_module(self) -> (r: UserModuleImpl<M, S>)
        ensures
            r.name == self.0,
            r.module == Some(self.1),
    {
        UserModuleImpl::new(self.0, self.1)
    }
}

impl<M, S> IntoUserModule for UserModuleImpl<M, S> {
    type UserModule = UserModuleImpl<M, S>;

    fn into_module(self) -> (r: UserModuleImpl<M, S>)
        ensures
            r == self,
    {
        self
    }
}

} // verus!
