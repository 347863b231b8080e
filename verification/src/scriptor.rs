//! The registrations that a host starts from: which modules and loaders
//! are there before an application adds its own, and in which order.

use crate::esm::loader::{EsmLoader, LoaderKind, ScriptLoader};
use crate::esm::module::{source_views, EsmModule, ModuleSource, SourceView};
use crate::esm::modules::EsmModulesBuilder;
use crate::modules::bundle::{pipe, tasks, util};
use crate::modules::{fs, http, os};
use crate::paths::opt_text;
use crate::vm::VmBuilder;
use crate::wasm::plugin::WasmPluginLoader;
use vstd::prelude::*;

verus! {

/// The parts of the host that an application may leave out.
#[derive(Debug, Clone, Copy, PartialEq, Eq)]
pub struct Features {
    pub fs: bool,
    pub http: bool,
    pub os: bool,
}

/// The native module called `name` if `enabled`, nothing otherwise.
pub open spec fn native_if(enabled: bool, name: Seq<char>) -> Seq<SourceView> {
    if enabled {
        seq![SourceView::Native(name)]
    } else {
        Seq::empty()
    }
}

/// The bundle that holds the one module called `name`.
pub open spec fn bundled(name: Seq<char>) -> SourceView {
    SourceView::Bundled(seq![name])
}

/// The modules that a host with these features offers, in order of
/// priority: the three it carries itself, then those for files, HTTP and
/// the standard streams as far as they are enabled.
pub open spec fn scriptor_modules(features: Features) -> Seq<SourceView> {
    seq![bundled("util"@), bundled("tasks"@), bundled("pipe"@)] + native_if(features.fs, "fs"@)
        + native_if(features.http, "http"@) + native_if(features.os, "os"@)
}

/// The modules that the engine's own resolver and loader start with: those
/// for HTTP, files and the standard streams as far as they are enabled,
/// then the three that the host carries itself.
pub open spec fn created_modules(features: Features) -> Seq<SourceView> {
    native_if(features.http, "http"@) + native_if(features.fs, "fs"@) + native_if(
        features.os,
        "os"@,
    ) + seq![bundled("pipe"@), bundled("util"@), bundled("tasks"@)]
}

/// Appends `source` to `list`.
fn push_source(list: &mut Vec<ModuleSource>, source: ModuleSource)
    ensures
        source_views(final(list)@) == source_views(old(list)@).push(source@),
{
    list.push(source);
    proof {
        assert(source_views(list@) =~= source_views(old(list)@).push(source@));
    }
}

/// The modules that the engine's own resolver and loader start with.
pub fn create(features: Features) -> (r: Vec<ModuleSource>)
    ensures
        source_views(r@) == created_modules(features),
{
    let mut list: Vec<ModuleSource> = Vec::new();
    proof {
        assert(source_views(list@) =~= Seq::<SourceView>::empty());
    }
    if features.http {
        push_source(&mut list, http::http().to_source());
    }
    if features.fs {
        push_source(&mut list, fs::fs().to_source());
    }
    if features.os {
        push_source(&mut list, os::os().to_source());
    }
    push_source(&mut list, pipe().to_source());
    push_source(&mut list, util().to_source());
    push_source(&mut list, tasks().to_source());
    proof {
        assert(source_views(list@) =~= created_modules(features));
    }
    list
}

/// Collects what a host is made of before it is built.
#[derive(Debug)]
pub struct ScriptorBuilder {
    pub modules: VmBuilder,
}

impl ScriptorBuilder {
    /// The builder of a host that works in `path`. It starts with the
    /// modules of the host, the loader for scripts and, where `plugins` are
    /// given, the loader that runs sources through them.
    pub fn new(path: &str, features: Features, plugins: Option<&WasmPluginLoader>) -> (r:
        ScriptorBuilder)
        ensures
            source_views(r.modules.modules.modules@) == scriptor_modules(features),
            opt_text(r.modules.modules.cwd) == Some(path@),
            r.modules.modules.loaders@.len() == (if plugins is Some {
                2nat
            } else {
                1nat
            }),
            r.modules.modules.loaders@[0].claimed() == seq!["js"@],
            r.modules.modules.loaders@[0].kind == LoaderKind::PassThrough,
            plugins matches Some(p) ==> r.modules.modules.loaders@[1].claimed() == p.claimed()
                && r.modules.modules.loaders@[1].kind == LoaderKind::Transform,
    {
        let mut list: Vec<ModuleSource> = Vec::new();
        proof {
            assert(source_views(list@) =~= Seq::<SourceView>::empty());
        }
        push_source(&mut list, util().to_source());
        push_source(&mut list, tasks().to_source());
        push_source(&mut list, pipe().to_source());
        if features.fs {
            push_source(&mut list, fs::fs().to_source());
        }
        if features.http {
            push_source(&mut list, http::http().to_source());
        }
        if features.os {
            push_source(&mut list, os::os().to_source());
        }
        proof {
            assert(source_views(list@) =~= scriptor_modules(features));
        }
        let mut modules = EsmModulesBuilder { modules: list, cwd: None, loaders: Vec::new() };
        modules.set_cwd(path);
        modules.add_loader(&ScriptLoader::default());
        if let Some(p) = plugins {
            modules.add_loader(p);
        }
        ScriptorBuilder { modules: VmBuilder { modules } }
    }
}

} // verus!
