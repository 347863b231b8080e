//! Where the host finds plugins, where it keeps what it compiled of them,
//! and the loader that sends a file to the plugins that declared its
//! extension.

use crate::error::LoadError;
use crate::esm::chain::matching_within;
use crate::paths::{file_extension, file_extension_of};
use crate::text::{contains, names};
use crate::wasm::plugin::{
    declared, transform_action, transform_run, transform_start_over, transformed_as, PluginHost,
    TransformEventView, TransformSession, WasmLoaderPlugin,
};
use std::path::Path;
use vstd::prelude::*;

verus! {

/// Where the host finds plugins and may keep what it compiled of them.
#[derive(Debug, Clone, Copy, PartialEq, Eq)]
pub struct WasmConfig<'a> {
    pub loaders: &'a str,
    pub config: &'a str,
    pub cache: Option<&'a str>,
}

/// What `Path::join` yields for `name` on top of `base`.
pub uninterp spec fn path_join(base: Seq<char>, name: Seq<char>) -> Seq<char>;

/// How `Debug` writes the path `path`.
pub uninterp spec fn path_debug(path: Seq<char>) -> Seq<char>;

/// Calls `std::path::Path::join`. Both inputs are text, so the joined path
/// is text too; the contract only gives it its name.
#[verifier::external_body]
pub(crate) fn join_path(base: &str, name: &str) -> (r: String)
    ensures
        r@ == path_join(base@, name@),
{
    Path::new(base).join(name).to_string_lossy().into_owned()
}

/// Formats `path` as `Debug` writes a `std::path::Path`. The contract only
/// gives the text its name.
#[verifier::external_body]
pub(crate) fn debug_path(path: &str) -> (r: String)
    ensures
        r@ == path_debug(path@),
{
    format!("{:?}", Path::new(path))
}

/// The two places below the root of the cache: the file that configures the
/// cache, and the directory that holds it.
#[derive(Debug, Clone, PartialEq, Eq)]
pub struct CacheLayout {
    pub config_path: String,
    pub cache_path: String,
}

/// What the host has to do so that the cache is configured.
#[derive(Debug, Clone, PartialEq, Eq)]
pub struct CachePlan {
    /// Create the directory of the cache, with its parents.
    pub create_cache_dir: bool,
    /// Write this text to the file that configures the cache.
    pub write_config: Option<String>,
}

/// The text that configures a cache kept in `cache_path`.
pub open spec fn cache_config_text(cache_path: Seq<char>) -> Seq<char> {
    "\n[cache]\nenabled = true\ndirectory = "@ + path_debug(cache_path)
        + "\ncleanup-interval = \"1d\"\nfiles-total-size-soft-limit = \"1Gi\"\n"@
}

/// The places of the cache below `root`.
pub fn cache_layout(root: &str) -> (r: CacheLayout)
    ensures
        r.config_path@ == path_join(root@, "wasm-config.toml"@),
        r.cache_path@ == path_join(root@, "wasm-cache"@),
{
    CacheLayout {
        config_path: join_path(root, "wasm-config.toml"),
        cache_path: join_path(root, "wasm-cache"),
    }
}

/// Decides what is missing of a configured cache. What exists is left
/// alone, so that asking twice changes nothing the second time.
pub fn ensure_cache_config(layout: &CacheLayout, cache_exists: bool, config_exists: bool) -> (r:
    CachePlan)
    ensures
        r.create_cache_dir == !cache_exists,
        match r.write_config {
            Some(text) => !config_exists && text@ == cache_config_text(layout.cache_path@),
            None => config_exists,
        },
{
    let write_config = if config_exists {
        None
    } else {
        let mut text = String::from_str("\n[cache]\nenabled = true\ndirectory = ");
        text.append(debug_path(layout.cache_path.as_str()).as_str());
        text.append("\ncleanup-interval = \"1d\"\nfiles-total-size-soft-limit = \"1Gi\"\n");
        Some(text)
    };
    CachePlan { create_cache_dir: !cache_exists, write_config }
}

/// The extension by which a file is matched against plugins: the one of its
/// name, or the empty text where it has none.
pub open spec fn matched_extension(path: Seq<char>) -> Seq<char> {
    match file_extension(path) {
        Some(e) => e,
        None => Seq::empty(),
    }
}

/// Whether `plugin` declared `extension`.
pub open spec fn declares(plugin: WasmLoaderPlugin, extension: Seq<char>) -> bool {
    names(plugin.exts@).contains(extension)
}

/// The plugins that are asked for the file at `path`: those that declared
/// its extension, by position and in discovery order.
pub open spec fn asked(loaders: Seq<WasmLoaderPlugin>, path: Seq<char>) -> Seq<usize> {
    matching_within(|i: int| declares(loaders[i], matched_extension(path)), loaders.len())
}

/// Plugins found through a configuration; a file goes to those of them that
/// declared its extension.
#[derive(Debug, Clone, PartialEq, Eq)]
pub struct WasmLoaders {
    pub loaders: Vec<WasmLoaderPlugin>,
}

impl WasmLoaders {
    /// The extensions that the plugins declare, one list after the other.
    pub fn extensions(&self) -> (r: Vec<String>)
        ensures
            names(r@) == declared(self.loaders@),
    {
        let mut out: Vec<String> = Vec::new();
        let mut i: usize = 0;
        proof {
            assert(self.loaders@.take(0).map_values(|p: WasmLoaderPlugin| names(p.exts@))
                =~= Seq::empty());
            assert(names(out@) =~= Seq::<Seq<char>>::empty());
        }
        while i < self.loaders.len()
            invariant
                i <= self.loaders.len(),
                names(out@) == declared(self.loaders@.take(i as int)),
            decreases self.loaders.len() - i,
        {
            let exts = &self.loaders[i].exts;
            let ghost before = out@;
            let mut j: usize = 0;
            while j < exts.len()
                invariant
                    j <= exts.len(),
                    names(out@) == names(before) + names(exts@.take(j as int)),
                decreases exts.len() - j,
            {
                let ghost cur = out@;
                out.push(exts[j].clone());
                proof {
                    assert(names(out@) =~= names(cur).push(exts@[j as int]@));
                    assert(names(exts@.take(j + 1)) =~= names(exts@.take(j as int)).push(
                        exts@[j as int]@,
                    ));
                }
                j += 1;
            }
            proof {
                assert(exts@.take(exts.len() as int) == exts@);
                let head = self.loaders@.take(i as int);
                let lists = head.map_values(|p: WasmLoaderPlugin| names(p.exts@));
                lists.lemma_flatten_push(names(exts@));
                assert(self.loaders@.take(i + 1).map_values(
                    |p: WasmLoaderPlugin| names(p.exts@),
                ) =~= lists.push(names(exts@)));
            }
            i += 1;
        }
        proof {
            assert(self.loaders@.take(self.loaders.len() as int) == self.loaders@);
        }
        out
    }

    /// Starts loading the file at `path` from `source`. The plugins that
    /// declared the extension of the file are asked in discovery order: the
    /// first whose code compiles stands, one that fails hands over to the
    /// next, and when all fail the last failure is surfaced. Without such a
    /// plugin the file cannot be loaded.
    pub fn load(&self, path: &str, source: &[u8]) -> (r: TransformSession)
        ensures
            r@ == transform_start_over(asked(self.loaders@, path@), path@, source@),
    {
        let extension = match file_extension_of(path) {
            Some(e) => e,
            None => String::new(),
        };
        let mut found: Vec<usize> = Vec::new();
        let mut i: usize = 0;
        let ghost wanted = |i: int| declares(self.loaders@[i], matched_extension(path@));
        while i < self.loaders.len()
            invariant
                i <= self.loaders.len(),
                extension@ == matched_extension(path@),
                wanted == |i: int| declares(self.loaders@[i], matched_extension(path@)),
                found@ == matching_within(wanted, i as nat),
            decreases self.loaders.len() - i,
        {
            if contains(&self.loaders[i].exts, extension.as_str()) {
                found.push(i);
            }
            i += 1;
        }
        TransformSession::over(path, source, found)
    }

    /// Loads the file at `path` from `source` with `host` doing the work.
    /// The load ends as the rules say for what the host reported, one report
    /// for each action it was asked for.
    pub fn load_with<H: PluginHost>(&self, path: &str, source: &[u8], host: &mut H) -> (r: Result<
        H::Unit,
        LoadError,
    >)
        ensures
            exists|events: Seq<TransformEventView>|
                transformed_as(
                    r,
                    transform_action(
                        transform_run(
                            transform_start_over(asked(self.loaders@, path@), path@, source@),
                            events,
                        ),
                    ),
                ),
    {
        self.load(path, source).perform(host)
    }
}

} // verus!
