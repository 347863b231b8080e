//! The module registry: one entry point for resolving a specifier to a
//! canonical name and for loading a canonical name. Registered sources come
//! first, files and their extension loaders after them.

use crate::error::{LoadError, LoadErrorView, ResolveError, ResolveErrorView};
use crate::esm::chain::{
    after, fresh, last_failed, lemma_matching_within, sound, verdict, Attempts, ChainState,
    Outcome, Standing, Verdict,
};
use crate::esm::laws::{lemma_load_ends, lemma_load_run_in_parts, load_budget};
use crate::esm::loader::{claimants, claiming, entry_claims, EsmLoader, LoaderEntry, LoaderKind};
use crate::esm::module::{
    all_holders, any_recognizes, holders, not_found, EsmModule, ModuleSource,
};
use crate::paths::{
    candidate, candidate_path, extension_of, file_extension, file_extension_of, is_absolute,
    is_path_like, opt_text, path_extension, path_is_absolute, path_like,
};
use vstd::prelude::*;

verus! {

/// Collects sources, loaders and a working directory for a registry.
#[derive(Debug, Default)]
pub struct EsmModulesBuilder {
    pub modules: Vec<ModuleSource>,
    pub cwd: Option<String>,
    pub loaders: Vec<LoaderEntry>,
}

/// `after` is `before` with `module` appended to its sources.
pub open spec fn added_module<M: EsmModule>(
    before: EsmModulesBuilder,
    after: EsmModulesBuilder,
    module: M,
) -> bool {
    &&& after.modules@.len() == before.modules@.len() + 1
    &&& after.modules@.take(before.modules@.len() as int) == before.modules@
    &&& forall|name: Seq<char>| after.modules@.last().recognizes(name) == module.recognizes(name)
    &&& after.cwd == before.cwd
    &&& after.loaders == before.loaders
}

/// `after` is `before` with the registration of `loader` appended to its
/// loaders.
pub open spec fn added_loader<L: EsmLoader>(
    before: EsmModulesBuilder,
    after: EsmModulesBuilder,
    loader: L,
) -> bool {
    &&& after.loaders@.len() == before.loaders@.len() + 1
    &&& after.loaders@.take(before.loaders@.len() as int) == before.loaders@
    &&& after.loaders@.last().claimed() == loader.claimed()
    &&& after.loaders@.last().kind == loader.loads_as()
    &&& after.cwd == before.cwd
    &&& after.modules == before.modules
}

/// `after` is `before` with `path` as its working directory.
pub open spec fn moved_to(
    before: EsmModulesBuilder,
    after: EsmModulesBuilder,
    path: Seq<char>,
) -> bool {
    &&& opt_text(after.cwd) == Some(path)
    &&& after.modules == before.modules
    &&& after.loaders == before.loaders
}

impl EsmModulesBuilder {
    /// Appends a source of modules; it ranks after those added before.
    pub fn add_module<M: EsmModule>(&mut self, module: M) -> (r: &mut Self)
        ensures
            added_module(*old(self), *r, module),
            *final(self) == *final(r),
    {
        let source = module.to_source();
        self.modules.push(source);
        proof {
            assert(self.modules@.take(old(self).modules@.len() as int) == old(self).modules@);
        }
        self
    }

    /// The builder with one more source of modules.
    pub fn with_module<M: EsmModule>(self, module: M) -> (r: EsmModulesBuilder)
        ensures
            added_module(self, r, module),
    {
        let mut out = self;
        out.add_module(module);
        out
    }

    /// Sets the directory that relative imports fall back to.
    pub fn set_cwd(&mut self, path: &str) -> (r: &mut Self)
        ensures
            moved_to(*old(self), *r, path@),
            *final(self) == *final(r),
    {
        self.cwd = Some(path.to_owned());
        self
    }

    /// The builder with its working directory set.
    pub fn with_cwd(self, path: &str) -> (r: EsmModulesBuilder)
        ensures
            moved_to(self, r, path@),
    {
        let mut out = self;
        out.set_cwd(path);
        out
    }

    /// Appends an extension loader; it ranks after those added before.
    pub fn add_loader<L: EsmLoader>(&mut self, loader: &L) -> (r: &mut Self)
        ensures
            added_loader(*old(self), *r, *loader),
            *final(self) == *final(r),
    {
        let entry = loader.entry();
        self.loaders.push(entry);
        proof {
            assert(self.loaders@.take(old(self).loaders@.len() as int) == old(self).loaders@);
        }
        self
    }

    /// The builder with one more extension loader.
    pub fn with_loader<L: EsmLoader>(self, loader: &L) -> (r: EsmModulesBuilder)
        ensures
            added_loader(self, r, *loader),
    {
        let mut out = self;
        out.add_loader(loader);
        out
    }

    /// Fixes the registrations into a registry. `current_dir` is the
    /// directory the host runs in; it serves where no working directory was
    /// set.
    pub fn build(self, current_dir: &str) -> (r: EsmModules)
        ensures
            r.sources() == self.modules@,
            r.loaders() == self.loaders@,
            r.cwd() == match self.cwd {
                Some(dir) => dir@,
                None => current_dir@,
            },
    {
        let cwd = match self.cwd {
            Some(dir) => dir,
            None => current_dir.to_owned(),
        };
        EsmModules { sources: self.modules, loaders: self.loaders, cwd }
    }
}

/// The registry. Its registrations are fixed once it is built.
#[derive(Debug)]
pub struct EsmModules {
    sources: Vec<ModuleSource>,
    loaders: Vec<LoaderEntry>,
    cwd: String,
}

/// What the registry makes of a specifier before the disk is consulted.
#[derive(Debug, Clone, PartialEq, Eq)]
pub enum Resolution {
    /// A registered module; the canonical name is the specifier itself.
    Resolved(String),
    /// A file; the host looks for this path and reports what it found.
    Probe(String),
    /// Neither a file nor a registered module.
    Failed(ResolveError),
}

/// A `Resolution` with its texts as character sequences.
pub enum ResolutionView {
    Resolved(Seq<char>),
    Probe(Seq<char>),
    Failed(ResolveErrorView),
}

impl View for Resolution {
    type V = ResolutionView;

    open spec fn view(&self) -> ResolutionView {
        match self {
            Resolution::Resolved(name) => ResolutionView::Resolved(name@),
            Resolution::Probe(path) => ResolutionView::Probe(path@),
            Resolution::Failed(e) => ResolutionView::Failed(e@),
        }
    }
}

/// What the host found at the path it was asked to look for.
#[derive(Debug, Clone, PartialEq, Eq)]
pub enum Probe {
    /// Nothing exists there.
    Missing,
    /// Something exists there; its path as text, if the path has a textual
    /// form.
    Found(Option<String>),
}

/// What a registry with these sources and this working directory makes of
/// `specifier` imported from `base`.
pub open spec fn resolution(
    sources: Seq<ModuleSource>,
    cwd: Seq<char>,
    base: Seq<char>,
    specifier: Seq<char>,
) -> ResolutionView {
    if is_path_like(specifier) {
        ResolutionView::Probe(candidate_path(base, cwd, specifier))
    } else if any_recognizes(sources, specifier) {
        ResolutionView::Resolved(specifier)
    } else {
        ResolutionView::Failed(not_found(base, specifier))
    }
}

/// The canonical name of a file specifier, given what the host found.
pub open spec fn concluded(base: Seq<char>, specifier: Seq<char>, found: Probe) -> Result<
    Seq<char>,
    ResolveErrorView,
> {
    match found {
        Probe::Missing => Err(not_found(base, specifier)),
        Probe::Found(None) => Err(ResolveErrorView::InvalidPath { specifier }),
        Probe::Found(Some(text)) => Ok(text@),
    }
}

/// A result of resolution with its texts as character sequences.
pub open spec fn resolved_view(r: Result<String, ResolveError>) -> Result<
    Seq<char>,
    ResolveErrorView,
> {
    match r {
        Ok(name) => Ok(name@),
        Err(e) => Err(e@),
    }
}

/// Who produced a module.
#[derive(Debug, Clone, Copy, PartialEq, Eq)]
pub enum LoadedBy {
    /// The registered source at this position.
    Source(usize),
    /// The extension loader at this position.
    Loader(usize),
}

/// What the host has to do next for a load.
#[derive(Debug, PartialEq, Eq)]
pub enum LoadAction {
    /// Ask the source at this position for the module.
    AskSource(usize),
    /// Read the file at this path.
    ReadFile(String),
    /// Hand the bytes read to the loader at this position.
    RunLoader(usize),
    /// Nothing: the load has ended this way.
    Finish(Result<LoadedBy, LoadError>),
}

/// A `LoadAction` with its texts as character sequences.
pub enum LoadActionView {
    AskSource(usize),
    ReadFile(Seq<char>),
    RunLoader(usize),
    Finish(Result<LoadedBy, LoadErrorView>),
}

impl View for LoadAction {
    type V = LoadActionView;

    open spec fn view(&self) -> LoadActionView {
        match self {
            LoadAction::AskSource(i) => LoadActionView::AskSource(*i),
            LoadAction::ReadFile(path) => LoadActionView::ReadFile(path@),
            LoadAction::RunLoader(i) => LoadActionView::RunLoader(*i),
            LoadAction::Finish(Ok(by)) => LoadActionView::Finish(Ok(*by)),
            LoadAction::Finish(Err(e)) => LoadActionView::Finish(Err(e@)),
        }
    }
}

/// What the host reports back after an action.
#[derive(Debug, Clone, PartialEq, Eq)]
pub enum LoadEvent {
    /// The source or loader that was asked produced the module.
    Loaded,
    /// The source or loader that was asked failed with this diagnostic.
    Failed(String),
    /// The file was read.
    FileRead,
    /// The file could not be read, for this cause.
    FileUnreadable(String),
}

/// A `LoadEvent` with its texts as character sequences.
pub enum LoadEventView {
    Loaded,
    Failed(Seq<char>),
    FileRead,
    FileUnreadable(Seq<char>),
}

impl View for LoadEvent {
    type V = LoadEventView;

    open spec fn view(&self) -> LoadEventView {
        match self {
            LoadEvent::Loaded => LoadEventView::Loaded,
            LoadEvent::Failed(d) => LoadEventView::Failed(d@),
            LoadEvent::FileRead => LoadEventView::FileRead,
            LoadEvent::FileUnreadable(c) => LoadEventView::FileUnreadable(c@),
        }
    }
}

/// What is known of the file of a load.
pub enum FileState {
    Unread,
    Read,
    Unreadable(Seq<char>),
}

/// The state of a load: the name, the chain over the sources that hold it,
/// the extension of the name, what became of the file, the chain over the
/// loaders that claim the extension, and the kind of every loader.
pub struct LoadState {
    pub name: Seq<char>,
    pub sources: ChainState,
    pub extension: Option<Seq<char>>,
    pub file: FileState,
    pub loaders: ChainState,
    pub kinds: Seq<LoaderKind>,
}

/// How the failure of a loader is reported: a pass-through loader fails
/// because the engine refused the source, a transforming one because its
/// plugin did. The diagnostic is kept word for word.
pub open spec fn failure_of(
    kind: LoaderKind,
    path: Seq<char>,
    diagnostic: Seq<char>,
) -> LoadErrorView {
    match kind {
        LoaderKind::PassThrough => LoadErrorView::DecodeFailure { path, cause: diagnostic },
        LoaderKind::Transform => LoadErrorView::TransformFailure { path, diagnostic },
    }
}

/// The kind of every loader, by position.
pub open spec fn kinds_of(loaders: Seq<LoaderEntry>) -> Seq<LoaderKind> {
    loaders.map_values(|l: LoaderEntry| l.kind)
}

/// The state in which a load starts that asks the sources at `held` and
/// takes `extension` as the extension of `name`.
pub open spec fn load_start_at(
    held: Seq<usize>,
    extension: Option<Seq<char>>,
    loaders: Seq<LoaderEntry>,
    name: Seq<char>,
) -> LoadState {
    LoadState {
        name,
        sources: fresh(held),
        extension,
        file: FileState::Unread,
        loaders: fresh(
            match extension {
                Some(e) => claimants(loaders, e),
                None => Seq::empty(),
            },
        ),
        kinds: kinds_of(loaders),
    }
}

/// The state in which a load of `name` starts: every source that holds the
/// name is to be asked, in registration order.
pub open spec fn load_start(
    sources: Seq<ModuleSource>,
    loaders: Seq<LoaderEntry>,
    name: Seq<char>,
) -> LoadState {
    load_start_at(holders(sources, name), path_extension(name), loaders, name)
}

/// The state in which compiling the file at `path` starts: as a load, but
/// with no source asked.
pub open spec fn compile_start(loaders: Seq<LoaderEntry>, path: Seq<char>) -> LoadState {
    load_start_at(Seq::empty(), file_extension(path), loaders, path)
}

/// What the loaders' part of a load has come to once the file is read.
pub open spec fn loaders_action(s: LoadState) -> LoadActionView {
    match verdict(s.loaders) {
        Verdict::Pending(i) => LoadActionView::RunLoader(i),
        Verdict::Won(i) => LoadActionView::Finish(Ok(LoadedBy::Loader(i))),
        Verdict::Failed(None) => LoadActionView::Finish(
            Err(LoadErrorView::ExtensionUnsupported { path: s.name }),
        ),
        Verdict::Failed(Some(diagnostic)) => LoadActionView::Finish(
            Err(
                match last_failed(s.loaders) {
                    Some(i) => failure_of(s.kinds[i as int], s.name, diagnostic),
                    None => LoadErrorView::ExtensionUnsupported { path: s.name },
                },
            ),
        ),
    }
}

/// What the host has to do in state `s`. The sources that hold the name are
/// asked first, in order. When none of them produced the module, the name
/// is taken as a file: without an extension it is invalid; otherwise the
/// file is read and the loaders that claim the extension are run in order.
pub open spec fn load_action(s: LoadState) -> LoadActionView {
    match verdict(s.sources) {
        Verdict::Won(i) => LoadActionView::Finish(Ok(LoadedBy::Source(i))),
        Verdict::Pending(i) => LoadActionView::AskSource(i),
        Verdict::Failed(_) => match s.extension {
            None => LoadActionView::Finish(Err(LoadErrorView::InvalidPath { path: s.name })),
            Some(_) => match s.file {
                FileState::Unread => LoadActionView::ReadFile(s.name),
                FileState::Unreadable(cause) => LoadActionView::Finish(
                    Err(LoadErrorView::Io { path: s.name, cause }),
                ),
                FileState::Read => loaders_action(s),
            },
        },
    }
}

/// The state after the host reported `event` on the action of `s`. A report
/// that does not answer the action changes nothing.
pub open spec fn load_step(s: LoadState, event: LoadEventView) -> LoadState {
    match (load_action(s), event) {
        (LoadActionView::AskSource(_), LoadEventView::Loaded) => LoadState {
            sources: after(s.sources, Outcome::Success),
            ..s
        },
        (LoadActionView::AskSource(_), LoadEventView::Failed(d)) => LoadState {
            sources: after(s.sources, Outcome::Failure(d)),
            ..s
        },
        (LoadActionView::ReadFile(_), LoadEventView::FileRead) => LoadState {
            file: FileState::Read,
            ..s
        },
        (LoadActionView::ReadFile(_), LoadEventView::FileUnreadable(cause)) => LoadState {
            file: FileState::Unreadable(cause),
            ..s
        },
        (LoadActionView::RunLoader(_), LoadEventView::Loaded) => LoadState {
            loaders: after(s.loaders, Outcome::Success),
            ..s
        },
        (LoadActionView::RunLoader(_), LoadEventView::Failed(d)) => LoadState {
            loaders: after(s.loaders, Outcome::Failure(d)),
            ..s
        },
        _ => s,
    }
}

/// The state after the host reported `events` one by one.
pub open spec fn load_run(s: LoadState, events: Seq<LoadEventView>) -> LoadState
    decreases events.len(),
{
    if events.len() == 0 {
        s
    } else {
        load_run(load_step(s, events[0]), events.drop_first())
    }
}

/// A load in progress.
pub struct LoadSession {
    name: String,
    sources: Attempts,
    extension: Option<String>,
    file: FileStatus,
    loaders: Attempts,
    kinds: Vec<LoaderKind>,
}

enum FileStatus {
    Unread,
    Read,
    Unreadable(String),
}

impl View for FileStatus {
    type V = FileState;

    closed spec fn view(&self) -> FileState {
        match self {
            FileStatus::Unread => FileState::Unread,
            FileStatus::Read => FileState::Read,
            FileStatus::Unreadable(cause) => FileState::Unreadable(cause@),
        }
    }
}

impl View for LoadSession {
    type V = LoadState;

    closed spec fn view(&self) -> LoadState {
        LoadState {
            name: self.name@,
            sources: self.sources@,
            extension: opt_text(self.extension),
            file: self.file@,
            loaders: self.loaders@,
            kinds: self.kinds@,
        }
    }
}

/// A load keeps its order: the file is not read while a source is still to
/// be asked, and no loader has run while the file is unread.
pub open spec fn orderly(s: LoadState) -> bool {
    &&& !s.sources.won && s.sources.failed < s.sources.candidates.len() ==> s.file is Unread
    &&& s.file is Unread ==> s.loaders == fresh(s.loaders.candidates)
}

/// The chains of the state are sound, the load has kept its order, and
/// every candidate loader is a position in the list of kinds.
pub open spec fn load_sound(s: LoadState) -> bool {
    &&& sound(s.sources)
    &&& sound(s.loaders)
    &&& orderly(s)
    &&& forall|k: int|
        0 <= k < s.loaders.candidates.len() ==> #[trigger] s.loaders.candidates[k] < s.kinds.len()
}

impl LoadSession {
    #[verifier::type_invariant]
    spec fn well_formed(&self) -> bool {
        &&& orderly(self@)
        &&& forall|k: int|
            0 <= k < self.loaders@.candidates.len() ==> #[trigger] self.loaders@.candidates[k]
                < self.kinds@.len()
    }

    /// What the host has to do now.
    pub fn action(&self) -> (r: LoadAction)
        ensures
            r@ == load_action(self@),
            load_sound(self@),
    {
        proof {
            use_type_invariant(self);
        }
        let tried = self.loaders.last_tried();
        match self.sources.standing() {
            Standing::Won(i) => LoadAction::Finish(Ok(LoadedBy::Source(i))),
            Standing::Pending(i) => LoadAction::AskSource(i),
            Standing::Failed(_) => match &self.extension {
                None => LoadAction::Finish(Err(LoadError::InvalidPath { path: self.name.clone() })),
                Some(_) => match &self.file {
                    FileStatus::Unread => LoadAction::ReadFile(self.name.clone()),
                    FileStatus::Unreadable(cause) => LoadAction::Finish(
                        Err(LoadError::Io { path: self.name.clone(), cause: cause.clone() }),
                    ),
                    FileStatus::Read => {
                        match self.loaders.standing() {
                            Standing::Pending(i) => LoadAction::RunLoader(i),
                            Standing::Won(i) => LoadAction::Finish(Ok(LoadedBy::Loader(i))),
                            Standing::Failed(None) => LoadAction::Finish(
                                Err(LoadError::ExtensionUnsupported { path: self.name.clone() }),
                            ),
                            Standing::Failed(Some(diagnostic)) => match tried {
                                Some(i) => {
                                    let path = self.name.clone();
                                    match self.kinds[i] {
                                        LoaderKind::PassThrough => LoadAction::Finish(
                                            Err(
                                                LoadError::DecodeFailure {
                                                    path,
                                                    cause: diagnostic,
                                                },
                                            ),
                                        ),
                                        LoaderKind::Transform => LoadAction::Finish(
                                            Err(LoadError::TransformFailure { path, diagnostic }),
                                        ),
                                    }
                                },
                                None => LoadAction::Finish(
                                    Err(
                                        LoadError::ExtensionUnsupported {
                                            path: self.name.clone(),
                                        },
                                    ),
                                ),
                            },
                        }
                    },
                },
            },
        }
    }

    /// Takes the host's report on the current action and says what to do
    /// next.
    pub fn step(&mut self, event: LoadEvent) -> (r: LoadAction)
        ensures
            final(self)@ == load_step(old(self)@, event@),
            r@ == load_action(final(self)@),
            load_sound(final(self)@),
    {
        let now = self.action();
        match (now, event) {
            (LoadAction::AskSource(_), LoadEvent::Loaded) => {
                self.sources.report_success();
            },
            (LoadAction::AskSource(_), LoadEvent::Failed(d)) => {
                self.sources.report_failure(d);
            },
            (LoadAction::ReadFile(_), LoadEvent::FileRead) => {
                self.file = FileStatus::Read;
            },
            (LoadAction::ReadFile(_), LoadEvent::FileUnreadable(cause)) => {
                self.file = FileStatus::Unreadable(cause);
            },
            (LoadAction::RunLoader(_), LoadEvent::Loaded) => {
                self.loaders.report_success();
            },
            (LoadAction::RunLoader(_), LoadEvent::Failed(d)) => {
                self.loaders.report_failure(d);
            },
            _ => {},
        }
        self.action()
    }

    /// The name being loaded.
    pub fn name(&self) -> (r: &str)
        ensures
            r@ == self@.name,
    {
        self.name.as_str()
    }

    /// Whether the load has ended.
    pub fn finished(&self) -> (r: bool)
        ensures
            r == (load_action(self@) is Finish),
    {
        match self.action() {
            LoadAction::Finish(_) => true,
            _ => false,
        }
    }
}

/// Who performs the actions of the registry: looks at the disk, asks the
/// sources, reads files and runs the loaders. What it answers is its own affair; the load goes on
/// from whatever comes back.
pub trait LoadHost {
    /// What a source or a loader produces: the module, as the engine keeps
    /// it.
    type Unit;

    /// Looks for something at `path`.
    fn probe(&mut self, path: &str) -> Probe;

    /// Asks the source at position `source` for the module called `name`.
    fn ask_source(&mut self, source: usize, name: &str) -> Result<Self::Unit, String>;

    /// Reads the file at `path`.
    fn read_file(&mut self, path: &str) -> Result<Vec<u8>, String>;

    /// Hands `bytes`, read from the file `name`, to the loader at position
    /// `loader`.
    fn run_loader(&mut self, loader: usize, name: &str, bytes: &[u8]) -> Result<
        Self::Unit,
        String,
    >;

    /// Makes the relative path `path` absolute and canonical.
    fn canonicalize(&mut self, path: &str) -> Result<String, String>;
}

/// Whether `r` is how a load ended that the rules ended with `ended`: with
/// a module where the rules say who produced it, with the same error where
/// they say why not.
pub open spec fn ended_as<U>(r: Result<U, LoadError>, ended: LoadActionView) -> bool {
    match r {
        Ok(_) => ended matches LoadActionView::Finish(Ok(_)),
        Err(e) => ended == LoadActionView::Finish(Err(e@)),
    }
}

/// Whether `r` is how compiling the absolute path `path` may end with these
/// loaders, for some reports of the host.
pub open spec fn compiled_as<U>(
    r: Result<U, LoadError>,
    loaders: Seq<LoaderEntry>,
    path: Seq<char>,
) -> bool {
    exists|events: Seq<LoadEventView>|
        ended_as(r, load_action(load_run(compile_start(loaders, path), events)))
}

/// Whether `r` fails because something at `path` could not be read.
pub open spec fn unreadable_at<U>(r: Result<U, LoadError>, path: Seq<char>) -> bool {
    r matches Err(e) && e@ is Io && e@->Io_path == path
}

/// The kinds of `loaders`, by position.
fn kinds(loaders: &Vec<LoaderEntry>) -> (r: Vec<LoaderKind>)
    ensures
        r@ == kinds_of(loaders@),
{
    let mut out: Vec<LoaderKind> = Vec::new();
    let mut i: usize = 0;
    while i < loaders.len()
        invariant
            i <= loaders.len(),
            out@.len() == i,
            forall|j: int| 0 <= j < i ==> out@[j] == loaders@[j].kind,
        decreases loaders.len() - i,
    {
        out.push(loaders[i].kind);
        i += 1;
    }
    proof {
        assert(out@ =~= kinds_of(loaders@));
    }
    out
}

/// How compiling a file starts.
pub enum CompileStart {
    /// The path is relative: the host makes it absolute and canonical and
    /// asks again.
    Canonicalize(String),
    /// The path is absolute: the load of the file.
    Load(LoadSession),
}

impl EsmModules {
    /// The registered sources, in order of priority.
    pub closed spec fn sources(&self) -> Seq<ModuleSource> {
        self.sources@
    }

    /// The registered loaders, in order of priority.
    pub closed spec fn loaders(&self) -> Seq<LoaderEntry> {
        self.loaders@
    }

    /// The directory that relative imports fall back to.
    pub closed spec fn cwd(&self) -> Seq<char> {
        self.cwd@
    }

    /// The directory that relative imports fall back to.
    pub fn working_dir(&self) -> (r: &str)
        ensures
            r@ == self.cwd(),
    {
        self.cwd.as_str()
    }

    /// The registered sources, in order of priority.
    pub fn registered_sources(&self) -> (r: &Vec<ModuleSource>)
        ensures
            r@ == self.sources(),
    {
        &self.sources
    }

    /// The registered loaders, in order of priority.
    pub fn registered_loaders(&self) -> (r: &Vec<LoaderEntry>)
        ensures
            r@ == self.loaders(),
    {
        &self.loaders
    }

    /// Resolves `specifier` as imported from `base`. A path-like specifier
    /// is joined onto the parent of `base`, or onto the working directory
    /// where that parent is not absolute, and the host is asked to look for
    /// the result. Any other specifier is a bare name: it resolves to itself
    /// when a source holds it and is not found otherwise.
    pub fn resolve(&self, base: &str, specifier: &str) -> (r: Resolution)
        ensures
            r@ == resolution(self.sources(), self.cwd(), base@, specifier@),
    {
        if path_like(specifier) {
            Resolution::Probe(candidate(base, self.cwd.as_str(), specifier))
        } else {
            match self.sources.resolve(base, specifier) {
                Ok(name) => Resolution::Resolved(name),
                Err(e) => Resolution::Failed(e),
            }
        }
    }

    /// Resolves `specifier` as imported from `base`, with `host` looking at
    /// the disk where the specifier names a file. A file resolves to the
    /// path that the registry computed for it, and to nothing else: the host
    /// only says whether something is there and whether its path is text.
    pub fn resolve_with<H: LoadHost>(&self, base: &str, specifier: &str, host: &mut H) -> (r:
        Result<String, ResolveError>)
        ensures
            match resolution(self.sources(), self.cwd(), base@, specifier@) {
                ResolutionView::Resolved(name) => resolved_view(r) == Ok::<
                    Seq<char>,
                    ResolveErrorView,
                >(name),
                ResolutionView::Failed(e) => resolved_view(r) == Err::<
                    Seq<char>,
                    ResolveErrorView,
                >(e),
                ResolutionView::Probe(path) => resolved_view(r) == Ok::<
                    Seq<char>,
                    ResolveErrorView,
                >(path) || resolved_view(r) == Err::<Seq<char>, ResolveErrorView>(
                    not_found(base@, specifier@),
                ) || resolved_view(r) == Err::<Seq<char>, ResolveErrorView>(
                    ResolveErrorView::InvalidPath { specifier: specifier@ },
                ),
            },
    {
        match self.resolve(base, specifier) {
            Resolution::Resolved(name) => Ok(name),
            Resolution::Failed(e) => Err(e),
            Resolution::Probe(path) => {
                let found = match host.probe(path.as_str()) {
                    Probe::Missing => Probe::Missing,
                    Probe::Found(None) => Probe::Found(None),
                    Probe::Found(Some(_)) => Probe::Found(Some(path)),
                };
                Self::conclude(base, specifier, found)
            },
        }
    }

    /// Ends the resolution of a file specifier with what the host found: the
    /// path when it exists and is text, `InvalidPath` when it exists and is
    /// not, `NotFound` when it does not exist.
    pub fn conclude(base: &str, specifier: &str, found: Probe) -> (r: Result<String, ResolveError>)
        ensures
            resolved_view(r) == concluded(base@, specifier@, found),
    {
        match found {
            Probe::Missing => Err(
                ResolveError::NotFound { base: base.to_owned(), specifier: specifier.to_owned() },
            ),
            Probe::Found(None) => Err(
                ResolveError::InvalidPath { specifier: specifier.to_owned() },
            ),
            Probe::Found(Some(text)) => Ok(text),
        }
    }

    /// Starts the load of the canonical name `name`.
    pub fn load(&self, name: &str) -> (r: LoadSession)
        ensures
            r@ == load_start(self.sources(), self.loaders(), name@),
            load_sound(r@),
    {
        let held = all_holders(&self.sources, name);
        self.session(name, held, extension_of(name))
    }

    /// Starts compiling the file at `path`, which no source is asked for.
    pub fn compile(&self, path: &str) -> (r: CompileStart)
        ensures
            match r {
                CompileStart::Canonicalize(p) => !path_is_absolute(path@) && p@ == path@,
                CompileStart::Load(session) => path_is_absolute(path@) && session@ == compile_start(
                    self.loaders(),
                    path@,
                ) && load_sound(session@),
            },
    {
        if is_absolute(path) {
            CompileStart::Load(self.session(path, Vec::new(), file_extension_of(path)))
        } else {
            CompileStart::Canonicalize(path.to_owned())
        }
    }

    /// Loads the canonical name `name` with `host` doing the work. The
    /// load ends as the rules say for what the host reported, one report for
    /// each action it was asked for.
    pub fn load_with<H: LoadHost>(&self, name: &str, host: &mut H) -> (r: Result<
        H::Unit,
        LoadError,
    >)
        ensures
            exists|events: Seq<LoadEventView>|
                ended_as(
                    r,
                    load_action(
                        load_run(load_start(self.sources(), self.loaders(), name@), events),
                    ),
                ),
    {
        let session = self.load(name);
        Self::perform(session, host)
    }

    /// Compiles the file at `path` with `host` doing the work: no source is
    /// asked, and a relative path is made absolute first. A path that cannot
    /// be made absolute fails the compilation with the cause.
    pub fn compile_with<H: LoadHost>(&self, path: &str, host: &mut H) -> (r: Result<
        H::Unit,
        LoadError,
    >)
        ensures
            path_is_absolute(path@) ==> compiled_as(r, self.loaders(), path@),
            !path_is_absolute(path@) ==> (exists|absolute: Seq<char>|
                compiled_as(r, self.loaders(), absolute)) || unreadable_at(r, path@),
    {
        if is_absolute(path) {
            let session = self.session(path, Vec::new(), file_extension_of(path));
            Self::perform(session, host)
        } else {
            match host.canonicalize(path) {
                Ok(absolute) => {
                    let session = self.session(
                        absolute.as_str(),
                        Vec::new(),
                        file_extension_of(absolute.as_str()),
                    );
                    let r = Self::perform(session, host);
                    proof {
                        assert(compiled_as(r, self.loaders(), absolute@));
                    }
                    r
                },
                Err(cause) => Err(LoadError::Io { path: path.to_owned(), cause }),
            }
        }
    }

    /// Carries `session` to its end: every action that it asks for is
    /// performed by `host` and reported back.
    fn perform<H: LoadHost>(session: LoadSession, host: &mut H) -> (r: Result<H::Unit, LoadError>)
        requires
            !(load_action(session@) matches LoadActionView::Finish(Ok(_))),
        ensures
            exists|events: Seq<LoadEventView>|
                ended_as(r, load_action(load_run(session@, events))),
    {
        let ghost start = session@;
        let ghost mut events: Seq<LoadEventView> = Seq::empty();
        let mut live = session;
        let mut unit: Option<H::Unit> = None;
        let mut bytes: Vec<u8> = Vec::new();
        let mut action = live.action();
        loop
            invariant
                start == session@,
                live@ == load_run(start, events),
                action@ == load_action(live@),
                load_sound(live@),
                load_action(live@) matches LoadActionView::Finish(Ok(_)) ==> unit is Some,
            decreases
                    load_budget(live@),
                    (if action is Finish {
                        0nat
                    } else {
                        1nat
                    }),
        {
            let ghost before = live@;
            let event = match action {
                LoadAction::AskSource(at) => {
                    let name = live.name().to_owned();
                    match host.ask_source(at, name.as_str()) {
                        Ok(module) => {
                            unit = Some(module);
                            LoadEvent::Loaded
                        },
                        Err(diagnostic) => LoadEvent::Failed(diagnostic),
                    }
                },
                LoadAction::ReadFile(path) => match host.read_file(path.as_str()) {
                    Ok(read) => {
                        bytes = read;
                        LoadEvent::FileRead
                    },
                    Err(cause) => LoadEvent::FileUnreadable(cause),
                },
                LoadAction::RunLoader(at) => {
                    let name = live.name().to_owned();
                    match host.run_loader(at, name.as_str(), bytes.as_slice()) {
                        Ok(module) => {
                            unit = Some(module);
                            LoadEvent::Loaded
                        },
                        Err(diagnostic) => LoadEvent::Failed(diagnostic),
                    }
                },
                LoadAction::Finish(Ok(_)) => {
                    let r = Ok(unit.unwrap());
                    proof {
                        assert(ended_as(r, load_action(load_run(start, events))));
                    }
                    return r;
                },
                LoadAction::Finish(Err(e)) => {
                    let r = Err(e);
                    proof {
                        assert(ended_as(r, load_action(load_run(start, events))));
                    }
                    return r;
                },
            };
            proof {
                lemma_load_ends(before, event@);
                lemma_load_run_in_parts(start, events, seq![event@]);
                assert(load_run(before, seq![event@]) == load_step(before, event@)) by {
                    reveal_with_fuel(load_run, 2);
                    assert(seq![event@].drop_first() == Seq::<LoadEventView>::empty());
                }
                assert(events.push(event@) == events + seq![event@]);
                events = events.push(event@);
            }
            action = live.step(event);
        }
    }

    /// A session for `name` that asks the sources at `held` and takes
    /// `extension` as the extension of the name.
    fn session(&self, name: &str, held: Vec<usize>, extension: Option<String>) -> (r: LoadSession)
        ensures
            r@ == load_start_at(held@, opt_text(extension), self.loaders(), name@),
            load_sound(r@),
    {
        let claimed = match &extension {
            Some(e) => claiming(&self.loaders, e.as_str()),
            None => Vec::new(),
        };
        proof {
            if let Some(e) = &extension {
                assert(self.loaders.len() <= usize::MAX);
                lemma_matching_within(
                    |i: int| entry_claims(self.loaders@[i], e@),
                    self.loaders@.len(),
                );
            }
        }
        let sources = Attempts::new(held);
        let loaders = Attempts::new(claimed);
        let kinds = kinds(&self.loaders);
        LoadSession {
            name: name.to_owned(),
            sources,
            extension,
            file: FileStatus::Unread,
            loaders,
            kinds,
        }
    }
}

} // verus!
