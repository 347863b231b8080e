//! The plugin loader: which files of a directory are plugins, what a set of
//! opened plugins claims, and how a source is run through them.

use crate::error::{LoadError, LoadErrorView, PluginInitError};
use crate::esm::chain::{
    after, fresh, sound, verdict, Attempts, ChainState, Outcome, Standing, Verdict,
};
use crate::esm::loader::{copy_names, EsmLoader, LoaderEntry, LoaderKind};
use crate::paths::{file_extension, file_extension_of};
use crate::text::{decoded, from_utf8, names, str_eq, text_result};
use crate::wasm::laws::{lemma_run_in_parts, lemma_transform_ends, transform_budget};
use vstd::prelude::*;

verus! {

/// Whether the file at `path` is a plugin binary: its extension is `wasm`.
pub open spec fn plugin_binary(path: Seq<char>) -> bool {
    file_extension(path) == Some("wasm"@)
}

/// Decides whether the file at `path` is a plugin binary.
pub fn is_plugin_binary(path: &str) -> (r: bool)
    ensures
        r == plugin_binary(path@),
{
    match file_extension_of(path) {
        Some(e) => str_eq(e.as_str(), "wasm"),
        None => false,
    }
}

/// Picks the plugin binaries among the entries of a directory, in the order
/// in which the directory listed them.
pub fn select_plugins(entries: &Vec<String>) -> (r: Vec<String>)
    ensures
        names(r@) == names(entries@).filter(|p: Seq<char>| plugin_binary(p)),
{
    let mut picked: Vec<String> = Vec::new();
    let mut i: usize = 0;
    let ghost wanted = |p: Seq<char>| plugin_binary(p);
    proof {
        assert(names(entries@.take(0)) =~= Seq::<Seq<char>>::empty());
        assert(names(picked@) =~= Seq::<Seq<char>>::empty());
        Seq::<Seq<char>>::empty().lemma_filter_len(wanted);
    }
    while i < entries.len()
        invariant
            i <= entries.len(),
            wanted == |p: Seq<char>| plugin_binary(p),
            names(picked@) == names(entries@.take(i as int)).filter(wanted),
        decreases entries.len() - i,
    {
        proof {
            let before = names(entries@.take(i as int));
            assert(names(entries@.take(i + 1)) =~= before.push(entries@[i as int]@));
            before.lemma_filter_push(entries@[i as int]@, wanted);
        }
        if is_plugin_binary(entries[i].as_str()) {
            let ghost old_picked = picked@;
            picked.push(entries[i].clone());
            proof {
                assert(names(picked@) =~= names(old_picked).push(entries@[i as int]@));
            }
        }
        i += 1;
    }
    proof {
        assert(entries@.take(entries.len() as int) == entries@);
    }
    picked
}

/// A plugin as the loader keeps it: where it came from and what it declared
/// when it was asked once, right after instantiation.
#[derive(Debug, Clone, PartialEq, Eq)]
pub struct WasmLoaderPlugin {
    pub path: String,
    pub exts: Vec<String>,
}

/// The outcome of a plugin's `transform`.
#[derive(Debug, Clone, PartialEq, Eq)]
pub enum Compilation {
    Success(String),
    Failure(String),
}

impl Compilation {
    /// The answer of a plugin whose compiler came to `compiled`: the code
    /// where it succeeded, its message where it failed.
    pub fn from_result(compiled: Result<String, String>) -> (r: Compilation)
        ensures
            r == (match compiled {
                Ok(code) => Compilation::Success(code),
                Err(message) => Compilation::Failure(message),
            }),
    {
        match compiled {
            Ok(code) => Compilation::Success(code),
            Err(message) => Compilation::Failure(message),
        }
    }
}

/// What a plugin does first with the bytes it is given: it reads them as
/// UTF-8. Bytes that are text go on to its compiler; for bytes that are not,
/// the reason is its answer.
pub fn source_text(input: &[u8]) -> (r: Result<String, Compilation>)
    ensures
        match r {
            Ok(text) => decoded(input@) == Ok::<Seq<char>, Seq<char>>(text@),
            Err(Compilation::Failure(reason)) => decoded(input@) == Err::<Seq<char>, Seq<char>>(
                reason@,
            ),
            Err(Compilation::Success(_)) => false,
        },
{
    match from_utf8(input) {
        Ok(text) => Ok(text),
        Err(reason) => Err(Compilation::Failure(reason)),
    }
}

/// The extensions that the plugins declare, one list after the other, in
/// discovery order and with repetitions.
pub open spec fn declared(plugins: Seq<WasmLoaderPlugin>) -> Seq<Seq<char>> {
    plugins.map_values(|p: WasmLoaderPlugin| names(p.exts@)).flatten()
}

/// A set of plugins behind one extension loader.
#[derive(Debug)]
pub struct WasmPluginLoader {
    plugins: Vec<WasmLoaderPlugin>,
    extensions: Vec<String>,
}

/// The first failure among the results of opening plugins, if any failed.
pub open spec fn first_failure(
    opened: Seq<Result<WasmLoaderPlugin, PluginInitError>>,
) -> Option<PluginInitError>
    decreases opened.len(),
{
    if opened.len() == 0 {
        None
    } else {
        match opened[0] {
            Err(e) => Some(e),
            Ok(_) => first_failure(opened.drop_first()),
        }
    }
}

/// Whether the characters of two lists of plugin results agree.
pub open spec fn all_opened(
    opened: Seq<Result<WasmLoaderPlugin, PluginInitError>>,
    plugins: Seq<WasmLoaderPlugin>,
) -> bool {
    &&& opened.len() == plugins.len()
    &&& forall|i: int| 0 <= i < opened.len() ==> opened[i] == Ok::<_, PluginInitError>(plugins[i])
}

impl WasmPluginLoader {
    #[verifier::type_invariant]
    spec fn well_formed(&self) -> bool {
        names(self.extensions@) == declared(self.plugins@)
    }

    /// The plugins behind the loader, in discovery order.
    pub closed spec fn plugins(&self) -> Seq<WasmLoaderPlugin> {
        self.plugins@
    }

    /// Builds the loader from the results of opening every plugin binary
    /// that was discovered, in discovery order. One plugin that could not be
    /// opened fails the whole loader, with the error of the first such
    /// plugin; a partial set is never built.
    pub fn new(opened: Vec<Result<WasmLoaderPlugin, PluginInitError>>) -> (r: Result<
        WasmPluginLoader,
        PluginInitError,
    >)
        ensures
            match r {
                Ok(loader) => first_failure(opened@) is None && all_opened(
                    opened@,
                    loader.plugins(),
                ) && loader.claimed() == declared(loader.plugins()),
                Err(e) => first_failure(opened@) == Some(e),
            },
    {
        let mut plugins: Vec<WasmLoaderPlugin> = Vec::new();
        let mut extensions: Vec<String> = Vec::new();
        let ghost all = opened@;
        let mut rest = opened;
        let mut i: usize = 0;
        let n = rest.len();
        proof {
            assert(declared(plugins@) =~= Seq::<Seq<char>>::empty()) by {
                assert(plugins@.map_values(|p: WasmLoaderPlugin| names(p.exts@)) =~= Seq::empty());
            }
            assert(names(extensions@) =~= Seq::<Seq<char>>::empty());
        }
        while i < n
            invariant
                i <= n,
                all == opened@,
                n == all.len(),
                rest@.len() == n - i,
                rest@ == all.skip(i as int),
                plugins@.len() == i,
                forall|j: int| 0 <= j < i ==> all[j] == Ok::<_, PluginInitError>(plugins@[j]),
                first_failure(all) == first_failure(rest@),
                names(extensions@) == declared(plugins@),
            decreases n - i,
        {
            let ghost prev = rest@;
            let next = rest.remove(0);
            proof {
                assert(rest@ == prev.drop_first());
                assert(prev.drop_first() == all.skip(i + 1));
                assert(next == prev[0]);
                assert(next == all[i as int]);
            }
            match next {
                Err(e) => {
                    return Err(e);
                },
                Ok(plugin) => {
                    let ghost before = extensions@;
                    let ghost old_plugins = plugins@;
                    let mut j: usize = 0;
                    while j < plugin.exts.len()
                        invariant
                            j <= plugin.exts.len(),
                            names(extensions@) == names(before) + names(
                                plugin.exts@.take(j as int),
                            ),
                        decreases plugin.exts.len() - j,
                    {
                        let ghost cur = extensions@;
                        extensions.push(plugin.exts[j].clone());
                        proof {
                            assert(names(extensions@) =~= names(cur).push(plugin.exts@[j as int]@));
                            assert(names(plugin.exts@.take(j + 1)) =~= names(
                                plugin.exts@.take(j as int),
                            ).push(plugin.exts@[j as int]@));
                        }
                        j += 1;
                    }
                    proof {
                        assert(plugin.exts@.take(plugin.exts.len() as int) == plugin.exts@);
                        let lists = old_plugins.map_values(|p: WasmLoaderPlugin| names(p.exts@));
                        lists.lemma_flatten_push(names(plugin.exts@));
                        assert(old_plugins.push(plugin).map_values(
                            |p: WasmLoaderPlugin| names(p.exts@),
                        ) =~= lists.push(names(plugin.exts@)));
                    }
                    plugins.push(plugin);
                },
            }
            i += 1;
        }
        Ok(WasmPluginLoader { plugins, extensions })
    }

    /// How many plugins stand behind the loader.
    pub fn len(&self) -> (r: usize)
        ensures
            r == self.plugins().len(),
    {
        self.plugins.len()
    }

    /// The plugin at position `i` in discovery order.
    pub fn plugin(&self, i: usize) -> (r: Option<&WasmLoaderPlugin>)
        ensures
            match r {
                Some(p) => i < self.plugins().len() && *p == self.plugins()[i as int],
                None => i >= self.plugins().len(),
            },
    {
        if i < self.plugins.len() {
            Some(&self.plugins[i])
        } else {
            None
        }
    }

    /// Loads the file at `path` from `source` with `host` doing the work.
    /// The load ends as the rules say for what the host reported, one report
    /// for each action it was asked for.
    pub fn load_with<H: PluginHost>(&self, path: &str, source: &[u8], host: &mut H) -> (r: Result<
        H::Unit,
        LoadError,
    >)
        ensures
            exists|events: Seq<TransformEventView>|
                transformed_as(
                    r,
                    transform_action(
                        transform_run(
                            transform_start(self.plugins().len(), path@, source@),
                            events,
                        ),
                    ),
                ),
    {
        self.load(path, source).perform(host)
    }

    /// Starts loading the file at `path` from `source`. The bytes are
    /// decoded as UTF-8 first; bytes that are no text fail the load with the
    /// reason, and no plugin is bothered.
    pub fn load(&self, path: &str, source: &[u8]) -> (r: TransformSession)
        ensures
            r@ == transform_start(self.plugins().len(), path@, source@),
    {
        let n = self.plugins.len();
        let mut order: Vec<usize> = Vec::new();
        let mut i: usize = 0;
        while i < n
            invariant
                i <= n,
                order@ == discovery_order(i as nat),
            decreases n - i,
        {
            order.push(i);
            proof {
                assert(order@ =~= discovery_order((i + 1) as nat));
            }
            i += 1;
        }
        TransformSession::over(path, source, order)
    }
}

impl EsmLoader for WasmPluginLoader {
    closed spec fn claimed(&self) -> Seq<Seq<char>> {
        names(self.extensions@)
    }

    open spec fn loads_as(&self) -> LoaderKind {
        LoaderKind::Transform
    }

    fn extensions(&self) -> (r: &[String]) {
        self.extensions.as_slice()
    }

    fn entry(&self) -> (r: LoaderEntry) {
        LoaderEntry {
            extensions: copy_names(self.extensions.as_slice()),
            kind: LoaderKind::Transform,
        }
    }
}

/// The positions `0, 1, ..` of `n` plugins, in the order of their discovery.
pub open spec fn discovery_order(n: nat) -> Seq<usize> {
    Seq::new(n, |i: int| i as usize)
}

/// What the host has to do next for a source that goes through plugins.
#[derive(Debug, PartialEq, Eq)]
pub enum TransformAction {
    /// Call `transform` of the plugin at this position on the decoded text.
    Transform(usize),
    /// Compile the code that the plugin at this position produced, under the
    /// path of the source as its name.
    Compile(usize),
    /// Nothing: the module of the plugin at this position stands, or the
    /// load failed.
    Finish(Result<usize, LoadError>),
}

/// A `TransformAction` with its texts as character sequences.
pub enum TransformActionView {
    Transform(usize),
    Compile(usize),
    Finish(Result<usize, LoadErrorView>),
}

impl View for TransformAction {
    type V = TransformActionView;

    open spec fn view(&self) -> TransformActionView {
        match self {
            TransformAction::Transform(i) => TransformActionView::Transform(*i),
            TransformAction::Compile(i) => TransformActionView::Compile(*i),
            TransformAction::Finish(Ok(i)) => TransformActionView::Finish(Ok(*i)),
            TransformAction::Finish(Err(e)) => TransformActionView::Finish(Err(e@)),
        }
    }
}

/// What the host reports back after an action.
#[derive(Debug, Clone, PartialEq, Eq)]
pub enum TransformEvent {
    /// The plugin returned this.
    Transformed(Compilation),
    /// The call into the sandbox itself failed.
    Trapped(String),
    /// The engine accepted the code.
    Compiled,
    /// The engine refused the code, with this diagnostic.
    Rejected(String),
}

/// A `TransformEvent` with its texts as character sequences.
pub enum TransformEventView {
    Succeeded(Seq<char>),
    Failed(Seq<char>),
    Trapped(Seq<char>),
    Compiled,
    Rejected(Seq<char>),
}

impl View for TransformEvent {
    type V = TransformEventView;

    open spec fn view(&self) -> TransformEventView {
        match self {
            TransformEvent::Transformed(Compilation::Success(code)) => {
                TransformEventView::Succeeded(code@)
            },
            TransformEvent::Transformed(Compilation::Failure(message)) => {
                TransformEventView::Failed(message@)
            },
            TransformEvent::Trapped(message) => TransformEventView::Trapped(message@),
            TransformEvent::Compiled => TransformEventView::Compiled,
            TransformEvent::Rejected(diagnostic) => TransformEventView::Rejected(diagnostic@),
        }
    }
}

/// The state of a source on its way through the plugins: its path, its text
/// or the reason why it has none, the chain over the plugins, and the code
/// that the pending plugin produced, if it has produced it.
pub struct TransformState {
    pub path: Seq<char>,
    pub text: Result<Seq<char>, Seq<char>>,
    pub plugins: ChainState,
    pub code: Option<Seq<char>>,
}

/// The state in which the source `bytes` of the file at `path` starts its
/// way through the plugins at `candidates`, in that order.
pub open spec fn transform_start_over(
    candidates: Seq<usize>,
    path: Seq<char>,
    bytes: Seq<u8>,
) -> TransformState {
    TransformState { path, text: decoded(bytes), plugins: fresh(candidates), code: None }
}

/// The state in which the source `bytes` of the file at `path` starts its
/// way through `n` plugins, all of them, in the order of their discovery.
pub open spec fn transform_start(n: nat, path: Seq<char>, bytes: Seq<u8>) -> TransformState {
    transform_start_over(discovery_order(n), path, bytes)
}

/// What the host has to do in state `s`. A source that is no text fails at
/// once. Otherwise the plugins are tried in discovery order: the pending
/// one transforms the text, and the code it gives is compiled. The first
/// plugin whose code compiles stands; when all fail, the message of the
/// last failure is surfaced with the path.
pub open spec fn transform_action(s: TransformState) -> TransformActionView {
    match s.text {
        Err(reason) => TransformActionView::Finish(
            Err(LoadErrorView::TransformFailure { path: s.path, diagnostic: reason }),
        ),
        Ok(_) => match verdict(s.plugins) {
            Verdict::Won(i) => TransformActionView::Finish(Ok(i)),
            Verdict::Pending(i) => if s.code is Some {
                TransformActionView::Compile(i)
            } else {
                TransformActionView::Transform(i)
            },
            Verdict::Failed(None) => TransformActionView::Finish(
                Err(LoadErrorView::ExtensionUnsupported { path: s.path }),
            ),
            Verdict::Failed(Some(message)) => TransformActionView::Finish(
                Err(LoadErrorView::TransformFailure { path: s.path, diagnostic: message }),
            ),
        },
    }
}

/// The state after the host reported `event` on the action of `s`. A report
/// that does not answer the action changes nothing.
pub open spec fn transform_step(s: TransformState, event: TransformEventView) -> TransformState {
    match (transform_action(s), event) {
        (TransformActionView::Transform(_), TransformEventView::Succeeded(code)) => TransformState {
            code: Some(code),
            ..s
        },
        (TransformActionView::Transform(_), TransformEventView::Failed(message)) => TransformState {
            plugins: after(s.plugins, Outcome::Failure(message)),
            ..s
        },
        (TransformActionView::Transform(_), TransformEventView::Trapped(message)) => {
            TransformState { plugins: after(s.plugins, Outcome::Failure(message)), ..s }
        },
        (TransformActionView::Compile(_), TransformEventView::Compiled) => TransformState {
            plugins: after(s.plugins, Outcome::Success),
            code: None,
            ..s
        },
        (TransformActionView::Compile(_), TransformEventView::Rejected(diagnostic)) => {
            TransformState {
                plugins: after(s.plugins, Outcome::Failure(diagnostic)),
                code: None,
                ..s
            }
        },
        _ => s,
    }
}

/// The state after the host reported `events` one by one.
pub open spec fn transform_run(s: TransformState, events: Seq<TransformEventView>) -> TransformState
    decreases events.len(),
{
    if events.len() == 0 {
        s
    } else {
        transform_run(transform_step(s, events[0]), events.drop_first())
    }
}

/// Who performs the actions of a transform: calls the plugins in their
/// sandboxes and hands their code to the engine. What it answers is its own
/// affair; the transform goes on from whatever comes back.
pub trait PluginHost {
    /// What compiling produces: the module, as the engine keeps it.
    type Unit;

    /// Calls `transform` of the plugin at position `plugin` on `text`. An
    /// error is a failure of the call itself, not the plugin's refusal.
    fn transform(&mut self, plugin: usize, text: &str) -> Result<Compilation, String>;

    /// Compiles `code` into a module that goes by the name `name`.
    fn compile(&mut self, name: &str, code: &str) -> Result<Self::Unit, String>;
}

/// Whether `r` is how a transform ended that the rules ended with `ended`:
/// with a module where the rules say whose code stands, with the same error
/// where they say why none does.
pub open spec fn transformed_as<U>(r: Result<U, LoadError>, ended: TransformActionView) -> bool {
    match r {
        Ok(_) => ended matches TransformActionView::Finish(Ok(_)),
        Err(e) => ended == TransformActionView::Finish(Err(e@)),
    }
}

/// A source on its way through the plugins.
pub struct TransformSession {
    path: String,
    text: Result<String, String>,
    plugins: Attempts,
    code: Option<String>,
}

impl View for TransformSession {
    type V = TransformState;

    closed spec fn view(&self) -> TransformState {
        TransformState {
            path: self.path@,
            text: text_result(self.text),
            plugins: self.plugins@,
            code: match self.code {
                Some(c) => Some(c@),
                None => None,
            },
        }
    }
}

impl TransformSession {
    /// Starts the way of the source `source` of the file at `path` through
    /// the plugins at `candidates`, in that order. The bytes are decoded as
    /// UTF-8 first; bytes that are no text fail at once with the reason.
    pub fn over(path: &str, source: &[u8], candidates: Vec<usize>) -> (r: TransformSession)
        ensures
            r@ == transform_start_over(candidates@, path@, source@),
    {
        TransformSession {
            path: path.to_owned(),
            text: from_utf8(source),
            plugins: Attempts::new(candidates),
            code: None,
        }
    }

    /// What the host has to do now.
    pub fn action(&self) -> (r: TransformAction)
        ensures
            r@ == transform_action(self@),
            sound(self@.plugins),
    {
        let standing = self.plugins.standing();
        match &self.text {
            Err(reason) => TransformAction::Finish(
                Err(
                    LoadError::TransformFailure {
                        path: self.path.clone(),
                        diagnostic: reason.clone(),
                    },
                ),
            ),
            Ok(_) => match standing {
                Standing::Won(i) => TransformAction::Finish(Ok(i)),
                Standing::Pending(i) => if self.code.is_some() {
                    TransformAction::Compile(i)
                } else {
                    TransformAction::Transform(i)
                },
                Standing::Failed(None) => TransformAction::Finish(
                    Err(LoadError::ExtensionUnsupported { path: self.path.clone() }),
                ),
                Standing::Failed(Some(message)) => TransformAction::Finish(
                    Err(
                        LoadError::TransformFailure {
                            path: self.path.clone(),
                            diagnostic: message,
                        },
                    ),
                ),
            },
        }
    }

    /// Takes the host's report on the current action and says what to do
    /// next.
    pub fn step(&mut self, event: TransformEvent) -> (r: TransformAction)
        ensures
            final(self)@ == transform_step(old(self)@, event@),
            r@ == transform_action(final(self)@),
            sound(final(self)@.plugins),
    {
        let now = self.action();
        match (now, event) {
            (
                TransformAction::Transform(_),
                TransformEvent::Transformed(Compilation::Success(code)),
            ) => {
                self.code = Some(code);
            },
            (
                TransformAction::Transform(_),
                TransformEvent::Transformed(Compilation::Failure(message)),
            ) => {
                self.plugins.report_failure(message);
            },
            (TransformAction::Transform(_), TransformEvent::Trapped(message)) => {
                self.plugins.report_failure(message);
            },
            (TransformAction::Compile(_), TransformEvent::Compiled) => {
                self.plugins.report_success();
                self.code = None;
            },
            (TransformAction::Compile(_), TransformEvent::Rejected(diagnostic)) => {
                self.plugins.report_failure(diagnostic);
                self.code = None;
            },
            _ => {},
        }
        self.action()
    }

    /// Carries the transform to its end: every action that it asks for is
    /// performed by `host` and reported back. It ends as the rules say for
    /// what the host reported.
    pub(crate) fn perform<H: PluginHost>(self, host: &mut H) -> (r: Result<H::Unit, LoadError>)
        requires
            !(transform_action(self@) matches TransformActionView::Finish(Ok(_))),
        ensures
            exists|events: Seq<TransformEventView>|
                transformed_as(r, transform_action(transform_run(self@, events))),
    {
        let ghost start = self@;
        let ghost mut events: Seq<TransformEventView> = Seq::empty();
        let mut live = self;
        let mut unit: Option<H::Unit> = None;
        let mut action = live.action();
        loop
            invariant
                start == self@,
                live@ == transform_run(start, events),
                action@ == transform_action(live@),
                sound(live@.plugins),
                transform_action(live@) matches TransformActionView::Finish(Ok(_)) ==> unit
                    is Some,
            decreases
                    transform_budget(live@),
                    (if action is Finish {
                        0nat
                    } else {
                        1nat
                    }),
        {
            let ghost before = live@;
            let event = match action {
                TransformAction::Transform(at) => {
                    let answer = match live.text() {
                        Some(text) => host.transform(at, text),
                        None => vstd::pervasive::unreached(),
                    };
                    match answer {
                        Ok(compilation) => TransformEvent::Transformed(compilation),
                        Err(message) => TransformEvent::Trapped(message),
                    }
                },
                TransformAction::Compile(_) => {
                    let compiled = match live.code() {
                        Some(code) => host.compile(live.path(), code),
                        None => vstd::pervasive::unreached(),
                    };
                    match compiled {
                        Ok(module) => {
                            unit = Some(module);
                            TransformEvent::Compiled
                        },
                        Err(diagnostic) => TransformEvent::Rejected(diagnostic),
                    }
                },
                TransformAction::Finish(Ok(_)) => {
                    let r = Ok(unit.unwrap());
                    proof {
                        assert(transformed_as(r, transform_action(transform_run(start, events))));
                    }
                    return r;
                },
                TransformAction::Finish(Err(e)) => {
                    let r = Err(e);
                    proof {
                        assert(transformed_as(r, transform_action(transform_run(start, events))));
                    }
                    return r;
                },
            };
            proof {
                lemma_transform_ends(before, event@);
                lemma_run_in_parts(start, events, seq![event@]);
                assert(transform_run(before, seq![event@]) == transform_step(before, event@)) by {
                    reveal_with_fuel(transform_run, 2);
                    assert(seq![event@].drop_first() == Seq::<TransformEventView>::empty());
                }
                assert(events.push(event@) == events + seq![event@]);
                events = events.push(event@);
            }
            action = live.step(event);
        }
    }

    /// The path of the source, which is also the name its module goes by.
    pub fn path(&self) -> (r: &str)
        ensures
            r@ == self@.path,
    {
        self.path.as_str()
    }

    /// The decoded text that plugins are to transform, if the source is text.
    pub fn text(&self) -> (r: Option<&str>)
        ensures
            match r {
                Some(t) => self@.text == Ok::<Seq<char>, Seq<char>>(t@),
                None => self@.text is Err,
            },
    {
        match &self.text {
            Ok(t) => Some(t.as_str()),
            Err(_) => None,
        }
    }

    /// The code waiting to be compiled, if a plugin has produced some.
    pub fn code(&self) -> (r: Option<&str>)
        ensures
            match r {
                Some(c) => self@.code == Some(c@),
                None => self@.code is None,
            },
    {
        match &self.code {
            Some(c) => Some(c.as_str()),
            None => None,
        }
    }
}

} // verus!
