//! What holds of every registry: registered names resolve to themselves,
//! priority among loaders is by registration, and the failure that is
//! surfaced is the last one, word for word.

use crate::error::LoadErrorView;
use crate::esm::chain::{
    after, after_all, decided, first_success, fresh, lemma_after_all_sound,
    lemma_all_fail_surfaces_last, lemma_first_success, lemma_first_success_wins,
    lemma_matching_first, lemma_matching_within, lemma_run_is_decided, sound, verdict,
    ChainState, Outcome, Verdict,
};
use crate::esm::loader::LoaderEntry;
use crate::esm::module::{any_recognizes, holders, not_found, source_recognizes, ModuleSource};
use crate::esm::modules::{
    failure_of, load_action, load_run, load_sound, load_start, load_step, resolution,
    LoadActionView, LoadEventView, LoadState, LoadedBy, ResolutionView,
};
use crate::paths::{is_path_like, path_extension};
use vstd::prelude::*;

verus! {

/// The report that the host makes of an outcome.
pub open spec fn event_of(outcome: Outcome) -> LoadEventView {
    match outcome {
        Outcome::Success => LoadEventView::Loaded,
        Outcome::Failure(d) => LoadEventView::Failed(d),
    }
}

/// The reports that the host makes of `outcomes`, in order.
pub open spec fn events_of(outcomes: Seq<Outcome>) -> Seq<LoadEventView> {
    outcomes.map_values(|o: Outcome| event_of(o))
}

/// The failures with these diagnostics, in order.
pub open spec fn failures(diagnostics: Seq<Seq<char>>) -> Seq<Outcome> {
    diagnostics.map_values(|d: Seq<char>| Outcome::Failure(d))
}

/// A load is at its loaders when no source is left to ask, the name has an
/// extension and the file has been read.
pub open spec fn at_loaders(s: LoadState) -> bool {
    &&& !s.sources.won
    &&& s.sources.failed >= s.sources.candidates.len()
    &&& s.extension is Some
    &&& s.file is Read
}

/// A bare name that a source holds resolves to itself, whatever the
/// importing module; a bare name that no source holds is not found.
pub proof fn lemma_registered_names_resolve(
    sources: Seq<ModuleSource>,
    cwd: Seq<char>,
    base: Seq<char>,
    name: Seq<char>,
)
    requires
        !is_path_like(name),
    ensures
        any_recognizes(sources, name) ==> resolution(sources, cwd, base, name)
            == ResolutionView::Resolved(name),
        !any_recognizes(sources, name) ==> resolution(sources, cwd, base, name)
            == ResolutionView::Failed(not_found(base, name)),
{
}

/// Loading a name that a source holds starts by asking the first source that
/// holds it, and ends with that source's module as soon as it produces it.
pub proof fn lemma_registered_name_loads(
    sources: Seq<ModuleSource>,
    loaders: Seq<LoaderEntry>,
    name: Seq<char>,
    first: int,
)
    requires
        sources.len() <= usize::MAX,
        0 <= first < sources.len(),
        source_recognizes(sources[first], name),
        forall|j: int| 0 <= j < first ==> !source_recognizes(sources[j], name),
    ensures
        load_action(load_start(sources, loaders, name)) == LoadActionView::AskSource(
            first as usize,
        ),
        load_action(load_step(load_start(sources, loaders, name), LoadEventView::Loaded))
            == LoadActionView::Finish(Ok(LoadedBy::Source(first as usize))),
{
    let wanted = |i: int| source_recognizes(sources[i], name);
    lemma_matching_first(wanted, sources.len(), first);
}

/// Once a load is at its loaders, the reports of the host drive the chain of
/// loaders and nothing else.
pub proof fn lemma_loaders_run(s: LoadState, outcomes: Seq<Outcome>)
    requires
        at_loaders(s),
        sound(s.loaders),
    ensures
        load_run(s, events_of(outcomes)) == (LoadState {
            loaders: after_all(s.loaders, outcomes),
            ..s
        }),
    decreases outcomes.len(),
{
    let events = events_of(outcomes);
    if outcomes.len() != 0 {
        let next = load_step(s, events[0]);
        assert(events[0] == event_of(outcomes[0]));
        assert(next == LoadState { loaders: after(s.loaders, outcomes[0]), ..s });
        assert(events.drop_first() == events_of(outcomes.drop_first()));
        lemma_loaders_run(next, outcomes.drop_first());
    }
}

/// What a load comes to once the file is read follows the chain of the
/// loaders that claim the extension: the first of them to succeed, in
/// registration order, is the one whose module is returned.
pub proof fn lemma_load_follows_chain(s: LoadState, outcomes: Seq<Outcome>)
    requires
        at_loaders(s),
        s.loaders == fresh(s.loaders.candidates),
    ensures
        verdict(load_run(s, events_of(outcomes)).loaders) == decided(
            s.loaders.candidates,
            outcomes,
        ),
        decided(s.loaders.candidates, outcomes) matches Verdict::Won(i) ==> load_action(
            load_run(s, events_of(outcomes)),
        ) == LoadActionView::Finish(Ok(LoadedBy::Loader(i))),
        decided(s.loaders.candidates, outcomes) matches Verdict::Pending(i) ==> load_action(
            load_run(s, events_of(outcomes)),
        ) == LoadActionView::RunLoader(i),
{
    lemma_loaders_run(s, outcomes);
    lemma_run_is_decided(s.loaders.candidates, outcomes);
}

/// Priority is by registration, not by how many loaders would succeed: when
/// the loaders before a candidate failed and the candidate succeeds, the
/// load returns the candidate's module, whatever is reported afterwards.
pub proof fn lemma_priority_by_registration(
    s: LoadState,
    before: Seq<Seq<char>>,
    later: Seq<Outcome>,
)
    requires
        at_loaders(s),
        s.loaders == fresh(s.loaders.candidates),
        before.len() < s.loaders.candidates.len(),
    ensures
        load_action(
            load_run(s, events_of(failures(before) + seq![Outcome::Success] + later)),
        ) == LoadActionView::Finish(
            Ok(LoadedBy::Loader(s.loaders.candidates[before.len() as int])),
        ),
{
    let outcomes = failures(before) + seq![Outcome::Success] + later;
    lemma_first_success_wins(s.loaders.candidates, before, later);
    lemma_load_follows_chain(s, outcomes);
}

/// When every loader that claims the extension fails, the load fails with
/// the diagnostic of the last of them, word for word: as a transform
/// failure where that loader transforms, as a decode failure where it hands
/// the source over unchanged.
pub proof fn lemma_last_failure_verbatim(s: LoadState, diagnostics: Seq<Seq<char>>)
    requires
        at_loaders(s),
        s.loaders == fresh(s.loaders.candidates),
        diagnostics.len() == s.loaders.candidates.len(),
        diagnostics.len() > 0,
    ensures
        load_action(load_run(s, events_of(failures(diagnostics)))) == LoadActionView::Finish(
            Err(
                failure_of(
                    s.kinds[s.loaders.candidates.last() as int],
                    s.name,
                    diagnostics.last(),
                ),
            ),
        ),
{
    let outcomes = failures(diagnostics);
    lemma_all_fail_surfaces_last(s.loaders.candidates, diagnostics);
    lemma_loaders_run(s, outcomes);
    lemma_run_is_decided(s.loaders.candidates, outcomes);
    lemma_all_failed_count(s.loaders, diagnostics);
}

/// A chain whose candidates all failed has counted each of them.
proof fn lemma_all_failed_count(c: ChainState, diagnostics: Seq<Seq<char>>)
    requires
        sound(c),
        !c.won,
        diagnostics.len() == c.candidates.len() - c.failed,
    ensures
        after_all(c, failures(diagnostics)).failed == c.candidates.len(),
        after_all(c, failures(diagnostics)).candidates == c.candidates,
        !after_all(c, failures(diagnostics)).won,
    decreases diagnostics.len(),
{
    let outcomes = failures(diagnostics);
    if diagnostics.len() != 0 {
        assert(outcomes[0] == Outcome::Failure(diagnostics[0]));
        assert(outcomes.drop_first() == failures(diagnostics.drop_first()));
        lemma_all_failed_count(after(c, outcomes[0]), diagnostics.drop_first());
    }
}

/// A file whose extension no loader claims is refused as unsupported as soon
/// as it has been read.
pub proof fn lemma_unclaimed_extension(s: LoadState)
    requires
        at_loaders(s),
        s.loaders == fresh(Seq::empty()),
    ensures
        load_action(s) == LoadActionView::Finish(
            Err(LoadErrorView::ExtensionUnsupported { path: s.name }),
        ),
{
}

/// A name that no source holds and that has no extension cannot be loaded:
/// the load ends at once with an invalid path, and the disk is not touched.
pub proof fn lemma_no_extension_is_invalid(
    sources: Seq<ModuleSource>,
    loaders: Seq<LoaderEntry>,
    name: Seq<char>,
)
    requires
        sources.len() <= usize::MAX,
        !any_recognizes(sources, name),
        path_extension(name) is None,
    ensures
        load_action(load_start(sources, loaders, name)) == LoadActionView::Finish(
            Err(LoadErrorView::InvalidPath { path: name }),
        ),
{
    let wanted = |i: int| source_recognizes(sources[i], name);
    lemma_matching_within(wanted, sources.len());
    let held = holders(sources, name);
    if held.len() > 0 {
        assert(source_recognizes(sources[held[0] as int], name));
    }
}

/// A file that cannot be read fails the load with the cause the host gave,
/// and no loader is run.
pub proof fn lemma_unreadable_file(s: LoadState, cause: Seq<char>)
    requires
        load_action(s) is ReadFile,
    ensures
        load_action(load_step(s, LoadEventView::FileUnreadable(cause)))
            == LoadActionView::Finish(Err(LoadErrorView::Io { path: s.name, cause })),
{
}

/// While sources are being asked, the reports of the host drive the chain
/// of sources and nothing else: a source that fails hands over to the next
/// source that holds the name.
pub proof fn lemma_sources_run(s: LoadState, outcomes: Seq<Outcome>)
    requires
        sound(s.sources),
        s.sources.won || outcomes.len() <= s.sources.candidates.len() - s.sources.failed,
    ensures
        load_run(s, events_of(outcomes)) == (LoadState {
            sources: after_all(s.sources, outcomes),
            ..s
        }),
    decreases outcomes.len(),
{
    let events = events_of(outcomes);
    if outcomes.len() != 0 {
        let next = load_step(s, events[0]);
        assert(events[0] == event_of(outcomes[0]));
        assert(next == LoadState { sources: after(s.sources, outcomes[0]), ..s });
        assert(events.drop_first() == events_of(outcomes.drop_first()));
        lemma_sources_run(next, outcomes.drop_first());
    }
}

/// Reports come one after the other: a run over two lists of reports is the
/// run over the second from where the first ended.
pub proof fn lemma_load_run_in_parts(
    s: LoadState,
    first: Seq<LoadEventView>,
    second: Seq<LoadEventView>,
)
    ensures
        load_run(s, first + second) == load_run(load_run(s, first), second),
    decreases first.len(),
{
    if first.len() == 0 {
        assert(first + second == second);
    } else {
        assert((first + second)[0] == first[0]);
        assert((first + second).drop_first() == first.drop_first() + second);
        lemma_load_run_in_parts(load_step(s, first[0]), first.drop_first(), second);
    }
}

/// A load that has ended ignores whatever is reported afterwards.
pub proof fn lemma_finished_absorbs(s: LoadState, events: Seq<LoadEventView>)
    requires
        load_action(s) is Finish,
    ensures
        load_run(s, events) == s,
    decreases events.len(),
{
    if events.len() != 0 {
        lemma_finished_absorbs(s, events.drop_first());
    }
}

/// What became of reading the file, as the host reports it.
pub open spec fn file_event(read: Result<(), Seq<char>>) -> LoadEventView {
    match read {
        Ok(()) => LoadEventView::FileRead,
        Err(cause) => LoadEventView::FileUnreadable(cause),
    }
}

/// What a load comes to, said at once. The sources that hold the name are
/// asked in order and the first to produce the module ends the load. When
/// none does, a name without extension is invalid; a file that cannot be
/// read fails with the cause; a file that no loader claims is unsupported;
/// otherwise the first claiming loader to succeed ends the load, and when
/// all of them fail the failure of the last one is the failure of the load.
pub open spec fn load_result(
    s: LoadState,
    from_sources: Seq<Outcome>,
    read: Result<(), Seq<char>>,
    from_loaders: Seq<Outcome>,
) -> Result<LoadedBy, LoadErrorView> {
    match decided(s.sources.candidates, from_sources) {
        Verdict::Won(i) => Ok(LoadedBy::Source(i)),
        _ => match s.extension {
            None => Err(LoadErrorView::InvalidPath { path: s.name }),
            Some(_) => match read {
                Err(cause) => Err(LoadErrorView::Io { path: s.name, cause }),
                Ok(()) => match decided(s.loaders.candidates, from_loaders) {
                    Verdict::Won(i) => Ok(LoadedBy::Loader(i)),
                    Verdict::Failed(Some(diagnostic)) => Err(
                        failure_of(
                            s.kinds[s.loaders.candidates.last() as int],
                            s.name,
                            diagnostic,
                        ),
                    ),
                    _ => Err(LoadErrorView::ExtensionUnsupported { path: s.name }),
                },
            },
        },
    }
}

/// The whole of a load: when the host reports what every source that holds
/// the name made of it, what became of the file, and what every loader that
/// claims the extension made of the bytes, the load has ended, and it has
/// ended as `load_result` says. Reports about candidates that come after a
/// success, or after the load failed, change nothing.
pub proof fn lemma_load_comes_to(
    s: LoadState,
    from_sources: Seq<Outcome>,
    read: Result<(), Seq<char>>,
    from_loaders: Seq<Outcome>,
)
    requires
        s.sources == fresh(s.sources.candidates),
        s.loaders == fresh(s.loaders.candidates),
        s.file is Unread,
        from_sources.len() == s.sources.candidates.len(),
        from_loaders.len() == s.loaders.candidates.len(),
    ensures
        load_action(
            load_run(
                s,
                events_of(from_sources) + seq![file_event(read)] + events_of(from_loaders),
            ),
        ) == LoadActionView::Finish(load_result(s, from_sources, read, from_loaders)),
{
    let first = events_of(from_sources);
    let second = seq![file_event(read)];
    let third = events_of(from_loaders);
    lemma_load_run_in_parts(s, first + second, third);
    lemma_load_run_in_parts(s, first, second);
    lemma_sources_run(s, from_sources);
    lemma_run_is_decided(s.sources.candidates, from_sources);
    lemma_after_all_sound(s.sources, from_sources);
    let asked = load_run(s, first);
    let read_state = load_step(asked, second[0]);
    assert(load_run(asked, second) == read_state) by {
        reveal_with_fuel(load_run, 2);
        assert(second.drop_first() == Seq::<LoadEventView>::empty());
    }
    lemma_first_success(from_sources);
    if decided(s.sources.candidates, from_sources) is Won {
        lemma_finished_absorbs(asked, second);
        lemma_finished_absorbs(asked, third);
    } else if s.extension is None {
        lemma_finished_absorbs(asked, second);
        lemma_finished_absorbs(asked, third);
    } else if read is Err {
        lemma_finished_absorbs(read_state, third);
    } else {
        lemma_loaders_run(read_state, from_loaders);
        lemma_run_is_decided(s.loaders.candidates, from_loaders);
        lemma_first_success(from_loaders);
        lemma_after_all_sound(read_state.loaders, from_loaders);
        if !(decided(s.loaders.candidates, from_loaders) is Won) && s.loaders.candidates.len() > 0 {
            lemma_all_fail_count(read_state.loaders, from_loaders);
        }
    }
}

/// A chain whose candidates were all tried without success has counted each
/// of them.
proof fn lemma_all_fail_count(c: ChainState, outcomes: Seq<Outcome>)
    requires
        sound(c),
        !c.won,
        outcomes.len() == c.candidates.len() - c.failed,
        first_success(outcomes) >= outcomes.len(),
    ensures
        after_all(c, outcomes).failed == c.candidates.len(),
    decreases outcomes.len(),
{
    lemma_first_success(outcomes);
    if outcomes.len() != 0 {
        lemma_first_success(outcomes.drop_first());
        lemma_all_fail_count(after(c, outcomes[0]), outcomes.drop_first());
    }
}

/// Whether `event` is a report on `action`.
pub open spec fn answers(action: LoadActionView, event: LoadEventView) -> bool {
    match action {
        LoadActionView::AskSource(_) => event is Loaded || event is Failed,
        LoadActionView::ReadFile(_) => event is FileRead || event is FileUnreadable,
        LoadActionView::RunLoader(_) => event is Loaded || event is Failed,
        LoadActionView::Finish(_) => false,
    }
}

/// How many candidates of a chain may still be tried.
pub open spec fn untried(c: ChainState) -> nat {
    if c.won || c.failed >= c.candidates.len() {
        0
    } else {
        (c.candidates.len() - c.failed) as nat
    }
}

/// How many actions a load may still ask for: one for each source and
/// loader not yet tried, and one for the file while it is unread.
pub open spec fn load_budget(s: LoadState) -> nat {
    untried(s.sources) + untried(s.loaders) + if s.file is Unread {
        1nat
    } else {
        0nat
    }
}

/// Every load ends: each report on the action that was asked for uses up
/// what the load may still ask for, and a load that may ask for nothing
/// more has ended. A load of a name held by `h` sources with `c` loaders
/// claiming its extension is over after at most `h + c + 1` reports.
pub proof fn lemma_load_ends(s: LoadState, event: LoadEventView)
    requires
        load_sound(s),
    ensures
        answers(load_action(s), event) ==> load_budget(load_step(s, event)) < load_budget(s),
        load_budget(load_step(s, event)) <= load_budget(s),
        load_budget(s) == 0 ==> load_action(s) is Finish,
        load_sound(load_step(s, event)),
{
}

/// A load that has ended stays ended: no later report changes its state.
pub proof fn lemma_finished_is_final(s: LoadState, event: LoadEventView)
    requires
        load_action(s) is Finish,
    ensures
        load_step(s, event) == s,
{
}

} // verus!
