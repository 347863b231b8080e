//! What holds of every plugin loader: it claims what its plugins declared,
//! its plugins are tried in discovery order, the first success stands, and
//! the message of a failing plugin reaches the caller word for word.

use crate::error::LoadErrorView;
use crate::esm::chain::{
    after, after_all, decided, first_success, lemma_all_fail_surfaces_last, lemma_first_success,
    lemma_matching_within, lemma_run_is_decided, sound, verdict, Outcome, Verdict,
};
use crate::esm::laws::failures;
use crate::text::{names, utf8_error_text};
use crate::wasm::plugin::{
    declared, discovery_order, transform_action, transform_run, transform_start,
    transform_start_over, transform_step,
    TransformActionView, TransformEventView, TransformState, WasmLoaderPlugin,
};
use crate::wasm_loader::{asked, declares, matched_extension};
use vstd::prelude::*;
use vstd::utf8::*;

verus! {

/// The reports of plugins that refused the source with these messages.
pub open spec fn refusals(messages: Seq<Seq<char>>) -> Seq<TransformEventView> {
    messages.map_values(|m: Seq<char>| TransformEventView::Failed(m))
}

/// What the plugins declare is what the loader claims: an extension is
/// claimed exactly when some plugin declared it. Declaring it twice claims
/// no more than declaring it once.
pub proof fn lemma_claims_are_declarations(plugins: Seq<WasmLoaderPlugin>, extension: Seq<char>)
    ensures
        declared(plugins).contains(extension) <==> exists|i: int|
            0 <= i < plugins.len() && names(#[trigger] plugins[i].exts@).contains(extension),
    decreases plugins.len(),
{
    let lists = plugins.map_values(|p: WasmLoaderPlugin| names(p.exts@));
    if plugins.len() == 0 {
        assert(lists =~= Seq::empty());
    } else {
        let head = plugins.drop_last();
        let last = plugins.last();
        let head_lists = head.map_values(|p: WasmLoaderPlugin| names(p.exts@));
        assert(lists =~= head_lists.push(names(last.exts@)));
        head_lists.lemma_flatten_push(names(last.exts@));
        lemma_claims_are_declarations(head, extension);
        let all = declared(plugins);
        let front = declared(head);
        let back = names(last.exts@);
        assert(all =~= front + back);
        if all.contains(extension) {
            let k = choose|k: int| 0 <= k < all.len() && all[k] == extension;
            if k < front.len() {
                assert(front[k] == extension);
                let i = choose|i: int|
                    0 <= i < head.len() && names(#[trigger] head[i].exts@).contains(extension);
                assert(plugins[i] == head[i]);
            } else {
                assert(back[k - front.len()] == extension);
                assert(names(plugins[plugins.len() - 1].exts@).contains(extension));
            }
        }
        if exists|i: int|
            0 <= i < plugins.len() && names(#[trigger] plugins[i].exts@).contains(extension) {
            let i = choose|i: int|
                0 <= i < plugins.len() && names(#[trigger] plugins[i].exts@).contains(extension);
            if i < head.len() {
                assert(head[i] == plugins[i]);
                assert(front.contains(extension));
                let k = choose|k: int| 0 <= k < front.len() && front[k] == extension;
                assert(all[k] == extension);
            } else {
                let k = choose|k: int| 0 <= k < back.len() && back[k] == extension;
                assert(all[front.len() + k] == extension);
            }
        }
    }
}

/// Reports come one after the other: a run over two lists of reports is the
/// run over the second from where the first ended.
pub proof fn lemma_run_in_parts(
    s: TransformState,
    first: Seq<TransformEventView>,
    second: Seq<TransformEventView>,
)
    ensures
        transform_run(s, first + second) == transform_run(transform_run(s, first), second),
    decreases first.len(),
{
    if first.len() == 0 {
        assert(first + second == second);
    } else {
        assert((first + second)[0] == first[0]);
        assert((first + second).drop_first() == first.drop_first() + second);
        lemma_run_in_parts(transform_step(s, first[0]), first.drop_first(), second);
    }
}

/// While plugins refuse the text, their reports drive the chain of plugins
/// and nothing else.
pub proof fn lemma_refusals_run(s: TransformState, messages: Seq<Seq<char>>)
    requires
        s.text is Ok,
        s.code is None,
    ensures
        transform_run(s, refusals(messages)) == (TransformState {
            plugins: after_all(s.plugins, failures(messages)),
            ..s
        }),
    decreases messages.len(),
{
    let events = refusals(messages);
    let outcomes = failures(messages);
    if messages.len() != 0 {
        let next = transform_step(s, events[0]);
        assert(events[0] == TransformEventView::Failed(messages[0]));
        assert(outcomes[0] == Outcome::Failure(messages[0]));
        assert(next == TransformState { plugins: after(s.plugins, outcomes[0]), ..s });
        assert(events.drop_first() == refusals(messages.drop_first()));
        assert(outcomes.drop_first() == failures(messages.drop_first()));
        lemma_refusals_run(next, messages.drop_first());
    }
}

/// A source that is not UTF-8 fails with the reason of the decoder as its
/// diagnostic; no plugin is called.
pub proof fn lemma_undecodable_source_fails(n: nat, path: Seq<char>, bytes: Seq<u8>)
    requires
        !valid_utf8(bytes),
    ensures
        transform_action(transform_start(n, path, bytes)) == TransformActionView::Finish(
            Err(
                LoadErrorView::TransformFailure { path, diagnostic: utf8_error_text(bytes) },
            ),
        ),
{
}

/// Plugins are tried in discovery order and the first success stands: when
/// the plugins before position `k` refused the text and the plugin at `k`
/// gives code that compiles, the load ends with the module of plugin `k`.
pub proof fn lemma_first_plugin_success_stands(
    n: nat,
    path: Seq<char>,
    bytes: Seq<u8>,
    messages: Seq<Seq<char>>,
    code: Seq<char>,
)
    requires
        valid_utf8(bytes),
        messages.len() < n <= usize::MAX,
    ensures
        transform_action(
            transform_run(
                transform_start(n, path, bytes),
                refusals(messages) + seq![
                    TransformEventView::Succeeded(code),
                    TransformEventView::Compiled,
                ],
            ),
        ) == TransformActionView::Finish(Ok(messages.len() as usize)),
{
    let start = transform_start(n, path, bytes);
    let order = discovery_order(n);
    let tail = seq![TransformEventView::Succeeded(code), TransformEventView::Compiled];
    lemma_run_in_parts(start, refusals(messages), tail);
    lemma_refusals_run(start, messages);
    let mid = transform_run(start, refusals(messages));
    lemma_run_is_decided(order, failures(messages));
    lemma_failures_pend(order, messages);
    assert(verdict(mid.plugins) == Verdict::Pending(order[messages.len() as int]));
    let got = transform_step(mid, tail[0]);
    assert(got.code == Some(code));
    let done = transform_step(got, tail[1]);
    assert(tail.drop_first().drop_first() =~= Seq::empty());
    assert(transform_run(mid, tail) == done) by {
        assert(transform_run(mid, tail) == transform_run(got, tail.drop_first()));
        assert(tail.drop_first()[0] == tail[1]);
        assert(transform_run(got, tail.drop_first()) == transform_run(
            done,
            tail.drop_first().drop_first(),
        ));
    }
}

/// A chain on which fewer candidates failed than it has waits for the next.
proof fn lemma_failures_pend(candidates: Seq<usize>, messages: Seq<Seq<char>>)
    requires
        messages.len() < candidates.len(),
    ensures
        decided(candidates, failures(messages)) == Verdict::Pending(
            candidates[messages.len() as int],
        ),
{
    let outcomes = failures(messages);
    lemma_first_success(outcomes);
    let k = first_success(outcomes);
    if k < outcomes.len() {
        assert(outcomes[k as int] == Outcome::Failure(messages[k as int]));
    }
}

/// When every plugin refuses the text, the load fails as a transform
/// failure that carries the path and, word for word, the message of the
/// plugin that was asked last.
pub proof fn lemma_plugin_message_verbatim(
    n: nat,
    path: Seq<char>,
    bytes: Seq<u8>,
    messages: Seq<Seq<char>>,
)
    requires
        valid_utf8(bytes),
        messages.len() == n,
        n > 0,
    ensures
        transform_action(transform_run(transform_start(n, path, bytes), refusals(messages)))
            == TransformActionView::Finish(
            Err(LoadErrorView::TransformFailure { path, diagnostic: messages.last() }),
        ),
{
    let start = transform_start(n, path, bytes);
    lemma_refusals_run(start, messages);
    lemma_run_is_decided(discovery_order(n), failures(messages));
    lemma_all_fail_surfaces_last(discovery_order(n), messages);
}

/// Whether `event` is a report on `action`.
pub open spec fn answers(action: TransformActionView, event: TransformEventView) -> bool {
    match action {
        TransformActionView::Transform(_) => event is Succeeded || event is Failed
            || event is Trapped,
        TransformActionView::Compile(_) => event is Compiled || event is Rejected,
        TransformActionView::Finish(_) => false,
    }
}

/// How many actions a source may still ask for on its way through the
/// plugins: two for each plugin not yet tried, less the transform that the
/// pending plugin has already done.
pub open spec fn transform_budget(s: TransformState) -> nat {
    if s.text is Err || s.plugins.won || s.plugins.failed >= s.plugins.candidates.len() {
        0
    } else if s.code is Some {
        (2 * (s.plugins.candidates.len() - s.plugins.failed) - 1) as nat
    } else {
        (2 * (s.plugins.candidates.len() - s.plugins.failed)) as nat
    }
}

/// Every transform ends: each report on the action that was asked for uses
/// up what may still be asked for, and a source for which nothing more may
/// be asked is done. With `n` plugins that is after at most `2 n` reports.
pub proof fn lemma_transform_ends(s: TransformState, event: TransformEventView)
    requires
        sound(s.plugins),
    ensures
        answers(transform_action(s), event) ==> transform_budget(transform_step(s, event))
            < transform_budget(s),
        transform_budget(transform_step(s, event)) <= transform_budget(s),
        transform_budget(s) == 0 ==> transform_action(s) is Finish,
        sound(transform_step(s, event).plugins),
{
}

/// What one plugin made of the text.
pub enum Attempt {
    /// Its `transform` refused the text with this message.
    Refused(Seq<char>),
    /// The call into its sandbox failed with this message.
    Trapped(Seq<char>),
    /// It gave this code, which the engine refused with this diagnostic.
    Rejected(Seq<char>, Seq<char>),
    /// It gave this code, which the engine accepted.
    Accepted(Seq<char>),
}

/// What the host reports of an attempt.
pub open spec fn attempt_events(attempt: Attempt) -> Seq<TransformEventView> {
    match attempt {
        Attempt::Refused(message) => seq![TransformEventView::Failed(message)],
        Attempt::Trapped(message) => seq![TransformEventView::Trapped(message)],
        Attempt::Rejected(code, diagnostic) => seq![
            TransformEventView::Succeeded(code),
            TransformEventView::Rejected(diagnostic),
        ],
        Attempt::Accepted(code) => seq![
            TransformEventView::Succeeded(code),
            TransformEventView::Compiled,
        ],
    }
}

/// What an attempt counts as: a plugin succeeds when its code compiles, and
/// fails with the message of whoever refused.
pub open spec fn attempt_outcome(attempt: Attempt) -> Outcome {
    match attempt {
        Attempt::Refused(message) => Outcome::Failure(message),
        Attempt::Trapped(message) => Outcome::Failure(message),
        Attempt::Rejected(_, diagnostic) => Outcome::Failure(diagnostic),
        Attempt::Accepted(_) => Outcome::Success,
    }
}

/// What the host reports of `attempts`, one plugin after the other.
pub open spec fn attempts_events(attempts: Seq<Attempt>) -> Seq<TransformEventView>
    decreases attempts.len(),
{
    if attempts.len() == 0 {
        Seq::empty()
    } else {
        attempt_events(attempts[0]) + attempts_events(attempts.drop_first())
    }
}

/// What `attempts` count as, in order.
pub open spec fn attempts_outcomes(attempts: Seq<Attempt>) -> Seq<Outcome> {
    attempts.map_values(|a: Attempt| attempt_outcome(a))
}

/// The reports on one attempt move the chain of plugins by the outcome of
/// the attempt and leave no code behind.
proof fn lemma_attempt_step(s: TransformState, attempt: Attempt)
    requires
        s.text is Ok,
        s.code is None,
    ensures
        transform_run(s, attempt_events(attempt)) == (TransformState {
            plugins: after(s.plugins, attempt_outcome(attempt)),
            ..s
        }),
{
    reveal_with_fuel(transform_run, 3);
    let events = attempt_events(attempt);
    if events.len() == 1 {
        assert(events.drop_first() == Seq::<TransformEventView>::empty());
    } else {
        assert(events.drop_first().drop_first() == Seq::<TransformEventView>::empty());
        assert(events.drop_first()[0] == events[1]);
    }
}

/// The reports on the plugins' attempts drive the chain of plugins by the
/// outcomes of the attempts, and nothing else.
pub proof fn lemma_attempts_run(s: TransformState, attempts: Seq<Attempt>)
    requires
        s.text is Ok,
        s.code is None,
    ensures
        transform_run(s, attempts_events(attempts)) == (TransformState {
            plugins: after_all(s.plugins, attempts_outcomes(attempts)),
            ..s
        }),
    decreases attempts.len(),
{
    if attempts.len() != 0 {
        let head = attempt_events(attempts[0]);
        let rest = attempts.drop_first();
        lemma_run_in_parts(s, head, attempts_events(rest));
        lemma_attempt_step(s, attempts[0]);
        lemma_attempts_run(transform_run(s, head), rest);
        assert(attempts_outcomes(attempts)[0] == attempt_outcome(attempts[0]));
        assert(attempts_outcomes(attempts).drop_first() == attempts_outcomes(rest));
    }
}

/// What running a source through the plugins at `candidates` comes to, said
/// at once. Bytes that are no text fail with the reason of the decoder.
/// Otherwise the first candidate, in order, whose code compiles stands; a
/// candidate that fails hands over to the next, and when every candidate
/// fails, the message of the last failure is surfaced with the path.
pub open spec fn transform_result_over(
    candidates: Seq<usize>,
    path: Seq<char>,
    bytes: Seq<u8>,
    attempts: Seq<Attempt>,
) -> Result<usize, LoadErrorView> {
    if !valid_utf8(bytes) {
        Err(LoadErrorView::TransformFailure { path, diagnostic: utf8_error_text(bytes) })
    } else {
        match decided(candidates, attempts_outcomes(attempts)) {
            Verdict::Won(i) => Ok(i),
            Verdict::Failed(Some(message)) => Err(
                LoadErrorView::TransformFailure { path, diagnostic: message },
            ),
            _ => Err(LoadErrorView::ExtensionUnsupported { path }),
        }
    }
}

/// What running a source through all of `n` plugins comes to.
pub open spec fn transform_result(
    n: nat,
    path: Seq<char>,
    bytes: Seq<u8>,
    attempts: Seq<Attempt>,
) -> Result<usize, LoadErrorView> {
    transform_result_over(discovery_order(n), path, bytes, attempts)
}

/// The whole of a transform: when the host reports what each of the
/// candidates made of the text, the load has ended, and it has ended as
/// `transform_result_over` says. What is reported of candidates that come
/// after a success changes nothing.
pub proof fn lemma_transform_over_comes_to(
    candidates: Seq<usize>,
    path: Seq<char>,
    bytes: Seq<u8>,
    attempts: Seq<Attempt>,
)
    requires
        attempts.len() == candidates.len(),
    ensures
        transform_action(
            transform_run(
                transform_start_over(candidates, path, bytes),
                attempts_events(attempts),
            ),
        ) == TransformActionView::Finish(
            transform_result_over(candidates, path, bytes, attempts),
        ),
{
    let start = transform_start_over(candidates, path, bytes);
    if valid_utf8(bytes) {
        lemma_attempts_run(start, attempts);
        lemma_run_is_decided(candidates, attempts_outcomes(attempts));
        lemma_first_success(attempts_outcomes(attempts));
    } else {
        lemma_refused_absorbs(start, attempts_events(attempts));
    }
}

/// The whole of a transform through all of `n` plugins.
pub proof fn lemma_transform_comes_to(
    n: nat,
    path: Seq<char>,
    bytes: Seq<u8>,
    attempts: Seq<Attempt>,
)
    requires
        attempts.len() == n,
    ensures
        transform_action(transform_run(transform_start(n, path, bytes), attempts_events(attempts)))
            == TransformActionView::Finish(transform_result(n, path, bytes, attempts)),
{
    lemma_transform_over_comes_to(discovery_order(n), path, bytes, attempts);
}

/// A plugin that fails hands over to the next: when the candidates before
/// position `k` each failed, in whichever way, and the candidate at `k` gives
/// code that the engine accepts, the load ends with the module of that
/// candidate, whatever the candidates after it would have done.
pub proof fn lemma_failure_hands_over(
    candidates: Seq<usize>,
    path: Seq<char>,
    bytes: Seq<u8>,
    failing: Seq<Attempt>,
    code: Seq<char>,
    later: Seq<Attempt>,
)
    requires
        valid_utf8(bytes),
        failing.len() < candidates.len(),
        forall|i: int| 0 <= i < failing.len() ==> !(#[trigger] failing[i] is Accepted),
    ensures
        transform_action(
            transform_run(
                transform_start_over(candidates, path, bytes),
                attempts_events(failing + seq![Attempt::Accepted(code)] + later),
            ),
        ) == TransformActionView::Finish(Ok(candidates[failing.len() as int])),
{
    let attempts = failing + seq![Attempt::Accepted(code)] + later;
    let outcomes = attempts_outcomes(attempts);
    let start = transform_start_over(candidates, path, bytes);
    lemma_attempts_run(start, attempts);
    lemma_run_is_decided(candidates, outcomes);
    lemma_first_success(outcomes);
    let k = first_success(outcomes);
    assert(outcomes[failing.len() as int] is Success);
    assert forall|i: int| 0 <= i < failing.len() implies outcomes[i] is Failure by {
        assert(attempts[i] == failing[i]);
    }
    if k < failing.len() {
        assert(outcomes[k as int] is Success);
    }
    if k > failing.len() {
        assert(outcomes[failing.len() as int] is Failure);
    }
}

/// A file goes to exactly the plugins that declared its extension, each
/// once and in discovery order.
pub proof fn lemma_declaring_plugins_are_asked(loaders: Seq<WasmLoaderPlugin>, path: Seq<char>)
    requires
        loaders.len() <= usize::MAX,
    ensures
        forall|k: int|
            0 <= k < asked(loaders, path).len() ==> {
                let i = #[trigger] asked(loaders, path)[k];
                i < loaders.len() && declares(loaders[i as int], matched_extension(path))
            },
        forall|j: int, k: int|
            0 <= j < k < asked(loaders, path).len() ==> asked(loaders, path)[j] < asked(
                loaders,
                path,
            )[k],
        forall|i: int|
            0 <= i < loaders.len() && declares(#[trigger] loaders[i], matched_extension(path))
                ==> asked(loaders, path).contains(i as usize),
{
    let wanted = |i: int| declares(loaders[i], matched_extension(path));
    lemma_matching_within(wanted, loaders.len());
    assert forall|i: int|
        0 <= i < loaders.len() && declares(
            #[trigger] loaders[i],
            matched_extension(path),
        ) implies asked(loaders, path).contains(i as usize) by {
        assert(wanted(i));
    }
}

/// A source that is no text stays refused, whatever is reported.
proof fn lemma_refused_absorbs(s: TransformState, events: Seq<TransformEventView>)
    requires
        s.text is Err,
    ensures
        transform_run(s, events) == s,
    decreases events.len(),
{
    if events.len() != 0 {
        lemma_refused_absorbs(s, events.drop_first());
    }
}

} // verus!
