//! The dispatch policy shared by every list of candidates: they are tried in
//! order, the first success wins, and when all fail the last failure is the
//! one that is surfaced.

use vstd::prelude::*;

verus! {

/// What one attempt came to.
pub enum Outcome {
    Success,
    Failure(Seq<char>),
}

/// Where a chain stands.
pub enum Verdict {
    /// The candidate to try next.
    Pending(usize),
    /// The candidate that succeeded.
    Won(usize),
    /// Every candidate failed; the diagnostic of the last one, if there was any.
    Failed(Option<Seq<char>>),
}

/// The state of a chain: its candidates, how many of them have failed, the
/// diagnostic of the latest failure, and whether the one after them succeeded.
pub struct ChainState {
    pub candidates: Seq<usize>,
    pub failed: nat,
    pub last: Option<Seq<char>>,
    pub won: bool,
}

/// A chain over `candidates` on which nothing has been tried.
pub open spec fn fresh(candidates: Seq<usize>) -> ChainState {
    ChainState { candidates, failed: 0, last: None, won: false }
}

/// Whether a candidate is waiting to be tried.
pub open spec fn pending(s: ChainState) -> bool {
    !s.won && s.failed < s.candidates.len()
}

/// The candidate whose failure was recorded last.
pub open spec fn last_failed(s: ChainState) -> Option<usize> {
    if 0 < s.failed <= s.candidates.len() {
        Some(s.candidates[s.failed - 1])
    } else {
        None
    }
}

/// Where the chain stands.
pub open spec fn verdict(s: ChainState) -> Verdict {
    if s.failed < s.candidates.len() {
        if s.won {
            Verdict::Won(s.candidates[s.failed as int])
        } else {
            Verdict::Pending(s.candidates[s.failed as int])
        }
    } else {
        Verdict::Failed(s.last)
    }
}

/// The chain after the pending candidate reported `outcome`. A chain with
/// nothing pending stays as it is.
pub open spec fn after(s: ChainState, outcome: Outcome) -> ChainState {
    if pending(s) {
        match outcome {
            Outcome::Success => ChainState { won: true, ..s },
            Outcome::Failure(diagnostic) => ChainState {
                failed: s.failed + 1,
                last: Some(diagnostic),
                ..s
            },
        }
    } else {
        s
    }
}

/// The chain after the outcomes of `outcomes` were reported one by one.
pub open spec fn after_all(s: ChainState, outcomes: Seq<Outcome>) -> ChainState
    decreases outcomes.len(),
{
    if outcomes.len() == 0 {
        s
    } else {
        after_all(after(s, outcomes[0]), outcomes.drop_first())
    }
}

/// The position of the first success among `outcomes`, or their number when
/// none succeeded.
pub open spec fn first_success(outcomes: Seq<Outcome>) -> nat
    decreases outcomes.len(),
{
    if outcomes.len() == 0 {
        0
    } else if outcomes[0] is Success {
        0
    } else {
        1 + first_success(outcomes.drop_first())
    }
}

/// What a chain over `candidates` comes to when its attempts report
/// `outcomes` in order: the earliest candidate whose attempt succeeded wins;
/// with no success, the chain waits for the next candidate or, when all were
/// tried, fails with the last diagnostic.
pub open spec fn decided(candidates: Seq<usize>, outcomes: Seq<Outcome>) -> Verdict {
    let k = first_success(outcomes);
    if k < outcomes.len() && k < candidates.len() {
        Verdict::Won(candidates[k as int])
    } else if outcomes.len() < candidates.len() {
        Verdict::Pending(candidates[outcomes.len() as int])
    } else if candidates.len() == 0 {
        Verdict::Failed(None)
    } else {
        Verdict::Failed(Some(outcomes[candidates.len() - 1]->Failure_0))
    }
}

/// The state of a chain is sound when the count of failures is within the
/// candidates and a win leaves its candidate in place.
pub open spec fn sound(s: ChainState) -> bool {
    &&& s.failed <= s.candidates.len()
    &&& s.won ==> s.failed < s.candidates.len()
}

/// The positions below `n` at which `wanted` holds, in rising order: how the
/// candidates of a chain are picked from a list of registrations.
pub open spec fn matching_within(wanted: spec_fn(int) -> bool, n: nat) -> Seq<usize>
    decreases n,
{
    if n == 0 {
        Seq::empty()
    } else if wanted(n - 1) {
        matching_within(wanted, (n - 1) as nat).push((n - 1) as usize)
    } else {
        matching_within(wanted, (n - 1) as nat)
    }
}

/// `matching_within` lists exactly the positions below `n` at which `wanted`
/// holds, each once and in rising order.
pub proof fn lemma_matching_within(wanted: spec_fn(int) -> bool, n: nat)
    requires
        n <= usize::MAX,
    ensures
        forall|k: int|
            0 <= k < matching_within(wanted, n).len() ==> {
                let i = #[trigger] matching_within(wanted, n)[k];
                i < n && wanted(i as int)
            },
        forall|j: int, k: int|
            0 <= j < k < matching_within(wanted, n).len() ==> matching_within(wanted, n)[j]
                < matching_within(wanted, n)[k],
        forall|i: int|
            0 <= i < n && #[trigger] wanted(i) ==> matching_within(wanted, n).contains(
                i as usize,
            ),
        matching_within(wanted, n).len() <= n,
    decreases n,
{
    if n > 0 {
        let prev = matching_within(wanted, (n - 1) as nat);
        let cur = matching_within(wanted, n);
        lemma_matching_within(wanted, (n - 1) as nat);
        assert forall|i: int| 0 <= i < n && #[trigger] wanted(i) implies cur.contains(
            i as usize,
        ) by {
            if i < n - 1 {
                let k = choose|k: int| 0 <= k < prev.len() && prev[k] == i as usize;
                assert(cur[k] == i as usize);
            } else {
                assert(cur[cur.len() - 1] == i as usize);
            }
        }
    }
}

/// With nothing wanted there is no candidate.
pub proof fn lemma_matching_none(wanted: spec_fn(int) -> bool, n: nat)
    requires
        forall|i: int| 0 <= i < n ==> !#[trigger] wanted(i),
    ensures
        matching_within(wanted, n).len() == 0,
    decreases n,
{
    if n > 0 {
        lemma_matching_none(wanted, (n - 1) as nat);
    }
}

/// The earliest wanted position is the first candidate.
pub proof fn lemma_matching_first(wanted: spec_fn(int) -> bool, n: nat, first: int)
    requires
        0 <= first < n <= usize::MAX,
        wanted(first),
        forall|i: int| 0 <= i < first ==> !#[trigger] wanted(i),
    ensures
        matching_within(wanted, n).len() > 0,
        matching_within(wanted, n)[0] == first,
    decreases n,
{
    if n - 1 == first {
        lemma_matching_none(wanted, first as nat);
    } else {
        lemma_matching_first(wanted, (n - 1) as nat, first);
    }
}

/// An ordered list of candidates being tried one after the other.
pub struct Attempts {
    candidates: Vec<usize>,
    failed: usize,
    last: Option<String>,
    won: bool,
}

/// Where a chain stands, for the host to act on.
#[derive(Debug, Clone, PartialEq, Eq)]
pub enum Standing {
    /// The candidate to try next.
    Pending(usize),
    /// The candidate that succeeded.
    Won(usize),
    /// Every candidate failed; the diagnostic of the last one, if there was any.
    Failed(Option<String>),
}

impl View for Standing {
    type V = Verdict;

    open spec fn view(&self) -> Verdict {
        match self {
            Standing::Pending(c) => Verdict::Pending(*c),
            Standing::Won(c) => Verdict::Won(*c),
            Standing::Failed(Some(d)) => Verdict::Failed(Some(d@)),
            Standing::Failed(None) => Verdict::Failed(None),
        }
    }
}

impl View for Attempts {
    type V = ChainState;

    closed spec fn view(&self) -> ChainState {
        ChainState {
            candidates: self.candidates@,
            failed: self.failed as nat,
            last: match self.last {
                Some(d) => Some(d@),
                None => None,
            },
            won: self.won,
        }
    }
}

impl Attempts {
    #[verifier::type_invariant]
    spec fn well_formed(&self) -> bool {
        sound(self@)
    }

    /// A chain over `candidates`, none of them tried yet.
    pub fn new(candidates: Vec<usize>) -> (r: Attempts)
        ensures
            r@ == fresh(candidates@),
    {
        Attempts { candidates, failed: 0, last: None, won: false }
    }

    /// The candidate to try now, if the chain is still undecided.
    pub fn current(&self) -> (r: Option<usize>)
        ensures
            sound(self@),
            r == (if pending(self@) {
                Some(self@.candidates[self@.failed as int])
            } else {
                None
            }),
    {
        proof {
            use_type_invariant(self);
        }
        if !self.won && self.failed < self.candidates.len() {
            Some(self.candidates[self.failed])
        } else {
            None
        }
    }

    /// Where the chain stands.
    pub fn standing(&self) -> (r: Standing)
        ensures
            sound(self@),
            r@ == verdict(self@),
    {
        proof {
            use_type_invariant(self);
        }
        if self.failed < self.candidates.len() {
            if self.won {
                Standing::Won(self.candidates[self.failed])
            } else {
                Standing::Pending(self.candidates[self.failed])
            }
        } else {
            match &self.last {
                Some(d) => Standing::Failed(Some(d.clone())),
                None => Standing::Failed(None),
            }
        }
    }

    /// The candidate whose failure was recorded last, if any has failed.
    pub fn last_tried(&self) -> (r: Option<usize>)
        ensures
            sound(self@),
            r == last_failed(self@),
    {
        proof {
            use_type_invariant(self);
        }
        if self.failed > 0 {
            Some(self.candidates[self.failed - 1])
        } else {
            None
        }
    }

    /// Records that the pending candidate succeeded. Without a pending
    /// candidate nothing changes.
    pub fn report_success(&mut self)
        ensures
            final(self)@ == after(old(self)@, Outcome::Success),
            sound(final(self)@),
        no_unwind
    {
        proof {
            use_type_invariant(&*self);
        }
        if !self.won && self.failed < self.candidates.len() {
            self.won = true;
        }
    }

    /// Records that the pending candidate failed with `diagnostic` and moves
    /// on to the next one. Without a pending candidate nothing changes.
    pub fn report_failure(&mut self, diagnostic: String)
        ensures
            final(self)@ == after(old(self)@, Outcome::Failure(diagnostic@)),
            sound(final(self)@),
        no_unwind
    {
        proof {
            use_type_invariant(&*self);
        }
        if !self.won && self.failed < self.candidates.len() {
            self.last = Some(diagnostic);
            self.failed = self.failed + 1;
        }
    }
}

/// `first_success` is a position within the outcomes, every outcome before it
/// is a failure, and the outcome at it, if there is one, is a success.
pub proof fn lemma_first_success(outcomes: Seq<Outcome>)
    ensures
        first_success(outcomes) <= outcomes.len(),
        forall|i: int| 0 <= i < first_success(outcomes) ==> outcomes[i] is Failure,
        first_success(outcomes) < outcomes.len() ==> outcomes[first_success(outcomes) as int]
            is Success,
    decreases outcomes.len(),
{
    if outcomes.len() != 0 && !(outcomes[0] is Success) {
        let rest = outcomes.drop_first();
        lemma_first_success(rest);
        assert forall|i: int| 0 <= i < first_success(outcomes) implies outcomes[i] is Failure by {
            if i > 0 {
                assert(rest[i - 1] == outcomes[i]);
            }
        }
        if first_success(outcomes) < outcomes.len() {
            assert(rest[first_success(rest) as int] == outcomes[first_success(outcomes) as int]);
        }
    }
}

/// Stepping a sound chain through any outcomes keeps it sound.
pub proof fn lemma_after_all_sound(s: ChainState, outcomes: Seq<Outcome>)
    requires
        sound(s),
    ensures
        sound(after_all(s, outcomes)),
        after_all(s, outcomes).candidates == s.candidates,
    decreases outcomes.len(),
{
    if outcomes.len() != 0 {
        lemma_after_all_sound(after(s, outcomes[0]), outcomes.drop_first());
    }
}

/// A chain that has won or run out of candidates ignores further reports.
pub proof fn lemma_settled_stays(s: ChainState, outcomes: Seq<Outcome>)
    requires
        !pending(s),
    ensures
        after_all(s, outcomes) == s,
    decreases outcomes.len(),
{
    if outcomes.len() != 0 {
        lemma_settled_stays(s, outcomes.drop_first());
    }
}

/// Stepping a chain in the middle of its candidates: the verdict depends only
/// on the candidates that are left and on the outcomes still to come.
proof fn lemma_run_from(s: ChainState, outcomes: Seq<Outcome>)
    requires
        sound(s),
        !s.won,
    ensures
        ({
            let k = first_success(outcomes);
            let left = s.candidates.len() - s.failed;
            let end = after_all(s, outcomes);
            if k < outcomes.len() && k < left {
                end.won && end.failed == s.failed + k
            } else if outcomes.len() < left {
                !end.won && end.failed == s.failed + outcomes.len() && (outcomes.len() > 0
                    ==> end.last == Some(outcomes.last()->Failure_0))
            } else {
                !end.won && end.failed == s.candidates.len() && (left > 0 ==> end.last == Some(
                    outcomes[left - 1]->Failure_0,
                ))
            }
        }),
        after_all(s, outcomes).candidates == s.candidates,
        outcomes.len() == 0 ==> after_all(s, outcomes) == s,
    decreases outcomes.len(),
{
    lemma_first_success(outcomes);
    if outcomes.len() != 0 {
        let rest = outcomes.drop_first();
        let next = after(s, outcomes[0]);
        lemma_first_success(rest);
        if s.failed >= s.candidates.len() {
            lemma_settled_stays(s, outcomes);
        } else if outcomes[0] is Success {
            lemma_settled_stays(next, rest);
        } else {
            lemma_run_from(next, rest);
            if rest.len() > 0 {
                assert(rest.last() == outcomes.last());
            }
            let left = s.candidates.len() - s.failed;
            if left == 1 {
                lemma_settled_stays(next, rest);
            } else if outcomes.len() >= left {
                assert(rest[left - 2] == outcomes[left - 1]);
            }
        }
    }
}

/// Running a fresh chain over any outcomes gives the verdict that `decided`
/// states: the earliest success wins, whatever the later candidates would
/// have done.
pub proof fn lemma_run_is_decided(candidates: Seq<usize>, outcomes: Seq<Outcome>)
    ensures
        verdict(after_all(fresh(candidates), outcomes)) == decided(candidates, outcomes),
{
    lemma_first_success(outcomes);
    if candidates.len() == 0 {
        lemma_settled_stays(fresh(candidates), outcomes);
    } else {
        lemma_run_from(fresh(candidates), outcomes);
    }
}

/// Priority is by position: once the attempt of a candidate succeeds, the
/// verdict is that candidate, and no report about a later one changes it.
pub proof fn lemma_first_success_wins(
    candidates: Seq<usize>,
    before: Seq<Seq<char>>,
    later: Seq<Outcome>,
)
    requires
        before.len() < candidates.len(),
    ensures
        decided(
            candidates,
            before.map_values(|d: Seq<char>| Outcome::Failure(d)) + seq![Outcome::Success] + later,
        ) == Verdict::Won(candidates[before.len() as int]),
{
    let failures = before.map_values(|d: Seq<char>| Outcome::Failure(d));
    let outcomes = failures + seq![Outcome::Success] + later;
    lemma_first_success(outcomes);
    let k = first_success(outcomes);
    assert(outcomes[before.len() as int] is Success);
    assert forall|i: int| 0 <= i < before.len() implies !(outcomes[i] is Success) by {
        assert(outcomes[i] == failures[i]);
    }
    if k < before.len() {
        assert(outcomes[k as int] is Success);
    }
    if k > before.len() {
        assert(outcomes[before.len() as int] is Failure);
    }
}

/// When every candidate fails, what is surfaced is the diagnostic of the
/// last one, word for word; a chain without candidates surfaces none.
pub proof fn lemma_all_fail_surfaces_last(candidates: Seq<usize>, diagnostics: Seq<Seq<char>>)
    requires
        diagnostics.len() == candidates.len(),
    ensures
        decided(candidates, diagnostics.map_values(|d: Seq<char>| Outcome::Failure(d)))
            == Verdict::Failed(
            if candidates.len() == 0 {
                None
            } else {
                Some(diagnostics.last())
            },
        ),
{
    let outcomes = diagnostics.map_values(|d: Seq<char>| Outcome::Failure(d));
    lemma_first_success(outcomes);
    let k = first_success(outcomes);
    if k < outcomes.len() {
        assert(outcomes[k as int] is Success);
        assert(outcomes[k as int] == Outcome::Failure(diagnostics[k as int]));
    }
}

} // verus!
