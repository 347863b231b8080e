//! The engine's scheduling rules: who may enter the execution context, and
//! how an entry point that returns a deferred result is driven to its end
//! without starving either the engine's job queue or the host scheduler.

use crate::error::{EngineError, EngineErrorView};
use crate::esm::modules::{EsmModules, EsmModulesBuilder};
use vstd::prelude::*;

verus! {

/// Collects what an engine is made of before it is built.
#[derive(Debug, Default)]
pub struct VmBuilder {
    pub modules: EsmModulesBuilder,
}

impl VmBuilder {
    /// Builds the engine's side of the host: the registry that its imports
    /// go through, and a context that nobody has entered. `current_dir` is
    /// the directory the host runs in.
    pub fn build(self, current_dir: &str) -> (r: Vm)
        ensures
            r.modules.sources() == self.modules.modules@,
            r.modules.loaders() == self.modules.loaders@,
            r.modules.cwd() == match self.modules.cwd {
                Some(dir) => dir@,
                None => current_dir@,
            },
            !r.access.entered(),
    {
        Vm { modules: self.modules.build(current_dir), access: Access::new() }
    }
}

/// Why the context may not be entered.
#[derive(Debug, Clone, Copy, PartialEq, Eq)]
pub enum AccessError {
    /// The caller is not on the thread that owns the engine.
    WrongThread,
    /// The context is in use: an access is already running on this thread.
    Reentered,
}

/// The one scoped, exclusive access to the execution context.
#[derive(Debug)]
pub struct Access {
    busy: bool,
}

impl Access {
    /// The access to a context that nobody has entered.
    pub fn new() -> (r: Access)
        ensures
            !r.entered(),
    {
        Access { busy: false }
    }

    /// Whether the context is in use.
    pub closed spec fn entered(&self) -> bool {
        self.busy
    }

    /// Asks for the access. It is granted to the owning thread while no
    /// other access is running there; nobody else ever gets it.
    pub fn enter(&mut self, on_owning_thread: bool) -> (r: Result<(), AccessError>)
        ensures
            r == (if !on_owning_thread {
                Err::<(), AccessError>(AccessError::WrongThread)
            } else if old(self).entered() {
                Err(AccessError::Reentered)
            } else {
                Ok(())
            }),
            final(self).entered() == (old(self).entered() || r is Ok),
    {
        if !on_owning_thread {
            Err(AccessError::WrongThread)
        } else if self.busy {
            Err(AccessError::Reentered)
        } else {
            self.busy = true;
            Ok(())
        }
    }

    /// Ends the access that `enter` granted.
    pub fn leave(&mut self)
        ensures
            !final(self).entered(),
    {
        self.busy = false;
    }
}

/// The engine as far as the host has to reason about it: its registry, and
/// the access to its context.
#[derive(Debug)]
pub struct Vm {
    pub modules: EsmModules,
    pub access: Access,
}

impl Vm {
    /// A builder for an engine.
    pub fn new() -> (r: VmBuilder)
        ensures
            r.modules.modules@.len() == 0,
            r.modules.loaders@.len() == 0,
            r.modules.cwd is None,
    {
        VmBuilder {
            modules: EsmModulesBuilder { modules: Vec::new(), cwd: None, loaders: Vec::new() },
        }
    }

    /// Starts the run of an entry point whose deferred result has a value of
    /// type `T`.
    pub fn run_main<T>(&self) -> (r: Drain<T>)
        ensures
            r@ == DrainState::<T>::Evaluate,
    {
        Drain::new()
    }
}

/// What the host saw of the deferred result of the entry point.
#[derive(Debug, Clone, PartialEq, Eq)]
pub enum Deferred<T> {
    /// Not completed yet.
    Pending,
    /// Completed with this value.
    Fulfilled(T),
    /// Completed with what the script raised.
    Rejected(String),
}

/// What the host has to do next to drive an entry point.
#[derive(Debug, Clone, Copy, PartialEq, Eq)]
pub enum DrainAction {
    /// Compile and evaluate the entry module inside one scoped access to the
    /// context, and keep the deferred result that it returns.
    Evaluate,
    /// Look at the deferred result and ask the engine whether jobs are
    /// pending.
    Observe,
    /// Execute exactly one pending job.
    RunJob,
    /// Give control back to the host scheduler.
    Yield,
    /// Wait for the engine's idle signal.
    AwaitIdle,
    /// Nothing: the run has ended, and `finish` says how.
    Finish,
}

/// What the host reports back after an action.
#[derive(Debug, Clone, PartialEq, Eq)]
pub enum DrainEvent<T> {
    /// The entry module was evaluated and returned a deferred result.
    Evaluated,
    /// Evaluating the entry module raised this.
    EvaluationFailed(String),
    /// The deferred result as it stands, and whether the engine reports
    /// pending jobs. Once the result was reported fulfilled, what later
    /// observations say of it is not looked at.
    Observed { deferred: Deferred<T>, job_pending: bool },
    /// One job was executed.
    JobRan,
    /// Executing a job failed with this.
    JobFailed(String),
    /// The host scheduler gave control back.
    Yielded,
    /// The engine signalled that it is idle.
    Idle,
}

/// A `DrainEvent` with its texts as character sequences.
pub enum DrainEventView<T> {
    Evaluated,
    EvaluationFailed(Seq<char>),
    Observed { fulfilled: Option<T>, rejected: Option<Seq<char>>, job_pending: bool },
    JobRan,
    JobFailed(Seq<char>),
    Yielded,
    Idle,
}

impl<T> View for DrainEvent<T> {
    type V = DrainEventView<T>;

    open spec fn view(&self) -> DrainEventView<T> {
        match self {
            DrainEvent::Evaluated => DrainEventView::Evaluated,
            DrainEvent::EvaluationFailed(m) => DrainEventView::EvaluationFailed(m@),
            DrainEvent::Observed { deferred, job_pending } => DrainEventView::Observed {
                fulfilled: match deferred {
                    Deferred::Fulfilled(value) => Some(*value),
                    _ => None,
                },
                rejected: match deferred {
                    Deferred::Rejected(m) => Some(m@),
                    _ => None,
                },
                job_pending: *job_pending,
            },
            DrainEvent::JobRan => DrainEventView::JobRan,
            DrainEvent::JobFailed(m) => DrainEventView::JobFailed(m@),
            DrainEvent::Yielded => DrainEventView::Yielded,
            DrainEvent::Idle => DrainEventView::Idle,
        }
    }
}

/// Where a run stands. `value` is the value with which the deferred result
/// of the entry point was seen fulfilled, once it was.
pub enum DrainState<T> {
    Evaluate,
    Observe { value: Option<T> },
    RunJob { value: Option<T> },
    Yield { value: Option<T> },
    AwaitIdle { value: T },
    Done(Result<T, EngineErrorView>),
}

/// What the host has to do in state `s`.
pub open spec fn drain_action<T>(s: DrainState<T>) -> DrainAction {
    match s {
        DrainState::Evaluate => DrainAction::Evaluate,
        DrainState::Observe { .. } => DrainAction::Observe,
        DrainState::RunJob { .. } => DrainAction::RunJob,
        DrainState::Yield { .. } => DrainAction::Yield,
        DrainState::AwaitIdle { .. } => DrainAction::AwaitIdle,
        DrainState::Done(_) => DrainAction::Finish,
    }
}

/// The state after an observation, for a run that holds `held` of the
/// entry point's value. Before the deferred result is fulfilled, a rejection
/// ends the run with what the script raised, and a fulfilment hands over the
/// value, which the run keeps from then on. A pending job is run next, one
/// at a time. With no job pending, the run goes on to wait for the idle
/// signal once it holds the value, and otherwise lets the host scheduler
/// work.
pub open spec fn after_observation<T>(
    held: Option<T>,
    fulfilled: Option<T>,
    rejected: Option<Seq<char>>,
    job_pending: bool,
) -> DrainState<T> {
    let value = if held is Some {
        held
    } else {
        fulfilled
    };
    if held is None && rejected is Some {
        DrainState::Done(Err(EngineErrorView::Script { message: rejected->0 }))
    } else if job_pending {
        DrainState::RunJob { value }
    } else if value is Some {
        DrainState::AwaitIdle { value: value->0 }
    } else {
        DrainState::Yield { value: None }
    }
}

/// The state after the host reported `event` on the action of `s`. A report
/// that does not answer the action changes nothing. The run ends well with
/// the value it holds, when the idle signal comes.
pub open spec fn drain_step<T>(s: DrainState<T>, event: DrainEventView<T>) -> DrainState<T> {
    match (s, event) {
        (DrainState::Evaluate, DrainEventView::Evaluated) => DrainState::Observe { value: None },
        (DrainState::Evaluate, DrainEventView::EvaluationFailed(m)) => DrainState::Done(
            Err(EngineErrorView::Script { message: m }),
        ),
        (
            DrainState::Observe { value },
            DrainEventView::Observed { fulfilled, rejected, job_pending },
        ) => after_observation(value, fulfilled, rejected, job_pending),
        (DrainState::RunJob { value }, DrainEventView::JobRan) => DrainState::Yield { value },
        (DrainState::RunJob { .. }, DrainEventView::JobFailed(m)) => DrainState::Done(
            Err(EngineErrorView::ExecutionFailure { message: m }),
        ),
        (DrainState::Yield { value }, DrainEventView::Yielded) => DrainState::Observe { value },
        (DrainState::AwaitIdle { value }, DrainEventView::Idle) => DrainState::Done(Ok(value)),
        _ => s,
    }
}

/// The state after the host reported `events` one by one, starting from a
/// run that has not begun.
pub open spec fn drain_run<T>(events: Seq<DrainEventView<T>>) -> DrainState<T>
    decreases events.len(),
{
    if events.len() == 0 {
        DrainState::Evaluate
    } else {
        drain_step(drain_run(events.drop_last()), events.last())
    }
}

/// How a run ended, with its texts as character sequences.
pub open spec fn ended<T>(r: Result<T, EngineError>) -> Result<T, EngineErrorView> {
    match r {
        Ok(value) => Ok(value),
        Err(e) => Err(e@),
    }
}

/// The run of one entry point whose deferred result has a value of type
/// `T`.
#[derive(Debug)]
pub struct Drain<T> {
    stage: Stage<T>,
}

#[derive(Debug)]
enum Stage<T> {
    Evaluate,
    Observe { value: Option<T> },
    RunJob { value: Option<T> },
    Yield { value: Option<T> },
    AwaitIdle { value: T },
    Done(Result<T, EngineError>),
}

impl<T> View for Drain<T> {
    type V = DrainState<T>;

    closed spec fn view(&self) -> DrainState<T> {
        match self.stage {
            Stage::Evaluate => DrainState::Evaluate,
            Stage::Observe { value } => DrainState::Observe { value },
            Stage::RunJob { value } => DrainState::RunJob { value },
            Stage::Yield { value } => DrainState::Yield { value },
            Stage::AwaitIdle { value } => DrainState::AwaitIdle { value },
            Stage::Done(r) => DrainState::Done(ended(r)),
        }
    }
}

impl<T> Drain<T> {
    /// A run that has not begun.
    pub fn new() -> (r: Drain<T>)
        ensures
            r@ == DrainState::<T>::Evaluate,
    {
        Drain { stage: Stage::Evaluate }
    }

    /// What the host has to do now.
    pub fn action(&self) -> (r: DrainAction)
        ensures
            r == drain_action(self@),
    {
        match &self.stage {
            Stage::Evaluate => DrainAction::Evaluate,
            Stage::Observe { .. } => DrainAction::Observe,
            Stage::RunJob { .. } => DrainAction::RunJob,
            Stage::Yield { .. } => DrainAction::Yield,
            Stage::AwaitIdle { .. } => DrainAction::AwaitIdle,
            Stage::Done(_) => DrainAction::Finish,
        }
    }

    /// Takes the host's report on the current action and says what to do
    /// next.
    pub fn step(&mut self, event: DrainEvent<T>) -> (r: DrainAction)
        ensures
            final(self)@ == drain_step(old(self)@, event@),
            r == drain_action(final(self)@),
    {
        let mut stage = Stage::Evaluate;
        std::mem::swap(&mut stage, &mut self.stage);
        let next = match (stage, event) {
            (Stage::Evaluate, DrainEvent::Evaluated) => Stage::Observe { value: None },
            (Stage::Evaluate, DrainEvent::EvaluationFailed(message)) => Stage::Done(
                Err(EngineError::Script { message }),
            ),
            (Stage::Observe { value }, DrainEvent::Observed { deferred, job_pending }) => {
                match (value, deferred) {
                    (None, Deferred::Rejected(message)) => Stage::Done(
                        Err(EngineError::Script { message }),
                    ),
                    (Some(held), _) => Self::observed(Some(held), job_pending),
                    (None, Deferred::Fulfilled(value)) => Self::observed(Some(value), job_pending),
                    (None, Deferred::Pending) => Self::observed(None, job_pending),
                }
            },
            (Stage::RunJob { value }, DrainEvent::JobRan) => Stage::Yield { value },
            (Stage::RunJob { .. }, DrainEvent::JobFailed(message)) => Stage::Done(
                Err(EngineError::ExecutionFailure { message }),
            ),
            (Stage::Yield { value }, DrainEvent::Yielded) => Stage::Observe { value },
            (Stage::AwaitIdle { value }, DrainEvent::Idle) => Stage::Done(Ok(value)),
            (stage, _) => stage,
        };
        self.stage = next;
        self.action()
    }

    /// Where a run goes after an observation that leaves it with `value`.
    fn observed(value: Option<T>, job_pending: bool) -> (r: Stage<T>)
        ensures
            r == (if job_pending {
                Stage::RunJob { value }
            } else {
                match value {
                    Some(held) => Stage::AwaitIdle { value: held },
                    None => Stage::Yield { value: None },
                }
            }),
    {
        if job_pending {
            Stage::RunJob { value }
        } else {
            match value {
                Some(held) => Stage::AwaitIdle { value: held },
                None => Stage::Yield { value: None },
            }
        }
    }

    /// Whether the run has ended.
    pub fn finished(&self) -> (r: bool)
        ensures
            r == (self@ is Done),
    {
        match &self.stage {
            Stage::Done(_) => true,
            _ => false,
        }
    }

    /// How the run ended: with the value of the entry point, or with what
    /// went wrong. A run that has not ended has no result yet and is handed
    /// back as it is.
    pub fn finish(self) -> (r: Result<Result<T, EngineError>, Drain<T>>)
        ensures
            match r {
                Ok(result) => self@ == DrainState::Done(ended(result)),
                Err(run) => !(self@ is Done) && run@ == self@,
            },
    {
        match self.stage {
            Stage::Done(result) => Ok(result),
            stage => Err(Drain { stage }),
        }
    }
}

/// The value of the entry point that a run in state `s` holds.
pub open spec fn held<T>(s: DrainState<T>) -> Option<T> {
    match s {
        DrainState::Observe { value } => value,
        DrainState::RunJob { value } => value,
        DrainState::Yield { value } => value,
        DrainState::AwaitIdle { value } => Some(value),
        DrainState::Done(Ok(value)) => Some(value),
        _ => None,
    }
}

/// Whether `event` reports the deferred result fulfilled with `value`.
pub open spec fn reports_fulfilled<T>(event: DrainEventView<T>, value: T) -> bool {
    event matches DrainEventView::Observed { fulfilled, .. } && fulfilled == Some(value)
}

/// Whether `event` reports an engine without pending jobs.
pub open spec fn reports_quiet<T>(event: DrainEventView<T>) -> bool {
    event matches DrainEventView::Observed { job_pending, .. } && !job_pending
}

/// Whether `event` reports an engine with a pending job.
pub open spec fn reports_busy<T>(event: DrainEventView<T>) -> bool {
    event matches DrainEventView::Observed { job_pending, .. } && job_pending
}

/// One job per iteration: after a job has run, the host scheduler gets
/// control, and the queue is looked at again before any other job runs.
pub proof fn lemma_one_job_then_yield<T>(value: Option<T>)
    ensures
        drain_step(DrainState::RunJob { value }, DrainEventView::JobRan) == (DrainState::Yield {
            value,
        }),
        drain_step(DrainState::Yield { value }, DrainEventView::Yielded) == (DrainState::Observe {
            value,
        }),
{
}

/// A job is run only after the engine reported one pending, and the wait
/// for the idle signal begins only after it reported none.
pub proof fn lemma_pump_follows_observation<T>(s: DrainState<T>, event: DrainEventView<T>)
    ensures
        drain_step(s, event) is RunJob && !(s is RunJob) ==> s is Observe && reports_busy(event),
        drain_step(s, event) is AwaitIdle && !(s is AwaitIdle) ==> s is Observe && reports_quiet(
            event,
        ),
{
}

/// What the script raises reaches the caller word for word.
pub proof fn lemma_script_failure_verbatim<T>(message: Seq<char>, job_pending: bool)
    ensures
        drain_step(DrainState::<T>::Evaluate, DrainEventView::EvaluationFailed(message))
            == DrainState::<T>::Done(Err(EngineErrorView::Script { message })),
        drain_step(
            DrainState::<T>::Observe { value: None },
            DrainEventView::Observed { fulfilled: None, rejected: Some(message), job_pending },
        ) == DrainState::<T>::Done(Err(EngineErrorView::Script { message })),
{
}

/// A run that has ended stays ended.
pub proof fn lemma_done_is_final<T>(s: DrainState<T>, event: DrainEventView<T>)
    requires
        s is Done,
    ensures
        drain_step(s, event) == s,
{
}

/// The value is kept: a run that holds the value of the entry point holds
/// the same value after any report, unless a job fails and ends the run.
pub proof fn lemma_value_is_kept<T>(s: DrainState<T>, event: DrainEventView<T>, value: T)
    requires
        held(s) == Some(value),
    ensures
        held(drain_step(s, event)) == Some(value) || drain_step(s, event) matches DrainState::Done(
            Err(EngineErrorView::ExecutionFailure { .. }),
        ),
{
}

/// In every run, the value that the run holds is a value with which the
/// host reported the deferred result fulfilled.
pub proof fn lemma_held_was_reported<T>(events: Seq<DrainEventView<T>>, value: T)
    requires
        held(drain_run(events)) == Some(value),
    ensures
        exists|i: int| 0 <= i < events.len() && reports_fulfilled(#[trigger] events[i], value),
    decreases events.len(),
{
    if events.len() != 0 {
        let before = events.drop_last();
        if held(drain_run(before)) == Some(value) {
            lemma_held_was_reported(before, value);
            let i = choose|i: int|
                0 <= i < before.len() && reports_fulfilled(#[trigger] before[i], value);
            assert(events[i] == before[i]);
        } else {
            assert(reports_fulfilled(events[events.len() - 1], value));
        }
    }
}

/// A run ends well with the value `value` only after the host reported the
/// result of the entry point fulfilled with that value, the engine reported
/// no pending job, and the idle signal came: when `run_main` returns the
/// value of the entry point, the job queue has been pumped empty.
pub proof fn lemma_success_means_drained<T>(events: Seq<DrainEventView<T>>, value: T)
    requires
        drain_run(events) == DrainState::Done(Ok::<T, EngineErrorView>(value)),
    ensures
        exists|i: int, j: int, k: int|
            0 <= i <= j < k < events.len() && reports_fulfilled(#[trigger] events[i], value)
                && reports_quiet(#[trigger] events[j]) && #[trigger] events[k]
                == DrainEventView::<T>::Idle,
    decreases events.len(),
{
    if events.len() != 0 {
        let before = events.drop_last();
        if drain_run(before) == DrainState::Done(Ok::<T, EngineErrorView>(value)) {
            lemma_success_means_drained(before, value);
            let (i, j, k) = choose|i: int, j: int, k: int|
                0 <= i <= j < k < before.len() && reports_fulfilled(#[trigger] before[i], value)
                    && reports_quiet(#[trigger] before[j]) && #[trigger] before[k]
                    == DrainEventView::<T>::Idle;
            assert(events[i] == before[i] && events[j] == before[j] && events[k] == before[k]);
        } else {
            assert(drain_run(before) == DrainState::AwaitIdle { value });
            assert(events[events.len() - 1] == DrainEventView::<T>::Idle);
            lemma_waiting_means_quiet(before, value);
            let (i, j) = choose|i: int, j: int|
                0 <= i <= j < before.len() && reports_fulfilled(#[trigger] before[i], value)
                    && reports_quiet(#[trigger] before[j]);
            assert(events[i] == before[i] && events[j] == before[j]);
        }
    }
}

/// A run waits for the idle signal, holding `value`, only after the result
/// was reported fulfilled with that value and the engine then reported no
/// pending job.
pub proof fn lemma_waiting_means_quiet<T>(events: Seq<DrainEventView<T>>, value: T)
    requires
        drain_run(events) == (DrainState::AwaitIdle { value }),
    ensures
        exists|i: int, j: int|
            0 <= i <= j < events.len() && reports_fulfilled(#[trigger] events[i], value)
                && reports_quiet(#[trigger] events[j]),
    decreases events.len(),
{
    if events.len() != 0 {
        let before = events.drop_last();
        let last = events.len() - 1;
        if drain_run(before) == (DrainState::AwaitIdle { value }) {
            lemma_waiting_means_quiet(before, value);
            let (i, j) = choose|i: int, j: int|
                0 <= i <= j < before.len() && reports_fulfilled(#[trigger] before[i], value)
                    && reports_quiet(#[trigger] before[j]);
            assert(events[i] == before[i] && events[j] == before[j]);
        } else {
            assert(reports_quiet(events[last]));
            if held(drain_run(before)) == Some(value) {
                lemma_held_was_reported(before, value);
                let i = choose|i: int|
                    0 <= i < before.len() && reports_fulfilled(#[trigger] before[i], value);
                assert(events[i] == before[i]);
                assert(reports_fulfilled(events[i], value) && reports_quiet(events[last]));
            } else {
                assert(reports_fulfilled(events[last], value) && reports_quiet(events[last]));
            }
        }
    }
}

/// The report of a result fulfilled with `value` by an engine without
/// pending jobs.
pub open spec fn fulfilled_quietly<T>(value: T) -> DrainEventView<T> {
    DrainEventView::Observed { fulfilled: Some(value), rejected: None, job_pending: false }
}

/// The value that a run returns is the one the script returned: a run that
/// sees the deferred result fulfilled with `value`, finds no job pending and
/// gets the idle signal ends well with exactly `value`.
pub proof fn lemma_value_reaches_the_end<T>(value: T)
    ensures
        drain_run(
            seq![DrainEventView::<T>::Evaluated, fulfilled_quietly(value), DrainEventView::Idle],
        ) == DrainState::Done(Ok::<T, EngineErrorView>(value)),
{
    reveal_with_fuel(drain_run, 4);
    let events = seq![
        DrainEventView::<T>::Evaluated,
        fulfilled_quietly(value),
        DrainEventView::Idle,
    ];
    assert(events.drop_last() == seq![events[0], events[1]]);
    assert(events.drop_last().drop_last() == seq![events[0]]);
    assert(events.drop_last().drop_last().drop_last() == Seq::<DrainEventView<T>>::empty());
}

} // verus!
