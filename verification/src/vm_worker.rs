//! The engine worker: one thread owns the engine and serves requests one at
//! a time, in the order in which they were submitted, until it is told to
//! stop.

use vstd::prelude::*;

verus! {

/// What a request hands back: a plain value, or the key under which the
/// engine keeps a value that stays with it.
#[derive(Debug, Clone, PartialEq, Eq)]
pub enum QuickResult<V, K> {
    Value(V),
    RegistryKey(K),
}

impl<V, K> QuickResult<V, K> {
    /// The key that the result holds. Only a result that holds a key has
    /// one.
    pub fn into_key(self) -> (r: K)
        requires
            self is RegistryKey,
        ensures
            r == self->RegistryKey_0,
    {
        match self {
            QuickResult::RegistryKey(key) => key,
            QuickResult::Value(_) => vstd::pervasive::unreached(),
        }
    }

    /// The key that the result holds, if it holds one.
    pub fn key(self) -> (r: Option<K>)
        ensures
            r == (match self {
                QuickResult::RegistryKey(key) => Some(key),
                QuickResult::Value(_) => None,
            }),
    {
        match self {
            QuickResult::RegistryKey(key) => Some(key),
            QuickResult::Value(_) => None,
        }
    }
}

/// What can be sent to a worker. A request carries the ticket under which
/// its sender waits for the reply; the worker hands the ticket back with
/// the action, so that what is served is the very request that was sent.
#[derive(Debug, Clone, Copy, PartialEq, Eq)]
pub enum Message {
    /// Stop serving.
    Kill,
    /// Run the closure kept under this ticket against the context and send
    /// back what it returns.
    With(u64),
    /// Run the closure kept under this ticket, which returns a deferred
    /// result, drive that result to its end, and send back the final value.
    WithAsync(u64),
}

/// Where a worker stands.
#[derive(Debug, Clone, Copy, PartialEq, Eq)]
pub enum WorkerState {
    /// Running and waiting for the next message.
    Waiting,
    /// Running the request with this ticket; `deferred` tells whether its
    /// closure returns a deferred result that has to be driven to its end.
    Serving { ticket: u64, deferred: bool },
    /// Told to stop, or left without anyone to send; the loop has ended.
    ShuttingDown,
    /// The thread has been joined.
    Terminated,
}

/// What the host reports to the worker's state.
#[derive(Debug, Clone, Copy, PartialEq, Eq)]
pub enum WorkerEvent {
    /// The next message of the queue.
    Received(Message),
    /// The queue has no sender left.
    Closed,
    /// The request was run and its reply sent; `delivered` tells whether
    /// anyone was still waiting for it.
    Replied { delivered: bool },
    /// The thread was joined.
    Joined,
}

/// What the host has to do next.
#[derive(Debug, Clone, Copy, PartialEq, Eq)]
pub enum WorkerAction {
    /// Wait for the next message.
    Receive,
    /// Run the request with this ticket through one scoped access to the
    /// context and reply.
    Run(u64),
    /// Run the request with this ticket, drive its deferred result to the
    /// end and reply.
    RunAsync(u64),
    /// Leave the loop and let the thread end.
    Exit,
    /// Nothing is left to do.
    Rest,
}

/// Whether a worker in state `s` is running: it waits for a request or
/// serves one. A worker runs until it is told to stop; then it shuts down,
/// and the join terminates it.
pub open spec fn running(s: WorkerState) -> bool {
    s is Waiting || s is Serving
}

/// What the host has to do in state `s`.
pub open spec fn worker_action(s: WorkerState) -> WorkerAction {
    match s {
        WorkerState::Waiting => WorkerAction::Receive,
        WorkerState::Serving { ticket, deferred } => if deferred {
            WorkerAction::RunAsync(ticket)
        } else {
            WorkerAction::Run(ticket)
        },
        WorkerState::ShuttingDown => WorkerAction::Exit,
        WorkerState::Terminated => WorkerAction::Rest,
    }
}

/// The state after `event`. A waiting worker takes up the request it
/// receives, or shuts down on `Kill` and on a closed queue. A serving worker
/// goes back to waiting once the reply is sent, whether it was delivered or
/// not. A worker that is shutting down is terminated by the join. Any other
/// report changes nothing.
pub open spec fn worker_step(s: WorkerState, event: WorkerEvent) -> WorkerState {
    match (s, event) {
        (WorkerState::Waiting, WorkerEvent::Received(Message::Kill)) => WorkerState::ShuttingDown,
        (WorkerState::Waiting, WorkerEvent::Received(Message::With(ticket))) => {
            WorkerState::Serving { ticket, deferred: false }
        },
        (WorkerState::Waiting, WorkerEvent::Received(Message::WithAsync(ticket))) => {
            WorkerState::Serving { ticket, deferred: true }
        },
        (WorkerState::Waiting, WorkerEvent::Closed) => WorkerState::ShuttingDown,
        (WorkerState::Serving { .. }, WorkerEvent::Replied { .. }) => WorkerState::Waiting,
        (WorkerState::ShuttingDown, WorkerEvent::Joined) => WorkerState::Terminated,
        _ => s,
    }
}

/// The state after the host reported `events` one by one.
pub open spec fn worker_run(s: WorkerState, events: Seq<WorkerEvent>) -> WorkerState
    decreases events.len(),
{
    if events.len() == 0 {
        s
    } else {
        worker_run(worker_step(s, events[0]), events.drop_first())
    }
}

/// The request with this ticket, as it was sent.
pub open spec fn request(ticket: u64, deferred: bool) -> Message {
    if deferred {
        Message::WithAsync(ticket)
    } else {
        Message::With(ticket)
    }
}

/// The requests that a worker in state `s` takes up while the host reports
/// `events`, in the order in which it takes them up.
pub open spec fn taken_up(s: WorkerState, events: Seq<WorkerEvent>) -> Seq<Message>
    decreases events.len(),
{
    if events.len() == 0 {
        Seq::empty()
    } else {
        let next = worker_step(s, events[0]);
        let rest = taken_up(next, events.drop_first());
        match (s, next) {
            (WorkerState::Waiting, WorkerState::Serving { ticket, deferred }) => seq![
                request(ticket, deferred),
            ] + rest,
            _ => rest,
        }
    }
}

/// What the host reports for one message of the queue: the message, and for
/// a request the reply that follows.
pub open spec fn reports_for(message: Message, delivered: bool) -> Seq<WorkerEvent> {
    match message {
        Message::Kill => seq![WorkerEvent::Received(Message::Kill)],
        request => seq![WorkerEvent::Received(request), WorkerEvent::Replied { delivered }],
    }
}

/// What the host reports while it hands over `messages` in the order of
/// their submission; `delivered` tells for each whether its reply found
/// someone waiting.
pub open spec fn reports(messages: Seq<Message>, delivered: Seq<bool>) -> Seq<WorkerEvent>
    decreases messages.len(),
{
    if messages.len() == 0 {
        Seq::empty()
    } else {
        reports_for(messages[0], delivered[0]) + reports(
            messages.drop_first(),
            delivered.drop_first(),
        )
    }
}

/// The requests submitted before the first `Kill`, in submission order.
pub open spec fn before_kill(messages: Seq<Message>) -> Seq<Message>
    decreases messages.len(),
{
    if messages.len() == 0 {
        Seq::empty()
    } else if messages[0] is Kill {
        Seq::empty()
    } else {
        seq![messages[0]] + before_kill(messages.drop_first())
    }
}

/// The state of a worker.
#[derive(Debug)]
pub struct Worker {
    state: WorkerState,
}

impl View for Worker {
    type V = WorkerState;

    closed spec fn view(&self) -> WorkerState {
        self.state
    }
}

impl Worker {
    /// A worker that has just started: it runs and waits.
    pub fn new() -> (r: Worker)
        ensures
            r@ == WorkerState::Waiting,
    {
        Worker { state: WorkerState::Waiting }
    }

    /// Where the worker stands.
    pub fn state(&self) -> (r: WorkerState)
        ensures
            r == self@,
    {
        self.state
    }

    /// Whether the worker is running.
    pub fn is_running(&self) -> (r: bool)
        ensures
            r == running(self@),
    {
        match self.state {
            WorkerState::Waiting => true,
            WorkerState::Serving { .. } => true,
            _ => false,
        }
    }

    /// What the host has to do now.
    pub fn action(&self) -> (r: WorkerAction)
        ensures
            r == worker_action(self@),
    {
        match self.state {
            WorkerState::Waiting => WorkerAction::Receive,
            WorkerState::Serving { ticket, deferred } => if deferred {
                WorkerAction::RunAsync(ticket)
            } else {
                WorkerAction::Run(ticket)
            },
            WorkerState::ShuttingDown => WorkerAction::Exit,
            WorkerState::Terminated => WorkerAction::Rest,
        }
    }

    /// Takes a report of the host and says what to do next.
    pub fn step(&mut self, event: WorkerEvent) -> (r: WorkerAction)
        ensures
            final(self)@ == worker_step(old(self)@, event),
            r == worker_action(final(self)@),
    {
        let next = match (self.state, event) {
            (WorkerState::Waiting, WorkerEvent::Received(Message::Kill)) => {
                WorkerState::ShuttingDown
            },
            (WorkerState::Waiting, WorkerEvent::Received(Message::With(ticket))) => {
                WorkerState::Serving { ticket, deferred: false }
            },
            (WorkerState::Waiting, WorkerEvent::Received(Message::WithAsync(ticket))) => {
                WorkerState::Serving { ticket, deferred: true }
            },
            (WorkerState::Waiting, WorkerEvent::Closed) => WorkerState::ShuttingDown,
            (WorkerState::Serving { .. }, WorkerEvent::Replied { .. }) => WorkerState::Waiting,
            (WorkerState::ShuttingDown, WorkerEvent::Joined) => WorkerState::Terminated,
            (state, _) => state,
        };
        self.state = next;
        self.action()
    }
}

/// Reports come one after the other: a run over two lists of reports is the
/// run over the second from where the first ended, and the requests taken
/// up are those of the first part followed by those of the second.
pub proof fn lemma_worker_run_in_parts(
    s: WorkerState,
    first: Seq<WorkerEvent>,
    second: Seq<WorkerEvent>,
)
    ensures
        worker_run(s, first + second) == worker_run(worker_run(s, first), second),
        taken_up(s, first + second) == taken_up(s, first) + taken_up(
            worker_run(s, first),
            second,
        ),
    decreases first.len(),
{
    if first.len() == 0 {
        assert(first + second == second);
    } else {
        assert((first + second)[0] == first[0]);
        assert((first + second).drop_first() == first.drop_first() + second);
        lemma_worker_run_in_parts(worker_step(s, first[0]), first.drop_first(), second);
    }
}

/// A worker that is shutting down takes up nothing more, whatever is still
/// in its queue.
pub proof fn lemma_nothing_after_kill(messages: Seq<Message>, delivered: Seq<bool>)
    requires
        messages.len() == delivered.len(),
    ensures
        worker_run(WorkerState::ShuttingDown, reports(messages, delivered))
            == WorkerState::ShuttingDown,
        taken_up(WorkerState::ShuttingDown, reports(messages, delivered)) == Seq::<
            Message,
        >::empty(),
    decreases messages.len(),
{
    if messages.len() != 0 {
        let head = reports_for(messages[0], delivered[0]);
        let tail = reports(messages.drop_first(), delivered.drop_first());
        lemma_worker_run_in_parts(WorkerState::ShuttingDown, head, tail);
        lemma_nothing_after_kill(messages.drop_first(), delivered.drop_first());
        reveal_with_fuel(worker_run, 3);
        reveal_with_fuel(taken_up, 3);
        assert(worker_run(WorkerState::ShuttingDown, head) == WorkerState::ShuttingDown);
        assert(taken_up(WorkerState::ShuttingDown, head) == Seq::<Message>::empty());
    }
}

/// Requests are served in the order of their submission: a worker that is
/// handed the messages of its queue one by one takes up exactly the requests
/// submitted before the first `Kill`, ticket for ticket, in submission
/// order, and each of them once. Whether a reply was delivered makes no
/// difference to what follows.
pub proof fn lemma_served_in_submission_order(messages: Seq<Message>, delivered: Seq<bool>)
    requires
        messages.len() == delivered.len(),
    ensures
        taken_up(WorkerState::Waiting, reports(messages, delivered)) == before_kill(messages),
        worker_run(WorkerState::Waiting, reports(messages, delivered)) == (if exists|i: int|
            0 <= i < messages.len() && messages[i] is Kill {
            WorkerState::ShuttingDown
        } else {
            WorkerState::Waiting
        }),
    decreases messages.len(),
{
    if messages.len() != 0 {
        let head = reports_for(messages[0], delivered[0]);
        let rest = messages.drop_first();
        let tail = reports(rest, delivered.drop_first());
        lemma_worker_run_in_parts(WorkerState::Waiting, head, tail);
        reveal_with_fuel(worker_run, 3);
        reveal_with_fuel(taken_up, 3);
        if messages[0] is Kill {
            assert(worker_run(WorkerState::Waiting, head) == WorkerState::ShuttingDown);
            assert(taken_up(WorkerState::Waiting, head) == Seq::<Message>::empty());
            lemma_nothing_after_kill(rest, delivered.drop_first());
        } else {
            assert(head[0] == WorkerEvent::Received(messages[0]));
            assert(head.drop_first() == seq![WorkerEvent::Replied { delivered: delivered[0] }]);
            assert(worker_step(WorkerState::Waiting, head[0]) is Serving);
            assert(worker_run(WorkerState::Waiting, head) == WorkerState::Waiting);
            assert(taken_up(WorkerState::Waiting, head) == seq![messages[0]]);
            lemma_served_in_submission_order(rest, delivered.drop_first());
            if exists|i: int| 0 <= i < rest.len() && rest[i] is Kill {
                let i = choose|i: int| 0 <= i < rest.len() && rest[i] is Kill;
                assert(messages[i + 1] is Kill);
            }
            if exists|i: int| 0 <= i < messages.len() && messages[i] is Kill {
                let i = choose|i: int| 0 <= i < messages.len() && messages[i] is Kill;
                assert(rest[i - 1] is Kill);
            }
        }
    }
}

/// A worker never starts running again: once it shuts down it takes up no
/// request, and all that can still happen to it is the join.
pub proof fn lemma_shutdown_is_final(s: WorkerState, event: WorkerEvent)
    requires
        !running(s),
    ensures
        !running(worker_step(s, event)),
        worker_step(s, event) != s ==> s is ShuttingDown && event is Joined && worker_step(
            s,
            event,
        ) is Terminated,
{
}

/// What is served is what was sent: a waiting worker that receives a
/// request is told to run the request with that very ticket, and it takes
/// up no other request until the reply to this one is sent.
pub proof fn lemma_served_under_its_ticket(ticket: u64, event: WorkerEvent)
    ensures
        worker_action(
            worker_step(WorkerState::Waiting, WorkerEvent::Received(Message::With(ticket))),
        ) == WorkerAction::Run(ticket),
        worker_action(
            worker_step(WorkerState::Waiting, WorkerEvent::Received(Message::WithAsync(ticket))),
        ) == WorkerAction::RunAsync(ticket),
        forall|deferred: bool|
            !(event is Replied) ==> #[trigger] worker_step(
                WorkerState::Serving { ticket, deferred },
                event,
            ) == (WorkerState::Serving { ticket, deferred }),
{
}

/// A reply that nobody waits for neither stalls nor stops the worker: it
/// waits for the next message as after any other reply.
pub proof fn lemma_lost_reply_is_tolerated(ticket: u64, deferred: bool, delivered: bool)
    ensures
        worker_step(WorkerState::Serving { ticket, deferred }, WorkerEvent::Replied { delivered })
            == WorkerState::Waiting,
{
}

/// Stopping a worker that has no request at hand takes two steps: `Kill`
/// ends its loop, and the join terminates it.
pub proof fn lemma_kill_then_join_terminates()
    ensures
        worker_run(
            WorkerState::Waiting,
            seq![WorkerEvent::Received(Message::Kill), WorkerEvent::Joined],
        ) == WorkerState::Terminated,
        worker_action(worker_step(WorkerState::Waiting, WorkerEvent::Received(Message::Kill)))
            == WorkerAction::Exit,
{
    reveal_with_fuel(worker_run, 3);
    let events = seq![WorkerEvent::Received(Message::Kill), WorkerEvent::Joined];
    assert(events.drop_first() == seq![WorkerEvent::Joined]);
    assert(events.drop_first().drop_first() == Seq::<WorkerEvent>::empty());
}

} // verus!
