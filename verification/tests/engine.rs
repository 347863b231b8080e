use scriptor::error::EngineError;
use scriptor::esm::loader::LoaderKind;
use scriptor::esm::module::{Bundle, ModuleSource};
use scriptor::esm::modules::Resolution;
use scriptor::scriptor::{create, Features, ScriptorBuilder};
use scriptor::vm::{Access, AccessError, Deferred, Drain, DrainAction, DrainEvent, Vm};
use scriptor::wasm::plugin::{WasmLoaderPlugin, WasmPluginLoader};
use scriptor::vm_worker::{Message, QuickResult, Worker, WorkerAction, WorkerEvent, WorkerState};

fn observed(deferred: Deferred<i32>, job_pending: bool) -> DrainEvent<i32> {
    DrainEvent::Observed { deferred, job_pending }
}

fn script(message: &str) -> Result<i32, EngineError> {
    Err(EngineError::Script { message: message.to_string() })
}

#[test]
fn entry_point_with_one_async_operation_completes_drained_with_its_value() {
    let mut d = Drain::new();
    assert_eq!(d.action(), DrainAction::Evaluate);
    assert_eq!(d.step(DrainEvent::Evaluated), DrainAction::Observe);
    assert_eq!(d.step(observed(Deferred::Pending, false)), DrainAction::Yield);
    assert_eq!(d.step(DrainEvent::Yielded), DrainAction::Observe);
    assert_eq!(d.step(observed(Deferred::Pending, true)), DrainAction::RunJob);
    assert_eq!(d.step(DrainEvent::JobRan), DrainAction::Yield);
    assert_eq!(d.step(DrainEvent::Yielded), DrainAction::Observe);
    assert_eq!(d.step(observed(Deferred::Fulfilled(42), true)), DrainAction::RunJob);
    assert_eq!(d.step(DrainEvent::JobRan), DrainAction::Yield);
    assert_eq!(d.step(DrainEvent::Yielded), DrainAction::Observe);
    assert_eq!(d.step(observed(Deferred::Pending, false)), DrainAction::AwaitIdle);
    assert!(!d.finished());
    assert_eq!(d.step(DrainEvent::Idle), DrainAction::Finish);
    assert!(d.finished());
    assert_eq!(d.finish().ok(), Some(Ok(42)));
}

#[test]
fn value_of_the_entry_point_is_the_first_that_was_reported() {
    let mut d = Drain::new();
    d.step(DrainEvent::Evaluated);
    d.step(observed(Deferred::Fulfilled(7), true));
    d.step(DrainEvent::JobRan);
    d.step(DrainEvent::Yielded);
    assert_eq!(d.step(observed(Deferred::Fulfilled(8), false)), DrainAction::AwaitIdle);
    d.step(DrainEvent::Idle);
    assert_eq!(d.finish().ok(), Some(Ok(7)));
    let mut d: Drain<String> = Drain::new();
    d.step(DrainEvent::Evaluated);
    d.step(DrainEvent::Observed { deferred: Deferred::Fulfilled("V".to_string()), job_pending: false });
    d.step(DrainEvent::Idle);
    assert_eq!(d.finish().ok(), Some(Ok("V".to_string())));
}

#[test]
fn run_that_has_not_ended_has_no_result() {
    let mut d: Drain<i32> = Drain::new();
    d.step(DrainEvent::Evaluated);
    let mut d = match d.finish() {
        Ok(result) => panic!("ended with {:?}", result),
        Err(run) => run,
    };
    assert_eq!(d.action(), DrainAction::Observe);
    assert_eq!(d.step(observed(Deferred::Fulfilled(1), false)), DrainAction::AwaitIdle);
    assert!(d.finish().is_err());
}

#[test]
fn jobs_are_pumped_one_at_a_time_with_a_yield_between() {
    let mut d = Drain::new();
    d.step(DrainEvent::Evaluated);
    assert_eq!(d.step(observed(Deferred::Pending, true)), DrainAction::RunJob);
    assert_eq!(d.step(DrainEvent::JobRan), DrainAction::Yield);
    assert_eq!(d.step(DrainEvent::JobRan), DrainAction::Yield);
    assert_eq!(d.step(DrainEvent::Yielded), DrainAction::Observe);
    assert_eq!(d.step(observed(Deferred::Pending, true)), DrainAction::RunJob);
}

#[test]
fn fulfilled_result_is_remembered_while_draining() {
    let mut d = Drain::new();
    d.step(DrainEvent::Evaluated);
    d.step(observed(Deferred::Fulfilled(3), true));
    d.step(DrainEvent::JobRan);
    d.step(DrainEvent::Yielded);
    assert_eq!(d.step(observed(Deferred::Pending, false)), DrainAction::AwaitIdle);
    d.step(DrainEvent::Idle);
    assert_eq!(d.finish().ok(), Some(Ok(3)));
}

#[test]
fn rejection_after_fulfilment_is_not_looked_at() {
    let mut d = Drain::new();
    d.step(DrainEvent::Evaluated);
    d.step(observed(Deferred::Fulfilled(3), true));
    d.step(DrainEvent::JobRan);
    d.step(DrainEvent::Yielded);
    assert_eq!(d.step(observed(Deferred::Rejected("late".to_string()), false)), DrainAction::AwaitIdle);
}

#[test]
fn rejection_is_propagated_verbatim() {
    let mut d = Drain::new();
    d.step(DrainEvent::Evaluated);
    assert_eq!(
        d.step(observed(Deferred::Rejected("TypeError: x is not a function".to_string()), true)),
        DrainAction::Finish
    );
    assert_eq!(d.step(DrainEvent::Idle), DrainAction::Finish);
    assert_eq!(d.finish().ok(), Some(script("TypeError: x is not a function")));
}

#[test]
fn evaluation_failure_ends_the_run() {
    let mut d: Drain<i32> = Drain::new();
    assert_eq!(d.step(DrainEvent::EvaluationFailed("SyntaxError".to_string())), DrainAction::Finish);
    assert!(d.finished());
    assert_eq!(d.finish().ok(), Some(script("SyntaxError")));
}

#[test]
fn job_failure_is_an_execution_failure() {
    let mut d = Drain::new();
    d.step(DrainEvent::Evaluated);
    d.step(observed(Deferred::Fulfilled(5), true));
    assert_eq!(d.step(DrainEvent::JobFailed("boom".to_string())), DrainAction::Finish);
    assert_eq!(
        d.finish().ok(),
        Some(Err(EngineError::ExecutionFailure { message: "boom".to_string() }))
    );
}

#[test]
fn reports_out_of_turn_change_nothing() {
    let mut d = Drain::new();
    assert_eq!(d.step(DrainEvent::Idle), DrainAction::Evaluate);
    assert_eq!(d.step(observed(Deferred::Fulfilled(1), false)), DrainAction::Evaluate);
    d.step(DrainEvent::Evaluated);
    assert_eq!(d.step(DrainEvent::Idle), DrainAction::Observe);
    assert_eq!(d.step(DrainEvent::Evaluated), DrainAction::Observe);
}

#[test]
fn requests_are_served_in_submission_order() {
    let mut w = Worker::new();
    let queue = [Message::With(10), Message::WithAsync(11), Message::With(12)];
    let mut served = Vec::new();
    let mut states = Vec::new();
    for m in queue {
        assert_eq!(w.action(), WorkerAction::Receive);
        let a = w.step(WorkerEvent::Received(m));
        served.push(a);
        states.push(w.state());
        assert_eq!(w.step(WorkerEvent::Replied { delivered: true }), WorkerAction::Receive);
    }
    assert_eq!(
        states,
        vec![
            WorkerState::Serving { ticket: 10, deferred: false },
            WorkerState::Serving { ticket: 11, deferred: true },
            WorkerState::Serving { ticket: 12, deferred: false },
        ]
    );
    assert_eq!(
        served,
        vec![WorkerAction::Run(10), WorkerAction::RunAsync(11), WorkerAction::Run(12)]
    );
    assert_eq!(w.state(), WorkerState::Waiting);
}

#[test]
fn request_at_hand_is_served_before_the_next_is_taken_up() {
    let mut w = Worker::new();
    assert_eq!(w.step(WorkerEvent::Received(Message::With(1))), WorkerAction::Run(1));
    assert_eq!(w.step(WorkerEvent::Received(Message::With(2))), WorkerAction::Run(1));
    assert_eq!(w.step(WorkerEvent::Received(Message::Kill)), WorkerAction::Run(1));
    assert_eq!(w.step(WorkerEvent::Replied { delivered: true }), WorkerAction::Receive);
    assert_eq!(w.step(WorkerEvent::Received(Message::With(2))), WorkerAction::Run(2));
}

#[test]
fn lost_reply_does_not_stop_the_worker() {
    let mut w = Worker::new();
    w.step(WorkerEvent::Received(Message::With(1)));
    assert_eq!(w.step(WorkerEvent::Replied { delivered: false }), WorkerAction::Receive);
    assert_eq!(w.step(WorkerEvent::Received(Message::With(2))), WorkerAction::Run(2));
}

#[test]
fn kill_stops_an_idle_worker_and_join_terminates_it() {
    let mut w = Worker::new();
    assert!(w.is_running());
    assert_eq!(w.step(WorkerEvent::Received(Message::Kill)), WorkerAction::Exit);
    assert_eq!(w.state(), WorkerState::ShuttingDown);
    assert!(!w.is_running());
    assert_eq!(w.step(WorkerEvent::Received(Message::With(1))), WorkerAction::Exit);
    assert_eq!(w.step(WorkerEvent::Joined), WorkerAction::Rest);
    assert_eq!(w.state(), WorkerState::Terminated);
    assert_eq!(w.step(WorkerEvent::Received(Message::With(1))), WorkerAction::Rest);
}

#[test]
fn closed_queue_stops_the_worker() {
    let mut w = Worker::new();
    assert_eq!(w.step(WorkerEvent::Closed), WorkerAction::Exit);
    let mut w = Worker::new();
    w.step(WorkerEvent::Received(Message::WithAsync(4)));
    assert_eq!(w.step(WorkerEvent::Closed), WorkerAction::RunAsync(4));
    assert_eq!(w.step(WorkerEvent::Joined), WorkerAction::RunAsync(4));
}

#[test]
fn quick_result_gives_its_key() {
    let r: QuickResult<String, u32> = QuickResult::RegistryKey(7);
    assert_eq!(r.clone().key(), Some(7));
    assert_eq!(r.into_key(), 7);
    let v: QuickResult<String, u32> = QuickResult::Value("x".to_string());
    assert_eq!(v.key(), None);
}

fn bundled(name: &str) -> ModuleSource {
    ModuleSource::Bundled(vec![name.to_string()])
}

fn native(name: &str) -> ModuleSource {
    ModuleSource::Native(name.to_string())
}

#[test]
fn context_is_entered_by_its_owner_one_access_at_a_time() {
    let mut vm = Vm::new().build("/work");
    assert_eq!(vm.access.enter(false), Err(AccessError::WrongThread));
    assert_eq!(vm.access.enter(true), Ok(()));
    assert_eq!(vm.access.enter(true), Err(AccessError::Reentered));
    assert_eq!(vm.access.enter(false), Err(AccessError::WrongThread));
    vm.access.leave();
    assert_eq!(vm.access.enter(true), Ok(()));
    vm.access.leave();
    let mut other = Access::new();
    assert_eq!(other.enter(true), Ok(()));
    assert_eq!(vm.run_main::<i32>().action(), DrainAction::Evaluate);
    assert_eq!(vm.modules.working_dir(), "/work");
}

#[test]
fn engine_is_built_from_what_was_registered() {
    let mut b = Vm::new();
    b.modules.add_module(Bundle(vec!["mine".to_string()]));
    b.modules.set_cwd("/proj");
    let vm = b.build("/elsewhere");
    assert_eq!(vm.modules.working_dir(), "/proj");
    assert_eq!(vm.modules.resolve("/x.js", "mine"), Resolution::Resolved("mine".to_string()));
}

#[test]
fn host_starts_with_its_own_modules_then_the_enabled_ones() {
    let all = ScriptorBuilder::new("/w", Features { fs: true, http: true, os: true }, None);
    assert_eq!(
        all.modules.modules.modules,
        vec![bundled("util"), bundled("tasks"), bundled("pipe"), native("fs"), native("http"), native("os")]
    );
    assert_eq!(all.modules.modules.cwd, Some("/w".to_string()));
    assert_eq!(all.modules.modules.loaders.len(), 1);
    assert_eq!(all.modules.modules.loaders[0].kind, LoaderKind::PassThrough);
    let some = ScriptorBuilder::new("/w", Features { fs: false, http: true, os: false }, None);
    assert_eq!(
        some.modules.modules.modules,
        vec![bundled("util"), bundled("tasks"), bundled("pipe"), native("http")]
    );
}

#[test]
fn plugins_rank_after_the_script_loader() {
    let plugins = WasmPluginLoader::new(vec![Ok(WasmLoaderPlugin {
        path: "/p/ts.wasm".to_string(),
        exts: vec!["ts".to_string(), "js".to_string()],
    })])
    .unwrap();
    let b = ScriptorBuilder::new("/w", Features { fs: false, http: false, os: false }, Some(&plugins));
    let loaders = &b.modules.modules.loaders;
    assert_eq!(loaders.len(), 2);
    assert_eq!(loaders[0].extensions, vec!["js".to_string()]);
    assert_eq!(loaders[1].extensions, vec!["ts".to_string(), "js".to_string()]);
    assert_eq!(loaders[1].kind, LoaderKind::Transform);
}

#[test]
fn engine_resolver_starts_with_enabled_modules_then_the_hosts_own() {
    assert_eq!(
        create(Features { fs: true, http: true, os: true }),
        vec![native("http"), native("fs"), native("os"), bundled("pipe"), bundled("util"), bundled("tasks")]
    );
    assert_eq!(
        create(Features { fs: false, http: false, os: false }),
        vec![bundled("pipe"), bundled("util"), bundled("tasks")]
    );
    assert_eq!(
        create(Features { fs: true, http: false, os: true }),
        vec![native("fs"), native("os"), bundled("pipe"), bundled("util"), bundled("tasks")]
    );
}

#[test]
fn engine_error_gives_its_text() {
    assert_eq!(EngineError::Script { message: "a".to_string() }.message(), "a");
    assert_eq!(EngineError::ExecutionFailure { message: "b".to_string() }.message(), "b");
}
