use soroban_debug::engine::{
    Completion, DebuggerEngine, ExecError, HostReply, HostRequest, Step,
};
use soroban_debug::storage::{StorageChange, StorageSnapshot};
use soroban_debug::trace::{BudgetInfo, HostEvent};

fn snapshot(pairs: &[(&str, &str)]) -> StorageSnapshot {
    let mut s = StorageSnapshot::new();
    for (k, v) in pairs {
        s.insert(k.to_string(), v.to_string());
    }
    s
}

fn budget() -> BudgetInfo {
    BudgetInfo { cpu_instructions: 1200, memory_bytes: 64, cpu_limit: 100000, memory_limit: 4096 }
}

fn event(topic: &str) -> HostEvent {
    HostEvent { contract_id: "C1".to_string(), topics: vec![topic.to_string()], data: "d".to_string() }
}

fn expect_request(step: Step) -> HostRequest {
    match step {
        Step::Request(r) => r,
        Step::Done(_) => panic!("the run ended early"),
    }
}

fn expect_done(step: Step) -> Result<Completion, ExecError> {
    match step {
        Step::Done(r) => r,
        Step::Request(_) => panic!("the run is not over"),
    }
}

/// Runs one execution to its end, answering each request with the given values.
fn run(
    e: &mut DebuggerEngine<()>,
    function: &str,
    args: Option<&str>,
    before: StorageSnapshot,
    output: &str,
    after: StorageSnapshot,
    events: Vec<HostEvent>,
) -> Result<Completion, ExecError> {
    let r = e.begin_execute(function, args, "CADDR");
    assert!(matches!(r, HostRequest::SnapshotStorage));
    let r = expect_request(e.advance(HostReply::Snapshot(before)));
    assert!(matches!(r, HostRequest::Run { .. }));
    let r = expect_request(e.advance(HostReply::Output(output.to_string())));
    assert!(matches!(r, HostRequest::SnapshotStorage));
    let r = expect_request(e.advance(HostReply::Snapshot(after)));
    assert!(matches!(r, HostRequest::ReadBudget));
    let r = expect_request(e.advance(HostReply::Budget(budget())));
    assert!(matches!(r, HostRequest::ReadEvents));
    expect_done(e.advance(HostReply::Events(events)))
}

#[test]
fn new_engine_has_no_trace_and_is_not_paused() {
    let mut e = DebuggerEngine::new((), vec!["a".to_string(), "b".to_string()]);
    assert!(e.last_trace().is_none());
    assert!(!e.is_paused());
    assert_eq!(e.state().current_function(), None);
    assert!(e.breakpoints_mut().should_break("a"));
    assert!(e.breakpoints_mut().should_break("b"));
    assert!(!e.breakpoints_mut().should_break("c"));
    assert_eq!(*e.executor(), ());
}

#[test]
fn successful_execute_records_the_trace() {
    let mut e = DebuggerEngine::new((), vec![]);
    let before = snapshot(&[("k", "1")]);
    let after = snapshot(&[("k", "2")]);
    let done = run(&mut e, "foo", None, before, "42", after, vec![event("t1"), event("t2")]).unwrap();
    assert_eq!(done.output, "42");
    let t = e.last_trace().unwrap();
    assert_eq!(t.version, "1.0");
    assert_eq!(t.label, Some("Execution of foo".to_string()));
    assert_eq!(t.contract, Some("CADDR".to_string()));
    assert_eq!(t.function, Some("foo".to_string()));
    assert_eq!(t.args, None);
    assert_eq!(t.storage_before.get(&"k".to_string()), Some(&"1".to_string()));
    assert_eq!(t.storage.get(&"k".to_string()), Some(&"2".to_string()));
    assert_eq!(t.return_value, Some("42".to_string()));
    let b = t.budget.unwrap();
    assert_eq!(b.cpu_instructions, 1200);
    assert_eq!(b.memory_bytes, 64);
    assert_eq!(b.cpu_limit, Some(100000));
    assert_eq!(b.memory_limit, Some(4096));
    assert_eq!(t.call_sequence.len(), 1);
    assert_eq!(t.call_sequence[0].function, "foo");
    assert_eq!(t.call_sequence[0].args, None);
    assert_eq!(t.call_sequence[0].depth, 0);
    assert_eq!(t.call_sequence[0].budget, Some(b));
    assert_eq!(t.events.len(), 2);
    assert_eq!(t.events[0].topics, vec!["t1".to_string()]);
    assert_eq!(t.events[1].topics, vec!["t2".to_string()]);
    assert_eq!(t.events[0].contract_id, "C1");
    assert_eq!(t.events[0].data, Some("d".to_string()));
}

#[test]
fn failed_run_keeps_the_previous_trace() {
    let mut e = DebuggerEngine::new((), vec![]);
    run(&mut e, "first", None, snapshot(&[]), "one", snapshot(&[]), vec![]).unwrap();
    e.begin_execute("second", None, "CADDR");
    expect_request(e.advance(HostReply::Snapshot(snapshot(&[]))));
    let r = expect_done(e.advance(HostReply::Failed("trap".to_string())));
    assert_eq!(r.err(), Some(ExecError::Host("trap".to_string())));
    let t = e.last_trace().unwrap();
    assert_eq!(t.function, Some("first".to_string()));
    assert_eq!(t.return_value, Some("one".to_string()));
}

#[test]
fn failure_before_any_trace_leaves_none() {
    let mut e = DebuggerEngine::new((), vec!["f".to_string()]);
    e.begin_execute("f", None, "CADDR");
    let r = expect_done(e.advance(HostReply::Failed("no storage".to_string())));
    assert_eq!(r.err(), Some(ExecError::Host("no storage".to_string())));
    assert!(e.last_trace().is_none());
    assert!(!e.is_paused());
}

#[test]
fn unexpected_reply_ends_the_run() {
    let mut e = DebuggerEngine::new((), vec![]);
    e.begin_execute("f", None, "CADDR");
    let r = expect_done(e.advance(HostReply::Output("x".to_string())));
    assert_eq!(r.err(), Some(ExecError::UnexpectedReply));
    assert!(e.last_trace().is_none());
    let r = expect_done(e.advance(HostReply::Snapshot(snapshot(&[]))));
    assert_eq!(r.err(), Some(ExecError::NotRunning));
}

#[test]
fn advance_without_a_run_is_refused() {
    let mut e = DebuggerEngine::new((), vec![]);
    let r = expect_done(e.advance(HostReply::Output("x".to_string())));
    assert_eq!(r.err(), Some(ExecError::NotRunning));
}

#[test]
fn breakpoint_pauses_before_the_run_and_step_continue_resume() {
    let mut e = DebuggerEngine::new((), vec!["foo".to_string()]);
    e.begin_execute("foo", None, "CADDR");
    assert!(!e.is_paused());
    let r = expect_request(e.advance(HostReply::Snapshot(snapshot(&[]))));
    assert!(matches!(r, HostRequest::Run { ref function, ref args, paused_here }
        if function == "foo" && args.is_none() && paused_here));
    assert!(e.is_paused());
    assert_eq!(e.state().current_function(), Some(&"foo".to_string()));
    assert!(e.step().is_ok());
    assert!(!e.is_paused());
    run(&mut e, "foo", None, snapshot(&[]), "ok", snapshot(&[]), vec![]).unwrap();
    assert!(e.is_paused());
    assert!(e.continue_execution().is_ok());
    assert!(!e.is_paused());
}

#[test]
fn function_without_breakpoint_does_not_pause() {
    let mut e = DebuggerEngine::new((), vec!["other".to_string()]);
    run(&mut e, "foo", None, snapshot(&[]), "ok", snapshot(&[]), vec![]).unwrap();
    assert!(!e.is_paused());
    assert_eq!(e.state().current_function(), None);
}

#[test]
fn breakpoints_added_and_removed_through_the_engine() {
    let mut e = DebuggerEngine::new((), vec![]);
    e.breakpoints_mut().add("foo");
    run(&mut e, "foo", None, snapshot(&[]), "ok", snapshot(&[]), vec![]).unwrap();
    assert!(e.is_paused());
    e.step().unwrap();
    e.breakpoints_mut().remove("foo");
    run(&mut e, "foo", None, snapshot(&[]), "ok", snapshot(&[]), vec![]).unwrap();
    assert!(!e.is_paused());
}

#[test]
fn transfer_scenario() {
    let mut e = DebuggerEngine::new((), vec!["transfer".to_string()]);
    let before = snapshot(&[("balance", "50")]);
    let after = snapshot(&[("balance", "-50"), ("sent", "100")]);
    let done = run(&mut e, "transfer", Some("100"), before, "ok", after, vec![]).unwrap();
    assert!(e.is_paused());
    assert_eq!(done.output, "ok");
    assert_eq!(done.diff.len(), 2);
    assert!(matches!(&done.diff[0], StorageChange::Modified { key, old_value, new_value }
        if key == "balance" && old_value == "50" && new_value == "-50"));
    assert!(matches!(&done.diff[1], StorageChange::Added { key, new_value }
        if key == "sent" && new_value == "100"));
    let t = e.last_trace().unwrap();
    assert_eq!(t.return_value, Some("ok".to_string()));
    assert_eq!(t.args, Some("100".to_string()));
    assert_eq!(t.call_sequence[0].args, Some("100".to_string()));
    e.step().unwrap();
    assert!(!e.is_paused());
}

#[test]
fn run_request_flags_a_pause_only_where_it_happens() {
    let mut e = DebuggerEngine::new((), vec!["bp".to_string()]);
    run(&mut e, "bp", None, snapshot(&[]), "ok", snapshot(&[]), vec![]).unwrap();
    assert!(e.is_paused());
    e.begin_execute("plain", None, "CADDR");
    let r = expect_request(e.advance(HostReply::Snapshot(snapshot(&[]))));
    assert!(matches!(r, HostRequest::Run { paused_here: false, .. }));
    assert!(e.is_paused());
    assert_eq!(e.state().current_function(), Some(&"bp".to_string()));
}

#[test]
fn step_keeps_trace_state_and_breakpoints() {
    let mut e = DebuggerEngine::new(7u8, vec!["f".to_string()]);
    run_on(&mut e, "f");
    e.step().unwrap();
    assert_eq!(*e.executor(), 7);
    assert_eq!(e.last_trace().unwrap().function, Some("f".to_string()));
    assert_eq!(e.state().current_function(), Some(&"f".to_string()));
    assert!(e.breakpoints_mut().should_break("f"));
    *e.executor_mut() = 9;
    assert_eq!(*e.executor(), 9);
    assert_eq!(e.last_trace().unwrap().function, Some("f".to_string()));
}

fn run_on(e: &mut DebuggerEngine<u8>, function: &str) {
    e.begin_execute(function, None, "CADDR");
    expect_request(e.advance(HostReply::Snapshot(snapshot(&[]))));
    expect_request(e.advance(HostReply::Output("ok".to_string())));
    expect_request(e.advance(HostReply::Snapshot(snapshot(&[]))));
    expect_request(e.advance(HostReply::Budget(budget())));
    expect_done(e.advance(HostReply::Events(vec![]))).unwrap();
}
