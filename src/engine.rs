//! The debugger engine: breakpoint check at function entry, pause tracking,
//! and assembly of the trace of each completed execution.
//!
//! An execution is a short exchange with the host that runs the contract:
//! `begin_execute` asks for the first storage snapshot, and each reply handed
//! to `advance` yields the next request, until the execution is done. The
//! host work itself (running the contract, reading storage, budget and events)
//! is the caller's.

use crate::breakpoint::BreakpointManager;
use crate::state::DebugState;
use crate::storage::{compute_diff, is_diff_of, StorageChange, StorageSnapshot};
use crate::trace::{
    entry_of, event_entries, BudgetInfo, BudgetTrace, CallEntry, ExecutionTrace, HostEvent,
    TRACE_VERSION,
};
use vstd::prelude::*;
use vstd::string::StringExecFns;

verus! {

/// The text that a trace's label starts with, before the function name.
pub const LABEL_PREFIX: &'static str = "Execution of ";

/// What the engine asks of the host next.
pub enum HostRequest {
    /// Take a full snapshot of contract storage.
    SnapshotStorage,
    /// Run the contract function; `paused_here` tells whether the engine
    /// has just paused at it on a breakpoint.
    Run { function: String, args: Option<String>, paused_here: bool },
    /// Read the resource counters and limits.
    ReadBudget,
    /// Read the events emitted by the run, in emission order.
    ReadEvents,
}

/// What the host answered to a request.
pub enum HostReply {
    Snapshot(StorageSnapshot),
    Output(String),
    Budget(BudgetInfo),
    Events(Vec<HostEvent>),
    Failed(String),
}

/// Why an execution ended without a result.
#[derive(Clone, Debug, PartialEq, Eq)]
pub enum ExecError {
    /// The host failed; its message is passed on unchanged.
    Host(String),
    /// The reply does not answer the pending request.
    UnexpectedReply,
    /// No execution is in progress.
    NotRunning,
}

/// The result of a completed execution and the storage diff it caused.
pub struct Completion {
    pub output: String,
    pub diff: Vec<StorageChange>,
}

/// The next thing to do: a request to the host, or the end of the execution.
pub enum Step {
    Request(HostRequest),
    Done(Result<Completion, ExecError>),
}

/// Where an execution stands, with what it has gathered so far.
pub enum Phase {
    Idle,
    AwaitBefore,
    AwaitOutput { before: StorageSnapshot },
    AwaitAfter { before: StorageSnapshot, output: String },
    AwaitBudget { before: StorageSnapshot, output: String, after: StorageSnapshot },
    AwaitEvents {
        before: StorageSnapshot,
        output: String,
        after: StorageSnapshot,
        budget: BudgetTrace,
    },
}

pub open spec fn opt_view(s: Option<String>) -> Option<Seq<char>> {
    match s {
        Some(v) => Some(v@),
        None => None,
    }
}

pub open spec fn opt_str_view(s: Option<&str>) -> Option<Seq<char>> {
    match s {
        Some(v) => Some(v@),
        None => None,
    }
}

/// `t` records the execution of `function` with `args` on `contract`, from the
/// given snapshots, output, budget and host events.
pub open spec fn records(
    t: ExecutionTrace,
    function: Seq<char>,
    args: Option<Seq<char>>,
    contract: Seq<char>,
    before: StorageSnapshot,
    output: Seq<char>,
    after: StorageSnapshot,
    budget: BudgetTrace,
    events: Seq<HostEvent>,
) -> bool {
    &&& t.version@ == TRACE_VERSION@
    &&& opt_view(t.label) == Some(LABEL_PREFIX@ + function)
    &&& opt_view(t.contract) == Some(contract)
    &&& opt_view(t.function) == Some(function)
    &&& opt_view(t.args) == args
    &&& t.storage_before == before
    &&& t.storage == after
    &&& t.budget == Some(budget)
    &&& opt_view(t.return_value) == Some(output)
    &&& t.call_sequence@.len() == 1
    &&& t.call_sequence@[0].function@ == function
    &&& opt_view(t.call_sequence@[0].args) == args
    &&& t.call_sequence@[0].depth == 0
    &&& t.call_sequence@[0].budget == Some(budget)
    &&& t.events@ == events.map_values(|e: HostEvent| entry_of(e))
}

/// Orchestrates executions under observation.
pub struct DebuggerEngine<E> {
    executor: E,
    breakpoints: BreakpointManager,
    state: DebugState,
    paused: bool,
    last_trace: Option<ExecutionTrace>,
    function: String,
    args: Option<String>,
    contract: String,
    phase: Phase,
}

/// `e1` is `e0` after an execution was abandoned: nothing recorded, pause
/// state as it was.
pub open spec fn aborted<E>(e0: DebuggerEngine<E>, e1: DebuggerEngine<E>) -> bool {
    &&& e1.phase() is Idle
    &&& e1.trace() == e0.trace()
    &&& e1.paused() == e0.paused()
    &&& e1.current_function() == e0.current_function()
}

/// `e1` and `r` are what `advance` makes of `e0` and `reply`.
pub open spec fn advances<E>(
    e0: DebuggerEngine<E>,
    reply: HostReply,
    e1: DebuggerEngine<E>,
    r: Step,
) -> bool {
    &&& e1.executor_value() == e0.executor_value()
    &&& e1.breakpoint_names() == e0.breakpoint_names()
    &&& e1.pending_function() == e0.pending_function()
    &&& e1.pending_args() == e0.pending_args()
    &&& e1.pending_contract() == e0.pending_contract()
    &&& if e0.phase() is Idle {
        e1 == e0 && r == Step::Done(Err(ExecError::NotRunning))
    } else if reply is Failed {
        aborted(e0, e1) && r == Step::Done(Err(ExecError::Host(reply->Failed_0)))
    } else {
        match e0.phase() {
            Phase::AwaitBefore => if reply is Snapshot {
                &&& e1.phase() == Phase::AwaitOutput { before: reply->Snapshot_0 }
                &&& e1.trace() == e0.trace()
                &&& if e0.breakpoint_names().contains(e0.pending_function()@) {
                    e1.paused() && e1.current_function() == Some(e0.pending_function()@)
                } else {
                    e1.paused() == e0.paused() && e1.current_function() == e0.current_function()
                }
                &&& r == Step::Request(
                    HostRequest::Run {
                        function: e0.pending_function(),
                        args: e0.pending_args(),
                        paused_here: e0.breakpoint_names().contains(e0.pending_function()@),
                    },
                )
            } else {
                aborted(e0, e1) && r == Step::Done(Err(ExecError::UnexpectedReply))
            },
            Phase::AwaitOutput { before } => if reply is Output {
                &&& e1.phase() == Phase::AwaitAfter { before, output: reply->Output_0 }
                &&& e1.trace() == e0.trace()
                &&& e1.paused() == e0.paused()
                &&& e1.current_function() == e0.current_function()
                &&& r == Step::Request(HostRequest::SnapshotStorage)
            } else {
                aborted(e0, e1) && r == Step::Done(Err(ExecError::UnexpectedReply))
            },
            Phase::AwaitAfter { before, output } => if reply is Snapshot {
                &&& e1.phase() == Phase::AwaitBudget { before, output, after: reply->Snapshot_0 }
                &&& e1.trace() == e0.trace()
                &&& e1.paused() == e0.paused()
                &&& e1.current_function() == e0.current_function()
                &&& r == Step::Request(HostRequest::ReadBudget)
            } else {
                aborted(e0, e1) && r == Step::Done(Err(ExecError::UnexpectedReply))
            },
            Phase::AwaitBudget { before, output, after } => if reply is Budget {
                &&& e1.phase() == Phase::AwaitEvents {
                    before,
                    output,
                    after,
                    budget: BudgetTrace::of_info(reply->Budget_0),
                }
                &&& e1.trace() == e0.trace()
                &&& e1.paused() == e0.paused()
                &&& e1.current_function() == e0.current_function()
                &&& r == Step::Request(HostRequest::ReadEvents)
            } else {
                aborted(e0, e1) && r == Step::Done(Err(ExecError::UnexpectedReply))
            },
            Phase::AwaitEvents { before, output, after, budget } => if reply is Events {
                &&& e1.phase() is Idle
                &&& e1.trace() is Some
                &&& records(
                    e1.trace()->Some_0,
                    e0.pending_function()@,
                    opt_view(e0.pending_args()),
                    e0.pending_contract()@,
                    before,
                    output@,
                    after,
                    budget,
                    (reply->Events_0)@,
                )
                &&& e1.paused() == e0.paused()
                &&& e1.current_function() == e0.current_function()
                &&& r is Done
                &&& r->Done_0 is Ok
                &&& (r->Done_0)->Ok_0.output == output
                &&& is_diff_of((r->Done_0)->Ok_0.diff@, before@, after@)
            } else {
                aborted(e0, e1) && r == Step::Done(Err(ExecError::UnexpectedReply))
            },
            Phase::Idle => true,
        }
    }
}

fn clone_opt(s: &Option<String>) -> (r: Option<String>)
    ensures
        r == *s,
{
    match s {
        Some(v) => Some(v.clone()),
        None => None,
    }
}

fn owned_opt(s: Option<&str>) -> (r: Option<String>)
    ensures
        opt_view(r) == opt_str_view(s),
{
    match s {
        Some(v) => Some(v.to_owned()),
        None => None,
    }
}

impl<E> DebuggerEngine<E> {
    pub closed spec fn executor_value(&self) -> E {
        self.executor
    }

    pub closed spec fn breakpoint_names(&self) -> Set<Seq<char>> {
        self.breakpoints@
    }

    pub closed spec fn paused(&self) -> bool {
        self.paused
    }

    pub closed spec fn current_function(&self) -> Option<Seq<char>> {
        self.state.current()
    }

    pub closed spec fn trace(&self) -> Option<ExecutionTrace> {
        self.last_trace
    }

    pub closed spec fn phase(&self) -> Phase {
        self.phase
    }

    pub closed spec fn pending_function(&self) -> String {
        self.function
    }

    pub closed spec fn pending_args(&self) -> Option<String> {
        self.args
    }

    pub closed spec fn pending_contract(&self) -> String {
        self.contract
    }

    /// An engine over `executor`, with a breakpoint at each of
    /// `initial_breakpoints`, not paused, and with no trace yet.
    pub fn new(executor: E, initial_breakpoints: Vec<String>) -> (r: DebuggerEngine<E>)
        ensures
            r.executor_value() == executor,
            r.breakpoint_names() == initial_breakpoints@.map_values(|s: String| s@).to_set(),
            !r.paused(),
            r.current_function() is None,
            r.trace() is None,
            r.phase() is Idle,
    {
        let mut breakpoints = BreakpointManager::new();
        let ghost names = initial_breakpoints@.map_values(|s: String| s@);
        let mut i: usize = 0;
        while i < initial_breakpoints.len()
            invariant
                i <= initial_breakpoints@.len(),
                names == initial_breakpoints@.map_values(|s: String| s@),
                breakpoints@ == names.take(i as int).to_set(),
            decreases initial_breakpoints.len() - i,
        {
            breakpoints.add(initial_breakpoints[i].as_str());
            proof {
                assert(names.take(i + 1) =~= names.take(i as int).push(names[i as int]));
                names.take(i as int).lemma_push_to_set_commute(names[i as int]);
            }
            i = i + 1;
        }
        proof {
            assert(names.take(i as int) =~= names);
        }
        DebuggerEngine {
            executor,
            breakpoints,
            state: DebugState::new(),
            paused: false,
            last_trace: None,
            function: String::new(),
            args: None,
            contract: String::new(),
            phase: Phase::Idle,
        }
    }

    /// The trace of the most recent completed execution.
    pub fn last_trace(&self) -> (r: Option<&ExecutionTrace>)
        ensures
            r is None <==> self.trace() is None,
            r is Some ==> self.trace() == Some(*r->Some_0),
    {
        match &self.last_trace {
            Some(t) => Some(t),
            None => None,
        }
    }

    /// Leaves the paused state; nothing else changes.
    pub fn step(&mut self) -> (r: Result<(), ExecError>)
        ensures
            r is Ok,
            !final(self).paused(),
            final(self).breakpoint_names() == old(self).breakpoint_names(),
            final(self).executor_value() == old(self).executor_value(),
            final(self).current_function() == old(self).current_function(),
            final(self).trace() == old(self).trace(),
            final(self).phase() == old(self).phase(),
            final(self).pending_function() == old(self).pending_function(),
            final(self).pending_args() == old(self).pending_args(),
            final(self).pending_contract() == old(self).pending_contract(),
    {
        self.paused = false;
        Ok(())
    }

    /// Leaves the paused state; nothing else changes.
    pub fn continue_execution(&mut self) -> (r: Result<(), ExecError>)
        ensures
            r is Ok,
            !final(self).paused(),
            final(self).breakpoint_names() == old(self).breakpoint_names(),
            final(self).executor_value() == old(self).executor_value(),
            final(self).current_function() == old(self).current_function(),
            final(self).trace() == old(self).trace(),
            final(self).phase() == old(self).phase(),
            final(self).pending_function() == old(self).pending_function(),
            final(self).pending_args() == old(self).pending_args(),
            final(self).pending_contract() == old(self).pending_contract(),
    {
        self.paused = false;
        Ok(())
    }

    /// Whether execution is paused at a breakpoint.
    pub fn is_paused(&self) -> (r: bool)
        ensures
            r == self.paused(),
    {
        self.paused
    }

    /// The debugging context.
    pub fn state(&self) -> (r: &DebugState)
        ensures
            r.current() == self.current_function(),
    {
        &self.state
    }

    /// The breakpoints, for adding and removing.
    pub fn breakpoints_mut(&mut self) -> (r: &mut BreakpointManager)
        ensures
            r@ == old(self).breakpoint_names(),
            final(self).breakpoint_names() == final(r)@,
            final(self).executor_value() == old(self).executor_value(),
            final(self).paused() == old(self).paused(),
            final(self).current_function() == old(self).current_function(),
            final(self).trace() == old(self).trace(),
            final(self).phase() == old(self).phase(),
            final(self).pending_function() == old(self).pending_function(),
            final(self).pending_args() == old(self).pending_args(),
            final(self).pending_contract() == old(self).pending_contract(),
    {
        &mut self.breakpoints
    }

    /// The executor handle.
    pub fn executor(&self) -> (r: &E)
        ensures
            *r == self.executor_value(),
    {
        &self.executor
    }

    /// The executor handle, for performing host requests.
    pub fn executor_mut(&mut self) -> (r: &mut E)
        ensures
            *r == old(self).executor_value(),
            final(self).executor_value() == *final(r),
            final(self).breakpoint_names() == old(self).breakpoint_names(),
            final(self).paused() == old(self).paused(),
            final(self).current_function() == old(self).current_function(),
            final(self).trace() == old(self).trace(),
            final(self).phase() == old(self).phase(),
            final(self).pending_function() == old(self).pending_function(),
            final(self).pending_args() == old(self).pending_args(),
            final(self).pending_contract() == old(self).pending_contract(),
    {
        &mut self.executor
    }

    /// Starts an execution of `function` with `args` on the contract at
    /// `contract`, abandoning any execution in progress. The first request is
    /// always for the storage snapshot from before the run.
    pub fn begin_execute(
        &mut self,
        function: &str,
        args: Option<&str>,
        contract: &str,
    ) -> (r: HostRequest)
        ensures
            r == HostRequest::SnapshotStorage,
            final(self).phase() is AwaitBefore,
            final(self).pending_function()@ == function@,
            opt_view(final(self).pending_args()) == opt_str_view(args),
            final(self).pending_contract()@ == contract@,
            final(self).executor_value() == old(self).executor_value(),
            final(self).breakpoint_names() == old(self).breakpoint_names(),
            final(self).paused() == old(self).paused(),
            final(self).current_function() == old(self).current_function(),
            final(self).trace() == old(self).trace(),
    {
        self.function = function.to_owned();
        self.args = owned_opt(args);
        self.contract = contract.to_owned();
        self.phase = Phase::AwaitBefore;
        HostRequest::SnapshotStorage
    }

    fn pause_at_function(&mut self)
        ensures
            final(self).paused(),
            final(self).current_function() == Some(old(self).function@),
            final(self).executor == old(self).executor,
            final(self).breakpoints == old(self).breakpoints,
            final(self).last_trace == old(self).last_trace,
            final(self).function == old(self).function,
            final(self).args == old(self).args,
            final(self).contract == old(self).contract,
            final(self).phase == old(self).phase,
    {
        self.paused = true;
        let name = self.function.clone();
        self.state.set_current_function(name);
    }

    fn assemble_trace(
        &self,
        before: StorageSnapshot,
        output: String,
        after: StorageSnapshot,
        budget: BudgetTrace,
        events: Vec<HostEvent>,
    ) -> (t: ExecutionTrace)
        ensures
            records(
                t,
                self.function@,
                opt_view(self.args),
                self.contract@,
                before,
                output@,
                after,
                budget,
                events@,
            ),
    {
        let call = CallEntry {
            function: self.function.clone(),
            args: clone_opt(&self.args),
            depth: 0,
            budget: Some(budget),
        };
        let mut call_sequence: Vec<CallEntry> = Vec::new();
        call_sequence.push(call);
        let label = LABEL_PREFIX.to_owned().concat(self.function.as_str());
        ExecutionTrace {
            version: TRACE_VERSION.to_owned(),
            label: Some(label),
            contract: Some(self.contract.clone()),
            function: Some(self.function.clone()),
            args: clone_opt(&self.args),
            storage_before: before,
            storage: after,
            budget: Some(budget),
            return_value: Some(output),
            call_sequence,
            events: event_entries(events),
        }
    }

    /// Takes the host's reply to the pending request and says what comes next.
    pub fn advance(&mut self, reply: HostReply) -> (r: Step)
        ensures
            advances(*old(self), reply, *final(self), r),
    {
        let mut phase = Phase::Idle;
        std::mem::swap(&mut phase, &mut self.phase);
        match phase {
            Phase::Idle => Step::Done(Err(ExecError::NotRunning)),
            Phase::AwaitBefore => match reply {
                HostReply::Snapshot(before) => {
                    let paused_here = self.breakpoints.should_break(self.function.as_str());
                    if paused_here {
                        self.pause_at_function();
                    }
                    self.phase = Phase::AwaitOutput { before };
                    Step::Request(
                        HostRequest::Run {
                            function: self.function.clone(),
                            args: clone_opt(&self.args),
                            paused_here,
                        },
                    )
                },
                HostReply::Failed(m) => Step::Done(Err(ExecError::Host(m))),
                _ => Step::Done(Err(ExecError::UnexpectedReply)),
            },
            Phase::AwaitOutput { before } => match reply {
                HostReply::Output(output) => {
                    self.phase = Phase::AwaitAfter { before, output };
                    Step::Request(HostRequest::SnapshotStorage)
                },
                HostReply::Failed(m) => Step::Done(Err(ExecError::Host(m))),
                _ => Step::Done(Err(ExecError::UnexpectedReply)),
            },
            Phase::AwaitAfter { before, output } => match reply {
                HostReply::Snapshot(after) => {
                    self.phase = Phase::AwaitBudget { before, output, after };
                    Step::Request(HostRequest::ReadBudget)
                },
                HostReply::Failed(m) => Step::Done(Err(ExecError::Host(m))),
                _ => Step::Done(Err(ExecError::UnexpectedReply)),
            },
            Phase::AwaitBudget { before, output, after } => match reply {
                HostReply::Budget(info) => {
                    let budget = BudgetTrace::from_info(&info);
                    self.phase = Phase::AwaitEvents { before, output, after, budget };
                    Step::Request(HostRequest::ReadEvents)
                },
                HostReply::Failed(m) => Step::Done(Err(ExecError::Host(m))),
                _ => Step::Done(Err(ExecError::UnexpectedReply)),
            },
            Phase::AwaitEvents { before, output, after, budget } => match reply {
                HostReply::Events(events) => {
                    let diff = compute_diff(&before, &after);
                    let returned = output.clone();
                    let trace = self.assemble_trace(before, returned, after, budget, events);
                    self.last_trace = Some(trace);
                    Step::Done(Ok(Completion { output, diff }))
                },
                HostReply::Failed(m) => Step::Done(Err(ExecError::Host(m))),
                _ => Step::Done(Err(ExecError::UnexpectedReply)),
            },
        }
    }
}

/// A run that gets a snapshot, an output, a second snapshot, a budget and the
/// events, in that order, leaves a trace of the pending function whose storage
/// before and after are the two snapshots and whose return value is the output,
/// and returns that output.
pub proof fn completed_run_is_recorded<E>(
    e0: DebuggerEngine<E>,
    e1: DebuggerEngine<E>,
    e2: DebuggerEngine<E>,
    e3: DebuggerEngine<E>,
    e4: DebuggerEngine<E>,
    e5: DebuggerEngine<E>,
    before: StorageSnapshot,
    output: String,
    after: StorageSnapshot,
    info: BudgetInfo,
    events: Vec<HostEvent>,
    r1: Step,
    r2: Step,
    r3: Step,
    r4: Step,
    r5: Step,
)
    requires
        e0.phase() is AwaitBefore,
        advances(e0, HostReply::Snapshot(before), e1, r1),
        advances(e1, HostReply::Output(output), e2, r2),
        advances(e2, HostReply::Snapshot(after), e3, r3),
        advances(e3, HostReply::Budget(info), e4, r4),
        advances(e4, HostReply::Events(events), e5, r5),
    ensures
        e5.trace() is Some,
        opt_view((e5.trace()->Some_0).function) == Some(e0.pending_function()@),
        (e5.trace()->Some_0).storage_before == before,
        (e5.trace()->Some_0).storage == after,
        opt_view((e5.trace()->Some_0).return_value) == Some(output@),
        r5 is Done,
        r5->Done_0 is Ok,
        (r5->Done_0)->Ok_0.output == output,
        e5.phase() is Idle,
{
}

/// Only a completed run replaces the trace; a failure reported by the host
/// leaves it as it was, ends the run and is passed on unchanged.
pub proof fn trace_kept_unless_completed<E>(
    e0: DebuggerEngine<E>,
    reply: HostReply,
    e1: DebuggerEngine<E>,
    r: Step,
)
    requires
        advances(e0, reply, e1, r),
    ensures
        !(e0.phase() is AwaitEvents && reply is Events) ==> e1.trace() == e0.trace(),
        !(e0.phase() is Idle) && reply is Failed ==> e1.phase() is Idle && r == Step::Done(
            Err(ExecError::Host(reply->Failed_0)),
        ),
{
}

/// A function with a breakpoint pauses once its first snapshot is in, before
/// the run is requested, and the run request says that it paused there; a
/// function without one leaves the pause state as it was.
pub proof fn breakpoint_pauses_before_run<E>(
    e0: DebuggerEngine<E>,
    before: StorageSnapshot,
    e1: DebuggerEngine<E>,
    r: Step,
)
    requires
        e0.phase() is AwaitBefore,
        advances(e0, HostReply::Snapshot(before), e1, r),
    ensures
        r is Request && r->Request_0 is Run,
        (r->Request_0)->Run_paused_here == e0.breakpoint_names().contains(e0.pending_function()@),
        e0.breakpoint_names().contains(e0.pending_function()@) ==> e1.paused()
            && e1.current_function() == Some(e0.pending_function()@),
        !e0.breakpoint_names().contains(e0.pending_function()@) ==> e1.paused() == e0.paused(),
{
}

} // verus!
