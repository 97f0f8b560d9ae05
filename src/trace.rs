//! The record of one execution: inputs, storage before and after, budget,
//! events and call sequence.

use crate::storage::StorageSnapshot;
use vstd::prelude::*;

verus! {

/// The schema version that every trace carries.
pub const TRACE_VERSION: &'static str = "1.0";

/// Resource counters and limits as the host reports them.
#[derive(Clone, Copy, Debug, PartialEq, Eq)]
pub struct BudgetInfo {
    pub cpu_instructions: u64,
    pub memory_bytes: u64,
    pub cpu_limit: u64,
    pub memory_limit: u64,
}

/// Resource usage of one execution, with the limits where declared.
#[derive(Clone, Copy, Debug, PartialEq, Eq)]
pub struct BudgetTrace {
    pub cpu_instructions: u64,
    pub memory_bytes: u64,
    pub cpu_limit: Option<u64>,
    pub memory_limit: Option<u64>,
}

impl BudgetTrace {
    pub open spec fn of_info(info: BudgetInfo) -> BudgetTrace {
        BudgetTrace {
            cpu_instructions: info.cpu_instructions,
            memory_bytes: info.memory_bytes,
            cpu_limit: Some(info.cpu_limit),
            memory_limit: Some(info.memory_limit),
        }
    }

    /// The budget record of the counters and limits that the host reported.
    pub fn from_info(info: &BudgetInfo) -> (r: BudgetTrace)
        ensures
            r == BudgetTrace::of_info(*info),
    {
        BudgetTrace {
            cpu_instructions: info.cpu_instructions,
            memory_bytes: info.memory_bytes,
            cpu_limit: Some(info.cpu_limit),
            memory_limit: Some(info.memory_limit),
        }
    }
}

/// An event as the host emitted it.
pub struct HostEvent {
    pub contract_id: String,
    pub topics: Vec<String>,
    pub data: String,
}

/// An event of the trace.
pub struct EventEntry {
    pub contract_id: String,
    pub topics: Vec<String>,
    pub data: Option<String>,
}

pub open spec fn entry_of(e: HostEvent) -> EventEntry {
    EventEntry { contract_id: e.contract_id, topics: e.topics, data: Some(e.data) }
}

/// The trace's events for the host's events, in emission order.
pub fn event_entries(events: Vec<HostEvent>) -> (r: Vec<EventEntry>)
    ensures
        r@ == events@.map_values(|e: HostEvent| entry_of(e)),
{
    let ghost all = events@;
    let mut rest = events;
    let mut out: Vec<EventEntry> = Vec::new();
    while rest.len() > 0
        invariant
            out@.len() + rest@.len() == all.len(),
            rest@ == all.skip(out@.len() as int),
            out@ == all.take(out@.len() as int).map_values(|e: HostEvent| entry_of(e)),
        decreases rest@.len(),
    {
        let ghost k = out@.len() as int;
        let e = rest.remove(0);
        out.push(EventEntry { contract_id: e.contract_id, topics: e.topics, data: Some(e.data) });
        proof {
            assert(all.skip(k + 1) =~= all.skip(k).remove(0));
            assert(all.take(k + 1).map_values(|e: HostEvent| entry_of(e)) =~= all.take(k).map_values(
                |e: HostEvent| entry_of(e),
            ).push(entry_of(all[k])));
        }
    }
    assert(all.take(all.len() as int) =~= all);
    out
}

/// One call of the call sequence; depth 0 is the top-level call.
pub struct CallEntry {
    pub function: String,
    pub args: Option<String>,
    pub depth: u32,
    pub budget: Option<BudgetTrace>,
}

/// The record of one completed execution.
pub struct ExecutionTrace {
    pub version: String,
    pub label: Option<String>,
    pub contract: Option<String>,
    pub function: Option<String>,
    pub args: Option<String>,
    pub storage_before: StorageSnapshot,
    pub storage: StorageSnapshot,
    pub budget: Option<BudgetTrace>,
    pub return_value: Option<String>,
    pub call_sequence: Vec<CallEntry>,
    pub events: Vec<EventEntry>,
}

} // verus!
