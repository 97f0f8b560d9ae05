//! Debugging engine for smart-contract execution: breakpoints, pause
//! tracking, storage snapshots and diffs, and execution-trace assembly.

pub mod breakpoint;
pub mod engine;
pub mod keys;
pub mod state;
pub mod storage;
pub mod trace;
