//! Scheduling pieces of a small multitasking kernel, with their contracts:
//! the scheduler interface, a per-CPU run-queue manager, and the work and
//! reports of the scheduling benchmarks.

pub mod manager;
pub mod report;
pub mod scheduler;
pub mod unbalance;
pub mod wakeup;
