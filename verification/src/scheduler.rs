//! The interface that every scheduling policy of the kernel offers.
use vstd::prelude::*;

verus! {

/// A scheduling policy: it holds the tasks that are ready to run and
/// decides which of them runs next.
pub trait BaseScheduler {
    /// What the scheduler holds: a task, or a reference to one.
    type SchedItem;

    /// Initialises the scheduler.
    fn init(&mut self);

    /// Adds a ready `task` to the scheduler.
    fn add_task(&mut self, task: Self::SchedItem);

    /// Takes `task` out of the scheduler, handing back the entry removed.
    fn remove_task(&mut self, task: &Self::SchedItem) -> Option<Self::SchedItem>;

    /// Takes the task that should run next out of the scheduler.
    fn pick_next_task(&mut self) -> Option<Self::SchedItem>;

    /// Puts back the task that ran last; `preempt` says whether it was
    /// preempted rather than having yielded.
    fn put_prev_task(&mut self, prev: Self::SchedItem, preempt: bool);

    /// Accounts a timer tick to `current`; the result says whether the
    /// current task should be rescheduled.
    fn task_tick(&mut self, current: &Self::SchedItem) -> bool;
}

} // verus!
