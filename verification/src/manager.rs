//! A per-CPU run-queue manager that does no balancing: every operation goes
//! to the run queue of the CPU that it names.
use vstd::prelude::*;

verus! {

/// The effect of `simple_init`, named by the one invariant namespace that it
/// may open; each queue operation has an effect of its own. A function that
/// may open only the effect of one queue operation can call no other queue
/// operation, and Verus checks this of every body.
pub open spec fn init_effect() -> int {
    1
}

/// The effect of `simple_add_task`; see `init_effect`.
pub open spec fn add_effect() -> int {
    2
}

/// The effect of `simple_remove_task`; see `init_effect`.
pub open spec fn remove_effect() -> int {
    3
}

/// The effect of `simple_pick_next_task`; see `init_effect`.
pub open spec fn pick_effect() -> int {
    4
}

/// The effect of `simple_put_prev_task`; see `init_effect`.
pub open spec fn put_prev_effect() -> int {
    5
}

/// The effect of `simple_task_tick`; see `init_effect`.
pub open spec fn tick_effect() -> int {
    6
}

/// The operations of a per-CPU run queue, reached through a shared handle.
///
/// A handle refers to a queue that other parts of the kernel reach too, so
/// each operation takes effect on that queue, however the implementation
/// synchronises access to it (in the kernel, a spin lock with IRQs off).
///
/// Each operation may open only the invariant namespace of its own effect
/// (`init_effect` and the functions after it), so the manager's operations,
/// which each allow just the effect of the queue operation they forward to,
/// cannot touch a queue in any other way.
pub trait SimpleRunQueueOperations {
    /// What the queue schedules.
    type SchedItem;

    /// Initialises the queue.
    fn simple_init(&self)
        opens_invariants [init_effect()];

    /// Adds `task` to the queue.
    fn simple_add_task(&self, task: Self::SchedItem)
        opens_invariants [add_effect()];

    /// Takes `task` out of the queue, handing back the entry removed.
    fn simple_remove_task(&self, task: &Self::SchedItem) -> Option<Self::SchedItem>
        opens_invariants [remove_effect()];

    /// Takes the task that should run next out of the queue.
    fn simple_pick_next_task(&self) -> Option<Self::SchedItem>
        opens_invariants [pick_effect()];

    /// Puts back the task that ran last; `preempt` says whether it was
    /// preempted.
    fn simple_put_prev_task(&self, prev: Self::SchedItem, preempt: bool)
        opens_invariants [put_prev_effect()];

    /// Accounts a timer tick to `current`; the result asks for a
    /// reschedule.
    fn simple_task_tick(&self, current: &Self::SchedItem) -> bool
        opens_invariants [tick_effect()];
}

/// How the slots of a manager may evolve: their number stays, and a CPU
/// that has a queue keeps one.
pub open spec fn keeps_queues<Q>(before: Seq<Option<Q>>, after: Seq<Option<Q>>) -> bool {
    &&& after.len() == before.len()
    &&& forall|i: int| 0 <= i < before.len() && (#[trigger] before[i]) is Some ==> after[i] is Some
}

/// Along any run of manager states, each reached from the one before by
/// an operation of the manager, the number of slots stays and a CPU that
/// has a queue keeps one; started from `new`, there are `SMP` slots in
/// every state.
pub proof fn lemma_keeps_queues_along<Q>(states: Seq<Seq<Option<Q>>>)
    requires
        states.len() > 0,
        forall|k: int| 0 <= k < states.len() - 1 ==> keeps_queues(#[trigger] states[k], states[k + 1]),
    ensures
        forall|k: int| 0 <= k < states.len() ==> keeps_queues(states[0], #[trigger] states[k]),
    decreases states.len(),
{
    if states.len() > 1 {
        let prefix = states.drop_last();
        assert forall|k: int| 0 <= k < prefix.len() - 1 implies keeps_queues(
            #[trigger] prefix[k],
            prefix[k + 1],
        ) by {
            assert(prefix[k] == states[k] && prefix[k + 1] == states[k + 1]);
        }
        lemma_keeps_queues_along(prefix);
        let last = states.len() - 1;
        assert(keeps_queues(states[0], states[last - 1])) by {
            assert(prefix[last - 1] == states[last - 1]);
        }
        assert(keeps_queues(states[last - 1], states[last]));
        assert forall|k: int| 0 <= k < states.len() implies keeps_queues(
            states[0],
            #[trigger] states[k],
        ) by {
            if k < last {
                assert(prefix[k] == states[k]);
            }
        }
    } else {
        assert(keeps_queues(states[0], states[0]));
    }
}

/// A slot of the per-CPU list: the queue of one CPU, if registered, and the
/// slots of the CPUs after it.
struct SlotNode<Q> {
    slot: Option<Q>,
    next: Option<Box<SlotNode<Q>>>,
}

/// The queues that a list of slots holds, first CPU first.
spec fn slots_view<Q>(list: Option<Box<SlotNode<Q>>>) -> Seq<Option<Q>>
    decreases list,
{
    match list {
        None => Seq::empty(),
        Some(node) => seq![node.slot] + slots_view(node.next),
    }
}

/// The queue in the slot of CPU `i`, if one is registered; it calls
/// nothing that could open an invariant.
fn queue_at<Q>(list: &Option<Box<SlotNode<Q>>>, i: usize) -> (queue: Option<&Q>)
    requires
        i < slots_view(*list).len(),
    ensures
        match queue {
            Some(q) => slots_view(*list)[i as int] == Some(*q),
            None => slots_view(*list)[i as int] is None,
        },
    decreases i,
    opens_invariants none
{
    match list {
        None => None,
        Some(node) => {
            if i == 0 {
                match &node.slot {
                    Some(q) => Some(q),
                    None => None,
                }
            } else {
                queue_at(&node.next, i - 1)
            }
        },
    }
}

/// Puts `value` in the slot of CPU `i`; it calls nothing that could open an
/// invariant.
fn set_at<Q>(list: &mut Option<Box<SlotNode<Q>>>, i: usize, value: Option<Q>)
    requires
        i < slots_view(*old(list)).len(),
    ensures
        slots_view(*final(list)) == slots_view(*old(list)).update(i as int, value),
    decreases i,
    opens_invariants none
    no_unwind
{
    match list {
        None => {},
        Some(node) => {
            if i == 0 {
                node.slot = value;
            } else {
                set_at(&mut node.next, i - 1, value);
            }
        },
    }
}

/// One optional run queue per CPU; a CPU's queue is there once `init` has
/// registered it.
pub struct NaiveManager<Q, const SMP: usize> {
    scheduler_collection: Option<Box<SlotNode<Q>>>,
}

impl<Q, const SMP: usize> View for NaiveManager<Q, SMP> {
    type V = Seq<Option<Q>>;

    /// The queue registered for each CPU, indexed by CPU id.
    closed spec fn view(&self) -> Seq<Option<Q>> {
        slots_view(self.scheduler_collection)
    }
}

impl<Q, const SMP: usize> NaiveManager<Q, SMP> {
    /// Whether a queue has been registered for `cpu_id`.
    pub open spec fn is_ready(&self, cpu_id: int) -> bool {
        0 <= cpu_id < self@.len() && self@[cpu_id] is Some
    }

    /// The queue registered for `cpu_id`.
    pub open spec fn queue(&self, cpu_id: int) -> Q
        recommends
            self.is_ready(cpu_id),
    {
        self@[cpu_id]->0
    }

    /// There is one slot per CPU.
    #[verifier::type_invariant]
    spec fn one_slot_per_cpu(self) -> bool {
        slots_view(self.scheduler_collection).len() == SMP
    }

    /// The queue of `cpu_id`, if one is registered; it calls nothing that
    /// could open an invariant.
    fn queue_of(&self, cpu_id: usize) -> (queue: Option<&Q>)
        requires
            cpu_id < self@.len(),
        ensures
            match queue {
                Some(q) => self@[cpu_id as int] == Some(*q),
                None => self@[cpu_id as int] is None,
            },
        opens_invariants none
    {
        queue_at(&self.scheduler_collection, cpu_id)
    }

    /// The number of CPU slots.
    pub fn cpu_count(&self) -> (count: usize)
        ensures
            count == self@.len(),
    {
        proof {
            use_type_invariant(self);
        }
        SMP
    }

    /// Whether a queue has been registered for `cpu_id`.
    pub fn has_queue(&self, cpu_id: usize) -> (ready: bool)
        ensures
            ready == self.is_ready(cpu_id as int),
    {
        proof {
            use_type_invariant(self);
        }
        if cpu_id < SMP {
            match self.queue_of(cpu_id) {
                Some(_) => true,
                None => false,
            }
        } else {
            false
        }
    }

    /// A manager for `SMP` CPUs, none of which has a queue yet.
    pub fn new() -> (manager: Self)
        ensures
            manager@ == Seq::new(SMP as nat, |_i: int| None::<Q>),
    {
        let mut list: Option<Box<SlotNode<Q>>> = None;
        for i in 0..SMP
            invariant
                slots_view(list) == Seq::new(i as nat, |_j: int| None::<Q>),
        {
            let ghost before = slots_view(list);
            list = Some(Box::new(SlotNode { slot: None, next: list }));
            assert(slots_view(list) =~= Seq::new((i + 1) as nat, |_j: int| None::<Q>)) by {
                assert(slots_view(list) == seq![None::<Q>] + before);
            }
        }
        Self { scheduler_collection: list }
    }
}

impl<Q: SimpleRunQueueOperations, const SMP: usize> NaiveManager<Q, SMP> {
    /// Registers `queue_ref` as the run queue of `cpu_id`, then initialises
    /// it through `simple_init` alone; the queues of the other CPUs stay as
    /// they were.
    pub fn init(&mut self, cpu_id: usize, queue_ref: Q)
        requires
            cpu_id < old(self)@.len(),
        ensures
            final(self)@ == old(self)@.update(cpu_id as int, Some(queue_ref)),
            keeps_queues(old(self)@, final(self)@),
            call_ensures(Q::simple_init, (&queue_ref,), ()),
        opens_invariants [init_effect()]
    {
        proof {
            use_type_invariant(&*self);
        }
        set_at(&mut self.scheduler_collection, cpu_id, Some(queue_ref));
        match self.queue_of(cpu_id) {
            Some(q) => q.simple_init(),
            None => {},
        }
    }

    /// Adds `task` to the run queue of `cpu_id`, touching that queue through
    /// `simple_add_task` alone.
    pub fn add_task(&mut self, cpu_id: usize, task: Q::SchedItem)
        requires
            old(self).is_ready(cpu_id as int),
        ensures
            *final(self) == *old(self),
            keeps_queues(old(self)@, final(self)@),
            call_ensures(Q::simple_add_task, (&old(self).queue(cpu_id as int), task), ()),
        opens_invariants [add_effect()]
    {
        proof {
            use_type_invariant(&*self);
        }
        match self.queue_of(cpu_id) {
            Some(q) => q.simple_add_task(task),
            None => {},
        }
    }

    /// Takes `task` out of the run queue of `cpu_id`, touching that queue
    /// through `simple_remove_task` alone; the result is what it hands back.
    pub fn remove_task(&mut self, cpu_id: usize, task: &Q::SchedItem) -> (removed: Option<
        Q::SchedItem,
    >)
        requires
            old(self).is_ready(cpu_id as int),
        ensures
            *final(self) == *old(self),
            keeps_queues(old(self)@, final(self)@),
            call_ensures(Q::simple_remove_task, (&old(self).queue(cpu_id as int), task), removed),
        opens_invariants [remove_effect()]
    {
        proof {
            use_type_invariant(&*self);
        }
        match self.queue_of(cpu_id) {
            Some(q) => q.simple_remove_task(task),
            None => None,
        }
    }

    /// The task that should run next on `cpu_id`, as its run queue picks it;
    /// the queue is touched through `simple_pick_next_task` alone.
    pub fn pick_next_task(&mut self, cpu_id: usize) -> (next: Option<Q::SchedItem>)
        requires
            old(self).is_ready(cpu_id as int),
        ensures
            *final(self) == *old(self),
            keeps_queues(old(self)@, final(self)@),
            call_ensures(Q::simple_pick_next_task, (&old(self).queue(cpu_id as int),), next),
        opens_invariants [pick_effect()]
    {
        proof {
            use_type_invariant(&*self);
        }
        match self.queue_of(cpu_id) {
            Some(q) => q.simple_pick_next_task(),
            None => None,
        }
    }

    /// Puts `prev` back on the run queue of `cpu_id`, touching that queue
    /// through `simple_put_prev_task` alone.
    pub fn put_prev_task(&mut self, cpu_id: usize, prev: Q::SchedItem, preempt: bool)
        requires
            old(self).is_ready(cpu_id as int),
        ensures
            *final(self) == *old(self),
            keeps_queues(old(self)@, final(self)@),
            call_ensures(
                Q::simple_put_prev_task,
                (&old(self).queue(cpu_id as int), prev, preempt),
                (),
            ),
        opens_invariants [put_prev_effect()]
    {
        proof {
            use_type_invariant(&*self);
        }
        match self.queue_of(cpu_id) {
            Some(q) => q.simple_put_prev_task(prev, preempt),
            None => {},
        }
    }

    /// Hands a timer tick for `current` to the run queue of `cpu_id`,
    /// touching that queue through `simple_task_tick` alone; the manager
    /// never asks for a reschedule, whatever the queue answers.
    pub fn task_tick(&mut self, cpu_id: usize, current: &Q::SchedItem) -> (resched: bool)
        requires
            old(self).is_ready(cpu_id as int),
        ensures
            *final(self) == *old(self),
            keeps_queues(old(self)@, final(self)@),
            !resched,
            exists|answer: bool|
                call_ensures(
                    Q::simple_task_tick,
                    (&old(self).queue(cpu_id as int), current),
                    answer,
                ),
        opens_invariants [tick_effect()]
    {
        proof {
            use_type_invariant(&*self);
        }
        match self.queue_of(cpu_id) {
            Some(q) => {
                q.simple_task_tick(current);
            },
            None => {},
        }
        false
    }
}

} // verus!
