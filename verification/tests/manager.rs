use sched_balance::manager::{NaiveManager, SimpleRunQueueOperations};
use sched_balance::scheduler::BaseScheduler;
use std::cell::RefCell;
use std::collections::VecDeque;
use std::rc::Rc;

/// A first-in first-out policy, used as the queue behind each CPU.
struct Fifo {
    ready: VecDeque<u64>,
    ticks: usize,
    inits: usize,
}

impl BaseScheduler for Fifo {
    type SchedItem = u64;

    fn init(&mut self) {
        self.inits += 1;
    }

    fn add_task(&mut self, task: u64) {
        self.ready.push_back(task);
    }

    fn remove_task(&mut self, task: &u64) -> Option<u64> {
        let pos = self.ready.iter().position(|t| t == task)?;
        self.ready.remove(pos)
    }

    fn pick_next_task(&mut self) -> Option<u64> {
        self.ready.pop_front()
    }

    fn put_prev_task(&mut self, prev: u64, preempt: bool) {
        if preempt {
            self.ready.push_front(prev);
        } else {
            self.ready.push_back(prev);
        }
    }

    fn task_tick(&mut self, _current: &u64) -> bool {
        self.ticks += 1;
        true
    }
}

/// A shared handle to a queue, as the kernel's run queues are shared.
#[derive(Clone)]
struct Shared(Rc<RefCell<Fifo>>);

fn shared() -> Shared {
    Shared(Rc::new(RefCell::new(Fifo { ready: VecDeque::new(), ticks: 0, inits: 0 })))
}

impl SimpleRunQueueOperations for Shared {
    type SchedItem = u64;

    fn simple_init(&self) {
        self.0.borrow_mut().init()
    }

    fn simple_add_task(&self, task: u64) {
        self.0.borrow_mut().add_task(task)
    }

    fn simple_remove_task(&self, task: &u64) -> Option<u64> {
        self.0.borrow_mut().remove_task(task)
    }

    fn simple_pick_next_task(&self) -> Option<u64> {
        self.0.borrow_mut().pick_next_task()
    }

    fn simple_put_prev_task(&self, prev: u64, preempt: bool) {
        self.0.borrow_mut().put_prev_task(prev, preempt)
    }

    fn simple_task_tick(&self, current: &u64) -> bool {
        self.0.borrow_mut().task_tick(current)
    }
}

#[test]
fn init_initialises_the_registered_queue() {
    let mut m: NaiveManager<Shared, 2> = NaiveManager::new();
    let q = shared();
    m.init(1, q.clone());
    assert_eq!(q.0.borrow().inits, 1);
}

#[test]
fn operations_reach_the_queue_of_the_named_cpu_only() {
    let mut m: NaiveManager<Shared, 2> = NaiveManager::new();
    let q0 = shared();
    let q1 = shared();
    m.init(0, q0.clone());
    m.init(1, q1.clone());
    m.add_task(1, 10);
    m.add_task(1, 11);
    m.add_task(0, 20);
    assert_eq!(q0.0.borrow().ready, VecDeque::from(vec![20]));
    assert_eq!(q1.0.borrow().ready, VecDeque::from(vec![10, 11]));
    assert_eq!(m.pick_next_task(1), Some(10));
    assert_eq!(m.pick_next_task(0), Some(20));
    assert_eq!(m.pick_next_task(0), None);
    assert_eq!(m.remove_task(1, &11), Some(11));
    assert_eq!(m.remove_task(1, &11), None);
    m.put_prev_task(1, 10, false);
    assert_eq!(q1.0.borrow().ready, VecDeque::from(vec![10]));
    m.put_prev_task(1, 12, true);
    assert_eq!(m.pick_next_task(1), Some(12));
}

#[test]
fn task_tick_never_asks_for_a_reschedule() {
    let mut m: NaiveManager<Shared, 1> = NaiveManager::new();
    let q = shared();
    m.init(0, q.clone());
    // the queue answers true; the manager still answers false
    assert!(!m.task_tick(0, &1));
    assert!(!m.task_tick(0, &1));
    assert_eq!(q.0.borrow().ticks, 2);
}

#[test]
fn init_again_replaces_the_queue_of_that_cpu() {
    let mut m: NaiveManager<Shared, 2> = NaiveManager::new();
    let old = shared();
    let new = shared();
    m.init(0, old.clone());
    m.init(0, new.clone());
    m.add_task(0, 5);
    assert!(old.0.borrow().ready.is_empty());
    assert_eq!(new.0.borrow().ready, VecDeque::from(vec![5]));
}

#[test]
fn a_new_manager_has_slots_but_no_queues() {
    let mut m: NaiveManager<Shared, 3> = NaiveManager::new();
    assert_eq!(m.cpu_count(), 3);
    assert!(!m.has_queue(0) && !m.has_queue(1) && !m.has_queue(2));
    assert!(!m.has_queue(3));
    m.init(2, shared());
    assert!(m.has_queue(2));
    assert!(!m.has_queue(0) && !m.has_queue(1));
}

#[test]
fn a_cpu_that_has_a_queue_keeps_one_through_any_operations() {
    let mut m: NaiveManager<Shared, 2> = NaiveManager::new();
    m.init(0, shared());
    m.add_task(0, 1);
    assert!(m.has_queue(0) && !m.has_queue(1));
    m.init(1, shared());
    assert_eq!(m.pick_next_task(0), Some(1));
    assert_eq!(m.remove_task(1, &3), None);
    m.put_prev_task(1, 3, true);
    assert!(!m.task_tick(1, &3));
    m.init(0, shared());
    assert_eq!(m.cpu_count(), 2);
    assert!(m.has_queue(0) && m.has_queue(1));
}

#[test]
fn init_stores_the_queue_and_initialises_it_once() {
    let mut m: NaiveManager<Shared, 1> = NaiveManager::new();
    let q = shared();
    m.init(0, q.clone());
    assert!(m.has_queue(0));
    assert_eq!(q.0.borrow().inits, 1);
    m.add_task(0, 9);
    assert_eq!(q.0.borrow().ready, VecDeque::from(vec![9]));
}
