# sched_balance

Scheduling pieces of a small multitasking kernel, verified with Verus.

- `src/scheduler.rs`: the interface of a scheduling policy (`BaseScheduler`).
- `src/manager.rs`: `NaiveManager`, which keeps one run queue per CPU and
  hands every operation to the queue of the CPU it names, unchanged.
- `src/unbalance.rs`, `src/wakeup.rs`: the workloads of the two scheduling
  benchmarks, how the work is split among tasks, and the barrier and wake-up
  decisions of their tasks.
- `src/report.rs`: the sums and maxima that the benchmarks report.
- `app/`: the kernel glue (preemption hooks, idle loop, sleeping), run queues
  behind spin locks, and the benchmark programs themselves.
