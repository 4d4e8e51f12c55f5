# affinitypool

A pool of worker threads for blocking jobs. Jobs are queued until a worker is free; the awaiter of
a job is woken when it has finished.

`src/` is the verified library. It holds every decision of the pool as plain state behind
exclusive references:

- `queue`, `producer`, `walk`, `rotation`, `bits`, `deque`: the sharded queue over
  `crossbeam_deque`, the routing of pushes, and the order in which a worker looks for its next task.
- `park`, `handshake`: how workers go to sleep, how producers find a sleeper to wake, and what holds
  of them in every interleaving of their steps.
- `sleepers`: no wake-up is lost. While a worker sleeps, each waiting task has a worker that searches
  or a producer on its way to wake one, whatever other workers are busy with.
- `runs`: whole runs of producers and workers. Every task is accounted for, none is run twice, and
  a run to which nothing is added comes to rest with everything run, as long as every task comes to
  its end and no worker loses its steals, or wakes up for no reason, without end.
- `conservation`: no task is lost, none is run twice, and each lane is first in, first out.
- `job`, `spawn`, `task`, `local`: what worker and awaiter share of one job.
- `pool`, `builder`, `sentry`, `error`, `cpus`: configuration, worker threads and the global pool.
- `affinity`: sets of CPU cores and the requests to pin a thread to one.

`app/` is the pool as threads and futures: it holds the locks, sleeps, starts threads, makes the
system calls and runs the jobs.

`tests/` runs the library. `tests/handshake.rs` plays every order of the steps of producers and
workers over a real queue.
