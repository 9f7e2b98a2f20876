# ats_task

A verified model of the task runtime of an ArceOS-style kernel whose ready
queue is a hardware task-scheduling interrupt controller.

`src/` is checked by Verus:

- `task` — task identifiers, run states, thread- and future-backed task
  bodies, the `TaskInfo` metadata trait and the current-task slot.
- `wait_queue` — the FIFO of sleeping tasks.
- `ats` — the runtime state (task table, current task, exited tasks) and
  the per-CPU executor step; every operation that makes a task ready returns
  the push that the hardware queue has to receive.
- `api` — spawning, priorities, yielding, sleeping and exiting for the
  current task.
- `mutex` — the sleeping mutex.
- `listen_table` — listening TCP ports and their queues of connections.
- `snoop` — spotting the first SYN of a connection in a received frame
  (header parsing by smoltcp).
- `scheduler`, `executor`, `plic` — the controller-backed scheduler, the
  controller's register addresses, and the PLIC contexts.
- `mmio_map` — the register map walked by the controller's MMIO self-test.
- `parallel`, `echo` — integer square roots, the benchmark's random input,
  work partitioning, and the echo server's per-frame steps and line
  reversal.

`app/` holds what touches hardware registers, sockets, threads and clocks.
`tests/` exercises the library, including a cooperative replay of the
many-tasks mutex stress test.
