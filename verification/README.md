# whyos

The kernel logic of WhyOS, a small preemptive real-time kernel for the
RP2350 (Cortex-M33 and RISC-V cores), written in Verus and proved against
its contracts.

- `src/` is the verified library: bitmaps and the block allocator, task
  stacks and their initial frames, the task registry with generation-checked
  handles, the scheduler (priority first, round robin among equals, sleeping,
  suspension, watchdogs, zombies and their reaping), wait queues, semaphores,
  mutexes and the bounded queue, the system-call dispatcher and the RISC-V
  trap decisions.
- `tests/` runs the library on concrete scenarios.
- `app/` is the thin runtime layer for the target: the kernel as a global
  behind a critical section, the exception and trap handlers, and the
  blocking loops of the synchronisation primitives. It makes every decision
  by calling the library.
