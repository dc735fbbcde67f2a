# almond

The verified core of Almond, a syscall fuzzer built on LibAFL, with the
instrumentation driver around it.

- `src/` is the library, verified with Verus: the fuzzer's input (per-syscall
  lists of argument bytes and the state that serves them to the target), the
  syscall-sequence tree that starts capture, the call and crossover
  mutations, the coverage rings and novelty streams, the kcov edge map, the
  ivshmem layout and stop-and-drain protocol, crash recognition in kernel log
  messages, the statistics messages and rate limit, and the clang wrapper's
  argument parsing and command planning. Every public function states what it
  does in its contract; the `law_*` proof functions state properties that
  span functions.
- `app/` is ordinary Rust around it: process-wide state, the kcov and ivshmem
  devices, `/dev/kmsg`, the manager's Unix socket, the LibAFL trait
  implementations (inputs, observers, feedbacks, mutators, executor, monitor)
  and the `almond-cc` compiler driver.
- `tests/` exercises the library on concrete values.
