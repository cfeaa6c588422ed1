# sysprog

Small systems-programming exercises whose logic is verified with Verus.

- `src/` — the verified library:
  - `numbers` — doubling, parity, FizzBuzz labels, sum and largest of a list;
  - `guessing` — the verdicts and next guesses of a number-guessing game;
  - `mapping` — applying a closure to every element of a vector;
  - `stack` — a vector-backed LIFO stack and its walk-through;
  - `words` — the most frequent whitespace-separated word of a text;
  - `scheduling`, `metrics` — task generation, FIFO and CPU-aware queue
    policies, the dispatcher's step and the collected metrics of the
    simulated task dispatcher;
  - `experiment` — the seeded task generator, the dispatcher state, the
    monitor totals and the result summary of the first dispatcher design;
  - `workers` — producer items and the consumer's stop decision;
  - `file_ops` — the file menu and the shell commands it runs;
  - `rng` — the trusted calls into `rand`.
- `tests/` — runtime tests of the library.
- `app/` — the programs: threads, channels, timing, terminal and process
  I/O, and the floating-point parts (bank account, temperatures, averages).
