# wasm_futures_executor

An executor for asynchronous tasks in the browser: a pool of web workers that
share one task queue.

- `src/` is the verified library (Verus):
  - `pool`: the pool's size and worker names, the counting of its handles and
    the shutdown messages of the last one, and a worker's step on each message;
    laws on draining the queue at shutdown.
  - `unpark`: the wake-up protocol of a task, with its laws.
  - `bignat`, `decimal`, `factorial`: the arithmetic of the factorial demo,
    with `num`'s `BigUint` behind a few trusted wrappers.
- `app/` holds the browser side: workers, channels, futures and the
  `wasm-bindgen` entry points, calling the library for every decision.
- `tests/` runs the library on concrete values.
