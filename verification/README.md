# test_harness

A test harness whose planning and decision logic is verified with Verus:
which tests run and in what order, how a run of a test case proceeds
(skip check, setup, execution with a timeout, teardown), how outcomes are
counted, how mocks match and answer requests and record interactions, how
responses are shaped and network conditions simulated, how environments are
configured, provisioned from templates, checked and healed, and how their
services are started in dependency order.

- `src/` is the verified library. Each public function states what it
  returns or changes in `requires`/`ensures`; laws that relate several
  functions are public proof functions named `lemma_*`. Calls into outside
  crates (`regex`, `serde_json`, `rand`, `uuid`, `num_cpus`, `chrono`,
  `handlebars`) stand
  behind small trusted wrappers whose contracts say what the crate's
  documentation promises.
- `app/` is the runtime around it: asynchronous execution, processes and
  containers, sleeps, random draws, floating-point figures, and the
  serialisable copies of the library's types. Where the library decides step
  by step (a test case run, a scenario run, a health check, a provisioning, a
  readiness wait), `app/` performs each action and hands back what happened.
- `tests/` exercises the library on concrete values.
