# event_base

A message-routing core for a host/worker event system, written in Verus.

- `src/` is the verified library: message envelopes, the topic table and
  send/replay decisions, the worker registry, the consumer router's tables
  and round-robin dispatch, the per-message worker decisions (audit, log
  updates, repeats, retries, dead-lettering), shutdown strategies, the
  audit ring, metric aggregation, the system handlers' effects and the
  control service's answers. Each public function states its result over
  a mathematical model (`Seq`, `Map`, spec functions), and the laws that
  relate several operations are public proof functions.
- `app/` is the asynchronous runtime around it (tokio tasks, queues,
  global registries, serialization, tracing), which carries out what the
  library decides.
- `tests/` exercises the library on concrete values.
