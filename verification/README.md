# progressbox_agent

An agent that watches MQTT brokers and the containers they run in, keeps their
latest metrics, raises alerts, writes a time series and answers over HTTP.

- `src/` is the library, verified with Verus: the registry of brokers, discovery by
  container labels, what messages and container statistics do to the metrics, alert
  rules and cooldowns, the mail on an alert, the points of the time series, the
  answers to HTTP requests, and the validation of the configuration.
- `app/` is the program round it: files, environment, sockets, tasks, JSON and TOML,
  and the floating-point arithmetic.
- `tests/` runs the library on concrete values.

The library reads the clock and the name of the machine and does no other input or
output. Where a step needs one, a library function says what is to be done and takes
back what came of it. Floating-point figures pass
through as bit patterns. The items whose contracts are taken on trust each wrap a
call into `dashmap`, `chrono`, `hostname`, `lettre` or the standard library, and say
so in their doc comments.
