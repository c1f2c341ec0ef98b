# wiki_rt_monitor

A real-time monitor of the Wikipedia recent-changes stream, written in Verus.

`src/` is the verified library: every decision of the engine, with its contract.

| Module | What it holds |
|--------|---------------|
| `types`, `control` | events, packets, modes; readings and commands of the control loop |
| `metrics`, `stats`, `sorting`, `ratio` | windows, percentiles, logs, in exact arithmetic |
| `ingestion` | decoder and client of the live stream, mock stream |
| `component_a` | parse stages of the two pipelines; sensing and processing |
| `component_b` | hot path and its deadline; actuation |
| `component_c` | priority queues, on crossbeam channels |
| `component_d` | edit counts, leaderboard, benchmark evaluation |
| `component_e` | fail-safe modes, watchdog |
| `advanced` | noise load, dashboard |
| `event_log`, `run_plan`, `text`, `random`, `alloc_counter` | logs as text, command line, numerals, draws, allocation counts |

Time is a number that the caller passes in: nanoseconds of a monotonic clock,
or milliseconds since the Unix epoch for the watchdog. The store of measurements
is passed as an `Option`, which is empty while another thread holds it.

The items that Verus takes on trust are the crossbeam channel and queue in
`component_c::packet_channel` and `component_a::sync_manager`, and the draws of
the rand crate in `random`.

`app/` runs the library on threads and tasks; `tests/` runs it on values.
