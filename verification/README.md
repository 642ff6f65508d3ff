# crud_bench

Scheduling and judging of key-value store benchmarks, written in Verus: every function of the
library in `src/` carries a contract that is proved.

A benchmark either times phases (create, read, update, scans with and without an index, batches,
delete) or runs steady-state rows: workers that follow a deterministic operation mix for a fixed
time. The perf gate compares the artifacts of two runs, as CSV tables or as steady-state rows.

## Modules

- `text`, `failure`, `decimal`, `binary64`: texts, errors, decimal numbers as they are written,
  IEEE 754 numbers held by their bits.
- `settings`, `workload`, `mix`, `config`: what a steady-state run does and which operation comes
  when.
- `selector`: seeded key selection, uniform and scrambled Zipfian.
- `window`, `row`, `suite`: a time window of workers, a steady-state row, a suite of rows.
- `operation`, `phase`, `recorder`: one timed phase and its latencies.
- `run`, `course`: the phases of a whole benchmark and what they file.
- `generator`, `vector`: seeded draws, and the query vectors for vector search.
- `figure`, `table`, `gate`: the perf gate over CSV tables.
- `artifact`, `steadygate`: the perf gate over steady-state artifacts.
- `mode`: the command line of the perf gate.
- `toykv`: what the ToyKV adapter does.

The library decides; `app/` performs. `app/` reads files, talks to datastores, sleeps, prints and
computes with floating point, and hands the results back as plain values.

## What is not proved

The calls into `csv`, `hdrhistogram`, `rand` and the `Debug` formatting of `std` stand behind small
functions marked `external_body`, each with a comment that says what is claimed of the call.
