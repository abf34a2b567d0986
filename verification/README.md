# protection

A benchmark of memory protection. A workload is brought to a steady load, a
memory hog is run next to it, and the reports of both tell how much of its
throughput and latency the workload kept.

- `src/` is the library, verified with Verus: parsing jobs, the steps of a
  scenario, studying runs, combining results, and laying results out as text.
  Measured quantities have a type `F` of the caller's choice; single
  operations on them, their text, the reports of a period and the statistics of
  a list of values are functions of the caller.
- `app/` drives jobs with the library: it talks to the agent, does the
  operations on `f64`, and stores results as JSON.
- `tests/` runs the library on concrete values.
