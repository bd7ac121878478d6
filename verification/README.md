# alpha_rust

A command-line tool for the WorldQuant Brain alpha workflow (hunt, refine,
check, submit, and dataset/datafield listings), split into a verified
library and a thin program around it.

- `src/` is the library, verified with Verus:
  - `text.rs`: characters and texts (white space, trimming, splitting,
    searching and replacing, ordering, decimal writing, joining).
  - `expr.rs`: the first-order and second-order expression factories and
    the turnover-dependent decay.
  - `workflow.rs`: tags, record files, and the plans of the hunt, refine and
    submit steps.
  - `brain.rs`: the texts of the API requests, paging, the reading of
    simulation answers and of stored credentials.
  - `steps.rs`: the decision steps of the request loops (answers with
    `Retry-After`, the submission of an alpha, the check of an alpha).
  - `dates.rs`: day numbers and the daily periods of the check.
  - `csvids.rs`: alpha ids from a CSV file.
  - `log.rs`: the texts of the run logs.
  - `cli.rs`: the command-line options as plain values.
- `app/` is the program: argument parsing, HTTP, files, the clock, logging
  plumbing, concurrency, and the parts that compute with floating point.
- `tests/` exercises the library on concrete values.
