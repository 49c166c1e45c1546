# raven

The decision-making core of an agent runtime, written in Verus and proved
against its contracts:

- `cron`, `scheduler`, `store`: cron schedules, the job table of the
  scheduler with its run bookkeeping, and the rows it stores;
- `skills`: markdown skills with frontmatter and the registry that checks
  their tool dependencies;
- `tools`, `commands`, `web`, `data`, `system`, `sandbox`, `dry_run`,
  `validator`, `schemas`, `catalog`, `registry`: the built-in tools, how their command
  lines are built and their results reported, and the checks around them;
- `fallback`, `reliability`, `providers`, `chat`: provider chains with
  circuit breakers, per-tool call statistics, and the chat wire format;
- `app`, `tui`, `runtime`, `graph`: the state of the terminal UI, sessions
  and task graphs.

Layout:

- `src/` is the verified library. Calls into outside crates (chrono, uuid,
  regex, std's clock and paths) stand behind small trusted wrappers whose
  doc comments say what is assumed of them.
- `tests/` holds the tests, run against the compiled library.
- `app/` is the unverified shell around it: process and network I/O,
  SQLite, YAML and JSON (de)serialisation, the async scheduler loop and the
  floating-point reliability score.
