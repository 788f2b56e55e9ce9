# automation

Coordination library for coding agents that run on a schedule, alone or several
at once, with the programs that drive them.

- `src/` is the library, verified with Verus: the state of an agent and its
  statistics, file locks and task leases (the decisions about them), the task
  and agent registries of parallel mode, the retry and cleanup rules of the
  scheduler, the output buffer and error patterns of the process executor, the
  configuration settings, the deep merge of stored state, and the code review
  analyses (longest files, duplicated blocks, design issues, the report).
  Laws that relate several operations stand as public proof functions named
  `law_*` next to the operations they speak of.
- `tests/` runs the library on concrete values.
- `app/` is the program: `automation architect|janitor|prompt|code-review`. It
  reads the TOML configuration, takes file locks, reads and writes state and
  registry files, spawns the agent's command line tool, runs the schedule, walks
  the directory under review, and hands everything it reads to the library.
