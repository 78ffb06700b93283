# agentmon

A monitor for coding-agent sessions: a daemon (`agentd`) tracks every
session's status as reported by the agent's hooks (`agentmon-report`),
notifies the user when a session finishes or needs input, keeps a bounded
activity log, and serves a terminal UI (`agentmon`).

Layout:

- `src/` is the verified library (Verus). It holds the registry of sessions
  and test runs, the ingestion rules that decide notifications and log
  entries, the activity log, the daemon's per-message and liveness-sweep
  decisions, the hook-payload and `ps`-output readers, the ancestry walk that
  finds the host, the settings edit
  that installs the hooks, the launchd plist, and the terminal UI's state,
  key handling and screen text. Each public function states its result in
  its contract; the laws the library keeps across calls are proof functions
  beside the code they are about (for instance
  `registry::lemma_one_entry_per_pid`,
  `ingest::lemma_repeated_done_is_quiet`,
  `liveness::lemma_sweep_does_not_repeat` and
  `settings::lemma_install_is_idempotent`).
- `app/` is the program around it: sockets, threads, files, `ps`,
  `osascript` and `launchctl`, JSON with serde, and drawing with ratatui.
  One binary serves as `agentd`, `agentmon-report` or `agentmon`, chosen by
  the name it runs under or by its first argument (`daemon`, `report`).
- `tests/` runs the library on concrete inputs.
