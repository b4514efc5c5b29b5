# clawhive

The decision logic of the clawhive agent runtime, verified with Verus.

- `src/` is the verified library. Each module states its behaviour in
  `requires`/`ensures` contracts over spec functions, and its laws (properties
  that span several calls) as public proof functions named `law_*`.
  - `router`: model candidate chains, failure classification, provider
    cooldowns and the failover walk of one request.
  - `access_gate`, `policy`, `paths`: the hard security baseline, origin-based
    tool permissions, and the directory allow-list.
  - `context`, `persona`, `language`: token estimates, pruning and compaction
    plans, system prompt assembly, response language detection.
  - `orchestrator`, `tool_loop`, `slash_commands`, `skill_state`: routing of
    inbound messages, the tool-use loop as a state machine, commands, and
    pending skill installs.
  - `gateway`, `schedule`, `reminders`, `subagent`, `skill`, `shell`, `audit`,
    `session`, `memory`, `config`, `config_env`: the remaining services.
  - `text`, `sorted`, `keyed`, `ids`, `clock`: string, ordering and lookup
    helpers, and the trusted calls into `chrono` and `uuid`.
- `app/` holds what the library leaves to its caller: files, processes, the
  network, serde documents, and the loops that perform the library's actions.
- `tests/` exercises the library on concrete values.
