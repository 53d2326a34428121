# tiny_researcher

A local-first research loop with verified decision logic.

- `src/` is the library, verified with Verus: the agent's phase machine and
  budget (`agent::state`), the research loop as an event-driven machine
  (`agent::driver`), the scratchpad and the in-memory document store
  (`memory`), corpus search and re-ranking (`tools::local_search`,
  `tools::rank`), the local-file ingestion policy (`tools::scrape`), the
  summarization prompt (`tools::summarize`), the model transports
  (`runtime::llm_client`), the configuration parser (`config`), startup
  validation (`runtime::validator`), the installation doctor (`doctor`) and
  the offline network policy of the tool adapters (`tools`, `telemetry`).
- `app/` is the `research` command: argument parsing, logging, reading and
  writing files, running the model, and the loop that carries out what the
  library's research machine asks for.
- `tests/` exercises the library on concrete inputs.

Budgets are held in thousandths of a unit; search scores are match counts.
