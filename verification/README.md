# pi_grok

The decision logic of the grok-pi host integration, verified with Verus: how
the Pi host is resolved and version-gated, how Pi's RPC events and extension
bridge messages are projected for the pager, how the prompt queue is
mirrored, how extension requests are decoded, how a crashing extension is
isolated, and how Pi themes are registered.

Layout:

- `src/` — the verified library. Each module states its behaviour in
  `requires`/`ensures` contracts over mathematical views (`Seq`, `Map`,
  `JsonView`), and the laws that span several calls are public proof
  functions (`lemma_*`).
  - `json`, `text`, `lex`, `number`, `seq_util`: the value model and the
    string helpers the rest is stated over.
  - `pi_host`: version parsing (through `semver`), host classification and
    launch lines.
  - `queue_bridge`, `queue_runtime`, `ext_requests`, `ext_handlers`,
    `ext_notices`, `session_tree`: the queue mirror and the adapter's
    request and notification handling.
  - `background_bash_bridge`, `btw_bridge`, `recap_bridge`,
    `subagent_projection`, `subagent_bridge`, `custom_bridges`: projections
    of Pi's custom messages.
  - `tool_projection`: Pi's tool calls on the pager's native cards (card
    kind, prepared arguments, raw output, text and diff content).
  - `self_heal`, `culprit_search`, `extension_args`, `extension_identity`,
    `crash_report`: extension self-heal and its crash report.
  - `recovery`: the crash-storm guard and the heartbeat watchdog.
  - `settings`, `tool_args`, `theme_registry`: configuration, tool policy
    and the theme catalog.
- `tests/` — runtime tests of the library.
- `app/` — a small startup program around the library: processes, files,
  environment and terminal access.
