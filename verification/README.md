# chatapi

An OpenAI-compatible chat gateway that fronts either an HTTP chat API or a
browser chat page driven over the Chrome DevTools Protocol, with tools, rules,
sessions, agents and a live event feed.

- `src/` is the library, verified with Verus: the tool call parser, the rules
  (allowed tools, blocked paths, the system prompt), the rate limiter, the SSE
  stream's state machine, sessions and their stores, the agents' turn and
  planning decisions and the task store, the CDP message handling and the
  response wait, the tools' reports, the ring buffer, and the JSON and file
  path checks of the HTTP handlers. Calls into outside crates (serde_json,
  uuid, chrono, glob, regex, rand, rtrb, reqwest's status codes) sit behind
  small trusted wrappers whose contracts say what the library relies on.
- `tests/` runs the library on concrete values.
- `app/` is the gateway program: HTTP and WebSocket handlers, file and process
  I/O, the HTTP and CDP clients, MCP servers, and the orchestrator's loop. It
  hands the library plain values and acts on what comes back.
