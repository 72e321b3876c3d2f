# nextchat

The verified core of NextChat's desktop bridge to a local Goose agent.

- `src/` (Verus): where the agent executable and `goose.config.json` are
  looked for (`paths`), what the configuration turns into — address, secret,
  provider settings and the agent's environment (`config`), the agent's
  status and launch (`agent`), the HTTP requests and what their answers give
  (`chat`), the reply event stream (`reply`), the JSON values it carries
  (`json`) and the character-level text model underneath (`text`).
- `app/`: the Tauri commands that read files and the environment, spawn the
  agent and talk HTTP, calling the library for its decisions; the loading of
  `goose.config.json` (first candidate that exists, reads and parses, else
  the defaults) is done there.
- `tests/`: concrete scenarios for the library.
