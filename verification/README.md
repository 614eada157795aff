# gt

The gt-core client CLI, with its logic verified by Verus.

- `src/` — the library: every decision the CLI makes, each with a contract Verus proves.
  - `project_config` — the per-project `.gt-config/` store (named configs + active pointer),
    server-URL normalization, repo-root discovery, the `.gitignore` edit and the order of the
    writes a save makes.
  - `json` — JSON documents as the library reads and edits them.
  - `init` — the first-run wizard as a state machine: each answer (prompt, login, catalog)
    leads to the next action (prompt, REST call, save, or failure).
  - `oauth_login` — percent-encoding, the loopback callback and the authorize URL.
  - `session` — reading a JWT's `exp`, the refresh decision, loading the active config.
  - `prime`, `config` — workspace resolution (env > project config > user default > grace).
  - `workspace_cmd`, `config_cmd`, `mcp_cmd`, `tools`, `register`, `update`, `compose`,
    `quota` — what each subcommand computes and prints.
  - `text` — character-level string helpers shared by the rest.
- `app/` — the binary: argument parsing, files, environment, network and prompts, calling the
  library for every decision. `compose` and `quota` are library modules that no subcommand
  wires yet.
- `tests/` — tests of the library on concrete values.
