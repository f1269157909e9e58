# openclaudia

The logic of a coding assistant's back end, verified with Verus: the proxy between a client and
the providers of language models, sessions and their plans and tasks, prices, rules, skills,
speculation, slash commands, the state of a session, and the services around them.

- `src/` is the library. Every executable function states in `ensures` what it returns or
  changes. Public proof functions state what holds of several functions together.
- `tests/` runs the library on concrete values.
- `app/` is the shell: files, processes, the environment, the network and the HTTP server. It
  hands the library plain values and carries out what the library decides.

| Module | What it holds |
| --- | --- |
| `proxy` | Requests, keys, the preparation of a request, the steps of a turn, replies, reviews, usage, models, tool servers |
| `session` | The record of a session, plan mode, tasks, prices, the audit log, what is persisted |
| `services` | Policy, flags, analytics, rate limits, background jobs, the pool of language servers, diagnostics, tool servers, tool execution, compaction |
| `rules`, `skills`, `slash_commands`, `speculation` | Rule files, skill files, commands, predicted tool calls |
| `state` | What a session holds in memory and on disk |
| `tools`, `plugins` | Tool calls and their results, what is read of a plugin |
| `json`, `text`, `scan`, `seqs`, `string_map`, `graph`, `clock`, `ids` | What the others are built on |

What the library takes from `std`, `chrono`, `regex`, `serde_json` and `uuid` stands behind a few
small functions whose contracts are stated and not proved: in `text`, `clock`, `ids`, `json`,
`services` and `proxy::extensions`. The comment above each says what is claimed.
