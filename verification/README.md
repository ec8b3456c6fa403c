# tais_core

The verified core of TAIS, a Socratic teaching assistant: task lifecycle
and workflow planning, goal parsing, the skill, tool and model registries,
conversation and shared memory, hot memory, login tokens and binding
codes, the model lookup against a provider, and the
text rules that route and answer chat messages, the JSON-RPC steps of the
tool gateway, the reading of model replies, and the login and chat pages.
Every function in `src/` carries a `requires`/`ensures` contract; Verus
proves all of them except those of the small `external_body` wrappers
around outside crates, whose contracts are trusted.

## Layout

- `src/` — the library, one module per concern (`task`, `workflow`, `dag`,
  `goal`, `skills`, `skill_index`, `llm`, `mcp`, `conversation`, `memory`,
  `shared`, `hot_memory`, `checkpoint`, `auth`, `wechat`, `session`,
  `command`, `replies`, `routing`, `tool_loop`, `agent`, `habit`, `user`,
  `tutor`, `gene`, `text`, `lines`, `order`, `platform`, `page`, `config`,
  `reply`, `ui`).
  Calls into outside crates (argon2, jsonwebtoken, petgraph, chrono, uuid,
  rand, sha1, serde_json) sit behind small trusted wrappers whose doc comments say what
  is assumed of them.
- `tests/` — ordinary Rust tests of the library.
- `app/` — the server around the library: HTTP and WebSocket handlers,
  file and network I/O, the language-model clients, and the parts computed
  with floating point (mastery scores, ratings, habit weights).

## Laws

Properties that span several calls are stated as public proof functions,
for example `task::TaskManager::lemma_keyed_by_id`,
`tool_loop::law_run_budget`, `workflow::law_workflow_is_a_path`,
`workflow::law_default_node_count`, `shared::law_upsert_then_get`,
`memory::law_layers_in_order`, `auth::law_hash_then_verify`,
`skill_index::law_indexed_line_reads_back` and
`skill_index::law_crystallized_skill_is_indexed`.
