# codex_foreman

A control plane for one Codex app server: it runs many agents, groups them into projects and jobs,
keeps their state over restarts, and tells callbacks what happens.

- `src/` is the library. It decides what happens, and its functions carry contracts that Verus
  proves. The contracts of the few that call `uuid`, `serde_json`, `toml`, `regex` or a function of
  the standard library are believed, not proved; their doc comments say what is claimed. Time,
  random identifiers, the environment, the contents of files and the outcomes of programs come in as
  arguments.
- `app/` is the program around it: the command line, the connection to the app server, the HTTP API
  on a Unix socket, files, child processes, and the types that travel as JSON or TOML. Costs in
  dollars are floating point and are computed here.
- `tests/` runs the library on concrete values.

## Where to look in `src/`

| Subject | Modules |
| --- | --- |
| Texts, maps, JSON, identifiers | `text`, `text_search`, `text_map`, `id_map`, `json*`, `ids` |
| Configuration, manifests, lint, doctor, command line | `config`, `manifest`, `project`, `lint`, `doctor`, `cli`, `paths` |
| Agents, their turns and events | `agent`, `agent_turns`, `agent_events`, `agent_status`, `events`, `turns`, `tools`, `extract` |
| Rate limits and budgets | `governor`, `budget` |
| Callbacks | `template`, `vars`, `payload`, `resolve`, `callback`, `tool_callback` |
| Projects, jobs, worktrees | `projects`, `project_requests`, `jobs`, `job`, `job_status`, `launch`, `scope`, `graph`, `worktree`, `post_turn` |
| The service as a whole | `registry`, `foreman`, `workers`, `monitoring`, `state`, `restore`, `recovery` |
| The app server's protocol, and a stand-in for it | `protocol`, `client`, `stub` |

Public proof functions named `law_...` state what holds of several functions together.
