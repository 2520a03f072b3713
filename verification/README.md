# codex_tools

The rules of an agent's tools, verified with Verus.

- `registry`, `dispatch`: which handler takes a call, and the course of a call from the hooks
  before it to the hooks after it.
- `hooks`, `tool_input`: what hooks are told about a call, what their answers add up to, and how
  a call's input is rewritten.
- `multi_agents`: the tools `spawn_agent` and `wait_team`.
- `permissions`, `policy`, `path`: what a skill's permission profile compiles to.
- `context`, `json`, `text`: the values that these modules share.

`dispatch` and the two tools of `multi_agents` are state machines. `step` takes what came of the
last action and returns the next one; `next`, over mathematical values, says what it does. The
functions whose names begin with `law_` are proved of every course that a call can take.

`app/` holds the code around the library: command lines, the traits of sessions and agents, and
the loops that perform the actions of the state machines. `tests/` holds the tests.

The library trusts `serde_json` to read and write JSON, in `json`, and `dunce` and the standard
library's paths, in `path`. The contracts of the functions that make these calls say what is
relied on.
