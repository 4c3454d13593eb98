# neuromancer

A system of agents that an orchestrator hands work to, with a daemon that runs them and a command
line program, `neuroctl`, that controls the daemon and holds conversations with it.

`src/` is the library. Everything in it is verified with Verus: each function says in its contract
what it returns or changes, and the laws of the library stand beside the code as public proof
functions.

- `agent`, `task`, `thread`, `tool`, `trigger`, `policy`, `secrets`, `audit`, `proposal`,
  `security`, `error`, `config`, `rpc`: the records that the parts exchange.
- `argument_tokens`, `routing`, `model_router`, `conversation`, `session`, `llm`, `runtime`: what an
  agent does with a task, one step at a time.
- `memory`, `memory_store`: memories, and how they are kept and found in a database.
- `a2a`, `mcp`: what other agents and tool servers ask for and answer.
- `cli`: the command line, and the decisions about the daemon, its files and its keys.
- `chat`: the conversation on a terminal, from keys to rows of text.
- `text`, `lists`, `named`, `json`, `time`, `xdg`: what the rest is made of.

What the library has from other crates goes through a few small functions whose contracts are
believed, not proved. Their doc comments say what is believed: of JSON in `json`, of moments and
identifiers in `time`, of spans of time in `error`, `cli::grammar` and `cli::daemon`, of letter case
in `cli::provider_keys`, and of the width of text in `chat::paint`.

`app/` is the program around the library: arguments, files, processes, the network and the terminal.
It also holds the services that a daemon is put together from. `tests/` runs the library.
