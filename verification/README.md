# UnicOS

A small operating layer for autonomous agents: a bus on which everything that is said reaches
everyone who listens, agents that decide when to speak and which tools to call, an orchestrator
that lets them run and stops them, and a daemon with a command line client.

`src/` is the library. It holds every decision of the system and is verified with Verus:

- `common`, `conversation`, `ipc`: the vocabulary of the bus and of the socket
- `bus`: envelopes and how they are published
- `llm`, `responses`: who answers for an agent, by rule or through a `/responses` server
- `decision`, `context`, `agent`: what an agent attends to, remembers, and does in its turn
- `tools`: the shell, files, the web, and earlier conversations
- `config`, `orchestrator`: the setup, and which agents run
- `daemon`, `cli`, `completion`, `pingpong`: the programs
- `text`, `names`, `name_map`, `json`, `path`, `stamp`: plain data underneath

Each part that waits for something outside is a state machine: it says what is to be done next,
and is told what came of it.

`app/` does what is to be done: processes, files, sockets, the web, and the terminal. It holds one
program with three faces: `unicosd`, `unicos-cli` and `pingpong`.

`tests/` runs the library.

When an agent is to respond, the latest message of the user decides about a direct call: where it
begins with `!bash `, `!fs_read ` or `!net_get `, the tool is called. What others say never asks for
one of these. A message that begins with `!conv_load ` has the conversation loaded at once, whoever
sent it, as long as it is the latest. The result of such a call comes back to the bus as an ordinary
message of the agent. What tools say to an agent that called them of its own accord stays with that
agent.
