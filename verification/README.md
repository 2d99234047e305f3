# Aster

Aster is an agent harness for software work: it lets a language model read,
search, edit and run things in a repository, one tool round at a time.

`src/` is the library. It holds what the harness decides, with contracts that
Verus proves:

- `turn`, `rounds`, `steering`, `plan`: one turn of the agent, from the first
  round to the forced answer.
- `tools`: the tools that are offered, what a call comes to, and the guards
  before a read, an edit or a command.
- `swarm`: calls that hand work to sub-agents.
- `client`: requests, streams, retries, usage and errors of a chat endpoint.
- `chat`: where a conversation comes from, its prompt, its goal, its name and
  how it is folded.
- `settings`: the configuration file and its layers, edited in place.
- `config`, `provider`, `catalog`, `setup`, `login`, `cli`: keys, endpoints,
  first-run setup, sign-in and flags.
- `json`, `json_text`, `text`, `message`, `jev`: what the others are written in.

`app/` is the program around it: flags, files, the network and the terminal.
`tests/` runs the library.
