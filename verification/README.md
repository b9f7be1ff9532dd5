# minitools

Small terminal tools whose logic is verified with Verus:

- `shell`: a full-screen command shell with `cpu`, `mem`, `clear` and `cd`
  built in; other commands run as programs.
- `chat_client` and `chat_server`: a line-based chat over TCP.
- `sync`: a one-way directory synchroniser that plans which files to copy and
  which to delete.
- `price`: a cryptocurrency price viewer.
- `llm_chat`: a REPL for a local language model server.
- `todo`: the frame of a to-do list screen.

`src/` is the verified library: state machines, text handling (`text`,
`input`) and planning, with their contracts and laws. The calls into
`sysinfo`, `path-clean` and a few `std` string functions stand behind trusted
wrappers whose contracts are documented where they are declared.

`app/` is the front end: one binary with a subcommand per tool, doing the
terminal, network and file-system work and handing plain values to the
library.
