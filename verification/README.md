# PaperMachine

PaperMachine is a local-first research workbench. A Project holds durable state, a Workspace is the
user's directory that an Agent may work in, and a Session runs one Workflow with its Agents.

This crate is the decision core: what is sent to a model provider and how its answer is read, what
an Agent does in a Turn, what it may read and write, how a command is put in a sandbox, and what
the server accepts. The core is written in Verus; each function states what it returns, and the
promises that relate several functions are proved as public proof functions named `law_*`.

## Layout

- `src/protocol`: ids, entities, events, permissions.
- `src/agent`: the Turn as a state machine, history and its compaction, samples, tool calls.
- `src/model`: request bodies, event streams, WebSocket continuation, retries, routing,
  configuration.
- `src/execution`: sandbox policies, path resolution, sandbox commands for Linux and macOS,
  what a sandbox on Windows has to enforce, output.
- `src/server`: requests, Sessions, Workspaces, events, the directory dialog, start-up.
- `src/research`: Workflow generation, the catalog of Workflow programs, scheduled runs.
- `src/json.rs`, `src/text.rs`, `src/path.rs`, `src/digest.rs`: values that all of these share.
- `tests`: examples that run the library together with `serde_json`, `sha2`, `hex` and `url`.
- `app`: the server program. It performs the I/O that the core asks for and tells it what came of
  it.

Paths are read by the rules of the host, Unix or Windows, and the functions that read them are told
which. On Windows policies are made and resolved, but the backend that enforces them is not part of
this project: a command that needs a sandbox is refused there.

What outside crates compute is trusted: each call stands behind one small function, whose doc
comment says what is taken for granted of it.
