# spatiotemporal-agent

The verified core of a plugin-hosted agent: everything is a plugin row (the
model, the document, the tools, the surface). The library decides what a
guest plugin (a wasm component, a script or a child process) may see and what
its answers amount to; the host program in `app/` runs native tools only and
runs no guest.

## Layout

- `src/` is the library, written in Verus. Each public function states in its
  contract what it returns; `src/laws.rs` proves the properties that span
  several operations (a decision undoes a proposal, listings are ordered
  permutations, a turn ends within its round budget, and so on).
  - `json`, `text`, `bytes`, `paths`: values, text and paths as the rest of
    the library sees them.
  - `chat`: one agent turn as a state machine (ask the model, run tools,
    finish); `compaction`: how old history is shortened.
  - `toolbox`, `roster`, `approval`, `host`, `guest`, `protocol`, `registry`:
    the tool table, the plugin list, the approval queue, capabilities and
    what guests may see and register.
  - `tools`, `tool_schema`, `outline`, `prompt`, `plugins`, `creation`,
    `patch`, `session`, `workspace`, `workspace_store`, `web`: what each
    plugin and the web API decide and answer.
- `app/` is the host program: it reads the command line, the environment and
  files, talks to the model over HTTP and serves the browser page, and hands
  everything it reads to the library. It mounts the document, the model and
  the native tools; configuration layers, creation mode and guests need the
  plugin loader, which it does not have.
- `tests/` exercise the library on concrete values.

The page (`assets/index.html`) and a sample document (`assets/sample.md`)
are read from the package directory at run time.
