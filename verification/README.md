# dohee

Dohee is a local coding agent: a model runs in-process, proposes tool calls
in XML tags, and the agent runs them (read, write and edit files, grep,
shell commands in a Landlock sandbox, web search) in a terminal workbench.

This crate holds the agent's logic as a library verified with Verus:

- `src/` — the verified library. Each public function states its result in
  `requires`/`ensures` over spec functions; the `law_*` proof functions state
  what holds across calls (configuration layering, output limits, pruning,
  tool modes, search and completion cycling, parsing of decimals).
  - `text` — strings as character sequences: searching, trimming, lines,
    words, decimals.
  - `toolcall` — the tool-call grammar: finding the tool tags that the
    model writes (`<write_file>`, `<run_shell>`, ...) with their argument
    tags, and checking that tags are balanced.
  - `context` — messages, sessions, pruning of old tool output, compaction.
  - `agent`, `engine`, `worker`, `mcp` — the turn loop's decisions, the
    inference session's stopping rules, the MCP replies.
  - `tools`, `sandbox`, `providers`, `index` — tool registry and modes,
    edits, grep and globbing, shell and web reports, sandbox rules.
  - `syntax` — Rust syntax trees as tree-sitter parses them, and the
    definition and symbol reports made from them.
  - `config`, `prompt` — layered configuration and chat templates.
  - `tui`, `tui_input`, `tui_commands`, `tui_view` — the workbench's state,
    keys, slash commands and what each line shows.
- `tests/` — tests run against the compiled library.
- `app/` — the program around the library: command line, model and
  terminal, files, processes, network and the session store.

Calls into outside crates (minijinja, globset, sha2, tree-sitter)
stand behind small trusted wrappers whose contracts name what the call
returns.
