# aabot

A personal AI assistant: a line-mode and terminal chat, an HTTP server
with an AG-UI event stream, built-in file, shell and web tools, MCP tool
servers, and saved sessions.

The library under `src/` holds the assistant's logic, verified with Verus:

- `config` — resolving `aa.json`, `AA_*` variables and command-line values
  into the provider, model, key and URL a run uses;
- `session` — one conversation turn as a state machine: ask the model,
  stream its reply, run the tools it calls, ask again;
- `ollama`, `llm` — the Ollama chat request, its streamed reply objects,
  messages and tool calls;
- `sse` — the chat endpoint's messages and the translation of a turn's
  events into AG-UI run events;
- `agui_run` — the stand-alone server's chat run: at most ten model
  rounds, each one text message, with the tools called between them;
- `registry`, `builtin`, `tool`, `tool_run`, `fs_tools`, `matcher` — tool
  definitions and registries, the built-in tools' requests, reports and
  results;
- `mcp`, `extension`, `extensions` — MCP catalogs and replies, extension
  registries and the router of extension tools;
- `tui`, `transcript`, `markdown`, `clipboard`, `cli` — the terminal chat
  screen, its drawing, markdown rendering, clipboard commands and the
  line-mode output;
- `storage`, `server`, `terminal` — saved sessions, the server's answers,
  and web terminals;
- `text`, `table`, `sort`, `json` — text, small maps, stable sorting and
  JSON values.

Outside crates (`serde_json`, `pulldown-cmark`, `regex`, `glob`, `uuid`)
are called through small trusted wrappers. Where what a crate returns can
be said in a few lines, the wrapper's contract says it; where it is a
function of the arguments, such as a JSON parse or a regex match, the
contract gives it a name. The conversions of `pulldown-cmark`'s events
into the library's own, variant for variant, claim nothing by themselves:
they feed only the named parse of a document.

`app/` is the program around the library: the `aa` command (started as
`aa-server`, the stand-alone server), the axum server, the Ollama HTTP
client, MCP processes, the file system, pseudo terminals and the ratatui
screen. `tests/` exercise the library.

Two parts of the assistant are not built here. The WebAssembly extension
loader needs `wasmtime`, which is not available to this build; its pure
helpers (tool definitions of a loaded extension) are in `extensions`. The
client for OpenAI-compatible providers is not part of this source; the
`aa` command answers such providers with an error, and only Ollama is
spoken to.
