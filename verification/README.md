# lite-llm

A local LLM server with data-driven tool calling: models run on LiteRT-LM or
llama.cpp, tools are HTTP requests, MQTT round trips or builtins described in
a database, and answers stream over HTTP/SSE.

The decisions of the server are a Verus library with its contracts proved;
the binary around it does the I/O.

## Layout

- `src/` — the verified library
  - `text.rs` — character-level text operations (search, replace, trim,
    split, integer parsing) and their specifications
  - `json.rs` — the `serde_json::Value` interface the library reads and
    builds JSON through
  - `engine.rs` — messages, events and responses shared by the layers
  - `tools.rs` — tool definitions and template substitution
  - `registry.rs` — the tool registry, with its laws (what `get` answers
    after `insert` and `delete`)
  - `executor.rs` — what each kind of tool handler sends and how replies
    are reported
  - `session.rs` — the tool loop of a conversation turn, as a state machine
  - `llama.rs` — reading llama.cpp output, KV-cache reuse, token generation
  - `litert.rs` — LiteRT-LM messages and response parsing
  - `model_manager.rs` — loaded models, model paths, and the steps to fetch
    a model file from HuggingFace
  - `download.rs` — model downloads, as a state machine
  - `memory.rs` — full-text queries and deduplication of memories
  - `api.rs` — requests, replies and the handlers' decisions
  - `config.rs` — server settings and defaults
- `tests/` — tests of the library on concrete values
- `app/` — the server: routes, database, model engines (FFI), tool
  transports, and serde copies of the library's types
