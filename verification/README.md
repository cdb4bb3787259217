# agent_rs

Verified building blocks for tool-using LLM agents: the decisions of a
ReAct (Reasoning + Acting) loop and of its streaming variant, permission
policies for tool calls, recovery from calls of unknown tools, MCP server
configuration, the logic of the workspace tools (glob and substring search,
directory listing, document access, RAG source management), word-window
chunking for retrieval, token accounting and history compaction, embedding
batches, checkpoints and agent dispatch.

Layout:

- `src/` — the library, written in Verus. Every function carries a contract
  (`requires` / `ensures`) over a mathematical model of its data, and public
  proof functions state the laws that relate several operations.
- `tests/` — tests of the library on concrete values.
- `app/` — the input/output around the library: reading and writing files,
  walking directories, loading configuration and checkpoints, prompting the
  user, logging, converting the model framework's messages, and the drivers
  that run the library's loop machines against a model (calling the tools,
  sleeping between retries and compacting history when the library says so):
  the ReAct loop in its current and classic rules, the streaming loop, and the
  managed agent (a chat retried with backoff, with optional compaction).
