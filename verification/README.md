# unified_llm_adapter

A verified library that puts one request and response model in front of the
Anthropic Messages, OpenAI Responses, OpenAI-compatible chat and Gemini
generateContent APIs. Every function in `src/` is written in Verus and
proved against its `requires` / `ensures` contract.

What the library does:

- builds the native request body of each provider from a unified `Request`
  (messages, tools, tool choice, response format, reasoning options, images);
- reads each provider's response into a unified `Response` (content parts,
  text, tool calls, finish reason, usage);
- reads each provider's server-sent event stream: `sse` splits the bytes
  into records, and the stream translators (`anthropic_stream`,
  `openai_stream`, `gemini_stream_reader`) say, record by record, what each
  one asks of the stream (`stream_actions`);
- keeps a client's routing table (`client_routes`): which provider or
  profile route serves a request, which names are refused, and in which
  order adapters close;
- classifies provider errors, merges options and usage, resolves model
  profiles and catalog entries, and prepares generation requests.

Layout:

- `src/` the library; `src/lib.rs` lists its modules.
- `tests/` tests that run the library on concrete inputs.
- `app/` the parts that do I/O (files, environment, HTTP), the floating-point
  retry delays, and the serde copies of the library's types.

The calls into `serde_json`, `base64` and `toml` stand behind small trusted
wrappers, each with a doc comment that says what its contract claims.
