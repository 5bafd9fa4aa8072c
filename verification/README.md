# responses_chat

Conversion between the OpenAI Responses API and the Chat Completions API,
verified with Verus.

- `src/json.rs`: the JSON value type `Json`, its model `JsonV`, lookups.
- `src/convert.rs`: roles, message content, tools and tool choices.
- `src/request.rs`, `src/response.rs`: request and response bodies, both ways.
- `src/sse.rs`: splitting an event stream into blocks, lines and fields.
- `src/stream.rs`: the event conversions, Chat to Responses (a state machine)
  and Responses to Chat.
- `src/wire.rs`: the conversions from stream bytes to event text: blocks,
  JSON reading (through `serde_json`), the events, and their JSON text.
- `src/laws.rs`: properties that span several functions (round trips, the
  shape of a converted stream).
- `app/`: `serde_json` values for the bodies, and the async loops that hand
  each upstream chunk to the library and send on what it returns.
