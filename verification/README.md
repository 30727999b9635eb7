# tamu_chat

A verified library for talking to a Chat Completions endpoint that serves
function-calling models under the `protected.` model namespace.

- `src/json.rs` — a JSON document (`JsonValue`) and its model (`JsonModel`).
- `src/items.rs` — the items of a conversation.
- `src/request.rs` — `TamuChatRequestBuilder`, which turns a conversation into
  the request body; `request_body` states that body exactly.
- `src/response.rs` — `response_events`, which turns a reply into the events of
  the turn, or into the error that the reply stands for.
- `src/headers.rs` — header maps (`http`), and the reply's request id.
- `src/catalog.rs` — the catalog of chat models.
- `src/laws.rs` — properties proved of all requests and replies.
- `app/` — the unverified edges: reading the reply's JSON text with `serde`,
  converting documents to `serde_json` values, the event channel, the call to
  the endpoint.
