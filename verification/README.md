# grok2api

The request handling of an OpenAI-compatible front end to Grok, written in
Verus and verified.

- `src/` is the library: the model catalogue (`model`), the reading of the
  model table of the published README (`model_source`), the checking of chat
  requests (`api_chat`), the flattening of chat messages and the shapes of
  the upstream request (`chat`), the `/v1/responses` messages, responses and
  stream events (`responses`), a JSON value type (`json`), the text
  operations they rely on (`text`) and the calls into `uuid`, `chrono` and
  `serde_json` (`outside`).
- `app/` holds the HTTP side: axum routers and handlers, serde forms of the
  request types, and the network calls.
- `tests/` runs the library on concrete inputs.
