# aisetu

A provider-independent AI conversation bridge: OpenAI-style chat requests are
converted into a canonical conversation, routed to a provider adapter, and
the provider's answer is turned back into an OpenAI-style response.

The library under `src/` is written in Verus; its functions carry contracts
that Verus proves (the shared shutdown flag, an atomic that other threads may
set at any moment, is the exception). Its modules:

- `text`, `json`, `named`: character sequences, a JSON value model, and
  ordered name/value tables.
- `error`, `id`, `limits`, `config`, `redact`, `shutdown`: core types and the
  configuration rules.
- `conversation`, `request`, `response`: the canonical conversation model and
  its validation.
- `extractor`, `normalizer`, `validator`, `translator`, `canonical`:
  extraction of assistant text, white-space normalization, payload checks and
  translation to and from provider payloads.
- `schema`, `needle`, `intelligence`: JSON schemas and the local structured
  extraction engine.
- `provider`, `registry`, `reliability`, `provider_error`, `http_provider`:
  providers, model routing, resilient extraction, error normalization and the
  HTTP adapters (split around the transport call).
- `session`, `session_store`, `secret`, `capture`: provider sessions, their
  store and manager, secret filing, and browser-login capture.
- `api`, `streaming`: the decisions of the OpenAI-compatible API and its
  streamed events.
- `laws`: properties that relate several operations.

`app/` holds the runtime that cannot be verified: configuration files and the
environment, logging, the axum server, the transport, file-backed stores and
browser launching.
