# kiro_gateway

The core of a gateway that offers an OpenAI-style chat interface on top of a
Messages interface, and calls the Kiro service with a pool of credentials. The
core is written and proved in Verus.

- `src/` is the verified library.
  - `kiro/` decides the course of a call over its attempts, credentials,
    endpoints and proxies, and reads event streams.
  - `openai/` converts requests, responses and streams between the interfaces.
  - `admin/`, `model/`, `http_client` hold the model mapping, the settings and
    what HTTP clients are built from.
  - `json`, `text`, `clock`, `encoding`, `ids` are what the others are built on.
  - Files named `laws` or `*_laws` state what holds across functions.
- `app/` is ordinary Rust around it: files, HTTP clients, the loop that performs
  what the library decides, and the routes.
- `tests/` runs the library.

The names of the models behind the gateway are made of a family, which the
application is given, and a variant.
