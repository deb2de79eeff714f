# Jev Copilot

A conversation co-pilot for the web: judge first, then write. A conversation goes to a judge,
which answers seven questions on it in one request. With that verdict a chat model drafts
replies, and the judge ranks them. A screenshot or a pasted transcript can be turned into a
conversation first. The user copies a draft; nothing is ever sent for them.

The server holds no keys. Every request upstream is paid for by the key that the browser sends
in `X-Jev-Key`, and no address comes from the browser.

## Layout

- `src/` is the library, verified with Verus: what is asked upstream, what is made of the reply,
  and what the browser is answered. Each function's contract says what it returns.
  - `text`, `json`, `value`: strings, JSON as plain data, and JSON text by way of `serde_json`
  - `search`: finding turns, drafts and flags in JSON of unreliable shape
  - `questions`: the questions for the judge and the prompts for the chat models
  - `exchange`, `completion`: calls, their outcomes, and the content of a completion
  - `judge`, `draft`, `recognition`, `probe`: the steps of the pipeline
  - `server`: routes, keys, and how a request goes on
  - `config`: settings, the address to listen on, and where the assets lie
- `app/` is the server round it: the command line, the environment, HTTP, and the disk.
- `tests/` runs the library on concrete values.

What the library takes on trust are the calls into `serde_json`, in `src/value.rs` and
`src/json.rs`. The comment above each says what it claims.
