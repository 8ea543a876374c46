# gprox

A gateway that lets OpenAI-style clients talk to a local, signed-in Codex CLI. It accepts
chat completions and responses requests over HTTP with a bearer key, hands their text to
`codex app-server` over JSON-RPC lines, and turns what comes back into one JSON body or a
stream of server-sent events. It is text only: whatever a request asks for beyond that is
refused, and whatever the app-server asks for is refused too.

## Layout

- `src/` is the library: the rules of the gateway, stated in `requires` and `ensures`
  clauses and proved by Verus.
  - `request` reads a request; `reply` and `stream` write the answer.
  - `backend` is the client's side of the conversation with the app-server, as a function
    from a state and a message to the next state and what is to be done.
  - `api` holds the credentials and the refusals, `service` how a gateway is found,
    started and stopped, `config` the settings, `process` the Codex executable, `update`
    the releases.
  - `json` and `text` are the values that all of these work on; `value` is the boundary to
    `serde_json`.
- `app/` is the program around it: the command line, HTTP, processes, files and locks, and
  the order in which these are taken and given back. Verus does not read it.
- `tests/` runs the library on concrete values.

## What is taken on trust

The proofs rest on the contracts of a few calls into other crates: reading and writing
JSON (`serde_json`), request headers (`axum`), comparing secrets (`subtle`), reading and
ordering versions (`semver`), SHA-256 (`sha2`) and random identifiers (`uuid`), and on a
few functions of the standard library for strings. Each stands in a small function whose
documentation says what is claimed of the call.

## Laws

Besides the contract of each function, the public proof functions whose names begin with
`law_` state what holds across functions. Some of them:

- An unsupported parameter is never ignored, and one that decides nothing changes nothing.
- A conversation is handed on complete and in order.
- A stream sends every piece of text, and a responses stream ends with the very answer
  that the request would get unstreamed.
- What the app-server asks for is refused, whatever the client is doing.
- Messages that come early count like those that come when they are waited for.
- The tokens of an answer are those that were reported, and none where none were.
- The key of clients does not open the management listener.
- A gateway that was stopped stays stopped, as long as a run gives up its word before its
  lock, which is the program's part.
- Only a newer stable release is ever installed, from where it is published.
