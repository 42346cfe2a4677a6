# cg_bridge

A `/v1/responses` bridge that drives the OpenAI Codex engine on a bring-your-own-key Gemini model, as if it
were a native OpenAI responses model. The decisions, mappings and state machines are a library verified
with Verus; the sockets, clocks and child processes around it are ordinary Rust.

- `src/` is the library.
  - `codex`, `gemini`, `responses`: the data of the three sides.
  - `translate`, `request`, `launch`, `auth`: from a codex request to a gemini request, or to a refusal.
  - `stream`, `finish`, `usage`, `session`: from gemini chunks to response events.
  - `protocol`: what holds of every stream of events, whatever upstream does.
  - `catalog`: the model catalog.
  - `rpc`, `driver`, `harness`: the JSON-RPC clients of `codex app-server`.
  - `json`, `text`, `ids`, `clock`: what the library takes from `serde_json`, `uuid` and the standard library.
- `app/` is the programs: the bridge (default), `gen-catalog`, `appserver-driver`, `verify-harness`.
- `tests/` runs the library on concrete values.

The bridge reads `GEMINI_API_KEY`, `PORT` and, where a `Bearer` credential is to be asked for, `BRIDGE_KEY`.
`gen-catalog` reads the shared prompt from `base-instructions.txt` in the working directory. The two clients
read `BRIDGE_PORT`.
