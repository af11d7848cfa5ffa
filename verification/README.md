# teralaunch

The decision logic of a launcher for the TERA game client, written and proved in
[Verus](https://github.com/verus-lang/verus), with a thin shell of ordinary Rust
around it.

The launcher keeps a window that the game talks to, answers the game's requests for
the account, the session's ticket and the server list, runs the game, changes and
restores its settings and its language, updates itself and keeps a log.

## Layout

- `src/` is the library. Every function in it is verified but the trusted
  ones, which call what is outside (see below).
- `tests/` runs the library on concrete values.
- `app/` does what the library asks for: files, the registry, the network, processes,
  windows and the log.

## How the library talks to the machine

An operation that needs the machine is a function from the replies so far to the next
step: either a request, or the result. `app/` fulfils the request, adds the reply and
calls the function again. The contract of such a function says which conversation it
holds (`*_talk`), whatever the replies are; `src/dialogue.rs` has the notions, and
`src/machine.rs` a model of a machine, on which statements about whole conversations
are proved (`src/undo.rs`, `src/revert.rs`, `src/settings.rs`, `src/status.rs`, `src/language.rs`).

## Modules

| Module | What it is about |
| --- | --- |
| `protocol`, `window` | the game's requests and notices, the window that receives them |
| `catalog`, `server_list`, `wire`, `json`, `fetch` | the server list: getting it, reading it, its order, its message |
| `credentials`, `launch` | the account and a run of the game |
| `optimizer`, `profile`, `undo`, `revert`, `settings`, `status`, `patterns`, `ini`, `pe` | the game's settings, what profiles do, and that it can be undone |
| `language` | the language of the game's texts |
| `self_update`, `version` | updates of the launcher |
| `file_log`, `calendar` | the log and its timestamps |
| `dialogue`, `host`, `machine`, `place`, `path`, `step` | requests to the machine, and where things are |
| `text`, `number`, `utf16`, `ipv4` | texts and notations |

Public proof functions whose names begin with `law_` state what holds of several
functions together. Items marked `external_body` and `assume_specification` are
trusted: their doc comments say what is claimed of which outside function.
