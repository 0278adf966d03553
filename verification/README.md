# yafb

A helper for a game client on Windows: a healing spammer, a collector that
replaces batteries, a kitebot, a dungeon teleporter and chat notifications.

- `src/` is the library, verified with Verus: configuration defaults
  (`config`), what the prompts accept (`input`, on top of `text`), the
  decisions taken for each client window (`clients`), the reading of the
  client's memory buffers (`memory`), the chat notifications (`notify`) and
  the steps of a battery change (`battery`).
- `app/` is the Windows program around it: console prompts, the TOML
  configuration files, and the calls into the client's windows and memory.
- `tests/` runs the library on concrete inputs.
