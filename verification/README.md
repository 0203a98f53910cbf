# plugin

The computing core of a game-client plugin that reports a trainee's
character and skill data to a local web page, verified with Verus.

- `src/skill.rs`: skill tags and their numbers, skills from master records,
  list clicks and skill upgrades.
- `src/character.rs`: characters in a training run and finished ones.
- `src/message.rs`: the messages queued for the page.
- `src/relay.rs`: the websocket handshake (sequence-number probe and echo).
- `src/decimal.rs`: the `i32` text grammar and name segments.
- `src/icons.rs`: rank icons keyed by the rank a sprite name gives.
- `src/web.rs`: the web server's routes.
- `src/init.rs`: the checks before hooking.
- `app/`: the host plumbing (game reads through the il2cpp helper layer,
  hooks, JSON, the queue, sockets, threads).
