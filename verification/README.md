# yrp3d

Turns a YGOPro replay (`.yrp`) into a YRP3D file.

A replay stores the seed, the decks and the players' responses of a duel. What was seen of
the duel is not in it. To find out, the duel is hosted again: two players give the recorded
responses, and an observer records what the server sends.

## Layout

- `src/` is the verified library. It does no I/O.
  - `header`, `replay`, `responses`: the layout of a replay file.
  - `read`: opening a replay.
  - `setup`: seed, rules and decks of its duel, and which duels are supported.
  - `message`: what a server message says, and how a player reacts to it.
  - `client`, `start`: bringing the duel to its first turn.
  - `drive`: playing it with the recorded responses.
  - `yrp3d`: writing the record.
- `app/` hosts the duel: channels, timeouts, and the global state of the engine.
- `tests/` runs the library against the crates that it stands on.

`start` and `drive` are state machines. The caller performs what they ask for and tells them
what happened.

## What is trusted

Parsers and writers of `binrw` and `ygopro-data`, the host rules of `ygopro-data`, the decoder
of `lzma-rs`, and `std::str::from_utf8` are called through functions marked `external_body`.
The comment above each says what is claimed of it.
