# tfm2_editor

The verified core of TFM2 Editor and its Bridge, a live editor for
Teamfight Manager 2 careers.

- `src/` is the library, checked by Verus: the Bridge's request lines and
  command payloads (each writer proved to read back through its parser),
  the hex and JSON encodings, the order of the team, player and staff
  lists, the replay and team management tables, response framing,
  currency display text, the localization lookups and reports, the global
  history snapshot helpers and the queue of pending contract overrides.
- `tests/` runs the library on concrete values.
- `app/` is the part that talks to the game, the network and the disk:
  the mod's entry points, the TCP server, file loading and the
  floating-point amount checks. It calls into the library for every
  decision that does not need the game itself.
