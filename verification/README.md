# nara

The verified core of the nara.io game server (a diep.io-style arena game).

- `src/` is the library, checked by Verus: the entity arena and its tank,
  shape and bullet stores, the spatial hash, the integer game rules
  (damage, regeneration, experience and levels, the leaderboard), the
  script scheduler, packet framing, the X25519 handshake, connection keys
  and nonces, and the anti-cheat bookkeeping.
- `tests/` exercises the library with the real outside crates linked.
- `app/` is the server program around it: sockets, the async game loop,
  floating-point physics, Lua scripting and serialisation.
