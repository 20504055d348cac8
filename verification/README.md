# asteroids

The rules of a vector-style asteroids arcade game, verified with Verus.

- `src/rocks.rs`: asteroid sizes, their radii, points and how they split.
- `src/session.rs`: the session state (screen, score, high score, lives,
  wave), the per-frame screen logic, waves, ship collisions, steering and the
  firing limit.
- `src/volley.rs`: the collision pass in which bullets destroy asteroids,
  specified step by step and with its bookkeeping laws.
- `src/spawn.rs`: random choices taken from macroquad's generator (entry edge,
  outline vertex count).
- `src/hud.rs`: the zero-padded score readouts.
- `app/main.rs`: the game itself on macroquad: window, input, drawing, and
  all floating-point motion, which the library does not model.
