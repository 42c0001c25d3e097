# gbfr_logs

A combat log for Granblue Fantasy: Relink, written in Verus. The library decides what is made
of what the game does; every function of it carries a contract that Verus proves.

- `src/hooks/`: what is made of the calls of the game. Nothing in it touches memory: a function
  that needs to know more says which place is to be read, and is asked again.
- `src/parser/`: the log of an encounter, the state worked out of it (live and from the log),
  the party, and when an encounter is saved. `laws.rs`, `totals.rs`, `accounts.rs`,
  `times.rs` and `order.rs` state what holds of several functions together.
- `src/master_traits.rs`: what a save file of the game tells of the active party.
- `src/cap_detection.rs`, `src/double.rs`, `src/float32.rs`: damage caps, and the arithmetic of
  doubles and floats in whole numbers.
- `src/blob.rs`, `src/clock.rs`: the compression library and the clock, which are trusted.
- `tests/`: the tests of the library.
- `app/`: ordinary Rust around it: the window, the database, the save files, the running game.
