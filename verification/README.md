# vt_client

The rules of the Void & Thunder game client, written in Verus and proved
against their contracts.

- `src/` is the verified library. Each module states what its functions do
  over mathematical models (`Seq`, `Map`, spec functions) and proves it; the
  `law_*` proof functions state properties that span calls or hold of every
  input (escaping round-trips, a run is recorded once, a merge never touches
  live state, a clamped loadout lands in range, and so on).
- `tests/` runs the library on concrete values.
- `app/` is a small command-line front end: it reads and writes files, and
  holds the floating-point arithmetic (throttle values, stick shaping, aim
  geometry, sample quantisation) that the verified library leaves to its
  caller.

Floating-point state (positions, timers, fractions) never enters the library:
where a readout needs one, it arrives already rendered as text, and where a
decision depends on one, the caller passes the decision in.
