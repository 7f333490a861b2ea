# window_monitor

The rules of a monitor that watches which window of a desktop is in the
foreground, verified with Verus.

- `src/state.rs` keeps the record: the switches of the last day, and for each
  window when it was first seen and how long it has been in front.
- `src/analysis.rs` decides what is reported of a switch, and writes it out.
- `src/hooks.rs` decides what the hooks into the desktop do.
- `src/utils.rs` names windows and processes.
- `src/time.rs` holds points in time, and the calls into chrono.
- `src/model.rs` says in mathematical terms what the contracts speak of.
- `src/laws.rs` proves what holds over any course of switches.

An average is kept as a number of switches in a number of seconds, so that it
is compared with a threshold exactly. `app/` is the Windows program around the
library: it talks to the system, and turns averages into decimal fractions.

A function whose name ends in `_at` takes the time from its caller; the one
without reads the clock.
