# sorakey

A daemon that plays mechanical-keyboard sounds on Linux, controlled over a
Unix socket, with Ctrl+Alt+M as a global mute.

## Layout

- `src/` — the library, written in Verus. Every function carries a
  `requires`/`ensures` contract that Verus proves: key naming and the
  evdev modifier state machine, soundpack validation and V1→V2 conversion
  planning, control-request parsing and refusals, pack and settings paths,
  the health record, the bounded log buffer and its masked export, the
  inotify event parser and the watchdog's miss counter.
- `tests/` — ordinary Rust tests of the library on concrete values.
- `app/` — the program around the library: sockets, files, threads, input
  devices, audio decoding and output. Floating-point audio work (resampling,
  channel mixing, volumes, millisecond timings) lives here.

## Laws

Besides the per-function contracts, `src/` states properties that span
several calls as public proof functions (named `lemma_*`), for example:

- qualifying a soundpack id twice gives what qualifying it once gives;
- a preinstalled pack is never deletable;
- rescue and backup names for different attempts never collide;
- concatenated clips lie back to back;
- the watchdog acts only after a sustained run of failed checks;
- the mute hotkey needs both Ctrl and Alt held;
- a config newer than the daemon is never offered for conversion.
