# duoswitch

Switches the Windows light/dark theme and the desktop wallpaper (optionally
the lock screen image) at fixed times of day or at sunrise and sunset.

- `src/` is the scheduling core, written in Verus and verified: the
  configuration model and its correction, the switches of a day, the search
  for the current and the next switch, the decisions of a scheduler tick and
  the updates of the scheduler state, plus the small encodings the Windows
  side needs (registry values, the helper task definition in UTF-16LE,
  JPEG thumbnails made through the image crate, base64). Its laws (each slot asserted once, no fight with the
  system's own theme switching, idempotent correction, ordered switches, …)
  are stated and proved as `law_*` proof functions.
- `app/` is the Windows program around it: the Tauri user interface and
  tray, the configuration file (serde), the scheduler thread, the Win32 and
  registry calls, the file reads, and the floating-point arithmetic (sun
  position, thumbnail size).
- `tests/` exercises the library.

Coordinates are held in the library as millionths of a degree, moments as a
Unix timestamp with the local calendar day (January 1 of year 1 is day 1)
and the local wall-clock hour and minute.
