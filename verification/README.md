# busyflag

The decision logic of a small tray app that turns a Luxafor Flag USB light red
while any app is using the microphone (optionally the camera), amber while the
screen is locked, and green when nobody is capturing — with every decision
specified and proved in Verus.

## Layout

- `src/` — the verified library
  - `text.rs`: trimming, prefixes, substring search, line splitting, decimal
    numbers, with specifications matching the standard library's behaviour
  - `config.rs`: the settings, their defaults and bounds, brightness scaling,
    ignore lists
  - `layers.rs`: built-in defaults, machine-wide defaults and the user's file,
    merged key by key
  - `manager.rs`: the free/busy state machine, force-busy timer, hold time,
    disconnect grace period, status line
  - `light.rs`: the Luxafor HID reports and reconnection timing
  - `detect/`: what the OS-specific probes mean (PulseAudio/ALSA text and
    JSON, CoreAudio property bytes, the Windows consent store)
  - `tray.rs`, `commands.rs`: menu and settings-window decisions
  - `laws.rs`: properties that span operations
- `tests/` — tests on concrete values
- `app/` — the Tauri application around the library: threads, HID and OS
  calls, files, the tray and the settings window
