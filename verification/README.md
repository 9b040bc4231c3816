# vwi

A keyboard-driven window switcher for Windows: a global hotkey opens an
overlay listing the configured projects whose pattern occurs in a visible
window's title; pressing a project's key brings that window to the front.

- `src/` is the verified library: hotkey parsing (`hotkey`), project-to-window
  matching and key lookup (`switcher`), the overlay's state machine and size
  (`overlay`), the painting geometry (`overlay_paint`), the window rules
  (`windows`), message classifiers (`tray`, `hotkey`), the configuration
  types and defaults (`models`, `defaults`, `vk`), and the character-level
  text operations they rest on (`text`).
- `app/` is the Win32 program around it: the message loop, the overlay window
  and its painting, the notification-area icon, window enumeration, reading
  the TOML configuration, and the log file.
- `tests/` exercises the library on concrete values.
