# sptf-tui

A keyboard-driven terminal music controller for Linux, built on MPRIS/DBus.

The crate is split in two:

- `src/` is the library, written in Verus: the playback domain model, the
  parsing of MPRIS metadata, status strings and `pactl` output, the
  keybinding parser and keymap, configuration layering, the decisions of
  the event loop and of the player watcher, the album-art cache and loader
  decisions, and what each pane of the interface shows. Every function
  there carries a contract that Verus proves.
- `app/` is the program around it: the terminal, the session bus (zbus),
  HTTP and file access, the configuration file reader and logging.

Tests of the library are under `tests/`.
