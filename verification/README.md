# adb_tui

A terminal manager for Android devices that talks to the ADB server
(127.0.0.1:5037) and runs the `adb` tool. The library under `src/` holds all
of its logic, verified with Verus; `app/` is the terminal program around it.

## Library (`src/`)

- `text` — whitespace, trimming, lines and words of text (words and trimming
  as `str::split_whitespace` and `str::trim` see them; lines are the pieces
  between `'\n'` characters, so a final empty piece and any `'\r'` stay, which
  the callers' word splitting and trimming then drop), decimal numbers.
- `frame` — the wire framing: requests prefixed by their length in four hex
  digits, and reading hex lengths from replies.
- `device`, `files` — devices as the server lists them; directory listings
  as `ls -la` prints them.
- `error` — the errors of ADB operations and their messages.
- `exchange` — the conversations with the server and the `adb` tool, each a
  machine that names the next outside step and decides on its report.
- `session` — every client operation (listing devices, running a shell
  command, pulling and pushing files, ...) as one such conversation.
- `tracker` — following the device list with `host:track-devices`.
- `host` — where `adb` may be installed and how it is started.
- `locate` — the search for the `adb` binary, as a machine that names each
  probe (running it, a file test, an environment variable, a directory).
- `console` — the console state and how it answers keys, device updates and
  command results.
- `laws` — properties across operations: the framing round trip, what a
  request answered `OKAY` or `FAIL` gives, the shell conversation, the
  device list round trip and reading it in parts, what a whole device scan
  ends with, whole runs of the operations that first start the server and
  of the version query, the search for `adb`, and the console's invariants.

## Program (`app/`)

Performs the steps the library's conversations name (sockets, processes,
the file system, sleeping), draws the screens with ratatui and reads keys
with crossterm.
