# zeo-systray

A desktop tray indicator for coding-agent sessions, with its core verified
in Verus.

- `src/` — the verified library:
  - `protocol` — the hook payload, the event put on the socket, and the
    narrowing between them (the privacy boundary).
  - `state` — the tray state: sessions, notification history, muting, the
    aggregate status and the tooltip text, with the laws they obey.
  - `calls` — laws over any sequence of calls from the empty state: which
    sessions are listed, in which order, and what the history holds.
  - `tray` — what the StatusNotifierItem publishes (icons, status, menu).
  - `icon`, `open`, `daemon`, `text` — icon settings, the opener command
    line, the demo sessions, and number/list rendering.
- `app/` — the program: argument handling, stdin, the Unix datagram socket,
  the D-Bus tray (`ksni`), desktop notifications (`notify-rust`), logging,
  and the JSON shapes (`serde`) of the payload and of the datagram.
- `tests/` — tests of the library.
