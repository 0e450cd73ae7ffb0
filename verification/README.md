# pace_coach

A typing-pace monitor. It watches keystrokes, classifies the typing state
every two seconds (IDLE, PASSIVE, NORMAL, STRESSED), and sends a notification
when the typing has been STRESSED for too long.

- `src/` is the verified library: the keystroke window (`collector`), the
  state decision and its labels (`classifier`), the nudge policy (`nudge`)
  and the reading of the daemon's pid file (`pid`).
- `app/` is the `pace-coach` command: argument handling, the daemon, the
  keyboard listener, the status socket, the settings file, and the
  floating-point metrics and threshold comparisons.
- `tests/` exercises the library.
