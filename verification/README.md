# netlimiter

The core of a Windows per-process network monitor: packets captured by
WinDivert are decoded, attributed to the process that owns their
connection, and added to that process's counters; once a second a
snapshot of all processes is published to a terminal UI over a named
pipe.

- `src/` is the library, written in Verus: every function carries a
  contract that Verus proves, and the `law_*` proof functions state the
  properties that span several calls (the counters count every recorded
  byte, a packet and its reply belong to the same process, a rebuilt
  index finds its rows, ...).
- `app/` is the program around it: the capture thread, the named pipe
  server, the queries to the operating system, the JSON encoding and the
  token bucket limiter (floating point).
- `tests/` exercises the library on concrete inputs.
