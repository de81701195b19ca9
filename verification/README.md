# demo2

Telemetry of sensor test benches. A collector takes samples in from serial ports, a CAN
channel and TCP connections, watches them for alarms, stores them in PostgreSQL and feeds user
interfaces. Senders make up samples for tests or replay recorded ones.

- `src/` is the library, verified with Verus: frame codecs, device sessions, the ways in, alarm
  rules, persistence decisions, command lines, calendars, and the models behind the windows.
  Every public function states what it returns; functions named `law_*` state what holds of
  several of them together.
- `app/` is the program around it: sockets, serial ports, the CAN driver, the database,
  the windows, and arithmetic on floating-point numbers.
- `tests/` runs the library on concrete values.

## Numbers and time

The library holds floating-point numbers by their bits (`number::Real`), or as the text or
integer that they came in as (`number::Number`). It compares them; sums, means and formatting
are done by the program, which hands in the results, or the operation where the library decides
what it is applied to. Clocks are read by the program too: moments are arguments of the
library's functions.

## Where to look

- `protocol`: the three wire formats. `protocol::stream` says what it means to find all frames
  in a stream that arrives in pieces.
- `session`: one device connection as a state machine. The program performs reads, writes and
  waits, and reports how they went.
- `ingress`, `transport`: serial, CAN and TCP as ways in.
- `collector`: configuration, user interface feed, batches for the database, health report.
- `ui`, `sender`: what the windows show and do.
- `fault`: what could not be done and why, as it is reported to people.
- `buffer`, `json`, `toml_doc`, `text`, `app`: what is relied on of the crates `bytes`,
  `serde_json`, `toml` and `dashmap`, and of the standard library's strings.
