# netspd

A network speed test for the terminal: ping, jitter, packet loss,
download and upload against LibreSpeed, Ookla, Fast.com or your own
servers, plus a small built-in speed test server (`netspd serve`).

## Layout

- `src/` — the library; every function is proved against its contract
  except four small wrappers around std (`string_of`, `to_lowercase`,
  the Debug form of a string, `String::from_utf8_lossy`), whose contracts
  are trusted:
  - `text` — character-level string handling with spec functions;
  - `models`, `providers` — servers, URL rules and provider directories;
  - `config` — settings and their mapping onto the engine configuration;
  - `network` — cache busting, ICMP hosts, payloads, discovery ordering;
  - `scheduler` — the order of a test run as a state machine;
  - `state`, `controller` — the application state and its reducers;
  - `serve` — request parsing, routing and replies of the built-in server;
  - `history`, `prom`, `score`, `metrics`, `headless`, `cli`, `errors`.
- `tests/` — tests of the library on concrete values.
- `app/` — the program: command line, configuration files, HTTP and ICMP
  measurements, floating-point statistics and the headless runner.
