# backyard

A benchmark hub for OpenAI-compatible inference servers: it queues speed
tests and quality evaluations against stored endpoints, runs them with a
queue worker, and ranks models on a leaderboard.

- `src/` is the verified library (Verus).  Each module pairs executable
  functions with spec functions that state what they compute:
  - `text`: character-level string operations (trimming, splitting, lines,
    decimal and hex writing, number parsing);
  - `json`: a model of JSON documents; `serde_json` is reached through seven
    trusted (`external_body`) functions: the three wrappers that parse a
    whole text, parse the value at the start of a text, and write text,
    and four conversions between `serde_json::Value` and the model that
    they use;
  - `state`: the stored records and the life cycle of a run's status;
  - `endpoint`: API roots, chat and sandbox URLs, authentication headers;
  - `auth`: password hashing (Argon2), session tokens and cookies;
  - `server`: settings, request checks and queries of the HTTP API;
  - `worker`: where a claimed run is dispatched;
  - `bench`: the speed test's counts and reported statistics;
  - `harness`: the evaluation harnesses' command lines and result parsing;
  - `cli`, `orchestrator`, `memory`: the service commands, the engine
    container and the resident-size reading.
- `app/` is the program: the axum server, the SQLite store, the worker loop,
  subprocesses, HTTP requests and the floating-point statistics.
- `tests/` exercise the library on concrete values.
