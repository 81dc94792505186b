# daqingest

The decision logic of a Channel Access ingest daemon, written in Verus: the
per-channel and per-connection state machines, the connection set that routes
channels to connections, the status and trace views of the HTTP interface,
the time-ordered merge of event streams, and the small text formats the daemon
reads and writes. Every function under `src/` carries a contract that Verus
proves; the laws that span several calls stand there as public proof
functions.

Layout:

- `src/` — the verified library, one module per concern:
  - connections and sessions: `caconn`, `connected`, `activeca`, `channelhandler`,
    `running`, `readenum`, `subfut`, `fetchmonitoring`, `channelheap`, `conn`;
  - the connection set and its channels: `connset`, `channel`, `conf`, `gather`,
    `connlist`, `channeltrace`, `locallog`;
  - the HTTP views: `status_v1`, `channel_v1`, `metrics`, `metrics_types`,
    `extraopts`, `clks`, `regexsel`;
  - events and containers: `merger`, `container`, `events`, `offsets`, `subfr`,
    `valuetype`, `streamlog`;
  - the daemon: `daemon`, `signal`, `procstat`;
  - shared text and sequence facts: `addr`, `strorder`, `seqlemmas`, `measure`.
- `tests/` — tests that run the library on concrete values.
- `app/` — what stays outside the verifier: reading `/proc`, running the host
  lookup, floating-point timings, the JSON wire types and the JSON side of
  the dynamic commands.

Outside code is reached from `src/` through a few trusted items, whose
contracts Verus takes on trust:

- `regexsel`: `regex::Regex::new`, `Regex::is_match` and `Regex::clone`,
  with names for the compile error and the match result;
- `locallog`: chrono's `DateTime::from_timestamp_millis` and
  `DateTime::to_rfc3339`, with a name for the time text;
- `channelhandler`: `VecDeque::capacity`, of which only that it is at least
  the length is claimed.

Times come in as arguments: the library reads no clock.
