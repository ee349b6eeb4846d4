# jitsi_guest

The verified core of a Jitsi Meet guest-return client and simulcast sender.

- `src/` is the library, verified with Verus:
  - `error` — the backend error type;
  - `jitsi` — the backend data model (rooms keyed by id, invitations), the
    guest-list URL of a producer, and room lookup;
  - `text` — decimal rendering, pattern replacement and splitting, with
    their laws;
  - `query`, `uri` — query strings with the conference room added, and the
    WebSocket URLs built on them (URI parsing and form encoding come from
    `http` and `serde_urlencoded`);
  - `pipeline` — GStreamer pipeline descriptions and the simulcast layers;
  - `session` — the decisions of a session: log level, authentication,
    conference settings, receive constraints, stereo from the backend, the
    notification loop;
  - `rtc_stats` — outbound RTP stream statistics.
- `app/` is the program around it: options, HTTP, JSON, GStreamer and the
  conference connection.
- `tests/` exercises the library on concrete values.
