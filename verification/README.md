# timesplit

A relay for WakaTime-compatible editor plugins: it receives heartbeats and
status-bar queries on a local address and forwards them to several servers,
the first of which (the main server) answers the client.

The library in `src/` is verified with Verus:

- `config`: the configuration (listening address, timeout, servers) and the
  commands that change the server list, the server listing with masked keys,
  the start-up check and the WakaTime configuration written by `setup`.
- `wakatime`: reading the server URL and key from an existing WakaTime
  configuration (through `rust-ini`) and taking it as main server.
- `headers`: the request headers, an `http::HeaderMap` behind trusted
  wrappers, and the user agent that is forwarded.
- `relay`: the URLs, headers and authorization of the forwarded requests, the
  steps of relaying a heartbeat to every server, and what to answer from the
  main server's reply.
- `text`: trimming, decimal notation and text comparisons the above rely on.
- `laws`: properties that relate several operations.

`app/` is the program around it: command line, files, and the HTTP server and
client.
