# red-tui

A terminal network monitor: it watches a few hosts with periodic pings,
scans the local `/24` network (broadcast ping, a sweep of every address and
the ARP table), traces the route to a public resolver, and draws it all with
ratatui.

## Layout

- `src/` is the verified library.
  - `text.rs` and `literals.rs`: characters, words, lines, decimal numbers,
    IPv4 addresses and float literals, stated over `Seq<char>`.
  - `models.rs`: targets, devices, hops and latencies.
  - `network.rs`: the parsers for the output of `ping`, `arp`, `traceroute`
    and the routing table, the merge of scan results, the ping sweep and the
    command lines of the tools.
  - `app.rs` and `input.rs`: the state of the monitor, the worker messages
    it applies and what each key does.
  - `layout.rs` and `ui.rs`: where each part of a screen goes and what it
    shows.
  - `laws.rs`: what holds across operations (the state invariant, scans,
    pings, windows of long lists).
- `app/` is the program around it: the terminal, the worker threads that run
  the tools, and the drawing with ratatui.
- `tests/` holds the tests.

Latencies are kept as the text that `ping` and `traceroute` printed; the
program turns them into numbers only to round them for display and to plot
the latency history.
