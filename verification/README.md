# unified-share

The core of Unified Share, an adapter-driven nearby sharing tool for a Linux
desktop, written in Verus. The library in `src/` holds the decisions and the
text it produces, each with a contract that Verus proves:

- `status`: the status contract of the sharing routes, the routing of share
  requests, and the text status lines.
- `airdrop`: judging the native AirDrop route from what a probe found, and
  parsing the `iw phy` report and `/proc/net/if_inet6`.
- `browser`: the Browser / QR route: transfer IDs, session tokens, request
  routing, the index page, HTTP headers, and the launcher's wait loop.
- `quick_share`: the Quick Share discovery table and the transfer watch.
- `history`: history entries, their retention and listing.
- `settings`: device names.
- `random`, `text`: randomness and the text functions the others rest on.

`app/` is the command-line program around the library: argument parsing, the
file system, processes, the network, JSON and the Quick Share service.
`tests/` exercises the library.
