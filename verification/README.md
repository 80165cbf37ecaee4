# opcua-tag-browser

Turn an OPC UA server's address space into a flat, cacheable tag list, then
monitor and write those tags.

The project is split in two:

- `src/` is the library, verified with Verus: the tree walk (depth limit,
  cycle cutting, partial-scan reporting, property exclusion), paginated
  browsing, node filters, tag lookup by path, name, node ID and glob, the
  attribute read pass, connection options and credential checks, reads and
  writes through a `TagClient`, batch sizing for polling, change detection,
  quality labels, chunked subscribing, connection-transition reporting, and
  the exponential backoff behind a collector's restarts. Each public function
  states its result in its contract. Where the result comes from a server
  or a session (a reply, a connection state, how a value is rendered), the
  contract states it over what the session may give for exactly the calls
  made. The laws that tie functions together are public proof functions
  next to them.
- `app/` is the ordinary Rust around it: the live `opcua` session and the
  conversions to and from the library's plain values, `connect`, the
  `Collector` with its threads, sinks (log and JSONL files), the JSON tag
  cache, and value formatting that involves floating point.

`tests/` exercises the library from outside, against scripted sessions and
browsers, so nothing there needs a server.
