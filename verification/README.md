# milky_ob11_bridge

A bridge between a Milky gateway (upstream) and OneBot 11 bots
(downstream), with its logic proved by Verus.

## Layout

- `src/` — the verified library.
  - `bridge/message_ir.rs`: message segments, CQ strings and OneBot
    segment arrays in both directions; `bridge/cq_escape.rs` and
    `bridge/round_trip.rs` prove that what is written reads back.
  - `bridge/translator.rs`: upstream events to OneBot events, caching
    message refs and storing pending requests.
  - `bridge/service.rs`: what the bridge does about each OneBot action
    (answer, refuse, or call upstream) and how upstream results are
    answered.
  - `state/`: the LRU message cache (over the `lru` crate), the pending
    request map and the connection state.
  - `onebot/`: API responses, lifecycle and heartbeat events, request
    authorisation, HTTP parameters and reverse-connection plans.
  - `milky/`: Milky data as the bridge reads it, segment conversion in
    both directions, event conversion.
  - `config.rs`, `cli.rs`, `json.rs`, `datamap.rs`, `text.rs`: settings,
    arguments, a JSON value with its compact text, a sorted string map,
    and string helpers with their specifications.
- Two data types are the library's own:
  - `DataMap` holds a segment's string fields in a `Vec` kept sorted by key
    with unique keys, which is how a `BTreeMap<String, String>` orders
    them. std's `BTreeMap` was tried with `String` keys: vstd specifies
    its `insert` only for key types known to obey `Ord`'s specification,
    which `String` is not, so not even the length after one insertion
    could be proved.
  - `JsonValue` models JSON as the logic reads it. Its compact text
    (`json_text`, written by `write_json`) is needed in `src/` where a
    segment parameter is not a string; the frames that go out are written
    by serde_json in `app/`, and an HTTP request body is read by serde_json
    in `src/onebot/server.rs` (`parse_json_object`).
- `app/` — the program around the library: configuration file, logging,
  the Milky client, the websocket and HTTP servers, and the event loop.
- `tests/` — tests of the library.
