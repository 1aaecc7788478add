# cache_fr

An in-memory key/value cache. Keys are strings; values are integers, strings,
booleans, sets or lists, each with an optional expiry moment (microseconds since the
Unix epoch, `0` for never). Reading a key whose entry has expired removes it.

- `src/` is the library, verified with Verus:
  - `commands_proto` — the request and response messages;
  - `value_structs` — stored values, their views, and conversion from and to messages;
  - `dash_collections` — the `dashmap` map and set the cache keeps its data in, with
    what each call does to their contents;
  - `commands` — get (with expiry), set, and the integer, list and set commands;
  - `main_map_impl` — `CacheFRMapImpl`, which answers requests with a response or a
    status;
  - `example_client` — the address a client's connection manager keeps;
  - `laws` — properties across operations (get after set, expiry, increments
    accumulate, round trips of messages, ...).
- `tests/` exercises the library on concrete values.
- `app/` is the gRPC server (`tonic`) around the library and a pooled client (`bb8`);
  the server serialises requests on the cache with a lock.
