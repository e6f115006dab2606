# buildkit

Verified building blocks of a BuildKit LLB frontend, written in Verus.

- `src/` — the library, every function proved against its contract except
  two trusted wrappers: `json::json_quote` (serde_json's string escaping,
  whose result its contract states) and `bridge::debug_text` (the derived
  `Debug` text of a solve result, of which nothing is stated):
  - `pb` — the BuildKit protobuf messages the builders produce;
  - `text`, `map` — text helpers, an insertion-ordered map with distinct keys
    and a key-ordered text map;
  - `utils`, `path` — output indices, operation outputs and layer paths;
  - `context`, `mount` — command execution context and mounts;
  - `copy`, `mkdir`, `sequence`, `merge` — file and merge operations and their
    definition nodes;
  - `platform` — platform helpers and the canonical `<os>/<arch>[/<variant>]` id;
  - `json` — JSON strings and arrays as serde_json writes them;
  - `frontend`, `bridge` — frontend results, the `refs.platforms` list and
    the requests and answers exchanged with the daemon;
  - `unixpath`, `keyset` — Unix path components and their order, and the
    ordered sets of exposed ports and volumes;
  - `oci` — the OCI image model, port notation and the image config's JSON form.
- `app/` — serde encodings of the OCI types and the stdio transport.
- `tests/` — tests of the library.
