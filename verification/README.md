# bx_bluetooth_native

Verified core of the `bluetooth` BoxLang module for Matchbox (BLE transport:
adapters, devices, connections, GATT discovery, characteristic selection,
binary writes).

- `src/` — the library, verified with Verus:
  - `uuids` — UUID parsing and normalization (short Bluetooth SIG forms,
    lowercase hyphenated text), over the `uuid` crate.
  - `connection` — the per-connection GATT cache: discovery once, cached
    answers afterwards, write-target lookup, idempotent disconnect, and the
    closed-connection error for every later operation.
  - `selector` — the fluent characteristic selector and its filtering laws.
  - `options` — `scan`, `requestDevice` and `write` options.
  - `objects` — property lookup, `BTError` fields and error codes.
  - `backend/` — backend decisions: write chunking and pacing, scan name
    filtering, the browser request shape, ESP32 advertisement bookkeeping.
  - `harness` — the browser harness's step decision.
- `app/` — the Matchbox VM glue (native classes, futures) and the btleplug,
  Web Bluetooth and NimBLE backends, which perform the I/O.
- `tests/` — tests of the library on concrete values.
