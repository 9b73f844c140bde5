# sonde

Logic of a battery-powered sensor node and of the radio modem that connects
such nodes to their gateway, written and verified in Verus.

## Layout

`src/` is the library.  It does no I/O: drivers are driven from outside, and
time is passed in.

- `modem/`: the modem.  `bridge` connects the serial link, the radio, the BLE
  layer and the button; the others hold the state of the single drivers
  (`ble`, `espnow` with `peer_table`, `usb_cdc`, `display`, `button`), the
  counters (`status`) and the messages of the serial link (`message`).
- `node/`: the node.  `boot` decides what a boot leads to, `ble_pairing` and
  `ble_session` provision the node, `test_mode` runs tests before that, and
  `bpf_dispatch` implements the helpers that BPF programs call, on top of
  `bpf_memory`, `map_storage`, `async_queue` and `sleep`.  `nvs_storage` and
  `retained` lay out what persists; `transport`, `esp_hal` and
  `pairing_serial` hold the state of the drivers.
- `bytes`, `text`, `i2c`: what both share.

Hardware and platform services are traits (`SerialPort`, `Radio`, `Ble`,
`ButtonPoll`, `Hal`, `PlatformStorage`, `Transport`, `Clock`,
`BpfInterpreter`).  Contracts speak of them through relations: what a call was
handed, and what it may have done.

The wire codec is outside of the library.  Where the bridge needs it in the
middle of its work, it returns a request (`CodecRequest`) and is resumed with
the answer (`CodecReply`).

`app/` is the firmware around the library, for ESP-IDF.  `tests/` are the
tests.

## Contracts and laws

Every function states what it returns and changes.  Properties that span
several functions are proved as `law_*` functions next to the code they are
about: for example that an indication is reassembled from its chunks
(`modem/ble.rs`), that the evicted peer is the least recently used one
(`modem/peer_table.rs`), that a stored provision is complete and a failed one
leaves no key (`node/ble_pairing.rs`), or that ephemeral programs leave maps
and schedule alone (`node/bpf_dispatch.rs`).

Two functions are believed and not proved: the call of `sha2::Sha256::digest`
in `node/crypto.rs` and the call of `core::str::from_utf8` in
`node/bpf_dispatch.rs`.
