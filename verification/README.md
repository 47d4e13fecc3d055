# bitaxe-raw-bonanza control logic

The verified core of the bitaxe-raw-bonanza ESP32-S3 firmware's control serial link.

- `src/bridge_protocol.rs`: the frame format spoken with the RP2040 bridge
  (request encoding, length framing, response, bridge-info and safety-status
  decoding), with the laws that tie encoder and decoders together.
- `src/control/`: the host side. `mod.rs` parses command packets and builds
  reply frames; `system`, `gpio` and `fan` hold the per-page commands and the
  bridge request each one becomes; `host_link` frames the packets arriving
  from the host; `bridge` keeps request ids and picks the answer to the
  pending request out of the bytes received from the bridge; `buffers`
  declares the `heapless::Vec` buffers and the methods the logic calls.
- `tests/`: executable tests of the library.
- `app/`: the async glue (USB CDC-ACM task, bridge UART, ESP32-S3 pins) that
  moves bytes and awaits, leaving every decision to the library.
