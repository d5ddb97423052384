# Ephemeral file share

An end-to-end encrypted file share with self-destructing transfers. The
library under `src/` is verified with Verus; `app/` is the HTTP service
around it.

- `encoding` — base64 (RFC 4648) as a specification, and the calls into the
  `base64` crate and UTF-8 decoding that follow it.
- `time` — UTC instants within the `chrono` calendar, adding minutes,
  RFC 3339 text.
- `encryption` — keys, ChaCha20-Poly1305 sealing and opening, transfer
  tokens (a transfer's token carries its key to the receiver), the
  encrypted file record.
- `storage` — files by id with expiry: store, read at an instant, delete,
  count, sweep of expired files; with the laws that relate them.
- `network` — peer ids, the list of connected peers (each once, in the
  order they connected, over any sequence of adds and removes), the local
  address, connection tokens and how they read back.
- `qr` — the QR code of a text (modules from the `qrcode` crate, drawn
  with a quiet zone over a square image) and its PNG data URL.
- `api` — creating, reading and deleting transfers, QR codes and status, as
  functions from requests to answers.

`app/main.rs` holds the routes (`axum`), the shared state behind `tokio`
locks, the request and answer bodies with their `serde` derives, and the
loop that sweeps expired files every minute.
