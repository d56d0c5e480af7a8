# Signage player

A digital-signage player for store screens, with everything it decides verified by
[Verus](https://github.com/verus-lang/verus).

A screen plays one video forever. The management server assigns it another over a WebSocket; the
player downloads that into `pending/`, resuming where an earlier attempt broke off, checks its
length and SHA-256, and moves it into `media/` once the webview has let go of the old file. The
webview fetches the video from a loopback HTTP server.

## Layout

- `src/` is the library. It does no I/O: its state machines say what to do next and are told how it
  went, and its functions turn listings, header fields, bytes and messages into decisions. Every
  function states what it returns or changes, and `*_laws.rs` and the ends of the other modules
  state what holds of several of them together, among it:
  - nothing moves into `media/` before its length and digest have been verified, and the digest
    always covers exactly what is on disk;
  - the video on screen is never evicted to make room;
  - a resumed transfer is judged as if the file had come at once;
  - a crash while the config is written leaves the old one or the new one, whole.
- `app/` is the program around it: the Tauri window and its commands, the tokio tasks that run the
  control channel and the downloads, the HTTP client and server, the files, and the serde types for
  what arrives as JSON.
- `tests/` runs the library, downloads included, against a disk and a server in memory.

## What is taken on trust

- `sha2` hashes what it is given, piece by piece as well as at once.
- `serde_json` writes a string as JSON.
- `uuid` deals 32 hexadecimal digits.
- `std` splits a path into its components, decodes UTF-8 lossily, and quotes text with `{:?}`.

Each stands behind one small function whose contract says what is relied on.
