# foundry_local_sdk

A client for real-time audio transcription with a native core library. The
decisions of the client are written and proved in Verus.

- `src/` is the verified library. It makes no foreign call, opens no file and
  waits for nothing.
  - `core_interop`: the buffers of a command to the native core, and what its
    answer amounts to.
  - `native_library`: where the native core is looked for, and what its loading
    amounts to.
  - `streaming`, `utf8`: text that arrives as bytes cut anywhere.
  - `session`: the lifecycle of a live transcription session.
  - `push_loop`: the loop that sends queued audio.
  - `history`: what a whole session sends to the native core, whatever the order in
    which its parties take their turns.
  - `live_audio`: settings, results, structured errors and JSON requests.
  - `pcm`: packing and cutting of raw audio.
  - `json`, `decimal`, `error`: JSON values, decimal text and the error type.
- `tests/` runs the library on concrete values.
- `app/` is ordinary Rust around the library: the foreign function interface, the
  asynchronous session on `tokio`, the `serde` forms of the values and a demo.

What is trusted about `serde_json` and the standard library is stated in
`src/json.rs` and `src/utf8.rs`.
