# liscov_core

The verified core of a YouTube live chat monitor, written in Verus.

- `src/` is the library. Every function there carries a `requires`/`ensures`
  contract that Verus proves: message conversion and cleaning, filters,
  buffers and streams of messages, the end-of-stream detector, the polling
  decisions of the receiver, timers, signal bookkeeping, statistics,
  notifications, speech texts and settings. Calls into chrono, regex,
  urlencoding and rand go through small trusted wrappers whose contracts
  are stated in their doc comments.
- `tests/` exercises the library on concrete values.
- `app/` is the ordinary Rust around it: processes, threads, files,
  logging, settings storage with serde, and the floating-point performance
  monitor.
