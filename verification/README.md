# kiri

The core of Kiri, a screen recorder and editor, as a Verus library: the
functions in `src/` are verified against their contracts. The few that read
state other threads change (the cancellation flag, the input-session flag,
the frame queue's counters) say nothing of the values they read.

- `src/` — the verified library: the project manifest and its validation,
  path rules and the path jail, schema migration of stored manifests, the
  recording session (segment plans, pause and resume, recovery), capture,
  audio, camera and input decisions, export planning, settings, jobs, the
  diagnostics log and the bounded queue. Calls into outside crates (uuid,
  chrono, base64, crossbeam-channel) go through small trusted wrappers whose
  doc comments say what is assumed of them.
- `tests/` — tests of the library's public functions on concrete values.
- `app/` — the program around the library: command-line entry points, file
  and database I/O, serde forms of the library's types, the credential store,
  device back ends (unsupported on this platform), and the floating-point
  parts (cursor coordinates, audio levels) that stay outside the proofs.
