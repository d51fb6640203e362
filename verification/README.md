# fusion_executor

An executor that runs shell commands under guard, sets a git work tree back when a
command damages it, finds the error in what a command wrote, drives the screen of a
Mac, and serves all of this over a Unix socket.

- `src/` is the library. It is written in Verus: every function states what it
  returns, and Verus proves it. The functions named `law_..` are proofs of what holds
  of the library as a whole. The library does no input or output: where it needs to
  know something from outside, it says what, and goes on from the answer.
- `app/` is ordinary Rust round the library: the socket, git, files, signals, logs,
  the screen and the Python module. It reckons with floating point, and carries the
  types that serde reads and writes. The guard, the sandbox, the background shells,
  the sampler and the file tools are traits in `app/ports.rs`.
- `tests/` runs the library on given values.

The outside crates that the library itself calls (`serde`, `serde_json`, `regex`, `uuid`, `png`,
`base64`) stand behind functions marked `external_body`, whose contracts are believed and
not proved; the comment above each says what is claimed of the crate.
