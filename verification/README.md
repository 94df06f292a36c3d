# runc_shim

A verified library for driving the `runc` container runtime and for the bookkeeping
of a containerd runtime-v2 shim built on it.

- `src/` is the library, written in Verus and verified: the runc client's options and
  command lines, path resolution, the outcome of a finished runc call, the stdio
  drivers' plans, and the shim's process and container tables with the decisions of
  its task service (`shim/`). `shim/laws.rs` and `paths.rs` hold the properties that
  span several calls.
- `app/` is ordinary Rust around it: running runc with `std::process`, the stdio
  drivers themselves, reading `/proc` and runc's log, the serde records, the
  logging-driver runner, and the task service as a running shim (`service.rs`): its
  requests, blocking waits, consoles and the exit loop.
- `tests/` exercise the library through its public interface.
