# cell_sdk

The verified core of a runtime for "cells": small services that talk over
Unix sockets, shared memory rings and the local network.

- `src/` is the library, checked by Verus. Each module states its
  behaviour in `requires`/`ensures` and proves it: framing (`wire`), the
  shared memory ring (`ring`), the serving side (`membrane`), spawning and
  sandboxing (`mitosis`), discovery (`discovery`, `axon`), routing between
  cells (`io_route`), resilience and recovery (`resilience`, `recovery`,
  `circuit_breaker`, `pool`, `conn_pool`), sealed transport (`secure`),
  replicated data types (`crdt`), and configuration (`config`).
- `app/` performs the input and output around it: sockets, files,
  processes, the clock and the environment. It turns what it observes into
  plain values (whether a request decoded, whether a handler succeeded,
  which paths exist) and acts on what the library decides from them. It
  offers no shared memory rings, GPU buffers or IO router, so the library's
  decisions for those are not run by it.
- `tests/` exercise the library on concrete values.
