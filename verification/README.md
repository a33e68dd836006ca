# async_app

A small asynchronous request/response application for a message-passing
process runtime: a requester that chains requests to a receiver, each sent
from the callback of the previous answer, fans a request out to several
receivers and keeps a repeating timer; receivers that answer; and a
framework loop that routes incoming messages.

- `src/` is the library, with its contracts and proofs: what the receivers
  answer, what the requester sends next and how its state changes, how a
  fan-out's results are collected and completed, the registry of what waits
  under each correlation id, how incoming messages are routed, how a process
  starts, and, for the `send_async!` macro, the steps of its tail grammar and
  the names its expansion derives.
- `app/` performs what the library decides: it serialises messages, talks
  to the runtime, prints and sleeps. It also holds what is bound to `syn` and
  `quote`: the parsing of a callback header `(resp, st: Type) { ... }` and of
  expressions, and the assembly of the expansion's tokens.
- `tests/` runs the library on concrete values.
