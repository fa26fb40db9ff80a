# system-broadcaster

Senders and listeners that form a multi-producer, multi-consumer channel across the
processes of one user on one machine. Linux (POSIX message queues) and macOS (the
distributed notification center) are supported.

- **Lossy**: a message may or may not be received.
- **Insecure**: any process may read messages, and listeners may receive garbage.
- **Payload size**: messages are meant to be small; those above 1000 bytes may
  never be seen by listeners.

## Layout

- `src/` is the library, verified with Verus: queue names (`name`), the decisions of the
  two backends (`linux`, `macos`), what they come to over time (`session`, `sequences`), and
  what is taken from other crates (`os`, `channel`).
- `app/` makes the system calls that the library asks for, and offers `Listener` and
  `Sender` for the platform at hand.
- `tests/` runs the library.
