# chan

Multi-producer, multi-consumer channels: asynchronous (unbounded buffer),
synchronous buffered, and rendezvous channels, a select over several channel
operations, and a wait group.

`src/` is the verified library:

- `ring` — a fixed-capacity ring buffer of slots (buffered mode and a
  single-slot mode).
- `channel` — the state a channel's lock guards (`Data`), its buffer
  (`UserData`), and one step of a send or a receive as a function from state
  to next state and outcome (`send_next`, `recv_next`).
- `sync`, `async_queue` — the same for a synchronous channel built on one
  ring and for a plain asynchronous queue. These are standalone models of
  two further channel designs; `app/` does not use them.
- `tracker`, `notifier`, `wait_group` — sender/receiver counts, select
  subscriptions, and the counter of a wait group.
- `record` — an operation of a select as the caller implements it (`Choice`),
  and the record of the calls made on it (`Recorded`).
- `select` — the registered operations of a select, their subscriptions, and
  the rounds that try them in random order.
- `laws` — properties of the step functions: FIFO delivery (also for any
  interleaving of sends and receives), rendezvous hand-off and one value in
  flight, closing semantics, the non-blocking cases, capacity bounds.

`app/` shares that state between threads: it holds the state behind mutexes,
blocks on condition variables whenever a step says to wait, implements the
`Sender`/`Receiver` handles, timers (`after`, `tick`), the blocking
`Select::select` and the `chan_select!` macro.
