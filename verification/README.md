# ipc_channel_mux

Typed subchannels multiplexed over IPC channels, with the multiplexer's protocol
verified by Verus.

A subchannel is a queue with many senders and one receiver. Several subchannels
share one IPC channel: messages carry the id of their subchannel and are sorted
into mailboxes where they arrive. Subsenders can be cloned, dropped and sent over
other subchannels, and a receiver learns when none is left, even if some were in
flight to a process that has ended.

## Layout

- `src/mux` is the multiplexer: the messages (`protocol`), what each side does
  with them (`sender`, `demux`, `receiver`), who may still send
  (`subchannel_lifecycle`), sets of receivers and routing (`subchannel_router`),
  what travels beside a message (`captures`, `ipc_handles`, `shared_memory`), and
  the properties that span these modules (`laws`) or hold over time (`history`).
- `src/multiplex` is a variant whose receivers can be sent too, and
  `src/multiplex/counted` one whose senders are counted by source.
- `src/subchannel_lifecycle.rs` keeps the senders of subchannels in one registry.
- `app` owns the IPC channels of the operating system, the threads and the locks.
  It hands events to the library and carries out what the library returns.
- `tests` runs the library over channels in memory.

The library does no I/O. Ends of IPC channels are known to it by handles, and a
function that depends on an outside event takes what came of the event as an
argument. What depends on the answer of a table of weak pointers is decided by a
function that takes the answer as an argument (`disconnector_given`, `plan_given`,
`names_given`, `notifications_given`, `add_given`).

## What is relied upon

The contracts of the functions marked `external_body` are believed, not proved.
They stand for calls of `hashbag`, `weak-table`, `uuid`, `postcard`, the shared
memory of `ipc-channel`, and a few functions of the standard library, and each
says above it what it claims. Whether a weak pointer is still held, and whether
two pointers are one, is left open.
