# VirtIO sound driver core

The core of a driver for VirtIO sound devices (`virtio-snd`), written in Rust and verified with
Verus: descriptor rings, the life cycle of PCM streams, playback, mute, volume and channel maps,
buffer planning, and the whole-number part of signal analysis.

## Layout

- `src/protocol.rs`: commands, status codes, errors, and requests as bytes.
- `src/chains.rs`: a mathematical model of a descriptor table, as a free list and chains in flight.
- `src/virtqueue.rs`: descriptor table, available ring and used ring.
- `src/queue_laws.rs`: what holds of a queue over several operations.
- `src/control.rs`: control requests and the state machine of a stream
  (`SetParameters -> Prepare -> Start <-> Stop -> Release`).
- `src/driver.rs`: registered streams and the four queues of a device.
- `src/audio_planner.rs`: buffer sizes, queue budgets, scores and transfer schedules.
- `src/signal_analysis.rs`: peaks, steps, zero crossings, windows and channels.
- `src/memory.rs`: buffer addresses and memory barriers, the two things that the driver takes from
  the machine on trust.
- `app/`: signal levels in floating point, errors that print, and two short tours of the driver.
- `tests/`: scenarios.

## What is proved

Every function of `src/` but `address_of` and the barriers of `memory.rs` states what it returns and
changes, and each error with the inputs on which it comes. Of an address nothing can be said, since
it is the machine's.

A queue carries a ghost model of who holds its descriptors, and a ghost record of the bytes posted
on it. As long as the device hands back only chains that it holds, each once, no descriptor is ever
in two hands. A chain that was added can be read back from the table, and what the device hands back
becomes free again. The registered streams have distinct identifiers at all times, and stay what
they were registered as. A stream is in a state only where the record shows the requests that lead
there, in order. Proof functions whose names begin with `law_` state what holds over several
operations.

The queues stand in ordinary memory, and no device answers within a call: a reply that was never
written reads as zero and counts as success. The functions named `finish_*` and `chmap_positions`
say what follows from any other reply.
