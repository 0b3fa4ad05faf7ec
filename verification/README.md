# concurrent_circbuf

Channels based on circular buffers, verified with Verus.

The library provides a fixed-sized circular buffer (`base::CircBuf`), a dynamically growable
and shrinkable one (`base::DynamicCircBuf`), receivers for both (`base::Receiver`), and channels
built on them: bounded and unbounded SPSC channels (`bounded::spsc`, `spsc`, `unbounded::spsc`)
and unbounded SPMC channels (`spmc`, `unbounded::spmc`).

Each buffer is described by the sequence of the elements it holds. Sending appends to the
sequence and receiving removes its first element, so elements are received first in, first out.
The contracts also state when a bounded buffer refuses an element and how a dynamic buffer grows
and shrinks. Internally the rx and tx counters wrap around past `usize::MAX`; the proofs cover
that, and `sp::array::law_next_position` states that slot positions stay consecutive across it.

A buffer is owned by one value: receivers are handed the buffer (or the channel) they receive
from. `app/` puts a dynamic buffer behind a mutex, so that its receivers can be used from other
threads.

Layout:

- `src/ring.rs`: arithmetic on wrapping counters and power-of-two capacities.
- `src/sp/array.rs`: the array of slots, each marked with the index it holds.
- `src/array.rs`: `CPair`.
- `src/base.rs`: the buffers, their receivers, and the laws they obey.
- `src/spsc.rs`, `src/spmc.rs`, `src/unbounded/`, `src/bounded/`: the channels.
- `tests/`: tests on concrete values.
- `app/`: thread-safe handles over the buffers.
