# gateway

A binary data bus. Sensors and clients send packets with a fixed 24-byte header
over UDP or WebSocket; the gateway hands each packet, whole, to everybody in the
room that its header names, or to one user there.

The library in `src/` is written in Verus: its functions carry contracts that are
proved, from what the last section lists as trusted. The program in `app/` adds
sockets, clocks, tasks and logging.

| Module | What it holds |
| --- | --- |
| `protocol` | the header: building, encoding and decoding it |
| `channel` | bounded queues, with and without eviction of the oldest item |
| `routing` | rooms, registration, and what happens at a full queue |
| `network` | what to do with a datagram or an event on a connection |
| `observability` | log records, labels and metric updates |
| `*_laws` | what holds of each part as a whole, as proof functions |
| `payload_laws` | that routing looks neither at payloads nor at the order of receivers |
| `buffer`, `room_map`, `text` | `bytes`, `dashmap` and text underneath |

## How state is held

All queues stand in one `ChannelTable`; a sender or a receiver is the number of
a queue in it. A queue lives as long as its receiver. The `Router` maps rooms to
users and users to queue numbers. Functions that change either take them as
`&mut`, so their contracts can say exactly what changes; the program shares both
behind a lock.

Where the program would wait (for an item, for room in a full queue, for the
next ping), the library returns what it found and what to do next, and is called
again with what happened.

## What is trusted

- `buffer`: the `bytes` crate's buffers hold the bytes that were put in.
- `room_map`: the `dashmap` crate's maps hold the entries that were put in. An
  iteration yields each entry once, in no particular order.
- `text`: `std::str::from_utf8` accepts just the valid UTF-8.
