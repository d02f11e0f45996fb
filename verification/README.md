# fips_transport

Peer transports over UDP, Tor and WebRTC, written in Verus: the rules of each
transport are executable Rust whose behaviour is stated in contracts and proved.

- `src/addr.rs`, `src/addr_map.rs`: IP, socket and transport addresses, and maps
  keyed by them.
- `src/decimal.rs`, `src/fields.rs`, `src/text.rs`: text and numbers.
- `src/error.rs`: failures and states that the transports share.
- `src/udp/`: sockets, batched receives and sends, segmentation offload, drained
  peer sockets, congestion signs and the transport itself.
- `src/tor/`: targets behind the proxy, the connection pool, the onion service
  and watching the daemon.
- `src/rtc/`: signals, candidates, name resolution, sessions, the physical
  peer connections behind them and the transport itself.
- `app/`: sockets, threads, tasks and peer connections around the library.
- `tests/`: the library seen from outside.

Each module ends with its laws: proof functions that relate several operations.
What is believed without proof stands in functions marked `external_body`, whose
comments name the outside function and say what is claimed of it.

The library reads no clock but the wall clock. Monotonic times are passed in as
nanoseconds. A decision that depends on the operating system or on another task
takes the outcome as an argument.
