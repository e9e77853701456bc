# csqtt

The logic of a tunnel that carries packets over TURN relays: a client with many
workers, and a server that moves packets between a UDP socket and a tunnel
device. The library is verified with Verus. What it takes from outside crates is
not: the wrappers around their functions, the types declared for them and the
names for their results are believed as they are written.

- `src/client`: signing in, credentials and their sharing among workers, the
  TURN core and its STUN messages, sessions and workers as state machines,
  name lookup, events for the program that started the client.
- `src/server`: packet queues and pools, the datagram loop, routing between
  session workers, performance and memory figures, the proxy monitor, settings.
- `src/shared`: packet classes, duplicates, frames, buffers.
- `src/text.rs`, `src/wire.rs`, `src/net.rs`: text, byte order and addresses.

State machines take events and give actions; time and random numbers are handed
in. `app` performs the actions: sockets, the tunnel device, HTTP, files and the
command line. `tests` run the library with the real outside crates.

Public proof functions named `law_..` state what holds across calls.
