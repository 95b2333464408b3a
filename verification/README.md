# ts_runtime

Decisions of a mesh network node, verified with [Verus](https://github.com/verus-lang/verus):

- `packet_ident` tells disco, WireGuard and Geneve-encapsulated packets apart;
- `peer_pd` looks for direct paths to one peer, and `path_discoverer` coordinates this over all
  active peers;
- `retained_bus` is a message bus that can retain the last message of each type;
- `transport` and `endpoint` hold the identities of peers, transports and endpoints;
- `linear_map` and `decimal` hold what the others are built from.

Each handler of a message is a function from state and message to the new state and what is to be
sent. Its contract states both exactly. `peer_pd_laws`, `retained_bus_laws` and the proof functions
named `law_...` in the other modules state what holds over several messages.

`app/` runs the handlers as actors: it sends, delivers and reads the clock.
