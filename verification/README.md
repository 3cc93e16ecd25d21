# doip

A node of a small peer-to-peer network. A node reads its settings, finds the
address under which it is reached, and enters the network through a known
node: the known node founds the network, every other node asks it to join and
learns the members from its answer. A join is gossiped to a few members.

- `src/` is the verified library: settings, address discovery, the join
  protocol (membership checks, the join decision and who hears of it, applying
  the answer), member selection for gossip, and the STUN request encoding,
  ring keys and membership counters of the experimental nodes under `notes`.
- `app/` runs it: configuration files, HTTP server and client, actors,
  sockets and timers.
- `tests/` exercises the library on concrete values.
