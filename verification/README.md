# Statement distribution

The state and the rules by which a relay-chain validator exchanges signed statements about parachain
candidates with its peers: which statements are stored at an active head, what each peer is known to
know, who is sent what, and how peers are judged by what they send.

- `src/` is the library, verified with Verus. It performs no I/O: it takes events, changes its state
  and gives back what is to be done (`message::Action`) or what it needs next (`incoming::IncomingStep`).
  - `ids`, `collections`: identifiers, and a map and a set over them.
  - `statement`, `message`, `reputation`, `error`: the vocabulary.
  - `tracker`, `knowledge`, `peer`: what is known of a peer.
  - `stored`, `fetching`, `head`, `outdated`: what is known at a relay-chain head.
  - `distribute`, `views`, `session`: who is sent what.
  - `incoming`: what follows from a message.
  - `state`: all of it together, event by event.
  - `laws`: what holds of the library as a whole, as public proof functions.
- `tests/` runs the library with real receipts, keys, signatures and channels.
- `app/` carries the decisions out in a node. `glue` and `surroundings` do not depend on the node's own
  crates; `node` connects them to its overseer, network bridge and runtime.
