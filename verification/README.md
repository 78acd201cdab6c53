# polkadot_network

The Polkadot-specific part of a node's network service, written in Verus: gossip of validators'
statements, fetching of parachain block data, and the meeting of collators and validators.

The library in `src/` is a state machine without input or output.

- `protocol.rs`: the handler, one method for each event. A method changes the state and returns
  the actions that the node is to perform.
- `action.rs`: the actions.
- `model.rs`: what each event does, on mathematical values. The contracts in `protocol.rs` say that
  the handler does exactly that.
- `laws/`: what follows for the protocol as a whole: messages are read back as they were written,
  nobody who waits for block data is forgotten, no request is responded to twice, the tables of
  peers and validators agree, and more.
- `message.rs`, `status.rs`: the wire format. The fields are written and read by the
  `parity-codec` crate, through the wrappers in `codec.rs`; what they are trusted to do is stated
  there.
- `knowledge.rs`: what is known of the candidates of a session.
- `key_table.rs`, `bytes.rs`, `primitives.rs`: tables keyed by identifiers, little-endian numbers
  and plain values.

`app/` performs the actions in a running node: it holds the channels on which block data is
awaited, shares the knowledge of the session under a lock, and drives gossip, the collator pool and
the local collations.

A signed statement, a collation and a BFT message are carried in their encoded form. Where a
statement or a collation ends, what a collation's receipt says and what block data hashes to is
answered by the node and handed back.
