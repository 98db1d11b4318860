# easytier (verified core)

The peer center of an EasyTier node and the ACL chain selection, written in Verus.

- `src/acl_chain.rs`: IP addresses as integers; the two ways of choosing the
  `Inbound` or `Forward` chain for a packet, and when they agree.
- `src/link_order.rs`: the ascending order of `(source, destination)` links and a
  sort into it.
- `src/digest.rs`: the digest of the global peer map (SHA-256 through `sha2`).
- `src/store.rs`: the `dashmap` and `crossbeam` containers that hold the state,
  with the contract of each operation used.
- `src/rpc.rs`: the messages of the service.
- `src/server.rs`: reports, queries and cleanup of the peer center.
- `app/`: the demonstration program, the process-wide registry of peer centers,
  the periodic cleanup task (tokio) and the RPC trait (async-trait).
