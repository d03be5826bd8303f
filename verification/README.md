# erbium_blockchain

The node library of the Erbium blockchain, written in Verus: the peer-to-peer
network (Kademlia routing table, peer bookkeeping, block and transaction
gossip, chain sync, framing, firewall and DDoS limits, local discovery), the
distributed layer (sharding, replication, a shared cache), governance (DAO,
proposals, voting, treasury), security (key management, audits, emergency
response, attestation), privacy (range proofs, stealth addresses), RDMA
messaging, GPU batch hashing and the JSON-RPC front. Each function states in
its contract what it returns and how it changes its state; Verus proves the
code against it.

Layout:

- `src/` is the verified library. Calls into outside crates (hashing,
  randomness, elliptic-curve arithmetic, range proofs, the clock) sit behind
  small trusted wrappers whose contracts say what the crates document.
- `tests/` runs the library on concrete values.
- `app/` is the node program around it: sockets and timers (tokio), the
  command line (clap), configuration files (toml), JSON and bincode encodings
  (serde), and the floating-point load balancer and tuning.
