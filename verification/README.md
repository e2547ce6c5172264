# blockchain_p2p

A small proof-of-work blockchain node, written in Verus: the library in
`src/` is verified, and `app/` is the program around it (command line,
HTTP API, peer-to-peer traffic, threads).

Modules of the library:

- `types`, `crypto`, `validation`, `mining`, `wallet`, `node`, `cli`: the
  node's chain of transfers and coinbases, its signatures (secp256k1 with
  Ethereum-style addresses), the rules a transaction, a block and a chain
  must meet, mining, wallets, the decisions of the HTTP API, and the
  command line.
- `common`: UTXO transactions, blocks with a Merkle root, and the hash and
  signature interfaces users implement.
- `mempool`: the pool of pending transfers filed under their ids, and in
  `mempool::types` the pool of pending UTXO transactions with its
  validity rules.
- `consensus_engine`: blocks hashed over a text of their fields, their
  miner and validators, an in-memory store, a network outbox, and the plan
  the engine follows for each command.
- `mining_pool`, `events`: the mining pool's commands and plans, and node
  events.
- `digest`, `secp`, `text`: the calls into `sha2`, `sha3`, `hex`,
  `libsecp256k1`, `uuid` and std that the library makes, with the
  contracts it relies on, and verified text helpers.
