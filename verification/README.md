# ldk_node

The decision core of a self-custodial Lightning node: building a node from its configuration, keeping
its on-chain and Lightning wallets synced with the chain, remembering payments, channels and splices,
and answering requests.

- `src/` is the library. Everything in it is verified with Verus: data structures, codecs, rules, and
  the state machines that say what to do next. What another crate computes is behind small functions
  whose contracts are stated beside them.
- `app/` performs what the library asks for: it talks to peers, servers, wallets and stores, and hands
  back what came of it.
- `tests/` runs the library on concrete values.

| Module | What it holds |
| --- | --- |
| `access`, `bench`, `connection`, `server` | chain access of a light node, benchmark data, peer connections, the API |
| `builder` | the builder, the plan of the wallets, taking over channels, the stages of a build |
| `chain` | Electrum, Esplora, Bitcoin Core and compact block filters; mempool, headers, fee rates, news |
| `channel`, `closed_channel`, `payment`, `balance` | splices and their intents, records of channels and payments, balances |
| `config`, `keys`, `metrics`, `types`, `error` | configuration, keys and paths, what the node remembers |
| `data_store` | objects over a key-value store, with a bounded cache |
| `hex`, `text`, `tlv`, `transaction`, `sort`, `item_set`, `vec_map` | encodings and collections |
