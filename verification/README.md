# bdk_compat

Verified logic of bdk's bridge between two versions of the `bitcoin` crate, and of the block
mining done by bdk's regtest test environment.

- `src/primitives.rs`, `src/bitcoin_032.rs`: plain-value models of transactions, headers,
  blocks, hashes, scripts, amounts (the version bdk tracks caps amounts at 21 million BTC) and
  addresses (held as the text they display as).
- `src/witness.rs`: checks of the witness sizes that the `bitcoin` crate can hold and decode.
- `src/consensus.rs`: the encodings, txid, merkle root, compact targets, hex and outpoint text
  stated as spec functions, and the trusted calls into `bitcoin` and `miniscript` (encoding,
  decoding, hashing, script pushes, dust thresholds, descriptor derivation, address text), each
  with the contract that the crates' sources support.
- `src/convert.rs` and the `compat` modules under `src/chain`, `src/bitcoind_rpc`,
  `src/electrum`, `src/testenv`: conversions between the versions. Hashes, scripts and headers
  come back unchanged; transactions and blocks too, where each witness fits the decoder's
  4,000,000-byte limit; amounts up to the supply cap; addresses unchanged.
- `src/chain/descriptor_ext.rs`: descriptor dust value and ID.
- `src/chain/serde_util`: transaction sets (each transaction once) and outpoint-to-output maps
  (in outpoint order), their element encodings, and their round trips.
- `src/testenv/mine.rs`: coinbase, merkle root, header and nonce search of a mined block.
- `src/testenv/env.rs`: checkpoint chains and the decisions of the waiting and invalidation
  loops.
- `app/`: the unverified edge: conversions to the `bitcoin` crate's types, serde framing, and
  the `bitcoind`/`electrs` test environment.
