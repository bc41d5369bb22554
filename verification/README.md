# signing-secp256k1

Secp256k1 keys and signatures with Ethereum's conventions (Keccak-256 message
digests, addresses from the last 20 bytes of the digest of the public key),
the decision logic of a staking-contract client, and the options of a node's
`start` command, verified with Verus.

- `src/model.rs`: the byte-level model of keys and signatures (scalars in
  `1..n`, points on the curve, SEC1 encodings).
- `src/primitives.rs`: the trusted calls into `k256`, `sha3` and `rand`.
- `src/keys.rs`: `PrivateKey`, `PublicKey`, `Signature`, `Secp256k1Error`.
- `src/laws.rs`: round-trip and length properties of the encodings.
- `src/abi.rs`: hex text and the ABI encoding of
  `(bytes[] pubkeys, uint64[] powers, address[] addresses)`.
- `src/staking.rs`: the `eth_call` requests for the validator sets and the
  decoding of their replies.
- `src/start.rs`: the `start` command's options.
- `app/`: serde, thiserror and clap copies of library types, the async
  JSON-RPC calls, and the node's `start` command.
