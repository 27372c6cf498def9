# aether

The ledger, consensus and networking rules of the Aether chain as a
library verified with Verus. `apply::tx_applied` states what applying a
transaction does: a refusal changes nothing, every transaction that runs
conserves the accounted supply (I1), pays for its gas and moves its nonce
only on success (I2); `apply::law_single_spend` proves that an output is
spent once (I3); spent nullifiers stay spent (I4); rollup batches are
committed and finalized in sequence (I8); `block::block_executed` states a
block's execution as the composition of its candidates' steps, and
`node::NodeLedger::produce_block` the block it seals on top of the last.

## Layout

- `src/` — the verified library.
  - `types`, `kvmap`, `bytes`, `text`, `hexcodec`: data model, a keyed map
    with a map view, byte and text helpers, hex codecs.
  - `state`, `apply`, `ledger`, `staking`, `governance`, `slashing`,
    `bridges`, `settlement`, `shielded`: the chain state and the handler of
    every transaction kind; `apply::ChainState::apply_tx` states, per kind,
    what a transaction does (`handler_effect`), how the gas is reserved
    (`reserved`) and how fees and nonces settle (`settled`).
  - `block`, `node`, `mempool`, `adapters`: block execution, the node's
    ledger and mempool, operator filters.
  - `consensus`, `quorum`: votes, certificates, light headers, proposer
    choice, and the quorum-intersection law.
  - `crypto`, `field`, `notes`, `proofs`, `rollup`, `zk`: hashing and
    signatures, the BN254 scalar field and Poseidon, note trees, proof
    checks for the shielded pool and for rollups.
  - `vm`: the contract machine.
  - `p2p`, `rpc`, `config`, `store`, `wallet`: framing and peer book, RPC
    routing, configuration, storage keys and snapshots, wallet templates.
- `tests/` — tests on concrete values, run against the compiled library.
- `app/` — the node binary: configuration files, the sled store, the
  network mesh, the JSON-RPC server, and the Groth16 circuits and provers.

Calls into outside crates (BLAKE3, Ed25519, arkworks, hex, the random
source) sit behind small trusted functions whose contracts say what each
call is assumed to return.
