//! The node's ledger: the chain state, the blocks so far, receipts by
//! transaction hash, the mempool and commit certificates, and the steps of
//! producing a block. Encodings (of the state, headers and transactions)
//! are made by the caller and handed in as bytes or hashes.

use vstd::prelude::*;
use crate::adapters::TxFilter;
use crate::block::{assemble_header, block_executed, epoch_of, genesis_block, receipts_follow, receipts_gas, select, BlockExecution, BlockTx, TxOutcome};
use crate::crypto::{ed25519_signature, hashes_view, merkle_root, sign_header, spec_merkle_root, spec_verify_tx, Keypair};
use crate::errors::StateError;
use crate::field::{canonical, le_value};
use crate::hexcodec::{hex_encode, spec_hex_encode};
use crate::kvmap::KeyedVec;
use crate::mempool::{prioritized, Mempool};
use crate::shielded::{spec_notes_root, spec_state_root, StateEncodings};
use crate::state::{alloc_total, cap, ChainState};
use crate::types::{Address, Block, Genesis, Hash256, Header, Receipt, Transaction, DEFAULT_BASE_FEE, WIRE_VERSION};

verus! {

/// When every outcome is `k`, selecting `k` keeps every candidate.
proof fn lemma_select_all(txs: Seq<BlockTx>, outcomes: Seq<TxOutcome>, k: TxOutcome)
    requires
        outcomes.len() == txs.len(),
        forall|i: int| 0 <= i < outcomes.len() ==> #[trigger] outcomes[i] == k,
    ensures
        select(txs, outcomes, k) == txs,
    decreases txs.len(),
{
    if txs.len() > 0 {
        lemma_select_all(txs.drop_last(), outcomes.drop_last(), k);
        assert(txs.drop_last().push(txs.last()) =~= txs);
    }
}

/// Everything a node keeps about its chain.
pub struct NodeLedger<F: TxFilter> {
    pub state: ChainState,
    pub blocks: Vec<Block>,
    /// Receipts by the hex of their transaction hash.
    pub receipts: KeyedVec<String, Receipt>,
    pub mempool: Mempool<F>,
    /// Encoded commit certificates by height.
    pub commits: KeyedVec<u64, Vec<u8>>,
}

/// The transactions of some candidates.
pub open spec fn txs_of(c: Seq<BlockTx>) -> Seq<Transaction> {
    Seq::new(c.len(), |i: int| c[i].tx)
}

/// The ids of some candidates.
pub open spec fn ids_of(c: Seq<BlockTx>) -> Seq<Hash256> {
    Seq::new(c.len(), |i: int| c[i].ctx.tx_id)
}

/// The transaction hashes of some receipts.
pub open spec fn receipt_ids(rs: Seq<Receipt>) -> Seq<Hash256> {
    Seq::new(rs.len(), |i: int| rs[i].tx_hash)
}

/// `m` with each receipt of `rs` recorded, in order, under the hex of its
/// transaction hash.
pub open spec fn record_all(m: Map<Seq<char>, Receipt>, rs: Seq<Receipt>) -> Map<Seq<char>, Receipt>
    decreases rs.len(),
{
    if rs.len() == 0 {
        m
    } else {
        record_all(m, rs.drop_last()).insert(spec_hex_encode(rs.last().tx_hash@), rs.last())
    }
}

/// What running a block gave: each candidate's outcome, the gas used, the
/// transaction hashes of the receipts in order, the included candidates
/// and the supply check.
pub struct BlockRun {
    pub outcomes: Vec<TxOutcome>,
    pub gas_used: u64,
    pub receipt_ids: Vec<Hash256>,
    pub included: Vec<BlockTx>,
    pub check: Result<(), StateError>,
}

/// Splits the candidates of a block by outcome: the included ones and the
/// requeued ones, each in order; the others are dropped.
fn split_candidates(txs: Vec<BlockTx>, outcomes: &Vec<TxOutcome>) -> (r: (Vec<BlockTx>, Vec<BlockTx>))
    requires
        outcomes@.len() == txs@.len(),
    ensures
        r.0@ == select(txs@, outcomes@, TxOutcome::Included),
        r.1@ == select(txs@, outcomes@, TxOutcome::Requeued),
{
    let ghost orig = txs@;
    let n = txs.len();
    let mut rest = txs;
    let mut inc: Vec<BlockTx> = Vec::new();
    let mut req: Vec<BlockTx> = Vec::new();
    let mut i: usize = 0;
    proof {
        assert(orig.subrange(0, 0) =~= Seq::<BlockTx>::empty());
    }
    while i < n
        invariant
            n == orig.len(),
            outcomes@.len() == n,
            i <= n,
            rest@ == orig.subrange(i as int, n as int),
            inc@ == select(orig.subrange(0, i as int), outcomes@.subrange(0, i as int), TxOutcome::Included),
            req@ == select(orig.subrange(0, i as int), outcomes@.subrange(0, i as int), TxOutcome::Requeued),
        decreases n - i,
    {
        let item = rest.remove(0);
        proof {
            assert(orig.subrange(0, i + 1).drop_last() =~= orig.subrange(0, i as int));
            assert(outcomes@.subrange(0, i + 1).drop_last() =~= outcomes@.subrange(0, i as int));
            assert(rest@ =~= orig.subrange(i + 1, n as int));
        }
        match outcomes[i] {
            TxOutcome::Included => inc.push(item),
            TxOutcome::Requeued => req.push(item),
            _ => {},
        }
        i = i + 1;
    }
    proof {
        assert(orig.subrange(0, n as int) =~= orig);
        assert(outcomes@.subrange(0, n as int) =~= outcomes@);
    }
    (inc, req)
}

impl<F: TxFilter> NodeLedger<F> {
    /// A ledger at genesis: the genesis state, the genesis block over its
    /// root (`enc` encodes that state's tables), no receipts or commits.
    pub fn new(genesis: &Genesis, enc: &StateEncodings, mempool: Mempool<F>) -> (l: Self)
        requires
            alloc_total(genesis.alloc@) <= u128::MAX,
        ensures
            l.state.height == 0,
            l.state.total_supply == alloc_total(genesis.alloc@),
            l.state.genesis_supply == alloc_total(genesis.alloc@),
            l.state.base_fee == DEFAULT_BASE_FEE,
            l.state.note_leaves@.len() == 0,
            l.blocks@.len() == 1,
            l.blocks@[0].header.height == 0,
            l.blocks@[0].header.chain_id@ == genesis.chain_id@,
            l.blocks@[0].header.time_unix_ms == genesis.timestamp,
            l.blocks@[0].header.prev_hash@ == Seq::new(32, |_i: int| 0u8),
            l.blocks@[0].header.tx_root@ == spec_merkle_root(Seq::empty()),
            l.blocks@[0].header.receipts_root@ == spec_merkle_root(Seq::empty()),
            l.blocks@[0].header.proposer@ == Seq::new(20, |_i: int| 0u8),
            l.blocks@[0].header.gas_limit == genesis.params.gas_limit,
            l.blocks@[0].header.base_fee == DEFAULT_BASE_FEE,
            l.blocks@[0].transactions@.len() == 0,
            exists|nr: Hash256|
                le_value(nr@) == spec_notes_root(l.state.note_leaves@) && canonical(nr) && l.blocks@[0].header.state_root@
                    == spec_state_root(*enc, nr@),
            l.receipts@ == Map::<Seq<char>, Receipt>::empty(),
            l.commits@ == Map::<u64, Vec<u8>>::empty(),
            l.mempool == mempool,
    {
        let state = ChainState::from_genesis(genesis);
        let root = state.compute_state_root(enc);
        let b = genesis_block(genesis, &root);
        let mut blocks: Vec<Block> = Vec::new();
        blocks.push(b);
        NodeLedger { state, blocks, receipts: KeyedVec::new(), mempool, commits: KeyedVec::new() }
    }

    /// Takes the pending transactions out of the mempool, in priority order.
    pub fn take_candidates(&mut self) -> (out: Vec<Transaction>)
        ensures
            out@ == prioritized(old(self).mempool.pending()),
            final(self).mempool.pending().len() == 0,
            final(self).mempool.capacity() == old(self).mempool.capacity(),
            final(self).state == old(self).state,
            final(self).blocks == old(self).blocks,
            final(self).receipts == old(self).receipts,
            final(self).commits == old(self).commits,
    {
        self.mempool.drain_prioritized()
    }

    /// Runs a block's candidates on the state at the next height, tips to
    /// `proposer` (see `ChainState::execute_block`): every receipt is
    /// recorded under the hex of its transaction hash, the candidates that
    /// did not fit the block's gas go back to the mempool, and the included
    /// ones are handed back for the block. `check` is the supply check
    /// (invariant I1) of the state before the block: when it fails the state
    /// is left as it was and every candidate goes back to the mempool.
    pub fn run_block(&mut self, txs: Vec<BlockTx>, proposer: &Address) -> (out: BlockRun)
        requires
            old(self).blocks@.len() > 0,
            old(self).blocks@.last().header.height < u64::MAX,
        ensures
            final(self).blocks == old(self).blocks,
            final(self).commits == old(self).commits,
            out.check is Ok ==> final(self).state.height == old(self).blocks@.last().header.height + 1,
            out.check is Ok ==> final(self).state.epoch == epoch_of(final(self).state.height, final(self).state.params.epoch_length),
            final(self).state.genesis_supply == old(self).state.genesis_supply,
            out.check is Ok ==> cap(final(self).state.supply()) == final(self).state.genesis_supply,
            out.outcomes@.len() == txs@.len(),
            exists|rs: Seq<Receipt>| {
                &&& block_executed(
                    old(self).state,
                    final(self).state,
                    txs@,
                    *proposer,
                    (old(self).blocks@.last().header.height + 1) as u64,
                    out.outcomes@,
                    rs,
                    out.gas_used,
                    out.check,
                )
                &&& receipts_follow(txs@, out.outcomes@, rs)
                &&& out.receipt_ids@ == receipt_ids(rs)
                &&& final(self).receipts@ == record_all(old(self).receipts@, rs)
            },
            out.included@ == select(txs@, out.outcomes@, TxOutcome::Included),
            final(self).mempool.pending() == old(self).mempool.pending() + txs_of(select(txs@, out.outcomes@, TxOutcome::Requeued)),
            final(self).mempool.known() == old(self).mempool.known() + ids_of(select(txs@, out.outcomes@, TxOutcome::Requeued)),
            final(self).mempool.capacity() == old(self).mempool.capacity(),
    {
        let height = self.blocks[self.blocks.len() - 1].header.height + 1;
        let (x, check) = self.state.execute_block(&txs, proposer, height);
        let BlockExecution { receipts, outcomes, gas_used } = x;
        let ghost rs = receipts@;
        let ghost st = self.state;
        let ghost map0 = self.receipts@;
        let nr = receipts.len();
        let mut ids: Vec<Hash256> = Vec::new();
        let mut pending_receipts = receipts;
        let mut j: usize = 0;
        proof {
            assert(rs.subrange(0, 0) =~= Seq::<Receipt>::empty());
        }
        while j < nr
            invariant
                nr == rs.len(),
                j <= nr,
                pending_receipts@ == rs.subrange(j as int, nr as int),
                ids@ == receipt_ids(rs.subrange(0, j as int)),
                self.receipts@ == record_all(map0, rs.subrange(0, j as int)),
                self.blocks == old(self).blocks,
                self.commits == old(self).commits,
                self.mempool == old(self).mempool,
                self.state == st,
            decreases nr - j,
        {
            let rc = pending_receipts.remove(0);
            proof {
                assert(rs.subrange(0, j + 1).drop_last() =~= rs.subrange(0, j as int));
                assert(receipt_ids(rs.subrange(0, j + 1)) =~= receipt_ids(rs.subrange(0, j as int)).push(rc.tx_hash));
                assert(pending_receipts@ =~= rs.subrange(j + 1, nr as int));
            }
            ids.push(rc.tx_hash);
            let key = hex_encode(rc.tx_hash.as_slice());
            self.receipts.insert(key, rc);
            j = j + 1;
        }
        proof {
            assert(rs.subrange(0, nr as int) =~= rs);
        }
        let (inc, req) = split_candidates(txs, &outcomes);
        let ghost requeued = req@;
        let ghost pending0 = self.mempool.pending();
        let ghost known0 = self.mempool.known();
        let mut rest = req;
        let mut k: usize = 0;
        let m = rest.len();
        proof {
            assert(txs_of(requeued.subrange(0, 0)) =~= Seq::<Transaction>::empty());
            assert(ids_of(requeued.subrange(0, 0)) =~= Seq::<Hash256>::empty());
        }
        while k < m
            invariant
                m == requeued.len(),
                k <= m,
                rest@ == requeued.subrange(k as int, m as int),
                self.mempool.pending() == pending0 + txs_of(requeued.subrange(0, k as int)),
                self.mempool.known() == known0 + ids_of(requeued.subrange(0, k as int)),
                self.mempool.capacity() == old(self).mempool.capacity(),
                self.blocks == old(self).blocks,
                self.commits == old(self).commits,
                self.receipts@ == record_all(map0, rs),
                self.state == st,
            decreases m - k,
        {
            let item = rest.remove(0);
            proof {
                assert(txs_of(requeued.subrange(0, k + 1)) =~= txs_of(requeued.subrange(0, k as int)).push(item.tx));
                assert(ids_of(requeued.subrange(0, k + 1)) =~= ids_of(requeued.subrange(0, k as int)).push(item.ctx.tx_id));
                assert(rest@ =~= requeued.subrange(k + 1, m as int));
            }
            let BlockTx { tx, ctx } = item;
            self.mempool.requeue(tx, &ctx.tx_id);
            proof {
                assert(pending0 + txs_of(requeued.subrange(0, k + 1)) =~= (pending0 + txs_of(requeued.subrange(0, k as int))).push(tx));
                assert(known0 + ids_of(requeued.subrange(0, k + 1)) =~= (known0 + ids_of(requeued.subrange(0, k as int))).push(ctx.tx_id));
            }
            k = k + 1;
        }
        proof {
            assert(requeued.subrange(0, m as int) =~= requeued);
        }
        BlockRun { outcomes, gas_used, receipt_ids: ids, included: inc, check }
    }

    /// Authenticates a transaction against its `sighash` and queues it
    /// under `tx_id` (see `Mempool::insert`).
    pub fn submit_tx(&mut self, tx: Transaction, sighash: &Hash256, tx_id: &Hash256) -> (r: Result<Hash256, StateError>)
        ensures
            final(self).state == old(self).state,
            final(self).blocks == old(self).blocks,
            final(self).receipts == old(self).receipts,
            final(self).commits == old(self).commits,
            spec_verify_tx(tx, sighash@) is Err ==> (r matches Err(StateError::Crypto(_)) && final(self).mempool == old(self).mempool),
            r is Ok ==> {
                &&& r == Ok::<Hash256, StateError>(*tx_id)
                &&& final(self).mempool.pending() == old(self).mempool.pending().push(tx)
                &&& final(self).mempool.known() == old(self).mempool.known().push(*tx_id)
            },
            r is Err ==> final(self).mempool == old(self).mempool,
    {
        self.mempool.insert(tx, sighash, tx_id)
    }

    /// The header of the block just run: the state's height, epoch, gas
    /// limit and base fee; the Merkle roots of the included transactions'
    /// ids and of the receipts' transaction hashes; unsigned.
    pub fn next_header(
        &self,
        run: &BlockRun,
        proposer: &Address,
        prev_hash: &Hash256,
        state_root: &Hash256,
        time_unix_ms: u64,
    ) -> (h: Header)
        ensures
            h.version == WIRE_VERSION,
            h.chain_id@ == self.state.params.chain_id@,
            h.height == self.state.height,
            h.time_unix_ms == time_unix_ms,
            h.prev_hash == *prev_hash,
            h.tx_root@ == spec_merkle_root(hashes_view(ids_of(run.included@))),
            h.state_root == *state_root,
            h.receipts_root@ == spec_merkle_root(hashes_view(run.receipt_ids@)),
            h.proposer == *proposer,
            h.round == 0,
            h.epoch == self.state.epoch,
            h.gas_used == run.gas_used,
            h.gas_limit == self.state.params.gas_limit,
            h.base_fee == self.state.base_fee,
            h.signature@.len() == 0,
    {
        let mut ids: Vec<Hash256> = Vec::new();
        let mut i: usize = 0;
        while i < run.included.len()
            invariant
                i <= run.included@.len(),
                ids@ == ids_of(run.included@.subrange(0, i as int)),
            decreases run.included@.len() - i,
        {
            ids.push(run.included[i].ctx.tx_id);
            proof {
                assert(ids_of(run.included@.subrange(0, i + 1)) =~= ids_of(run.included@.subrange(0, i as int)).push(
                    run.included@[i as int].ctx.tx_id,
                ));
            }
            i = i + 1;
        }
        proof {
            assert(run.included@.subrange(0, run.included@.len() as int) =~= run.included@);
        }
        let tx_root = merkle_root(ids.as_slice());
        let receipts_root = merkle_root(run.receipt_ids.as_slice());
        assemble_header(
            &self.state,
            self.state.height,
            time_unix_ms,
            prev_hash,
            &tx_root,
            state_root,
            &receipts_root,
            proposer,
            run.gas_used,
        )
    }

    /// Seals `header` with the proposer's signature over `sighash` (the
    /// hash of its unsigned encoding) and appends the block of the included
    /// transactions.
    pub fn push_block(&mut self, header: Header, kp: &Keypair, sighash: &Hash256, included: Vec<BlockTx>)
        ensures
            final(self).state == old(self).state,
            final(self).receipts == old(self).receipts,
            final(self).commits == old(self).commits,
            final(self).mempool == old(self).mempool,
            final(self).blocks@.len() == old(self).blocks@.len() + 1,
            final(self).blocks@.drop_last() == old(self).blocks@,
            final(self).blocks@.last().header == (Header { signature: final(self).blocks@.last().header.signature, ..header }),
            final(self).blocks@.last().header.signature@ == ed25519_signature(kp.secret(), sighash@),
            final(self).blocks@.last().transactions@ == txs_of(included@),
    {
        let mut h = header;
        let _ = sign_header(&mut h, kp, sighash);
        let ghost c = included@;
        let n = included.len();
        let mut rest = included;
        let mut txs: Vec<Transaction> = Vec::new();
        let mut i: usize = 0;
        while i < n
            invariant
                n == c.len(),
                i <= n,
                rest@ == c.subrange(i as int, n as int),
                txs@ == txs_of(c.subrange(0, i as int)),
            decreases n - i,
        {
            let item = rest.remove(0);
            proof {
                assert(txs_of(c.subrange(0, i + 1)) =~= txs_of(c.subrange(0, i as int)).push(item.tx));
                assert(rest@ =~= c.subrange(i + 1, n as int));
            }
            let BlockTx { tx, ctx: _ } = item;
            txs.push(tx);
            i = i + 1;
        }
        proof {
            assert(c.subrange(0, n as int) =~= c);
        }
        let ghost before = self.blocks@;
        self.blocks.push(Block { header: h, transactions: txs });
        proof {
            assert(self.blocks@.drop_last() =~= before);
        }
    }

    /// Produces the next block from the candidates `txs`, proposed by `kp`:
    /// runs them (see `run_block`), then, when the supply check passes,
    /// seals a header over the resulting state and appends the block.
    /// `prev_hash` is the hash of the last block's header, `time_unix_ms`
    /// the time to stamp, `encode` gives the encodings of a state for its
    /// root and `header_sighash` the hash of a header's unsigned encoding.
    /// When the check fails the state and the blocks are left as they were,
    /// every candidate goes back to the mempool and the check's error is
    /// returned.
    pub fn produce_block<E, H>(
        &mut self,
        txs: Vec<BlockTx>,
        kp: &Keypair,
        prev_hash: &Hash256,
        time_unix_ms: u64,
        encode: E,
        header_sighash: H,
    ) -> (r: Result<(), StateError>)
        where
            E: Fn(&ChainState) -> StateEncodings,
            H: Fn(&Header) -> Hash256,
        requires
            old(self).blocks@.len() > 0,
            old(self).blocks@.last().header.height < u64::MAX,
            forall|s: ChainState| #[trigger] encode.requires((&s,)),
            forall|h: Header| #[trigger] header_sighash.requires((&h,)),
        ensures
            final(self).commits == old(self).commits,
            final(self).state.genesis_supply == old(self).state.genesis_supply,
            r is Ok <==> cap(old(self).state.supply()) == old(self).state.genesis_supply,
            r is Err ==> {
                &&& final(self).state == old(self).state
                &&& final(self).blocks == old(self).blocks
                &&& crate::errors::fails_with(
                    r,
                    "supply invariant broken: lhs="@ + crate::text::spec_decimal(cap(old(self).state.supply()) as nat) + " genesis="@
                        + crate::text::spec_decimal(old(self).state.genesis_supply as nat),
                )
                &&& final(self).mempool.pending() == old(self).mempool.pending() + txs_of(txs@)
            },
            r is Ok ==> {
                let b = final(self).blocks@.last();
                let prev = old(self).blocks@.last().header;
                &&& cap(final(self).state.supply()) == final(self).state.genesis_supply
                &&& final(self).blocks@.len() == old(self).blocks@.len() + 1
                &&& final(self).blocks@.drop_last() == old(self).blocks@
                &&& b.header.height == prev.height + 1
                &&& b.header.height == final(self).state.height
                &&& b.header.prev_hash == *prev_hash
                &&& b.header.time_unix_ms == time_unix_ms
                &&& b.header.proposer@ == crate::crypto::spec_address_from_pubkey(crate::crypto::ed25519_public(kp.secret()))
                &&& b.header.epoch == final(self).state.epoch
                &&& b.header.base_fee == final(self).state.base_fee
                &&& b.header.gas_limit == final(self).state.params.gas_limit
                &&& exists|enc: StateEncodings, nr: Hash256|
                    {
                        &&& encode.ensures((&final(self).state,), enc)
                        &&& le_value(nr@) == spec_notes_root(final(self).state.note_leaves@)
                        &&& canonical(nr)
                        &&& b.header.state_root@ == spec_state_root(enc, nr@)
                    }
                &&& exists|h0: Header, sh: Hash256|
                    {
                        &&& h0 == (Header { signature: h0.signature, ..b.header })
                        &&& h0.signature@.len() == 0
                        &&& header_sighash.ensures((&h0,), sh)
                        &&& b.header.signature@ == ed25519_signature(kp.secret(), sh@)
                    }
                &&& exists|outcomes: Seq<TxOutcome>, rs: Seq<Receipt>|
                    {
                        &&& block_executed(
                            old(self).state,
                            final(self).state,
                            txs@,
                            b.header.proposer,
                            b.header.height,
                            outcomes,
                            rs,
                            b.header.gas_used,
                            Ok(()),
                        )
                        &&& b.transactions@ == txs_of(select(txs@, outcomes, TxOutcome::Included))
                        &&& b.header.tx_root@ == spec_merkle_root(hashes_view(ids_of(select(txs@, outcomes, TxOutcome::Included))))
                        &&& b.header.receipts_root@ == spec_merkle_root(hashes_view(receipt_ids(rs)))
                        &&& final(self).receipts@ == record_all(old(self).receipts@, rs)
                        &&& final(self).mempool.pending() == old(self).mempool.pending() + txs_of(
                            select(txs@, outcomes, TxOutcome::Requeued),
                        )
                    }
            },
    {
        let ghost cands = txs@;
        let proposer = kp.address();
        let run = self.run_block(txs, &proposer);
        if run.check.is_err() {
            proof {
                assert(select(cands, run.outcomes@, TxOutcome::Requeued) =~= cands) by {
                    lemma_select_all(cands, run.outcomes@, TxOutcome::Requeued);
                }
            }
            return run.check;
        }
        let ghost st = self.state;
        let ghost outs = run.outcomes@;
        let ghost rids = run.receipt_ids@;
        let ghost rec = self.receipts@;
        let ghost pend = self.mempool.pending();
        let ghost height = (old(self).blocks@.last().header.height + 1) as u64;
        let ghost rs = choose|rs: Seq<Receipt>|
            {
                &&& block_executed(old(self).state, st, cands, proposer, height, outs, rs, run.gas_used, run.check)
                &&& receipts_follow(cands, outs, rs)
                &&& run.gas_used == receipts_gas(rs)
                &&& rids == receipt_ids(rs)
                &&& rec == record_all(old(self).receipts@, rs)
            };
        let enc = encode(&self.state);
        let root = self.state.compute_state_root(&enc);
        let header = self.next_header(&run, &proposer, prev_hash, &root, time_unix_ms);
        let ghost h0 = header;
        let sighash = header_sighash(&header);
        let BlockRun { included, .. } = run;
        self.push_block(header, kp, &sighash, included);
        proof {
            let b = self.blocks@.last();
            assert(b.header.proposer == proposer);
            assert(h0 == (Header { signature: h0.signature, ..b.header }));
            assert(block_executed(old(self).state, self.state, cands, b.header.proposer, b.header.height, outs, rs, b.header.gas_used, Ok(())));
            assert(b.transactions@ == txs_of(select(cands, outs, TxOutcome::Included)));
            assert(b.header.receipts_root@ == spec_merkle_root(hashes_view(receipt_ids(rs))));
            assert(self.receipts@ == record_all(old(self).receipts@, rs));
            assert(self.mempool.pending() == pend);
        }
        Ok(())
    }

    /// The ledger with a new operator filter: the mempool is replaced by an
    /// empty one holding at least 5000 transactions (more if the old one
    /// held more); nothing else changes.
    pub fn with_filter<G: TxFilter>(self, filter: G) -> (l: NodeLedger<G>)
        ensures
            l.state == self.state,
            l.blocks == self.blocks,
            l.receipts == self.receipts,
            l.commits == self.commits,
            l.mempool.pending().len() == 0,
            l.mempool.known().len() == 0,
            l.mempool.capacity() == (if self.mempool.pending().len() > 5000 { self.mempool.pending().len() as usize } else { 5000usize }),
    {
        let n = self.mempool.len();
        let cap = if n > 5000 { n } else { 5000 };
        NodeLedger { state: self.state, blocks: self.blocks, receipts: self.receipts, mempool: Mempool::new(cap, filter), commits: self.commits }
    }

    /// Keeps the encoded commit certificate of a height.
    pub fn record_commit(&mut self, height: u64, commit: Vec<u8>)
        ensures
            final(self).commits@ == old(self).commits@.insert(height, commit),
            final(self).state == old(self).state,
            final(self).blocks == old(self).blocks,
            final(self).receipts == old(self).receipts,
            final(self).mempool == old(self).mempool,
    {
        self.commits.insert(height, commit);
    }
}

} // verus!
