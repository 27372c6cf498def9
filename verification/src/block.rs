//! Executing the transactions of a new block and closing it.

use vstd::prelude::*;
use vstd::string::*;
use crate::apply::{ledger_fits, tx_applied, tx_fits, TxContext};
use crate::governance::next_base_fee;
use crate::crypto::{spec_verify_tx, verify_tx};
use crate::errors::StateError;
use crate::text::spec_decimal;
use crate::ledger::outputs_total;
use crate::state::{cap, locked_deposit, nonce_of, ChainState};
use crate::crypto::{hashes_view, merkle_root, spec_merkle_root};
use crate::types::{zero_address, zero_hash, Address, Block, Genesis, Hash256, Header, Origin, ProposalStatus, Receipt, Transaction, TxKind, TxOutput, DEFAULT_BASE_FEE, WIRE_VERSION};

verus! {

/// A transaction waiting for a block, with what the node derived for it.
pub struct BlockTx {
    pub tx: Transaction,
    pub ctx: TxContext,
}

/// What became of one candidate of a block.
#[derive(Clone, Copy, Debug, PartialEq, Eq, Structural)]
pub enum TxOutcome {
    /// Applied successfully: it goes into the block.
    Included,
    /// Ran, with a failed receipt.
    Failed,
    /// Refused before running; it is dropped.
    Dropped,
    /// The block's gas was used up: it goes back to the mempool.
    Requeued,
}

/// What executing a block's candidates gave: the receipts of the
/// transactions that ran, the outcome of each candidate, and the gas used.
pub struct BlockExecution {
    pub receipts: Vec<Receipt>,
    pub outcomes: Vec<TxOutcome>,
    pub gas_used: u64,
}

/// The candidates whose outcome is `k`, in order.
pub open spec fn select(txs: Seq<BlockTx>, outcomes: Seq<TxOutcome>, k: TxOutcome) -> Seq<BlockTx>
    decreases txs.len(),
{
    if txs.len() == 0 || outcomes.len() == 0 {
        Seq::empty()
    } else {
        let rest = select(txs.drop_last(), outcomes.drop_last(), k);
        if outcomes.last() == k { rest.push(txs.last()) } else { rest }
    }
}

/// Sum of the gas of a list of receipts.
pub open spec fn receipts_gas(s: Seq<Receipt>) -> int
    decreases s.len(),
{
    if s.len() == 0 {
        0
    } else {
        receipts_gas(s.drop_last()) + s.last().gas_used
    }
}

/// Whether a candidate with this outcome ran and left a receipt.
pub open spec fn ran(o: TxOutcome) -> bool {
    o == TxOutcome::Included || o == TxOutcome::Failed
}

/// The receipts are those of the candidates that ran, in order: each
/// carries its candidate's id, succeeded exactly when the candidate was
/// included, and used no more gas than the candidate's limit.
pub open spec fn receipts_follow(txs: Seq<BlockTx>, outcomes: Seq<TxOutcome>, receipts: Seq<Receipt>) -> bool
    decreases txs.len(),
{
    if txs.len() == 0 || outcomes.len() == 0 {
        receipts.len() == 0
    } else if ran(outcomes.last()) {
        &&& receipts.len() > 0
        &&& receipts.last().tx_hash == txs.last().ctx.tx_id
        &&& receipts.last().status == (outcomes.last() == TxOutcome::Included)
        &&& receipts.last().gas_used <= txs.last().tx.gas_limit
        &&& receipts_follow(txs.drop_last(), outcomes.drop_last(), receipts.drop_last())
    } else {
        receipts_follow(txs.drop_last(), outcomes.drop_last(), receipts)
    }
}

/// The base fee after a block that used `gas`: moved towards the load
/// when the adjustment can be computed, else unchanged.
pub open spec fn closing_base_fee(s: ChainState, gas: u64) -> u64 {
    let target = s.params.gas_limit / 2;
    let g = gas - target;
    if g >= -0x7fff_ffff_ffff_ffff && (g <= 0 || g <= (i128::MAX as int) / (s.base_fee + 1)) && target != 0 {
        next_base_fee(s.base_fee, gas, target)
    } else {
        s.base_fee
    }
}

/// Closing a block that used `gas` at `height`: the base fee follows the
/// load, the height and epoch are set; nothing else changes.
pub open spec fn block_closed(s: ChainState, fin: ChainState, gas: u64, height: u64) -> bool {
    &&& fin == (ChainState { base_fee: fin.base_fee, height: fin.height, epoch: fin.epoch, ..s })
    &&& fin.base_fee == closing_base_fee(s, gas)
    &&& fin.height == height
    &&& fin.epoch == epoch_of(height, s.params.epoch_length)
}

/// One candidate of a block, met in state `s` with `g` gas used so far:
/// put back when the block's gas is used up, dropped when it does not fit
/// the state's counters, else applied with `apply_tx` (result `res`, state
/// `s2`), and included, failed or dropped as `res` says.
pub open spec fn block_step(
    s: ChainState,
    s2: ChainState,
    item: BlockTx,
    proposer: Address,
    o: TxOutcome,
    res: Result<Receipt, StateError>,
    g: int,
) -> bool {
    let full = g >= s.params.gas_limit || item.tx.gas_limit > u64::MAX - g;
    &&& full ==> o == TxOutcome::Requeued && s2 == s
    &&& !full && !admissible_tx(s, item.tx, item.ctx.sighash@) ==> o == TxOutcome::Dropped && s2 == s
    &&& !full && admissible_tx(s, item.tx, item.ctx.sighash@) ==> {
        &&& tx_applied(s, s2, item.tx, Some(proposer), item.ctx, res)
        &&& o == match res {
            Ok(rc) => if rc.status { TxOutcome::Included } else { TxOutcome::Failed },
            Err(_) => TxOutcome::Dropped,
        }
    }
}

/// The receipts of the candidates that ran, in order.
pub open spec fn ran_receipts(outcomes: Seq<TxOutcome>, results: Seq<Result<Receipt, StateError>>) -> Seq<Receipt>
    decreases outcomes.len(),
{
    if outcomes.len() == 0 || results.len() == 0 {
        Seq::empty()
    } else {
        let rest = ran_receipts(outcomes.drop_last(), results.drop_last());
        if ran(outcomes.last()) && results.last() is Ok {
            rest.push(results.last()->Ok_0)
        } else {
            rest
        }
    }
}

/// What executing the candidates `txs` of a block at `height`, tips to
/// `proposer`, does to `s`, giving `fin`, the outcomes, the receipts, the
/// gas used and the supply check. A state that breaks invariant I1 is
/// refused: nothing changes and every candidate is put back. Otherwise
/// the candidates go in order through `block_step` on the running state,
/// the receipts are those of the candidates that ran, the block is closed
/// and I1 still holds.
pub open spec fn block_executed(
    s: ChainState,
    fin: ChainState,
    txs: Seq<BlockTx>,
    proposer: Address,
    height: u64,
    outcomes: Seq<TxOutcome>,
    receipts: Seq<Receipt>,
    gas: u64,
    check: Result<(), StateError>,
) -> bool {
    &&& outcomes.len() == txs.len()
    &&& fin.genesis_supply == s.genesis_supply
    &&& (check is Ok <==> cap(s.supply()) == s.genesis_supply)
    &&& check is Err ==> {
        &&& crate::errors::fails_with(
            check,
            "supply invariant broken: lhs="@ + spec_decimal(cap(s.supply()) as nat) + " genesis="@ + spec_decimal(s.genesis_supply as nat),
        )
        &&& fin == s
        &&& receipts.len() == 0
        &&& gas == 0
        &&& forall|i: int| 0 <= i < outcomes.len() ==> #[trigger] outcomes[i] == TxOutcome::Requeued
    }
    &&& check is Ok ==> {
        &&& cap(fin.supply()) == fin.genesis_supply
        &&& gas == receipts_gas(receipts)
        &&& exists|states: Seq<ChainState>, results: Seq<Result<Receipt, StateError>>|
            {
                &&& states.len() == txs.len() + 1
                &&& results.len() == txs.len()
                &&& states[0] == s
                &&& forall|i: int|
                    0 <= i < txs.len() ==> #[trigger] block_step(
                        states[i],
                        states[i + 1],
                        txs[i],
                        proposer,
                        outcomes[i],
                        results[i],
                        receipts_gas(ran_receipts(outcomes.take(i), results.take(i))),
                    )
                &&& receipts == ran_receipts(outcomes, results)
                &&& block_closed(states[txs.len() as int], fin, gas, height)
            }
    }
}

/// Every proposal has an id below the next one, and holds a deposit only
/// while it is voting or passed.
pub open spec fn proposals_ok(s: ChainState) -> bool {
    &&& forall|k: u64| #[trigger] s.proposals@.contains_key(k) ==> k < s.next_proposal_id
    &&& forall|k: u64| #[trigger] s.proposals@.contains_key(k) ==> locked_deposit(s.proposals@[k]) == s.proposals@[k].deposit
}

/// Whether a candidate is run: the state's counters and supply have room,
/// its proposals are consistent, the signer's nonce can still move, and the
/// transaction's own sizes, sums and counters fit.
pub open spec fn admissible_tx(s: ChainState, tx: Transaction, sighash: Seq<u8>) -> bool {
    let total = cap(s.supply());
    &&& total != u128::MAX
    &&& s.next_unbond_id != u64::MAX
    &&& s.next_proposal_id != u64::MAX
    &&& proposals_ok(s)
    &&& (spec_verify_tx(tx, sighash) matches Ok(a) ==> nonce_of(s.accounts@, a) != u64::MAX)
    &&& match tx.kind {
        TxKind::Transfer { data, .. } => data.len() <= (u64::MAX - 30000) / 16,
        TxKind::ContractCall { data, .. } => data.len() <= (u64::MAX - 30000) / 16,
        TxKind::Deploy { code, .. } => code.len() <= (u64::MAX - 21000) / 200,
        TxKind::UtxoSpend { outputs } => {
            &&& outputs.len() <= u32::MAX
            &&& outputs_total(outputs@) <= u128::MAX
            &&& (tx.origin matches Origin::Utxo { inputs } ==> inputs.len() * 12000 + outputs.len() * 8000 + 21000 <= u64::MAX)
        },
        TxKind::ShieldedTransfer { fee, .. } => total <= u128::MAX - fee,
        TxKind::BridgeSendPacket { channel_id, data, .. } => {
            &&& data.len() <= (u64::MAX - 61000) / 8
            &&& s.bridges@.contains_key(channel_id@) ==> s.bridges@[channel_id@].next_send_seq < u64::MAX
        },
        TxKind::BridgeRecvPacket { channel_id, .. } => s.bridges@.contains_key(channel_id@) ==> s.bridges@[channel_id@].next_recv_seq
            < u64::MAX,
        TxKind::RollupCommit { rollup_id, .. } => s.rollups@.contains_key(rollup_id@) ==> s.rollups@[rollup_id@].last_batch < u64::MAX,
        _ => true,
    }
}

/// The outputs of a prefix sum to no more than all of them.
proof fn lemma_outputs_prefix(s: Seq<TxOutput>, k: int)
    requires
        0 <= k <= s.len(),
    ensures
        outputs_total(s.take(k)) <= outputs_total(s),
    decreases s.len() - k,
{
    if k < s.len() {
        lemma_outputs_prefix(s, k + 1);
        assert(s.take(k + 1).drop_last() =~= s.take(k));
    } else {
        assert(s.take(k) =~= s);
    }
}

/// The epoch of a height.
pub open spec fn epoch_of(height: u64, epoch_length: u64) -> int {
    (height as int) / (if epoch_length > 1 { epoch_length as int } else { 1int })
}

impl ChainState {
    fn proposals_consistent(&self) -> (b: bool)
        ensures
            b == proposals_ok(*self),
    {
        self.proposals.reveal_entries();
        let n = self.proposals.len();
        let mut i: usize = 0;
        while i < n
            invariant
                n == self.proposals.entries().len(),
                i <= n,
                forall|j: int|
                    #![trigger self.proposals.entries()[j]]
                    0 <= j < n ==> self.proposals@.contains_key(self.proposals.entries()[j].0@) && self.proposals@[self.proposals.entries()[j].0@]
                        == self.proposals.entries()[j].1,
                forall|j: int| 0 <= j < i ==> (#[trigger] self.proposals.entries()[j]).0 < self.next_proposal_id && locked_deposit(
                    self.proposals.entries()[j].1,
                ) == self.proposals.entries()[j].1.deposit,
            decreases n - i,
        {
            let e = self.proposals.entry(i);
            if e.0 >= self.next_proposal_id {
                proof {
                    assert(self.proposals@.contains_key(self.proposals.entries()[i as int].0@));
                }
                return false;
            }
            let locked = e.1.status == ProposalStatus::Voting || e.1.status == ProposalStatus::Passed;
            if !locked && e.1.deposit != 0 {
                proof {
                    let k = self.proposals.entries()[i as int].0;
                    assert(self.proposals@.contains_key(k@));
                    assert(self.proposals@[k] == self.proposals.entries()[i as int].1);
                }
                return false;
            }
            i = i + 1;
        }
        proof {
            assert forall|k: u64| #[trigger] self.proposals@.contains_key(k) implies k < self.next_proposal_id && locked_deposit(
                self.proposals@[k],
            ) == self.proposals@[k].deposit by {
                let j = choose|j: int| 0 <= j < self.proposals.entries().len() && (#[trigger] self.proposals.entries()[j]).0@ == k;
                assert(self.proposals.entries()[j].0 == k);
            }
        }
        true
    }

    /// Whether `tx` can be applied to this state without any counter, gas
    /// figure or sum overflowing.
    fn admissible(&self, tx: &Transaction, ctx: &TxContext) -> (b: bool)
        ensures
            b == admissible_tx(*self, *tx, ctx.sighash@),
            b ==> ledger_fits(*self),
            b ==> tx_fits(*self, *tx),
            b ==> (spec_verify_tx(*tx, ctx.sighash@) matches Ok(a) ==> nonce_of(self.accounts@, a) < u64::MAX),
    {
        let total = self.capped_supply();
        if total == u128::MAX || self.next_unbond_id == u64::MAX || self.next_proposal_id == u64::MAX {
            return false;
        }
        if !self.proposals_consistent() {
            return false;
        }
        match verify_tx(tx, &ctx.sighash) {
            Ok(a) => {
                let acct = self.get_account(&a);
                if acct.nonce == u64::MAX {
                    return false;
                }
            },
            Err(_) => {},
        }
        match &tx.kind {
            TxKind::Transfer { data, .. } => data.len() as u128 <= (u64::MAX as u128 - 30000) / 16,
            TxKind::ContractCall { data, .. } => data.len() as u128 <= (u64::MAX as u128 - 30000) / 16,
            TxKind::Deploy { code, .. } => code.len() as u128 <= (u64::MAX as u128 - 21000) / 200,
            TxKind::UtxoSpend { outputs } => {
                if outputs.len() as u128 > u32::MAX as u128 {
                    return false;
                }
                let mut sum: u128 = 0;
                let mut overflow = false;
                let mut i: usize = 0;
                while i < outputs.len()
                    invariant
                        i <= outputs@.len(),
                        !overflow ==> sum == outputs_total(outputs@.subrange(0, i as int)),
                        overflow ==> outputs_total(outputs@) > u128::MAX,
                    decreases outputs@.len() - i,
                {
                    proof {
                        assert(outputs@.subrange(0, i + 1).drop_last() =~= outputs@.subrange(0, i as int));
                    }
                    match sum.checked_add(outputs[i].amount) {
                        Some(x) => {
                            sum = x;
                            i = i + 1;
                        },
                        None => {
                            proof {
                                lemma_outputs_prefix(outputs@, i + 1);
                                assert(outputs@.subrange(0, i + 1) =~= outputs@.take(i + 1));
                            }
                            overflow = true;
                            i = outputs.len();
                        },
                    }
                }
                if overflow {
                    return false;
                }
                proof {
                    assert(outputs@.subrange(0, outputs@.len() as int) =~= outputs@);
                }
                match &tx.origin {
                    Origin::Utxo { inputs } => (inputs.len() as u128) * 12000 + (outputs.len() as u128) * 8000 + 21000 <= u64::MAX as u128,
                    Origin::Account { .. } => true,
                }
            },
            TxKind::ShieldedTransfer { fee, .. } => total <= u128::MAX - *fee as u128,
            TxKind::BridgeSendPacket { channel_id, data, .. } => {
                if data.len() as u128 > (u64::MAX as u128 - 61000) / 8 {
                    return false;
                }
                match self.bridges.get(channel_id) {
                    Some(c) => c.next_send_seq < u64::MAX,
                    None => true,
                }
            },
            TxKind::BridgeRecvPacket { channel_id, .. } => match self.bridges.get(channel_id) {
                Some(c) => c.next_recv_seq < u64::MAX,
                None => true,
            },
            TxKind::RollupCommit { rollup_id, .. } => match self.rollups.get(rollup_id) {
                Some(r) => r.last_batch < u64::MAX,
                None => true,
            },
            _ => true,
        }
    }

    /// Runs the candidates of a block in order, tips going to `proposer`,
    /// when the state satisfies invariant I1; otherwise it refuses the block,
    /// changing nothing and putting every candidate back. Once the block's
    /// gas limit is reached the rest are put back; a transaction that would
    /// overflow a counter or sum, or that `apply_tx` refuses, is dropped. The
    /// receipts are those of the candidates that ran, in order. Then the base
    /// fee follows the block's load and the height and epoch advance; the
    /// accounted supply is unchanged, so I1 still holds.
    pub fn execute_block(&mut self, txs: &Vec<BlockTx>, proposer: &Address, height: u64) -> (out: (BlockExecution, Result<(), StateError>))
        ensures
            block_executed(
                *old(self),
                *final(self),
                txs@,
                *proposer,
                height,
                out.0.outcomes@,
                out.0.receipts@,
                out.0.gas_used,
                out.1,
            ),
            receipts_follow(txs@, out.0.outcomes@, out.0.receipts@),
            out.0.receipts@.len() <= txs@.len(),
    {
        let mut receipts: Vec<Receipt> = Vec::new();
        let mut outcomes: Vec<TxOutcome> = Vec::new();
        let n = txs.len();
        let first = self.verify_supply_invariant();
        if first.is_err() {
            let mut i: usize = 0;
            while i < n
                invariant
                    n == txs@.len(),
                    i <= n,
                    outcomes@.len() == i,
                    receipts@.len() == 0,
                    forall|j: int| 0 <= j < i ==> outcomes@[j] == TxOutcome::Requeued,
                    receipts_follow(txs@.take(i as int), outcomes@, receipts@),
                decreases n - i,
            {
                let ghost os0 = outcomes@;
                outcomes.push(TxOutcome::Requeued);
                proof {
                    assert(txs@.take(i + 1).drop_last() =~= txs@.take(i as int));
                    assert(outcomes@.drop_last() =~= os0);
                }
                i = i + 1;
            }
            proof {
                assert(txs@.take(n as int) =~= txs@);
            }
            return (BlockExecution { receipts, outcomes, gas_used: 0 }, first);
        }
        let mut gas_total: u64 = 0;
        let ghost mut states: Seq<ChainState> = seq![*self];
        let ghost mut results: Seq<Result<Receipt, StateError>> = Seq::empty();
        let mut i: usize = 0;
        while i < n
            invariant
                n == txs@.len(),
                i <= n,
                states.len() == i + 1,
                results.len() == i,
                outcomes@.len() == i,
                states[0] == *old(self),
                states[i as int] == *self,
                self.genesis_supply == old(self).genesis_supply,
                self.supply() == old(self).supply(),
                cap(old(self).supply()) == old(self).genesis_supply,
                gas_total == receipts_gas(receipts@),
                receipts@ == ran_receipts(outcomes@, results),
                receipts@.len() <= i,
                receipts_follow(txs@.take(i as int), outcomes@, receipts@),
                forall|j: int|
                    0 <= j < i ==> #[trigger] block_step(
                        states[j],
                        states[j + 1],
                        txs@[j],
                        *proposer,
                        outcomes@[j],
                        results[j],
                        receipts_gas(ran_receipts(outcomes@.take(j), results.take(j))),
                    ),
            decreases n - i,
        {
            let item = &txs[i];
            let ghost rs0 = receipts@;
            let ghost os0 = outcomes@;
            let ghost res0 = results;
            let ghost st0 = states;
            let ghost s_before = *self;
            let ghost mut res: Result<Receipt, StateError> = Err(StateError::NonceMismatch);
            proof {
                assert(txs@.take(i + 1).drop_last() =~= txs@.take(i as int));
                assert(os0.take(i as int) =~= os0);
                assert(res0.take(i as int) =~= res0);
            }
            if gas_total >= self.params.gas_limit || item.tx.gas_limit > u64::MAX - gas_total {
                outcomes.push(TxOutcome::Requeued);
            } else if self.admissible(&item.tx, &item.ctx) {
                let applied = self.apply_tx(&item.tx, Some(proposer), &item.ctx);
                proof {
                    res = applied;
                }
                match applied {
                    Ok(receipt) => {
                        gas_total = gas_total + receipt.gas_used;
                        let ok = receipt.status;
                        let ghost before = receipts@;
                        receipts.push(receipt);
                        proof {
                            assert(receipts@.drop_last() == before);
                        }
                        if ok {
                            outcomes.push(TxOutcome::Included);
                        } else {
                            outcomes.push(TxOutcome::Failed);
                        }
                    },
                    Err(_) => {
                        outcomes.push(TxOutcome::Dropped);
                    },
                }
            } else {
                outcomes.push(TxOutcome::Dropped);
            }
            proof {
                results = res0.push(res);
                states = st0.push(*self);
                assert(outcomes@.drop_last() =~= os0);
                assert(results.drop_last() =~= res0);
                if ran(outcomes@.last()) {
                    assert(receipts@.drop_last() =~= rs0);
                } else {
                    assert(receipts@ =~= rs0);
                }
                assert(block_step(s_before, *self, txs@[i as int], *proposer, outcomes@[i as int], res, receipts_gas(rs0)));
                assert forall|j: int|
                    0 <= j <= i implies #[trigger] block_step(
                        states[j],
                        states[j + 1],
                        txs@[j],
                        *proposer,
                        outcomes@[j],
                        results[j],
                        receipts_gas(ran_receipts(outcomes@.take(j), results.take(j))),
                    ) by {
                    assert(outcomes@.take(j) =~= os0.take(j));
                    assert(results.take(j) =~= res0.take(j));
                    if j < i {
                        assert(states[j] == st0[j]);
                        assert(states[j + 1] == st0[j + 1]);
                        assert(block_step(
                            st0[j],
                            st0[j + 1],
                            txs@[j],
                            *proposer,
                            os0[j],
                            res0[j],
                            receipts_gas(ran_receipts(os0.take(j), res0.take(j))),
                        ));
                    }
                }
            }
            i = i + 1;
        }
        proof {
            assert(txs@.take(n as int) =~= txs@);
        }
        let ghost s_run = *self;
        let target = self.params.gas_limit / 2;
        let g = gas_total as i128 - target as i128;
        if g >= -0x7fff_ffff_ffff_ffffi128 && (g <= 0 || g <= i128::MAX / (self.base_fee as i128 + 1)) {
            proof {
                assert(g * self.base_fee <= i128::MAX) by (nonlinear_arith)
                    requires
                        g <= 0 || g <= (i128::MAX as int) / (self.base_fee + 1),
                        self.base_fee >= 0,
                ;
                assert(g * self.base_fee >= i128::MIN) by (nonlinear_arith)
                    requires
                        g >= -0x7fff_ffff_ffff_ffffi128,
                        self.base_fee <= u64::MAX,
                        self.base_fee >= 0,
                ;
            }
            self.adjust_base_fee(gas_total);
        }
        self.height = height;
        let len = if self.params.epoch_length > 1 { self.params.epoch_length } else { 1 };
        self.epoch = height / len;
        let check = self.verify_supply_invariant();
        proof {
            assert(block_closed(s_run, *self, gas_total, height));
            assert(states[n as int] == s_run);
            assert(cap(self.supply()) == self.genesis_supply);
        }
        (BlockExecution { receipts, outcomes, gas_used: gas_total }, check)
    }
}

/// The header of a new block, unsigned: the state's chain id, epoch, gas
/// limit and base fee, with the given roots, time and proposer.
pub fn assemble_header(
    s: &ChainState,
    height: u64,
    time_unix_ms: u64,
    prev_hash: &crate::types::Hash256,
    tx_root: &crate::types::Hash256,
    state_root: &crate::types::Hash256,
    receipts_root: &crate::types::Hash256,
    proposer: &Address,
    gas_used: u64,
) -> (h: Header)
    ensures
        h.version == WIRE_VERSION,
        h.chain_id@ == s.params.chain_id@,
        h.height == height,
        h.time_unix_ms == time_unix_ms,
        h.prev_hash == *prev_hash,
        h.tx_root == *tx_root,
        h.state_root == *state_root,
        h.receipts_root == *receipts_root,
        h.proposer == *proposer,
        h.round == 0,
        h.epoch == s.epoch,
        h.gas_used == gas_used,
        h.gas_limit == s.params.gas_limit,
        h.base_fee == s.base_fee,
        h.signature@.len() == 0,
{
    Header {
        version: WIRE_VERSION,
        chain_id: s.params.chain_id.clone(),
        height,
        time_unix_ms,
        prev_hash: *prev_hash,
        tx_root: *tx_root,
        state_root: *state_root,
        receipts_root: *receipts_root,
        proposer: *proposer,
        round: 0,
        epoch: s.epoch,
        gas_used,
        gas_limit: s.params.gas_limit,
        base_fee: s.base_fee,
        signature: Vec::new(),
    }
}

/// The first block of a chain: height 0 at the genesis time, zero parent
/// hash and proposer, empty transaction and receipt roots, the genesis gas
/// limit and the default base fee, no transactions and no signature.
pub fn genesis_block(g: &Genesis, state_root: &Hash256) -> (b: Block)
    ensures
        b.header.version == WIRE_VERSION,
        b.header.chain_id@ == g.chain_id@,
        b.header.height == 0,
        b.header.time_unix_ms == g.timestamp,
        b.header.prev_hash@ == Seq::new(32, |_i: int| 0u8),
        b.header.tx_root@ == spec_merkle_root(Seq::empty()),
        b.header.state_root == *state_root,
        b.header.receipts_root@ == spec_merkle_root(Seq::empty()),
        b.header.proposer@ == Seq::new(20, |_i: int| 0u8),
        b.header.round == 0,
        b.header.epoch == 0,
        b.header.gas_used == 0,
        b.header.gas_limit == g.params.gas_limit,
        b.header.base_fee == DEFAULT_BASE_FEE,
        b.header.signature@.len() == 0,
        b.transactions@.len() == 0,
{
    let none: Vec<Hash256> = Vec::new();
    let tx_root = merkle_root(none.as_slice());
    let receipts_root = merkle_root(none.as_slice());
    proof {
        assert(hashes_view(none@) =~= Seq::<Seq<u8>>::empty());
    }
    let header = Header {
        version: WIRE_VERSION,
        chain_id: g.chain_id.clone(),
        height: 0,
        time_unix_ms: g.timestamp,
        prev_hash: zero_hash(),
        tx_root,
        state_root: *state_root,
        receipts_root,
        proposer: zero_address(),
        round: 0,
        epoch: 0,
        gas_used: 0,
        gas_limit: g.params.gas_limit,
        base_fee: DEFAULT_BASE_FEE,
        signature: Vec::new(),
    };
    Block { header, transactions: Vec::new() }
}

} // verus!
