//! Applying a transaction to the ledger: authentication, replay
//! protection, dispatch to the handler of its kind, and fees.

use vstd::prelude::*;
use vstd::string::*;
use crate::bytes::addr_eq;
use crate::consensus::Vote;
use crate::crypto::{spec_verify_tx, verify_tx, CryptoError};
use crate::errors::{fails_as, fails_with, state_error_text, StateError};
use crate::ledger::{law_inputs_spent_once, lemma_add_outputs_other, outpoint_key, outputs_total, spend_inputs};
use crate::proofs::{DecodedProofs, ZkVerifyingKeys};
use crate::state::{balance_of, bonded_of, code_hash_of, funds_set, lemma_funds_set_twice, locked_deposit, nonce_of, nonces_kept, storage_of, tombstones_kept, ChainState};
use crate::types::{Address, Hash256, Log, Origin, Receipt, Transaction, TxKind, INTRINSIC_GAS};
use crate::bridges::{bridge_ack_effect, bridge_open_effect, bridge_recv_effect, bridge_send_effect};
use crate::governance::{gov_enact_effect, gov_propose_effect, gov_vote_effect, pool_spend_effect};
use crate::ledger::{deploy_effect, transfer_effect, utxo_spend_effect};
use crate::settlement::{rollup_commit_effect, rollup_finalize_effect, rollup_fraud_effect, rollup_register_effect};
use crate::shielded::{shield_mint_effect, shielded_transfer_effect, unshield_effect};
use crate::slashing::{double_sign_effect, downtime_effect};
use crate::staking::{bond_effect, delegate_effect, redelegate_effect, unbond_effect, undelegate_effect, withdraw_effect};

verus! {

/// What the node supplies with a transaction besides the transaction
/// itself: its signing hash and id (from its encoding), the loaded proof
/// keys, what its embedded proofs, certificates and votes decode to, and
/// whether the no-op rollup scheme is enabled.
pub struct TxContext {
    pub sighash: Hash256,
    pub tx_id: Hash256,
    pub keys: Option<ZkVerifyingKeys>,
    pub decoded: DecodedProofs,
    pub vote_a: Result<Vote, String>,
    pub vote_b: Result<Vote, String>,
    pub allow_noop: bool,
}

/// Bounds under which applying `tx` to `s` overflows no counter, gas
/// figure or sum.
pub open spec fn tx_fits(s: ChainState, tx: Transaction) -> bool {
    match tx.kind {
        TxKind::Transfer { data, .. } => 30000 + 16 * data.len() <= u64::MAX,
        TxKind::ContractCall { data, .. } => 30000 + 16 * data.len() <= u64::MAX,
        TxKind::Deploy { code, .. } => 21000 + 200 * code.len() <= u64::MAX,
        TxKind::UtxoSpend { outputs } => {
            &&& outputs_total(outputs@) <= u128::MAX
            &&& outputs.len() <= u32::MAX
            &&& (tx.origin matches Origin::Utxo { inputs } ==> 21000 + 12000 * inputs.len() + 8000 * outputs.len() <= u64::MAX)
        },
        TxKind::ShieldedTransfer { fee, .. } => s.supply() + fee <= u128::MAX,
        TxKind::BridgeSendPacket { channel_id, data, .. } => 61000 + 8 * data.len() <= u64::MAX && (s.bridges@.contains_key(channel_id@)
            ==> s.bridges@[channel_id@].next_send_seq < u64::MAX),
        TxKind::BridgeRecvPacket { channel_id, .. } => s.bridges@.contains_key(channel_id@) ==> s.bridges@[channel_id@].next_recv_seq
            < u64::MAX,
        TxKind::RollupCommit { rollup_id, .. } => s.rollups@.contains_key(rollup_id@) ==> s.rollups@[rollup_id@].last_batch < u64::MAX,
        _ => true,
    }
}

/// The ledger's counters are below their limits and its proposals are
/// consistent: ids below the next id, deposits held only while locked.
pub open spec fn ledger_fits(s: ChainState) -> bool {
    &&& s.supply() <= u128::MAX
    &&& s.next_unbond_id < u64::MAX
    &&& s.next_proposal_id < u64::MAX
    &&& forall|k: u64| #[trigger] s.proposals@.contains_key(k) ==> k < s.next_proposal_id
    &&& forall|k: u64| #[trigger] s.proposals@.contains_key(k) ==> locked_deposit(s.proposals@[k]) == s.proposals@[k].deposit
}

/// What a transaction that its handler accepted had to find in the state
/// it was applied to: a UTXO spend, inputs that could all be taken (each
/// present, distinct and the sender's); a shielded spend, an unspent
/// nullifier; a rollup commit, the sequencer's next batch; a bond, a
/// sender that the allowlist admits.
pub open spec fn succeeded_as(s: ChainState, tx: Transaction, sender: Seq<u8>) -> bool {
    match tx.kind {
        TxKind::UtxoSpend { .. } => tx.origin matches Origin::Utxo { inputs } && spend_inputs(s.utxos@, inputs@, sender) is Spent,
        TxKind::ShieldedTransfer { nullifiers, .. } => nullifiers.len() == 1 && !s.nullifiers@.contains_key(nullifiers[0]@),
        TxKind::ShieldedUnshield { nullifier, .. } => !s.nullifiers@.contains_key(nullifier@),
        TxKind::RollupCommit { rollup_id, batch_index, .. } => {
            &&& s.rollups@.contains_key(rollup_id@)
            &&& s.rollups@[rollup_id@].sequencer@ == sender
            &&& batch_index == crate::settlement::expected_batch(s.rollups@[rollup_id@].last_batch)
        },
        TxKind::StakeBond { .. } => exists|a: Address| a@ == sender && !crate::staking::bond_denied(s, a),
        _ => true,
    }
}

/// What the handler of `tx`'s kind does when `sender` applies it: from
/// state `s_in`, gas `gas_in` and logs `logs_in` to state `s_out`, gas
/// `gas_out` and logs `logs_out`, with result `r`. Only transfers and
/// contract calls add logs.
pub open spec fn handler_effect(
    s_in: ChainState,
    s_out: ChainState,
    sender: Address,
    tx: Transaction,
    ctx: TxContext,
    gas_in: u64,
    gas_out: u64,
    logs_in: Seq<Log>,
    logs_out: Seq<Log>,
    r: Result<(), StateError>,
) -> bool {
    let keys = match ctx.keys {
        Some(k) => Some(k.shielded),
        None => None,
    };
    let global_vk = match ctx.keys {
        Some(k) => Some(k.rollup@),
        None => None,
    };
    &&& (tx.kind is Transfer || tx.kind is ContractCall || logs_out == logs_in)
    &&& match tx.kind {
        TxKind::Transfer { to, amount, data } => transfer_effect(
            s_in,
            s_out,
            sender,
            to,
            amount,
            data@,
            tx,
            gas_price(tx, s_in.base_fee),
            gas_in,
            gas_out,
            logs_in,
            logs_out,
            r,
        ),
        TxKind::ContractCall { to, amount, data } => transfer_effect(
            s_in,
            s_out,
            sender,
            to,
            amount,
            data@,
            tx,
            gas_price(tx, s_in.base_fee),
            gas_in,
            gas_out,
            logs_in,
            logs_out,
            r,
        ),
        TxKind::Deploy { code, salt } => deploy_effect(s_in, s_out, sender, code@, salt, tx, gas_in, gas_out, r),
        TxKind::UtxoSpend { outputs } => utxo_spend_effect(s_in, s_out, sender, tx, outputs@, ctx.tx_id, gas_in, gas_out, r),
        TxKind::ShieldedShield { commitment, value, proof } => shield_mint_effect(s_in, s_out, sender, commitment, value, proof@, keys, gas_in, gas_out, r),
        TxKind::ShieldedTransfer { anchor, commitments, nullifiers, fee, proof, .. } => shielded_transfer_effect(
            s_in,
            s_out,
            anchor,
            commitments@,
            nullifiers@,
            fee,
            proof@,
            keys,
            gas_in,
            gas_out,
            r,
        ),
        TxKind::ShieldedUnshield { anchor, nullifier, value, proof } => unshield_effect(
            s_in,
            s_out,
            sender,
            anchor,
            nullifier,
            value,
            proof@,
            keys,
            gas_in,
            gas_out,
            r,
        ),
        TxKind::StakeBond { amount, commission_bps } => bond_effect(s_in, s_out, sender, amount, commission_bps, gas_in, gas_out, r),
        TxKind::StakeUnbond { amount } => unbond_effect(s_in, s_out, sender, amount, gas_in, gas_out, r),
        TxKind::StakeDelegate { validator, amount } => delegate_effect(s_in, s_out, sender, validator, amount, gas_in, gas_out, r),
        TxKind::StakeRedelegate { src, dst, amount } => redelegate_effect(s_in, s_out, sender, src, dst, amount, gas_in, gas_out, r),
        TxKind::StakeUndelegate { validator, amount } => undelegate_effect(s_in, s_out, sender, validator, amount, gas_in, gas_out, r),
        TxKind::StakeWithdraw {  } => withdraw_effect(s_in, s_out, sender, gas_in, gas_out, r),
        TxKind::RollupRegister { rollup_id, sequencer, scheme, verifying_key, challenge_period } => rollup_register_effect(
            s_in,
            s_out,
            rollup_id,
            sequencer,
            scheme,
            verifying_key@,
            challenge_period,
            ctx.allow_noop,
            gas_in,
            gas_out,
            r,
        ),
        TxKind::RollupCommit { rollup_id, batch_index, prev_state_root, post_state_root, da_hash, proof } => rollup_commit_effect(
            s_in,
            s_out,
            sender,
            rollup_id,
            batch_index,
            prev_state_root,
            post_state_root,
            da_hash,
            proof@,
            ctx.decoded,
            global_vk,
            ctx.allow_noop,
            gas_in,
            gas_out,
            r,
        ),
        TxKind::RollupFinalize { rollup_id, batch_index } => rollup_finalize_effect(s_in, s_out, rollup_id, batch_index, gas_in, gas_out, r),
        TxKind::RollupFraud { rollup_id, batch_index, .. } => rollup_fraud_effect(
            s_in,
            s_out,
            rollup_id,
            batch_index,
            ctx.decoded.fraud,
            gas_in,
            gas_out,
            r,
        ),
        TxKind::GovernancePropose { title, param_key, param_value, deposit } => gov_propose_effect(
            s_in,
            s_out,
            sender,
            title@,
            param_key@,
            param_value@,
            deposit,
            gas_in,
            gas_out,
            r,
        ),
        TxKind::GovernanceVote { proposal_id, option } => gov_vote_effect(s_in, s_out, sender, proposal_id, option, gas_in, gas_out, r),
        TxKind::GovernanceEnact { proposal_id } => gov_enact_effect(s_in, s_out, proposal_id, gas_in, gas_out, r),
        TxKind::EvidenceDoubleSign { vote_a, vote_b } => double_sign_effect(s_in, s_out, vote_a@, vote_b@, ctx.vote_a, ctx.vote_b, gas_in, gas_out, r),
        TxKind::EvidenceDowntime { validator, missed } => downtime_effect(s_in, s_out, validator, missed, gas_in, gas_out, r),
        TxKind::BridgeOpenChannel { channel_id, counterparty_chain, counterparty_channel } => bridge_open_effect(
            s_in,
            s_out,
            channel_id@,
            counterparty_chain@,
            counterparty_channel@,
            gas_in,
            gas_out,
            r,
        ),
        TxKind::BridgeSendPacket { channel_id, data, timeout_height } => bridge_send_effect(s_in, s_out, channel_id@, data@, timeout_height, gas_in, gas_out, r),
        TxKind::BridgeRecvPacket { channel_id, sequence, data, proof } => bridge_recv_effect(s_in, s_out, channel_id@, sequence, data@, proof@, gas_in, gas_out, r),
        TxKind::BridgeAck { channel_id, sequence, acknowledgement } => bridge_ack_effect(s_in, s_out, channel_id@, sequence, acknowledgement@, gas_in, gas_out, r),
        TxKind::CommunityPoolSpend { to, amount, memo } => pool_spend_effect(s_in, s_out, sender, to, amount, memo@, gas_in, gas_out, r),
    }
}

/// Whether `tx`, signed by `sender`, gets past the checks made before its
/// handler runs: a fee cap at least the base fee, and either an account
/// origin that is the signer with the expected nonce, or some UTXO inputs.
pub open spec fn admitted(s: ChainState, tx: Transaction, sender: Seq<u8>) -> bool {
    &&& tx.max_fee_per_gas >= s.base_fee
    &&& match tx.origin {
        Origin::Account { from } => from@ == sender && nonce_of(s.accounts@, from@) == tx.nonce,
        Origin::Utxo { inputs } => inputs.len() > 0,
    }
}

/// The tip per unit of gas: what the fee cap leaves over the base fee, at
/// most the priority fee.
pub open spec fn tip_per_gas(tx: Transaction, base_fee: u64) -> int {
    let room: int = if tx.max_fee_per_gas > base_fee { tx.max_fee_per_gas - base_fee } else { 0 };
    if room < tx.max_priority_fee_per_gas { room } else { tx.max_priority_fee_per_gas as int }
}

/// The gas that `tx`'s handler charges on top of the intrinsic gas before
/// any contract code runs.
pub open spec fn fixed_gas(tx: Transaction) -> int {
    match tx.kind {
        TxKind::Transfer { data, .. } => 9000 + 16 * data.len(),
        TxKind::ContractCall { data, .. } => 9000 + 16 * data.len(),
        TxKind::Deploy { code, .. } => 200 * code.len(),
        TxKind::UtxoSpend { outputs } => match tx.origin {
            Origin::Utxo { inputs } => 12000 * inputs.len() + 8000 * outputs.len(),
            Origin::Account { .. } => 0,
        },
        TxKind::ShieldedShield { .. } => 100000,
        TxKind::ShieldedTransfer { .. } => 250000,
        TxKind::ShieldedUnshield { .. } => 200000,
        TxKind::StakeBond { .. } => 40000,
        TxKind::StakeUnbond { .. } => 40000,
        TxKind::StakeDelegate { .. } => 45000,
        TxKind::StakeRedelegate { .. } => 55000,
        TxKind::StakeUndelegate { .. } => 45000,
        TxKind::StakeWithdraw {  } => 30000,
        TxKind::RollupRegister { .. } => 50000,
        TxKind::RollupCommit { .. } => 150000,
        TxKind::RollupFinalize { .. } => 30000,
        TxKind::RollupFraud { .. } => 80000,
        TxKind::GovernancePropose { .. } => 60000,
        TxKind::GovernanceVote { .. } => 25000,
        TxKind::GovernanceEnact { .. } => 40000,
        TxKind::EvidenceDoubleSign { .. } => 80000,
        TxKind::EvidenceDowntime { .. } => 50000,
        TxKind::BridgeOpenChannel { .. } => 60000,
        TxKind::BridgeSendPacket { data, .. } => 40000 + 8 * data.len(),
        TxKind::BridgeRecvPacket { .. } => 50000,
        TxKind::BridgeAck { .. } => 30000,
        TxKind::CommunityPoolSpend { .. } => 35000,
    }
}

/// What one unit of gas costs `tx`: the base fee plus its tip.
pub open spec fn gas_price(tx: Transaction, base_fee: u64) -> int {
    base_fee + tip_per_gas(tx, base_fee)
}

/// What is set aside from the sender before the handler runs: the gas
/// charged before any contract code runs, at the gas price.
pub open spec fn gas_reserve(tx: Transaction, base_fee: u64) -> int {
    (INTRINSIC_GAS + fixed_gas(tx)) * gas_price(tx, base_fee)
}

/// The gas a failed transaction is charged: the intrinsic gas, at most
/// its limit.
pub open spec fn failed_gas(tx: Transaction) -> u64 {
    if INTRINSIC_GAS < tx.gas_limit { INTRINSIC_GAS } else { tx.gas_limit }
}

/// `pre` is `s` with `amount` taken from the balance of `sender`; nothing
/// else moved.
pub open spec fn reserved(s: ChainState, pre: ChainState, sender: Seq<u8>, amount: int) -> bool {
    &&& pre == (ChainState { accounts: pre.accounts, ..s })
    &&& funds_set(s.accounts@, pre.accounts@, sender, balance_of(s.accounts@, sender) - amount, bonded_of(s.accounts@, sender))
}

/// What happens after the handler ran (from `mid`, having used `gas` and
/// logged `logs`, with result `hr`) up to the final state `fin` and result
/// `r`, `reserve` having been set aside from the sender. A handler's
/// failure gives a failed receipt: the sender gets the reserve back less
/// the failed gas at the base fee, which is burned. Otherwise the gas is
/// paid at the base fee (burned) plus the tip (to `tip_to`, else the
/// community pool), the rest of the reserve goes back to the sender and
/// the sender's nonce moves on.
pub open spec fn settled(
    mid: ChainState,
    fin: ChainState,
    r: Result<Receipt, StateError>,
    sender: Address,
    tx: Transaction,
    tx_id: Hash256,
    tip_to: Option<Address>,
    reserve: int,
    gas: u64,
    logs: Seq<Log>,
    hr: Result<(), StateError>,
) -> bool {
    match hr {
        Err(e) => {
            let fee = failed_gas(tx) * mid.base_fee;
            &&& r matches Ok(rc)
            &&& rc.tx_hash == tx_id
            &&& !rc.status
            &&& rc.gas_used == failed_gas(tx)
            &&& rc.logs@.len() == 0
            &&& rc.error matches Some(t) && t@ == state_error_text(e)
            &&& fin == (ChainState { accounts: fin.accounts, fee_burned: fin.fee_burned, ..mid })
            &&& fin.fee_burned == mid.fee_burned + fee
            &&& funds_set(
                mid.accounts@,
                fin.accounts@,
                sender@,
                balance_of(mid.accounts@, sender@) + reserve - fee,
                bonded_of(mid.accounts@, sender@),
            )
        },
        Ok(()) => {
            let burn = gas * mid.base_fee;
            let tip = gas * tip_per_gas(tx, mid.base_fee);
            let m0 = mid.accounts@;
            let m1 = fin.accounts@;
            &&& r matches Ok(rc)
            &&& rc.tx_hash == tx_id
            &&& rc.status
            &&& rc.gas_used == gas
            &&& rc.logs@ == logs
            &&& rc.error is None
            &&& fin == (ChainState { accounts: fin.accounts, fee_burned: fin.fee_burned, community_pool: fin.community_pool, ..mid })
            &&& fin.fee_burned == mid.fee_burned + burn
            &&& fin.community_pool == mid.community_pool + (if tip > 0 && tip_to is None { tip } else { 0 })
            &&& forall|k: Seq<u8>| #[trigger] balance_of(m1, k) == balance_of(m0, k)
                + (if k == sender@ { reserve - burn - tip } else { 0 })
                + (if tip > 0 && tip_to is Some && k == tip_to.unwrap()@ { tip } else { 0 })
            &&& forall|k: Seq<u8>| #[trigger] bonded_of(m1, k) == bonded_of(m0, k)
            &&& forall|k: Seq<u8>| #[trigger] code_hash_of(m1, k) == code_hash_of(m0, k)
            &&& forall|k: Seq<u8>| #[trigger] storage_of(m1, k) == storage_of(m0, k)
            &&& nonce_of(m1, sender@) == nonce_of(m0, sender@) + 1
            &&& forall|k: Seq<u8>| k != sender@ ==> #[trigger] nonce_of(m1, k) == nonce_of(m0, k)
        },
    }
}

/// What applying `tx` (tips to `tip_to`, with `ctx`) to `s` gives: the
/// state `fin` and the result `r`. A refusal changes nothing; a
/// transaction that runs conserves the accounted supply (I1) and is
/// charged for its gas whether its handler succeeds or not.
pub open spec fn tx_applied(s: ChainState, fin: ChainState, tx: Transaction, tip_to: Option<Address>, ctx: TxContext, r: Result<
    Receipt,
    StateError,
>) -> bool {
    &&& fin.genesis_supply == s.genesis_supply
    // Only an enacted proposal changes the parameters.
    &&& !(tx.kind is GovernanceEnact) ==> fin.params == s.params
    // Supply conservation (I1).
    &&& fin.supply() == s.supply()
    // Nullifier uniqueness (I4): spent nullifiers stay spent.
    &&& s.nullifiers@.dom().subset_of(fin.nullifiers@.dom())
    // A tombstoned validator stays tombstoned.
    &&& tombstones_kept(s.validators@, fin.validators@)
    &&& r is Err ==> fin == s
    &&& match spec_verify_tx(tx, ctx.sighash@) {
        Err(e) => r matches Err(StateError::Crypto(m)) && m@ == crate::crypto::crypto_error_text(e),
        Ok(sender) => {
            let reserve = gas_reserve(tx, s.base_fee);
            &&& tx.max_fee_per_gas < s.base_fee ==> fails_with(r, "max fee below base fee"@)
            &&& tx.max_fee_per_gas >= s.base_fee ==> match tx.origin {
                Origin::Account { from } => {
                    &&& from@ != sender ==> fails_with(r, "origin/pubkey mismatch"@)
                    &&& from@ == sender && nonce_of(s.accounts@, from@) != tx.nonce ==> fails_as(r, StateError::NonceMismatch)
                },
                Origin::Utxo { inputs } => inputs.len() == 0 ==> fails_with(r, "no utxo inputs"@),
            }
            &&& admitted(s, tx, sender) && INTRINSIC_GAS + fixed_gas(tx) > tx.gas_limit ==> fails_with(r, "gas exceeds limit"@)
            &&& admitted(s, tx, sender) && INTRINSIC_GAS + fixed_gas(tx) <= tx.gas_limit && balance_of(s.accounts@, sender) < reserve
                ==> fails_as(r, StateError::InsufficientBalance)
            // What the reservation, the handler and the fee payment do.
            &&& admitted(s, tx, sender) && INTRINSIC_GAS + fixed_gas(tx) <= tx.gas_limit && balance_of(s.accounts@, sender) >= reserve
                ==> exists|a: Address, pre: ChainState, mid: ChainState, g: u64, l: Seq<Log>, hr: Result<(), StateError>|
                #![trigger handler_effect(pre, mid, a, tx, ctx, INTRINSIC_GAS, g, Seq::<Log>::empty(), l, hr)]
                {
                    &&& a@ == sender
                    &&& reserved(s, pre, sender, reserve)
                    &&& handler_effect(pre, mid, a, tx, ctx, INTRINSIC_GAS, g, Seq::<Log>::empty(), l, hr)
                    &&& settled(mid, fin, r, a, tx, ctx.tx_id, tip_to, reserve, g, l, hr)
                }
            &&& r matches Ok(receipt) ==> {
                &&& receipt.tx_hash == ctx.tx_id
                &&& receipt.status ==> {
                    &&& receipt.error is None
                    // Single spend (I3), fresh nullifiers (I4) and contiguous rollup batches (I8).
                    &&& succeeded_as(s, tx, sender)
                    &&& INTRINSIC_GAS <= receipt.gas_used <= tx.gas_limit
                    // Replay protection (I2): an applied account transaction moves its nonce by one.
                    &&& tx.origin matches Origin::Account { from } ==> nonce_of(fin.accounts@, from@) == tx.nonce + 1
                    &&& forall|k: Seq<u8>| k != sender ==> #[trigger] nonce_of(fin.accounts@, k) == nonce_of(s.accounts@, k)
                }
                // A failed transaction pays its intrinsic gas at the base fee,
                // which is burned, and changes nothing else (I2).
                &&& !receipt.status ==> {
                    &&& receipt.gas_used == failed_gas(tx)
                    &&& receipt.logs@.len() == 0
                    &&& receipt.error is Some
                    &&& fin == (ChainState { accounts: fin.accounts, fee_burned: fin.fee_burned, ..s })
                    &&& fin.fee_burned == s.fee_burned + receipt.gas_used * s.base_fee
                    &&& funds_set(
                        s.accounts@,
                        fin.accounts@,
                        sender,
                        balance_of(s.accounts@, sender) - receipt.gas_used * s.base_fee,
                        bonded_of(s.accounts@, sender),
                    )
                }
            }
        },
    }
}

/// Gas within a contract run's budget is paid for by the balance the
/// budget was taken from.
proof fn lemma_budget_paid(spare: int, price: int, budget: u64, used: int, limit: u64, g1: int)
    requires
        budget == crate::ledger::vm_budget(limit, g1, spare, price),
        0 <= used <= budget,
        spare >= 0,
        price >= 0,
    ensures
        used * price <= spare,
{
    if price > 0 {
        assert(budget <= spare / price);
        assert(used * price <= (spare / price) * price) by (nonlinear_arith)
            requires
                used <= spare / price,
                price > 0,
        ;
        assert((spare / price) * price <= spare) by (nonlinear_arith)
            requires
                price > 0,
                spare >= 0,
        ;
    } else {
        assert(used * price == 0) by (nonlinear_arith)
            requires
                price == 0,
        ;
    }
}

/// The intrinsic gas and the handler's own charge.
fn upfront_gas(s: &ChainState, tx: &Transaction) -> (g: u64)
    requires
        tx_fits(*s, *tx),
    ensures
        g == INTRINSIC_GAS + fixed_gas(*tx),
{
    match &tx.kind {
        TxKind::Transfer { data, .. } => INTRINSIC_GAS + 9000 + 16 * (data.len() as u64),
        TxKind::ContractCall { data, .. } => INTRINSIC_GAS + 9000 + 16 * (data.len() as u64),
        TxKind::Deploy { code, .. } => INTRINSIC_GAS + 200 * (code.len() as u64),
        TxKind::UtxoSpend { outputs } => match &tx.origin {
            Origin::Utxo { inputs } => INTRINSIC_GAS + 12000 * (inputs.len() as u64) + 8000 * (outputs.len() as u64),
            Origin::Account { .. } => INTRINSIC_GAS,
        },
        TxKind::ShieldedShield { .. } => INTRINSIC_GAS + 100000,
        TxKind::ShieldedTransfer { .. } => INTRINSIC_GAS + 250000,
        TxKind::ShieldedUnshield { .. } => INTRINSIC_GAS + 200000,
        TxKind::StakeBond { .. } => INTRINSIC_GAS + 40000,
        TxKind::StakeUnbond { .. } => INTRINSIC_GAS + 40000,
        TxKind::StakeDelegate { .. } => INTRINSIC_GAS + 45000,
        TxKind::StakeRedelegate { .. } => INTRINSIC_GAS + 55000,
        TxKind::StakeUndelegate { .. } => INTRINSIC_GAS + 45000,
        TxKind::StakeWithdraw {  } => INTRINSIC_GAS + 30000,
        TxKind::RollupRegister { .. } => INTRINSIC_GAS + 50000,
        TxKind::RollupCommit { .. } => INTRINSIC_GAS + 150000,
        TxKind::RollupFinalize { .. } => INTRINSIC_GAS + 30000,
        TxKind::RollupFraud { .. } => INTRINSIC_GAS + 80000,
        TxKind::GovernancePropose { .. } => INTRINSIC_GAS + 60000,
        TxKind::GovernanceVote { .. } => INTRINSIC_GAS + 25000,
        TxKind::GovernanceEnact { .. } => INTRINSIC_GAS + 40000,
        TxKind::EvidenceDoubleSign { .. } => INTRINSIC_GAS + 80000,
        TxKind::EvidenceDowntime { .. } => INTRINSIC_GAS + 50000,
        TxKind::BridgeOpenChannel { .. } => INTRINSIC_GAS + 60000,
        TxKind::BridgeSendPacket { data, .. } => INTRINSIC_GAS + 40000 + 8 * (data.len() as u64),
        TxKind::BridgeRecvPacket { .. } => INTRINSIC_GAS + 50000,
        TxKind::BridgeAck { .. } => INTRINSIC_GAS + 30000,
        TxKind::CommunityPoolSpend { .. } => INTRINSIC_GAS + 35000,
    }
}

impl ChainState {
    /// Runs the handler of `tx`'s kind.
    fn dispatch(&mut self, sender: &Address, tx: &Transaction, ctx: &TxContext, price: u64, gas_used: &mut u64, logs: &mut Vec<Log>) -> (r: Result<
        (),
        StateError,
    >)
        requires
            ledger_fits(*old(self)),
            tx_fits(*old(self), *tx),
            *old(gas_used) == INTRINSIC_GAS,
            price == gas_price(*tx, old(self).base_fee),
        ensures
            final(self).genesis_supply == old(self).genesis_supply,
            final(self).base_fee == old(self).base_fee,
            *final(gas_used) >= *old(gas_used),
            nonces_kept(old(self).accounts@, final(self).accounts@),
            final(self).supply() == old(self).supply(),
            r is Err ==> *final(self) == *old(self),
            r is Ok && INTRINSIC_GAS + fixed_gas(*tx) <= tx.gas_limit ==> *final(gas_used) <= tx.gas_limit,
            // Gas beyond the fixed charge comes only from a contract run that
            // the sender's remaining balance pays for.
            r is Ok ==> *final(gas_used) >= INTRINSIC_GAS + fixed_gas(*tx),
            r is Ok ==> (*final(gas_used) - INTRINSIC_GAS - fixed_gas(*tx)) * price <= balance_of(final(self).accounts@, sender@),
            old(self).nullifiers@.dom().subset_of(final(self).nullifiers@.dom()),
            tombstones_kept(old(self).validators@, final(self).validators@),
            r is Ok ==> succeeded_as(*old(self), *tx, sender@),
            handler_effect(*old(self), *final(self), *sender, *tx, *ctx, *old(gas_used), *final(gas_used), old(logs)@, final(logs)@, r),
            !(tx.kind is GovernanceEnact) ==> final(self).params == old(self).params,
    {
        proof {
            old(self).lemma_supply_parts();
        }
        let keys = match &ctx.keys {
            Some(k) => Some(&k.shielded),
            None => None,
        };
        let global_vk: Option<&[u8]> = match &ctx.keys {
            Some(k) => Some(k.rollup.as_slice()),
            None => None,
        };
        let r = match &tx.kind {
            TxKind::Transfer { to, amount, data } => {
                let r = self.apply_transfer(sender, to, *amount, data.as_slice(), tx, price, gas_used, logs);
                proof {
                    let m0 = old(self).accounts@;
                    let g1 = INTRINSIC_GAS + 9000 + 16 * data@.len();
                    if r is Ok && crate::ledger::runs_contract(*old(self), *to, data@) {
                        let spare = balance_of(m0, sender@) - *amount;
                        lemma_budget_paid(
                            spare,
                            price as int,
                            crate::ledger::vm_budget(tx.gas_limit, g1, spare, price as int),
                            *gas_used - g1,
                            tx.gas_limit,
                            g1,
                        );
                        assert(balance_of(self.accounts@, sender@) >= spare);
                    }
                }
                r
            },
            TxKind::ContractCall { to, amount, data } => {
                let r = self.apply_transfer(sender, to, *amount, data.as_slice(), tx, price, gas_used, logs);
                proof {
                    let m0 = old(self).accounts@;
                    let g1 = INTRINSIC_GAS + 9000 + 16 * data@.len();
                    if r is Ok && crate::ledger::runs_contract(*old(self), *to, data@) {
                        let spare = balance_of(m0, sender@) - *amount;
                        lemma_budget_paid(
                            spare,
                            price as int,
                            crate::ledger::vm_budget(tx.gas_limit, g1, spare, price as int),
                            *gas_used - g1,
                            tx.gas_limit,
                            g1,
                        );
                        assert(balance_of(self.accounts@, sender@) >= spare);
                    }
                }
                r
            },
            TxKind::Deploy { code, salt } => self.apply_deploy(sender, code.as_slice(), salt, tx, gas_used),
            TxKind::UtxoSpend { outputs } => self.apply_utxo_spend(sender, tx, outputs.as_slice(), &ctx.tx_id, gas_used),
            TxKind::ShieldedShield { commitment, value, proof } => self.apply_shield_mint(
                sender,
                commitment,
                *value,
                proof.as_slice(),
                keys,
                gas_used,
            ),
            TxKind::ShieldedTransfer { anchor, commitments, nullifiers, fee, proof, .. } => {
                proof {
                    self.lemma_supply_parts();
                }
                self.apply_shielded_transfer(anchor, commitments.as_slice(), nullifiers.as_slice(), *fee, proof.as_slice(), keys, gas_used)
            },
            TxKind::ShieldedUnshield { anchor, nullifier, value, proof } => self.apply_unshield(
                sender,
                anchor,
                nullifier,
                *value,
                proof.as_slice(),
                keys,
                gas_used,
            ),
            TxKind::StakeBond { amount, commission_bps } => self.apply_bond(sender, *amount, *commission_bps, gas_used),
            TxKind::StakeUnbond { amount } => self.apply_unbond(sender, *amount, gas_used),
            TxKind::StakeDelegate { validator, amount } => self.apply_delegate(sender, validator, *amount, gas_used),
            TxKind::StakeRedelegate { src, dst, amount } => self.apply_redelegate(sender, src, dst, *amount, gas_used),
            TxKind::StakeUndelegate { validator, amount } => self.apply_undelegate(sender, validator, *amount, gas_used),
            TxKind::StakeWithdraw {  } => self.apply_withdraw(sender, gas_used),
            TxKind::RollupRegister { rollup_id, sequencer, scheme, verifying_key, challenge_period } => self.apply_rollup_register(
                rollup_id,
                sequencer,
                *scheme,
                verifying_key.as_slice(),
                *challenge_period,
                ctx.allow_noop,
                gas_used,
            ),
            TxKind::RollupCommit { rollup_id, batch_index, prev_state_root, post_state_root, da_hash, proof } => self.apply_rollup_commit(
                sender,
                rollup_id,
                *batch_index,
                prev_state_root,
                post_state_root,
                da_hash,
                proof.as_slice(),
                &ctx.decoded,
                global_vk,
                ctx.allow_noop,
                gas_used,
            ),
            TxKind::RollupFinalize { rollup_id, batch_index } => self.apply_rollup_finalize(rollup_id, *batch_index, gas_used),
            TxKind::RollupFraud { rollup_id, batch_index, .. } => self.apply_rollup_fraud(
                rollup_id,
                *batch_index,
                &ctx.decoded.fraud,
                gas_used,
            ),
            TxKind::GovernancePropose { title, param_key, param_value, deposit } => self.apply_gov_propose(
                sender,
                title.as_str(),
                param_key.as_str(),
                param_value.as_str(),
                *deposit,
                gas_used,
            ),
            TxKind::GovernanceVote { proposal_id, option } => self.apply_gov_vote(sender, *proposal_id, *option, gas_used),
            TxKind::GovernanceEnact { proposal_id } => self.apply_gov_enact(*proposal_id, gas_used),
            TxKind::EvidenceDoubleSign { vote_a, vote_b } => self.apply_evidence_double_sign(
                vote_a.as_slice(),
                vote_b.as_slice(),
                &ctx.vote_a,
                &ctx.vote_b,
                gas_used,
            ),
            TxKind::EvidenceDowntime { validator, missed } => self.apply_evidence_downtime(validator, *missed, gas_used),
            TxKind::BridgeOpenChannel { channel_id, counterparty_chain, counterparty_channel } => self.apply_bridge_open(
                channel_id.as_str(),
                counterparty_chain.as_str(),
                counterparty_channel.as_str(),
                gas_used,
            ),
            TxKind::BridgeSendPacket { channel_id, data, timeout_height } => self.apply_bridge_send(
                channel_id.as_str(),
                data.as_slice(),
                *timeout_height,
                gas_used,
            ),
            TxKind::BridgeRecvPacket { channel_id, sequence, data, proof } => self.apply_bridge_recv(
                channel_id.as_str(),
                *sequence,
                data.as_slice(),
                proof.as_slice(),
                gas_used,
            ),
            TxKind::BridgeAck { channel_id, sequence, acknowledgement } => self.apply_bridge_ack(
                channel_id.as_str(),
                *sequence,
                acknowledgement.as_slice(),
                gas_used,
            ),
            TxKind::CommunityPoolSpend { to, amount, memo } => self.apply_pool_spend(sender, to, *amount, memo.as_str(), gas_used),
        };
        proof {
            if r is Ok {
                let extra = *gas_used - INTRINSIC_GAS - fixed_gas(*tx);
                if extra == 0 {
                    assert(extra * price == 0) by (nonlinear_arith)
                        requires
                            extra == 0,
                    ;
                }
            }
        }
        r
    }

    /// Applies `tx`, authenticated against `ctx.sighash`: fails, changing
    /// nothing, on a bad signature, a fee cap below the base fee, an origin
    /// that is not the signer, a wrong nonce, a UTXO spend without inputs, a
    /// gas limit below the gas charged before any code runs, or a sender
    /// that cannot pay that gas at the gas price. Otherwise that much is set
    /// aside and the handler runs on what is left (a contract run uses no
    /// more gas than the rest of the sender's balance pays for). A handler's
    /// failure gives a failed receipt (intrinsic gas, no logs, the error's
    /// text): the handler changed nothing and the sender pays the intrinsic
    /// gas at the base fee, burned. Success charges the gas used at the base
    /// fee (burned) plus the tip (to `tip_to`, else the community pool),
    /// hands back what was set aside and not used, and bumps the sender's
    /// nonce.
    #[verifier::rlimit(40)]
    pub fn apply_tx(&mut self, tx: &Transaction, tip_to: Option<&Address>, ctx: &TxContext) -> (r: Result<Receipt, StateError>)
        requires
            ledger_fits(*old(self)),
            tx_fits(*old(self), *tx),
            spec_verify_tx(*tx, ctx.sighash@) matches Ok(a) ==> nonce_of(old(self).accounts@, a) < u64::MAX,
        ensures
            tx_applied(*old(self), *final(self), *tx, (match tip_to { Some(t) => Some(*t), None => None }), *ctx, r),
    {
        let sender = match verify_tx(tx, &ctx.sighash) {
            Ok(a) => a,
            Err(e) => {
                return Err(StateError::Crypto(e.message()));
            },
        };
        if tx.max_fee_per_gas < self.base_fee {
            return Err(StateError::InvalidTx(String::from_str("max fee below base fee")));
        }
        match &tx.origin {
            Origin::Account { from } => {
                if !addr_eq(from, &sender) {
                    return Err(StateError::InvalidTx(String::from_str("origin/pubkey mismatch")));
                }
                let acct = self.get_account(from);
                if acct.nonce != tx.nonce {
                    return Err(StateError::NonceMismatch);
                }
            },
            Origin::Utxo { inputs } => {
                if inputs.len() == 0 {
                    return Err(StateError::InvalidTx(String::from_str("no utxo inputs")));
                }
            },
        }
        let ghost s0 = *self;
        let ghost tip_opt: Option<Address> = match tip_to {
            Some(t) => Some(*t),
            None => None,
        };
        let upfront = upfront_gas(self, tx);
        if upfront > tx.gas_limit {
            return Err(StateError::InvalidTx(String::from_str("gas exceeds limit")));
        }
        let room = tx.max_fee_per_gas.saturating_sub(self.base_fee);
        let tip = if room < tx.max_priority_fee_per_gas { room } else { tx.max_priority_fee_per_gas };
        proof {
            assert(tip == tip_per_gas(*tx, self.base_fee));
            assert(tip + self.base_fee <= tx.max_fee_per_gas);
        }
        let price: u64 = self.base_fee + tip;
        proof {
            assert((upfront as int) * (price as int) <= (u64::MAX as int) * (u64::MAX as int)) by (nonlinear_arith)
                requires
                    price <= u64::MAX,
                    upfront <= u64::MAX,
            ;
        }
        let reserve: u128 = (upfront as u128) * (price as u128);
        let balance = self.get_balance(&sender);
        proof {
            assert(reserve == gas_reserve(*tx, self.base_fee));
        }
        if balance < reserve {
            return Err(StateError::InsufficientBalance);
        }
        proof {
            self.lemma_supply_parts();
            self.lemma_account_le_totals(sender@);
        }
        self.debit(&sender, reserve);
        let ghost pre = *self;
        proof {
            self.lemma_supply_parts();
            assert(ledger_fits(pre));
            assert(tx_fits(pre, *tx));
        }
        let mut gas_used: u64 = INTRINSIC_GAS;
        let mut logs: Vec<Log> = Vec::new();
        proof {
            assert(logs@ =~= Seq::<Log>::empty());
        }
        let result = self.dispatch(&sender, tx, ctx, price, &mut gas_used, &mut logs);
        let ghost mid = *self;
        let ghost g = gas_used;
        let ghost l = logs@;
        assert(handler_effect(pre, mid, sender, *tx, *ctx, INTRINSIC_GAS, g, Seq::<Log>::empty(), l, result));
        proof {
            mid.lemma_supply_parts();
            mid.lemma_account_le_totals(sender@);
            assert(mid.supply() == s0.supply() - reserve);
        }
        match result {
            Ok(()) => {
                proof {
                    assert(gas_used <= tx.gas_limit);
                    assert((gas_used as int) * (self.base_fee as int) + (gas_used as int) * (tip as int) <= (upfront as int) * (
                    price as int) + balance_of(mid.accounts@, sender@)) by (nonlinear_arith)
                        requires
                            price == self.base_fee + tip,
                            gas_used >= upfront,
                            (gas_used - upfront) * price <= balance_of(mid.accounts@, sender@),
                            tip >= 0,
                            self.base_fee >= 0,
                    ;
                    assert((gas_used as int) * (tip as int) >= 0) by (nonlinear_arith)
                        requires
                            tip >= 0,
                            gas_used >= 0,
                    ;
                    assert((gas_used as int) * (self.base_fee as int) >= 0) by (nonlinear_arith)
                        requires
                            self.base_fee >= 0,
                            gas_used >= 0,
                    ;
                }
                let base_fee_amt: u128 = (gas_used as u128) * (self.base_fee as u128);
                let tip_amt: u128 = (gas_used as u128) * (tip as u128);
                self.credit(&sender, reserve);
                let ghost s1 = *self;
                proof {
                    self.lemma_supply_parts();
                    assert(balance_of(s1.accounts@, sender@) == balance_of(mid.accounts@, sender@) + reserve);
                }
                let charged = self.charge_fee_split(&sender, base_fee_amt, tip_amt, tip_to);
                proof {
                    assert(charged is Ok);
                }
                let ghost s2 = *self;
                self.bump_nonce(&sender);
                proof {
                    let m0 = mid.accounts@;
                    assert forall|k: Seq<u8>| k != sender@ implies #[trigger] nonce_of(self.accounts@, k) == nonce_of(m0, k) by {
                        assert(nonce_of(s2.accounts@, k) == nonce_of(s1.accounts@, k));
                    }
                    assert(nonce_of(s2.accounts@, sender@) == nonce_of(s1.accounts@, sender@));
                    assert forall|k: Seq<u8>| #[trigger] bonded_of(self.accounts@, k) == bonded_of(m0, k) by {
                        assert(bonded_of(s2.accounts@, k) == bonded_of(s1.accounts@, k));
                        assert(balance_of(self.accounts@, k) == balance_of(s2.accounts@, k));
                    }
                    assert forall|k: Seq<u8>| #[trigger] code_hash_of(self.accounts@, k) == code_hash_of(m0, k) by {
                        assert(code_hash_of(s2.accounts@, k) == code_hash_of(s1.accounts@, k));
                    }
                    assert forall|k: Seq<u8>| #[trigger] storage_of(self.accounts@, k) == storage_of(m0, k) by {
                        assert(storage_of(s2.accounts@, k) == storage_of(s1.accounts@, k));
                        assert(code_hash_of(self.accounts@, k) == code_hash_of(s2.accounts@, k));
                    }
                    assert forall|k: Seq<u8>| #[trigger] balance_of(self.accounts@, k) == balance_of(m0, k) + (if k == sender@ {
                        reserve - base_fee_amt - tip_amt
                    } else {
                        0
                    }) + (if tip_amt > 0 && tip_opt is Some && k == tip_opt.unwrap()@ { tip_amt as int } else { 0 }) by {
                        assert(balance_of(self.accounts@, k) == balance_of(s2.accounts@, k));
                        assert(balance_of(s1.accounts@, k) == balance_of(m0, k) + (if k == sender@ { reserve as int } else { 0 }));
                    }
                    // The nonce moves on from where the sender's account had it.
                    assert(nonce_of(s1.accounts@, sender@) == nonce_of(m0, sender@));
                    assert(nonce_of(m0, sender@) == nonce_of(pre.accounts@, sender@));
                    assert(nonce_of(pre.accounts@, sender@) == nonce_of(s0.accounts@, sender@));
                    assert forall|k: Seq<u8>| k != sender@ implies #[trigger] nonce_of(self.accounts@, k) == nonce_of(s0.accounts@, k) by {
                        assert(nonce_of(m0, k) == nonce_of(pre.accounts@, k));
                        assert(nonce_of(pre.accounts@, k) == nonce_of(s0.accounts@, k));
                    }
                }
                let out = Ok(Receipt { tx_hash: ctx.tx_id, status: true, gas_used, logs, error: None });
                proof {
                    assert(settled(mid, *self, out, sender, *tx, ctx.tx_id, tip_opt, reserve as int, g, l, result));
                    assert(reserved(s0, pre, sender@, reserve as int));
                }
                out
            },
            Err(e) => {
                let gl = if INTRINSIC_GAS < tx.gas_limit { INTRINSIC_GAS } else { tx.gas_limit };
                proof {
                    assert((gl as int) * (self.base_fee as int) <= (upfront as int) * (price as int)) by (nonlinear_arith)
                        requires
                            price == self.base_fee + tip,
                            gl <= upfront,
                            tip >= 0,
                            self.base_fee >= 0,
                            gl >= 0,
                    ;
                    assert((gl as int) * (self.base_fee as int) >= 0) by (nonlinear_arith)
                        requires
                            self.base_fee >= 0,
                            gl >= 0,
                    ;
                }
                let fee: u128 = (gl as u128) * (self.base_fee as u128);
                self.credit(&sender, reserve - fee);
                proof {
                    self.lemma_supply_parts();
                }
                self.fee_burned = self.fee_burned + fee;
                let out = Ok(Receipt { tx_hash: ctx.tx_id, status: false, gas_used: gl, logs: Vec::new(), error: Some(e.message()) });
                proof {
                    assert(mid == pre);
                    lemma_funds_set_twice(
                        s0.accounts@,
                        pre.accounts@,
                        self.accounts@,
                        sender@,
                        balance_of(s0.accounts@, sender@) - reserve,
                        bonded_of(s0.accounts@, sender@),
                        balance_of(s0.accounts@, sender@) - fee,
                        bonded_of(s0.accounts@, sender@),
                    );
                    assert(settled(mid, *self, out, sender, *tx, ctx.tx_id, tip_opt, reserve as int, g, l, result));
                    assert(reserved(s0, pre, sender@, reserve as int));
                }
                out
            },
        }
    }
}

/// A UTXO output is spent at most once (I3): once a spend has succeeded, a
/// later spend that takes any of its inputs again, a replay of the same
/// spend included, does not succeed. (An input filed under the spend's own
/// id is left out: the spend's outputs are filed under that id.)
pub proof fn law_single_spend(
    s: ChainState,
    s1: ChainState,
    tx: Transaction,
    tip: Option<Address>,
    ctx: TxContext,
    rc: Receipt,
    s2: ChainState,
    tx2: Transaction,
    tip2: Option<Address>,
    ctx2: TxContext,
    r2: Result<Receipt, StateError>,
    i: int,
    j: int,
)
    requires
        tx_applied(s, s1, tx, tip, ctx, Ok(rc)),
        rc.status,
        tx.kind is UtxoSpend,
        tx2.kind is UtxoSpend,
        tx.origin matches Origin::Utxo { inputs } && 0 <= i < inputs.len() && inputs@[i].tx_hash@ != ctx.tx_id@,
        tx2.origin matches Origin::Utxo { inputs } && 0 <= j < inputs.len() && outpoint_key(inputs@[j]) == outpoint_key(
            tx.origin->inputs@[i],
        ),
        tx_applied(s1, s2, tx2, tip2, ctx2, r2),
    ensures
        !(r2 matches Ok(rc2) && rc2.status),
{
    let inputs = tx.origin->inputs@;
    let inputs2 = tx2.origin->inputs@;
    let key = outpoint_key(inputs[i]);
    let sender = spec_verify_tx(tx, ctx.sighash@)->Ok_0;
    let reserve = gas_reserve(tx, s.base_fee);
    assert(spec_verify_tx(tx, ctx.sighash@) is Ok);
    assert(admitted(s, tx, sender));
    assert(INTRINSIC_GAS + fixed_gas(tx) <= tx.gas_limit);
    assert(balance_of(s.accounts@, sender) >= reserve);
    let (a, pre, mid, g, l, hr) = choose|a: Address, pre: ChainState, mid: ChainState, g: u64, l: Seq<Log>, hr: Result<(), StateError>|
        {
            &&& a@ == sender
            &&& reserved(s, pre, sender, reserve)
            &&& handler_effect(pre, mid, a, tx, ctx, INTRINSIC_GAS, g, Seq::<Log>::empty(), l, hr)
            &&& settled(mid, s1, Ok(rc), a, tx, ctx.tx_id, tip, reserve, g, l, hr)
        };
    assert(hr is Ok);
    assert(pre.utxos == s.utxos);
    match spend_inputs(pre.utxos@, inputs, sender) {
        crate::ledger::SpendOutcome::Spent(m, _) => {
            law_inputs_spent_once(pre.utxos@, inputs, sender);
            assert(!m.contains_key(key));
            lemma_add_outputs_other(m, ctx.tx_id@, tx.kind->outputs@, key);
            assert(!s1.utxos@.contains_key(key));
        },
        _ => {},
    }
    if r2 matches Ok(rc2) && rc2.status {
        let sender2 = spec_verify_tx(tx2, ctx2.sighash@)->Ok_0;
        assert(succeeded_as(s1, tx2, sender2));
        law_inputs_spent_once(s1.utxos@, inputs2, sender2);
        assert(s1.utxos@.contains_key(outpoint_key(inputs2[j])));
    }
}

/// Law: a plain transfer (no call data) that succeeds uses 30000 gas (the
/// 21000 intrinsic plus 9000), burns that gas at the base fee, pays the
/// tip per gas, the fee cap's excess over the base fee but at most the
/// priority fee, to the tip recipient for each unit of gas, and moves
/// `amount` from the sender to the recipient; the sender pays the amount
/// and the gas at the base fee plus the tip.
pub proof fn law_transfer_moves_amount_and_pays_gas(
    s: ChainState,
    fin: ChainState,
    tx: Transaction,
    tip_to: Address,
    ctx: TxContext,
    rc: Receipt,
)
    requires
        tx_applied(s, fin, tx, Some(tip_to), ctx, Ok(rc)),
        rc.status,
        tx.kind matches TxKind::Transfer { data, .. } && data.len() == 0,
    ensures
        spec_verify_tx(tx, ctx.sighash@) is Ok,
        ({
            let sender = spec_verify_tx(tx, ctx.sighash@)->Ok_0;
            let to = tx.kind->Transfer_to@;
            let amount = tx.kind->Transfer_amount;
            let room = tx.max_fee_per_gas - s.base_fee;
            let tip = if room < tx.max_priority_fee_per_gas { room } else { tx.max_priority_fee_per_gas as int };
            &&& tx.max_fee_per_gas >= s.base_fee
            &&& rc.gas_used == 30000
            &&& fin.fee_burned == s.fee_burned + 30000 * s.base_fee
            &&& sender != to && sender != tip_to@ && to != tip_to@ ==> {
                &&& balance_of(fin.accounts@, sender) == balance_of(s.accounts@, sender) - amount - 30000 * (s.base_fee + tip)
                &&& balance_of(fin.accounts@, to) == balance_of(s.accounts@, to) + amount
                &&& balance_of(fin.accounts@, tip_to@) == balance_of(s.accounts@, tip_to@) + 30000 * tip
            }
        }),
{
    let sender = spec_verify_tx(tx, ctx.sighash@)->Ok_0;
    let reserve = gas_reserve(tx, s.base_fee);
    assert(spec_verify_tx(tx, ctx.sighash@) is Ok);
    assert(admitted(s, tx, sender));
    let (a, pre, mid, g, l, hr) = choose|a: Address, pre: ChainState, mid: ChainState, g: u64, l: Seq<Log>, hr: Result<(), StateError>|
        {
            &&& a@ == sender
            &&& reserved(s, pre, sender, reserve)
            &&& handler_effect(pre, mid, a, tx, ctx, INTRINSIC_GAS, g, Seq::<Log>::empty(), l, hr)
            &&& settled(mid, fin, Ok(rc), a, tx, ctx.tx_id, Some(tip_to), reserve, g, l, hr)
        };
    assert(hr is Ok);
    assert(!crate::ledger::runs_contract(pre, tx.kind->Transfer_to, tx.kind->Transfer_data@));
    assert(g == 30000);
    assert(mid.base_fee == s.base_fee);
    assert(mid.fee_burned == s.fee_burned);
    let tip = tip_per_gas(tx, s.base_fee);
    assert(g * s.base_fee == 30000 * s.base_fee);
    assert(g * tip == 30000 * tip);
    assert(30000 * (s.base_fee + tip) == 30000 * s.base_fee + 30000 * tip) by (nonlinear_arith);
    let to = tx.kind->Transfer_to@;
    if sender != to && sender != tip_to@ && to != tip_to@ {
        assert(balance_of(pre.accounts@, sender) == balance_of(s.accounts@, sender) - reserve);
        assert(balance_of(pre.accounts@, to) == balance_of(s.accounts@, to));
        assert(balance_of(pre.accounts@, tip_to@) == balance_of(s.accounts@, tip_to@));
        assert(balance_of(mid.accounts@, sender) == balance_of(pre.accounts@, sender) - tx.kind->Transfer_amount);
        assert(balance_of(mid.accounts@, to) == balance_of(pre.accounts@, to) + tx.kind->Transfer_amount);
        assert(balance_of(mid.accounts@, tip_to@) == balance_of(pre.accounts@, tip_to@));
        assert(balance_of(fin.accounts@, sender) == balance_of(mid.accounts@, sender) + reserve - g * s.base_fee - g * tip);
        assert(balance_of(fin.accounts@, to) == balance_of(mid.accounts@, to));
        if g * tip > 0 {
            assert(balance_of(fin.accounts@, tip_to@) == balance_of(mid.accounts@, tip_to@) + g * tip);
        } else {
            assert(balance_of(fin.accounts@, tip_to@) == balance_of(mid.accounts@, tip_to@));
        }
    }
}

} // verus!
