//! Value movements of the ledger: fees, nonces, transfers and contract
//! calls, deployments and UTXO spends.

use vstd::prelude::*;
use vstd::string::*;
use std::collections::BTreeMap;
use crate::bytes::{addr_eq, to_vec};
use crate::kvmap::nonneg;
use crate::crypto::{deploy_address, hash_bytes, spec_deploy_address, spec_tagged_hash, tag};
use crate::errors::{fails_with, StateError};
use crate::state::{
    acct_set, balance_fn, balance_of, bonded_fn, bonded_of, code_hash_of, funds_set, nonce_of, nonces_kept, storage_of,
    utxo_fn, ChainState,
};
use crate::types::{Account, Address, Hash256, Log, Origin, OutPoint, Transaction, TxOutput};
use crate::vm::{execute, logs_view, spec_execute, vm_error_text, Env, Exit, HostContext};

use crate::state::tombstones_kept;

verus! {

broadcast use vstd::std_specs::btree::group_btree_axioms;

/// Only balances moved: bonds, nonces, code and storage of every account
/// are as they were.
pub open spec fn only_balances_moved(m0: Map<Seq<u8>, Account>, m1: Map<Seq<u8>, Account>) -> bool {
    forall|k: Seq<u8>|
        #![trigger bonded_of(m1, k)]
        #![trigger nonce_of(m1, k)]
        #![trigger code_hash_of(m1, k)]
        #![trigger storage_of(m1, k)]
        {
            &&& bonded_of(m1, k) == bonded_of(m0, k)
            &&& nonce_of(m1, k) == nonce_of(m0, k)
            &&& code_hash_of(m1, k) == code_hash_of(m0, k)
            &&& storage_of(m1, k) == storage_of(m0, k)
        }
}

/// Sum of the amounts of a list of outputs.
pub open spec fn outputs_total(s: Seq<TxOutput>) -> int
    decreases s.len(),
{
    if s.len() == 0 {
        0
    } else {
        outputs_total(s.drop_last()) + s.last().amount
    }
}

proof fn lemma_funds_set_moves(m0: Map<Seq<u8>, Account>, m1: Map<Seq<u8>, Account>, k: Seq<u8>, b: int)
    requires
        funds_set(m0, m1, k, b, bonded_of(m0, k)),
    ensures
        only_balances_moved(m0, m1),
        forall|j: Seq<u8>| #[trigger] balance_of(m1, j) == if j == k { b } else { balance_of(m0, j) },
        m1.dom() == m0.dom().insert(k),
{
    assert forall|j: Seq<u8>| #[trigger] balance_of(m1, j) == if j == k { b } else { balance_of(m0, j) } by {
        if j != k {
            assert(m1.contains_key(j) == m0.contains_key(j));
        }
    }
    assert forall|j: Seq<u8>|
        #![trigger bonded_of(m1, j)]
        #![trigger nonce_of(m1, j)]
        #![trigger code_hash_of(m1, j)]
        #![trigger storage_of(m1, j)]
        {
            &&& bonded_of(m1, j) == bonded_of(m0, j)
            &&& nonce_of(m1, j) == nonce_of(m0, j)
            &&& code_hash_of(m1, j) == code_hash_of(m0, j)
            &&& storage_of(m1, j) == storage_of(m0, j)
        } by {
        if j != k {
            assert(m1.contains_key(j) == m0.contains_key(j));
        }
    }
}

proof fn lemma_moves_trans(m0: Map<Seq<u8>, Account>, m1: Map<Seq<u8>, Account>, m2: Map<Seq<u8>, Account>)
    requires
        only_balances_moved(m0, m1),
        only_balances_moved(m1, m2),
    ensures
        only_balances_moved(m0, m2),
        nonces_kept(m0, m2),
{
    assert forall|j: Seq<u8>|
        #![trigger bonded_of(m2, j)]
        #![trigger nonce_of(m2, j)]
        #![trigger code_hash_of(m2, j)]
        #![trigger storage_of(m2, j)]
        {
            &&& bonded_of(m2, j) == bonded_of(m0, j)
            &&& nonce_of(m2, j) == nonce_of(m0, j)
            &&& code_hash_of(m2, j) == code_hash_of(m0, j)
            &&& storage_of(m2, j) == storage_of(m0, j)
        } by {
        assert(bonded_of(m1, j) == bonded_of(m0, j));
        assert(nonce_of(m1, j) == nonce_of(m0, j));
        assert(code_hash_of(m1, j) == code_hash_of(m0, j));
        assert(storage_of(m1, j) == storage_of(m0, j));
    }
    assert forall|j: Seq<u8>| #[trigger] nonce_of(m2, j) == nonce_of(m0, j) by {
        assert(nonce_of(m1, j) == nonce_of(m0, j));
    }
}

/// Whether a transfer to `to` with `data` runs the code deployed there.
pub open spec fn runs_contract(s: ChainState, to: Address, data: Seq<u8>) -> bool {
    s.code@.contains_key(to@) && data.len() > 0
}

/// What a contract sees when a transfer of `amount` from `from` reaches it.
pub open spec fn transfer_env(s: ChainState, from: Address, to: Address, amount: u128) -> Env {
    Env {
        caller: from,
        contract: to,
        balance: (balance_of(s.accounts@, to@) - (if to@ == from@ { amount as int } else { 0 }) + amount) as u128,
        height: s.height,
        time: 0,
        value: if amount > u64::MAX { u64::MAX } else { amount as u64 },
    }
}

/// Gas left for the contract once the transfer's own cost is paid.
pub open spec fn remaining_gas(limit: u64, used: int) -> u64 {
    if used >= limit { 0 } else { (limit - used) as u64 }
}

/// The gas a transfer's contract run may use: what the gas limit leaves
/// after `used`, and no more than `spare` pays for at `price` per unit.
pub open spec fn vm_budget(gas_limit: u64, used: int, spare: int, price: int) -> u64 {
    let room = remaining_gas(gas_limit, used);
    if price > 0 && spare / price < room {
        (spare / price) as u64
    } else {
        room
    }
}

/// The view of a UTXO table.
pub type UtxoMap = Map<(Seq<u8>, u32), TxOutput>;

/// The key of an outpoint.
pub open spec fn outpoint_key(op: OutPoint) -> (Seq<u8>, u32) {
    (op.tx_hash@, op.index)
}

/// Where taking a list of inputs out of a UTXO table, one after the other,
/// ends: all taken (the table left and the value taken), or stopped at a
/// missing input or at one owned by someone else (the table left then).
pub enum SpendOutcome {
    Spent(UtxoMap, int),
    Missing(UtxoMap),
    NotOwner(UtxoMap),
}

pub open spec fn spend_inputs(m: UtxoMap, inputs: Seq<OutPoint>, sender: Seq<u8>) -> SpendOutcome
    decreases inputs.len(),
{
    if inputs.len() == 0 {
        SpendOutcome::Spent(m, 0)
    } else {
        match spend_inputs(m, inputs.drop_last(), sender) {
            SpendOutcome::Spent(m1, sum) => {
                let k = outpoint_key(inputs.last());
                if !m1.contains_key(k) {
                    SpendOutcome::Missing(m1)
                } else if m1[k].owner@ != sender {
                    SpendOutcome::NotOwner(m1.remove(k))
                } else {
                    SpendOutcome::Spent(m1.remove(k), sum + m1[k].amount)
                }
            },
            other => other,
        }
    }
}

/// The table `m` with `outputs` added under `(tx_id, i)`.
pub open spec fn add_outputs(m: UtxoMap, tx_id: Seq<u8>, outputs: Seq<TxOutput>) -> UtxoMap
    decreases outputs.len(),
{
    if outputs.len() == 0 {
        m
    } else {
        add_outputs(m, tx_id, outputs.drop_last()).insert((tx_id, (outputs.len() - 1) as u32), outputs.last())
    }
}

/// Outputs filed under `tx_id` leave the outpoints of other transactions
/// as they were.
pub proof fn lemma_add_outputs_other(m: UtxoMap, tx_id: Seq<u8>, outs: Seq<TxOutput>, k: (Seq<u8>, u32))
    requires
        k.0 != tx_id,
    ensures
        add_outputs(m, tx_id, outs).contains_key(k) == m.contains_key(k),
    decreases outs.len(),
{
    if outs.len() > 0 {
        lemma_add_outputs_other(m, tx_id, outs.drop_last(), k);
    }
}

/// None of the new outpoints of a spend is already in the table.
pub open spec fn outputs_fresh(m: UtxoMap, tx_id: Seq<u8>, n: int) -> bool {
    forall|i: int| 0 <= i < n ==> !#[trigger] m.contains_key((tx_id, i as u32))
}

proof fn lemma_outputs_total_prefix(s: Seq<TxOutput>, i: int)
    requires
        0 <= i <= s.len(),
    ensures
        0 <= outputs_total(s.subrange(0, i)) <= outputs_total(s),
    decreases s.len(),
{
    if s.len() > 0 {
        if i == s.len() {
            assert(s.subrange(0, i) =~= s);
            lemma_outputs_total_prefix(s.drop_last(), i - 1);
            assert(s.drop_last().subrange(0, i - 1) =~= s.drop_last());
        } else {
            lemma_outputs_total_prefix(s.drop_last(), i);
            assert(s.drop_last().subrange(0, i) =~= s.subrange(0, i));
        }
    }
}

/// Once taking inputs has stopped, later inputs change nothing.
proof fn lemma_spend_stops(m: UtxoMap, s: Seq<OutPoint>, i: int, sender: Seq<u8>)
    requires
        0 <= i <= s.len(),
        !(spend_inputs(m, s.subrange(0, i), sender) is Spent),
    ensures
        spend_inputs(m, s, sender) == spend_inputs(m, s.subrange(0, i), sender),
    decreases s.len(),
{
    if i == s.len() {
        assert(s.subrange(0, i) =~= s);
    } else {
        assert(s.drop_last().subrange(0, i) =~= s.subrange(0, i));
        lemma_spend_stops(m, s.drop_last(), i, sender);
    }
}

/// Single spend: when a list of inputs can all be taken from a UTXO table,
/// each was in the table, owned by the spender, and is gone afterwards, and
/// no outpoint is listed twice.
pub proof fn law_inputs_spent_once(m: UtxoMap, inputs: Seq<OutPoint>, sender: Seq<u8>)
    requires
        spend_inputs(m, inputs, sender) is Spent,
    ensures
        ({
            let m1 = spend_inputs(m, inputs, sender)->Spent_0;
            &&& forall|i: int| 0 <= i < inputs.len() ==> m.contains_key(outpoint_key(#[trigger] inputs[i]))
            &&& forall|i: int| 0 <= i < inputs.len() ==> m[outpoint_key(#[trigger] inputs[i])].owner@ == sender
            &&& forall|i: int| 0 <= i < inputs.len() ==> !m1.contains_key(outpoint_key(#[trigger] inputs[i]))
            &&& forall|i: int, j: int| 0 <= i < j < inputs.len() ==> outpoint_key(#[trigger] inputs[i]) != outpoint_key(#[trigger] inputs[j])
            &&& forall|k: (Seq<u8>, u32)| #[trigger] m1.contains_key(k) ==> m.contains_key(k) && m1[k] == m[k]
        }),
    decreases inputs.len(),
{
    if inputs.len() > 0 {
        let d = inputs.drop_last();
        assert(spend_inputs(m, d, sender) is Spent);
        law_inputs_spent_once(m, d, sender);
        let m0 = spend_inputs(m, d, sender)->Spent_0;
        let k = outpoint_key(inputs.last());
        assert forall|i: int| 0 <= i < inputs.len() implies m.contains_key(outpoint_key(#[trigger] inputs[i])) && m[outpoint_key(
            inputs[i],
        )].owner@ == sender by {
            if i < d.len() {
                assert(inputs[i] == d[i]);
            }
        }
        assert forall|i: int| 0 <= i < inputs.len() implies !spend_inputs(m, inputs, sender)->Spent_0.contains_key(
            outpoint_key(#[trigger] inputs[i]),
        ) by {
            if i < d.len() {
                assert(inputs[i] == d[i]);
            }
        }
        assert forall|i: int, j: int| 0 <= i < j < inputs.len() implies outpoint_key(#[trigger] inputs[i]) != outpoint_key(
            #[trigger] inputs[j],
        ) by {
            assert(inputs[i] == d[i]);
            if j < d.len() {
                assert(inputs[j] == d[j]);
            } else {
                assert(m0.contains_key(k));
                assert(!m0.contains_key(outpoint_key(d[i])));
            }
        }
    }
}

/// Adding outputs `0..n` touches only the keys `(tx_id, i)` for `i < n`.
proof fn lemma_add_outputs_keys(m: UtxoMap, tx_id: Seq<u8>, outs: Seq<TxOutput>)
    requires
        outs.len() <= u32::MAX,
    ensures
        forall|k: (Seq<u8>, u32)|
            !(k.0 == tx_id && (k.1 as int) < outs.len()) ==> (#[trigger] add_outputs(m, tx_id, outs).contains_key(k)
                == m.contains_key(k)),
    decreases outs.len(),
{
    if outs.len() > 0 {
        lemma_add_outputs_keys(m, tx_id, outs.drop_last());
        let last = (tx_id, (outs.len() - 1) as u32);
        assert(last.1 as int == outs.len() - 1);
        assert forall|k: (Seq<u8>, u32)|
            !(k.0 == tx_id && (k.1 as int) < outs.len()) implies (#[trigger] add_outputs(m, tx_id, outs).contains_key(k)
                == m.contains_key(k)) by {
            assert(k != last);
            assert(add_outputs(m, tx_id, outs) == add_outputs(m, tx_id, outs.drop_last()).insert(last, outs.last()));
            assert(add_outputs(m, tx_id, outs.drop_last()).contains_key(k) == m.contains_key(k));
        }
    }
}

/// What `apply_transfer` does: the state it leaves, the gas it counts and its
/// result, from `s_in` and `gas_in`.
pub open spec fn transfer_effect(s_in: ChainState, s_out: ChainState, from: Address, to: Address, amount: u128, data: Seq<u8>, tx: Transaction, price: int, gas_in: u64, gas_out: u64, logs_in: Seq<Log>, logs_out: Seq<Log>, r: Result<(), StateError>) -> bool {
    &&& tombstones_kept(s_in.validators@, s_out.validators@)
    &&& gas_out >= gas_in + 9000 + 16 * data.len()
    &&& s_out.supply() == s_in.supply()
    &&& nonces_kept(s_in.accounts@, s_out.accounts@)
    &&& s_out == (ChainState { accounts: s_out.accounts, ..s_in })
    &&& ({
        let g1 = gas_in + 9000 + 16 * data.len();
        let m0 = s_in.accounts@;
        let m1 = s_out.accounts@;
        let budget = vm_budget(tx.gas_limit, g1, balance_of(m0, from@) - amount, price);
        let vm = spec_execute(s_in.code@[to@]@, transfer_env(s_in, from, to, amount), storage_of(m0, to@), budget);
        let vm_failed = runs_contract(s_in, to, data) && vm is Failed;
        &&& balance_of(m0, from@) < amount ==> {
            &&& r matches Err(StateError::InsufficientBalance)
            &&& gas_out == g1
            &&& logs_out == logs_in
            &&& s_out == s_in
        }
        &&& balance_of(m0, from@) >= amount && vm_failed ==> {
            &&& (vm matches Exit::Failed(_, e) && r matches Err(StateError::InvalidTx(t)) && t@ == vm_error_text(e))
            &&& gas_out == g1
            &&& logs_out == logs_in
            &&& s_out == s_in
        }
        &&& balance_of(m0, from@) >= amount && !vm_failed ==> {
            &&& r is Ok
            &&& forall|k: Seq<u8>| #[trigger] balance_of(m1, k) == balance_of(m0, k)
                - (if k == from@ { amount as int } else { 0 })
                + (if k == to@ { amount as int } else { 0 })
            &&& forall|k: Seq<u8>| #[trigger] bonded_of(m1, k) == bonded_of(m0, k)
                && code_hash_of(m1, k) == code_hash_of(m0, k)
            &&& forall|k: Seq<u8>| k != to@ ==> #[trigger] storage_of(m1, k) == storage_of(m0, k)
            &&& !runs_contract(s_in, to, data) ==> {
                &&& gas_out == g1
                &&& logs_out == logs_in
                &&& storage_of(m1, to@) == storage_of(m0, to@)
            }
            &&& runs_contract(s_in, to, data) ==> (vm matches Exit::Done(m) && {
                &&& gas_out == g1 + budget - m.gas
                &&& storage_of(m1, to@) == m.storage
                &&& logs_view(logs_out) == logs_view(logs_in) + m.logs
            })
        }
    })
}

/// What `apply_deploy` does: the state it leaves, the gas it counts and its
/// result, from `s_in` and `gas_in`.
pub open spec fn deploy_effect(s_in: ChainState, s_out: ChainState, from: Address, code: Seq<u8>, salt: Hash256, tx: Transaction, gas_in: u64, gas_out: u64, r: Result<(), StateError>) -> bool {
    &&& tombstones_kept(s_in.validators@, s_out.validators@)
    &&& gas_out == gas_in + 200 * code.len()
    &&& s_out.supply() == s_in.supply()
    &&& nonces_kept(s_in.accounts@, s_out.accounts@)
    &&& s_out == (ChainState { accounts: s_out.accounts, code: s_out.code, ..s_in })
    &&& ({
        let addr = spec_deploy_address(from@, tx.nonce, salt@);
        &&& s_in.code@.contains_key(addr) ==> {
            &&& r matches Err(StateError::InvalidTx(t)) && t@ == "contract exists"@
            &&& s_out == s_in
        }
        &&& !s_in.code@.contains_key(addr) ==> {
            &&& r is Ok
            &&& s_out.code@.dom() == s_in.code@.dom().insert(addr)
            &&& s_out.code@[addr]@ == code
            &&& forall|k: Seq<u8>| k != addr && #[trigger] s_in.code@.contains_key(k) ==> s_out.code@[k] == s_in.code@[k]
            &&& s_out.accounts@.dom() == s_in.accounts@.dom().insert(addr)
            &&& code_hash_of(s_out.accounts@, addr) matches Some(h) && h@ == spec_tagged_hash(tag("AETH/BLOB/V1"), code)
            &&& forall|k: Seq<u8>| k != addr ==> #[trigger] code_hash_of(s_out.accounts@, k) == code_hash_of(s_in.accounts@, k)
            &&& forall|k: Seq<u8>| #[trigger] balance_of(s_out.accounts@, k) == balance_of(s_in.accounts@, k)
                && bonded_of(s_out.accounts@, k) == bonded_of(s_in.accounts@, k)
                && storage_of(s_out.accounts@, k) == storage_of(s_in.accounts@, k)
        }
    })
}

/// What `apply_utxo_spend` does: the state it leaves, the gas it counts and its
/// result, from `s_in` and `gas_in`.
pub open spec fn utxo_spend_effect(s_in: ChainState, s_out: ChainState, sender: Address, tx: Transaction, outputs: Seq<TxOutput>, tx_id: Hash256, gas_in: u64, gas_out: u64, r: Result<(), StateError>) -> bool {
    &&& tombstones_kept(s_in.validators@, s_out.validators@)
    &&& s_out == (ChainState { utxos: s_out.utxos, fee_burned: s_out.fee_burned, ..s_in })
    &&& s_out.supply() == s_in.supply()
    &&& tx.origin is Account ==> {
        &&& r matches Err(StateError::InvalidTx(t)) && t@ == "utxo origin required"@
        &&& s_out == s_in
        &&& gas_out == gas_in
    }
    &&& tx.origin matches Origin::Utxo { inputs } ==> {
        &&& gas_out == gas_in + 12000 * inputs.len() + 8000 * outputs.len()
        &&& match spend_inputs(s_in.utxos@, inputs@, sender@) {
            SpendOutcome::Missing(_) => r matches Err(StateError::UtxoMissing) && s_out == s_in,
            SpendOutcome::NotOwner(_) => (r matches Err(StateError::InvalidTx(t)) && t@ == "utxo owner mismatch"@) && s_out == s_in,
            SpendOutcome::Spent(m, sum) => {
                &&& outputs_total(outputs) > sum ==> (r matches Err(StateError::InsufficientBalance)) && s_out == s_in
                &&& outputs_total(outputs) <= sum && !outputs_fresh(m, tx_id@, outputs.len() as int) ==> fails_with(
                    r,
                    "utxo exists"@,
                ) && s_out == s_in
                &&& outputs_total(outputs) <= sum && outputs_fresh(m, tx_id@, outputs.len() as int) ==> {
                    &&& r is Ok
                    &&& s_out.utxos@ == add_outputs(m, tx_id@, outputs)
                    &&& s_out.fee_burned == s_in.fee_burned + sum - outputs_total(outputs)
                }
            },
        }
    }
}

impl ChainState {
    /// Takes `burn + tip` from `from` (whose account is created if missing):
    /// `burn` is burned, `tip` goes to `tip_to` or, without one, to the
    /// community pool. Fails, taking nothing, when the balance is short.
    pub(crate) fn charge_fee_split(&mut self, from: &Address, burn: u128, tip: u128, tip_to: Option<&Address>) -> (r: Result<
        (),
        StateError,
    >)
        requires
            old(self).supply() <= u128::MAX,
            burn + tip <= u128::MAX,
            old(self).fee_burned >= 0,
        ensures
            final(self).supply() == old(self).supply(),
            nonces_kept(old(self).accounts@, final(self).accounts@),
            only_balances_moved(old(self).accounts@, final(self).accounts@),
            r is Ok ==> final(self).accounts@.contains_key(from@),
            *final(self) == (ChainState {
                accounts: final(self).accounts,
                fee_burned: final(self).fee_burned,
                community_pool: final(self).community_pool,
                ..*old(self)
            }),
            balance_of(old(self).accounts@, from@) < burn + tip ==> {
                &&& r matches Err(StateError::InsufficientBalance)
                &&& *final(self) == *old(self)
                &&& final(self).fee_burned == old(self).fee_burned
                &&& final(self).community_pool == old(self).community_pool
            },
            balance_of(old(self).accounts@, from@) >= burn + tip ==> {
                &&& r is Ok
                &&& final(self).fee_burned == old(self).fee_burned + burn
                &&& final(self).community_pool == old(self).community_pool + (if tip > 0 && tip_to is None { tip } else { 0 })
                &&& forall|k: Seq<u8>| #[trigger] balance_of(final(self).accounts@, k) == balance_of(old(self).accounts@, k)
                    - (if k == from@ { burn + tip } else { 0 })
                    + (if tip > 0 && tip_to is Some && k == tip_to.unwrap()@ { tip } else { 0 })
            },
    {
        let total = burn.saturating_add(tip);
        let acct = self.get_account(from);
        if acct.balance < total {
            return Err(StateError::InsufficientBalance);
        }
        let ghost s0 = *self;
        proof {
            self.lemma_supply_parts();
        }
        self.debit(from, total);
        proof {
            lemma_funds_set_moves(s0.accounts@, self.accounts@, from@, balance_of(s0.accounts@, from@) - total);
            self.lemma_supply_parts();
        }
        self.fee_burned = self.fee_burned + burn;
        if tip > 0 {
            match tip_to {
                Some(to) => {
                    let ghost s1 = *self;
                    proof {
                        self.lemma_account_le_totals(to@);
                        self.lemma_supply_parts();
                    }
                    self.credit(to, tip);
                    proof {
                        lemma_funds_set_moves(s1.accounts@, self.accounts@, to@, balance_of(s1.accounts@, to@) + tip);
                        lemma_moves_trans(s0.accounts@, s1.accounts@, self.accounts@);
                    }
                },
                None => {
                    self.community_pool = self.community_pool.saturating_add(tip);
                },
            }
        }
        proof {
            assert(nonces_kept(s0.accounts@, self.accounts@)) by {
                if !(tip > 0 && tip_to is Some) {
                    assert forall|k: Seq<u8>| #[trigger] nonce_of(self.accounts@, k) == nonce_of(s0.accounts@, k) by {
                        assert(nonce_of(self.accounts@, k) == nonce_of(s0.accounts@, k));
                    }
                }
            }
        }
        Ok(())
    }

    /// Burns `fee` from `from`.
    pub(crate) fn charge_fee(&mut self, from: &Address, fee: u128) -> (r: Result<(), StateError>)
        requires
            old(self).supply() <= u128::MAX,
        ensures
            final(self).supply() == old(self).supply(),
            nonces_kept(old(self).accounts@, final(self).accounts@),
            only_balances_moved(old(self).accounts@, final(self).accounts@),
            *final(self) == (ChainState {
                accounts: final(self).accounts,
                fee_burned: final(self).fee_burned,
                community_pool: final(self).community_pool,
                ..*old(self)
            }),
            r is Ok <==> balance_of(old(self).accounts@, from@) >= fee,
            r is Err ==> r matches Err(StateError::InsufficientBalance),
            r is Ok ==> final(self).fee_burned == old(self).fee_burned + fee,
    {
        self.charge_fee_split(from, fee, 0, None)
    }

    /// Moves `amount` from `from` to `to` (creating their accounts) and, when
    /// `to` holds code and `data` is not empty, runs that code with the gas
    /// left under the transaction's limit, at most what the rest of `from`'s
    /// balance pays for at `price` per unit, keeping its storage changes and
    /// logs when it completes.
    pub(crate) fn apply_transfer(
        &mut self,
        from: &Address,
        to: &Address,
        amount: u128,
        data: &[u8],
        tx: &Transaction,
        price: u64,
        gas_used: &mut u64,
        logs: &mut Vec<Log>,
    ) -> (r: Result<(), StateError>)
        requires
            old(self).supply() <= u128::MAX,
            *old(gas_used) + 9000 + 16 * data.len() <= u64::MAX,
        ensures
            transfer_effect(*old(self), *final(self), *from, *to, amount, data@, *tx, price as int, *old(gas_used), *final(gas_used), old(logs)@, final(logs)@, r),
    {
        *gas_used = *gas_used + 9000 + (data.len() as u64) * 16;
        let ghost g1 = *gas_used;
        let ghost s0 = *self;
        let facct = self.get_account(from);
        if facct.balance < amount {
            return Err(StateError::InsufficientBalance);
        }
        let has_code = self.code.contains_key(to);
        let dest0 = self.get_account(to);
        proof {
            self.lemma_supply_parts();
            self.lemma_account_le_totals(to@);
            self.lemma_account_le_totals(from@);
            if to@ != from@ {
                self.lemma_two_accounts_le_total(from@, to@);
            }
        }
        let mut outcome: Option<(u64, Vec<Log>, BTreeMap<u64, u64>)> = None;
        if has_code && data.len() > 0 {
            let code = match self.code.get(to) {
                Some(c) => to_vec(c.as_slice()),
                None => Vec::new(),
            };
            let value: u64 = if amount > u64::MAX as u128 { u64::MAX } else { amount as u64 };
            let contract_balance = if addr_eq(to, from) { dest0.balance } else { dest0.balance + amount };
            let mut host = HostContext {
                caller: *from,
                contract: *to,
                storage: dest0.storage,
                contract_balance,
                block_height: self.height,
                block_time_ms: 0,
                call_value: value,
            };
            let room = tx.gas_limit.saturating_sub(*gas_used);
            let spare = facct.balance - amount;
            let remaining: u64 = if price > 0 && spare / (price as u128) < room as u128 {
                (spare / (price as u128)) as u64
            } else {
                room
            };
            assert(host.env() == transfer_env(s0, *from, *to, amount));
            match execute(code.as_slice(), &mut host, remaining) {
                Ok(vr) => {
                    outcome = Some((vr.gas_used, vr.logs, host.storage));
                },
                Err(e) => {
                    return Err(StateError::InvalidTx(e.message()));
                },
            }
        }
        self.debit(from, amount);
        let ghost s1 = *self;
        proof {
            lemma_funds_set_moves(s0.accounts@, s1.accounts@, from@, balance_of(s0.accounts@, from@) - amount);
            self.lemma_account_le_totals(to@);
            self.lemma_supply_parts();
        }
        self.credit(to, amount);
        let ghost s2 = *self;
        proof {
            lemma_funds_set_moves(s1.accounts@, s2.accounts@, to@, balance_of(s1.accounts@, to@) + amount);
            lemma_moves_trans(s0.accounts@, s1.accounts@, s2.accounts@);
        }
        match outcome {
            Some((vm_gas, vlogs, storage)) => {
                *gas_used = *gas_used + vm_gas;
                let mut vlogs = vlogs;
                let ghost l0 = logs@;
                let ghost l1 = vlogs@;
                logs.append(&mut vlogs);
                proof {
                    assert(logs_view(l0 + l1) =~= logs_view(l0) + logs_view(l1));
                }
                let dest = self.get_account(to);
                self.set_account_meta(to, dest.code_hash, storage);
            },
            None => {},
        }
        Ok(())
    }

    /// Deploys `code` at the address derived from the sender, the
    /// transaction's nonce and `salt`, recording its hash on that account.
    pub(crate) fn apply_deploy(&mut self, from: &Address, code: &[u8], salt: &Hash256, tx: &Transaction, gas_used: &mut u64) -> (r:
        Result<(), StateError>)
        requires
            *old(gas_used) + 200 * code.len() <= u64::MAX,
        ensures
            deploy_effect(*old(self), *final(self), *from, code@, *salt, *tx, *old(gas_used), *final(gas_used), r),
    {
        *gas_used = *gas_used + 200 * (code.len() as u64);
        let addr = deploy_address(from, tx.nonce, salt);
        if self.code.contains_key(&addr) {
            return Err(StateError::InvalidTx(String::from_str("contract exists")));
        }
        let code_hash = hash_bytes(code);
        self.code.insert(addr, to_vec(code));
        let acct = self.get_account(&addr);
        self.set_account_meta(&addr, Some(code_hash), acct.storage);
        proof {
            assert(code_hash@ == spec_tagged_hash(tag("AETH/BLOB/V1"), code@));
            assert forall|k: Seq<u8>| #[trigger] storage_of(self.accounts@, k) == storage_of(old(self).accounts@, k) by {
                if k != addr@ {
                    assert(code_hash_of(self.accounts@, k) == code_hash_of(old(self).accounts@, k));
                }
            }
        }
        Ok(())
    }

    /// Spends the transaction's UTXO inputs, all owned by `sender`, into
    /// `outputs` under `(tx_id, i)`; what the inputs hold beyond the
    /// outputs is burned. Inputs taken before a failure stay taken.
    pub(crate) fn apply_utxo_spend(
        &mut self,
        sender: &Address,
        tx: &Transaction,
        outputs: &[TxOutput],
        tx_id: &Hash256,
        gas_used: &mut u64,
    ) -> (r: Result<(), StateError>)
        requires
            old(self).supply() <= u128::MAX,
            outputs_total(outputs@) <= u128::MAX,
            outputs.len() <= u32::MAX,
            tx.origin matches Origin::Utxo { inputs } ==> *old(gas_used) + 12000 * inputs.len() + 8000 * outputs.len() <= u64::MAX,
        ensures
            utxo_spend_effect(*old(self), *final(self), *sender, *tx, outputs@, *tx_id, *old(gas_used), *final(gas_used), r),
    {
        let inputs = match &tx.origin {
            Origin::Utxo { inputs } => inputs,
            Origin::Account { .. } => {
                return Err(StateError::InvalidTx(String::from_str("utxo origin required")));
            },
        };
        *gas_used = *gas_used + 12000 * (inputs.len() as u64) + 8000 * (outputs.len() as u64);
        proof {
            self.lemma_supply_parts();
        }
        let ghost t0 = self.utxos.total(utxo_fn());
        assert(t0 <= u128::MAX);
        let mut work = self.utxos.duplicate();
        let mut input_sum: u128 = 0;
        let n = inputs.len();
        let mut i: usize = 0;
        while i < n
            invariant
                n == inputs@.len(),
                i <= n,
                *self == *old(self),
                spend_inputs(old(self).utxos@, inputs@.subrange(0, i as int), sender@) == SpendOutcome::Spent(work@, input_sum as int),
                work.total(utxo_fn()) == t0 - input_sum,
                t0 == old(self).utxos.total(utxo_fn()),
                t0 <= u128::MAX,
                old(self).supply() <= u128::MAX,
                work.total(utxo_fn()) >= 0,
                tx.origin == (Origin::Utxo { inputs: *inputs }),
                *gas_used == *old(gas_used) + 12000 * inputs@.len() + 8000 * outputs@.len(),
            decreases n - i,
        {
            let op = inputs[i];
            let key = (op.tx_hash, op.index);
            proof {
                assert(inputs@.subrange(0, i + 1).drop_last() =~= inputs@.subrange(0, i as int));
                assert(nonneg(utxo_fn()));
            }
            let ghost prev = work@;
            proof {
                let p1 = inputs@.subrange(0, i + 1);
                assert(p1.last() == op);
                assert(outpoint_key(op) == key@);
            }
            let removed = work.remove(&key);
            match removed {
                None => {
                    proof {
                        assert(work@ =~= prev);
                        assert(spend_inputs(old(self).utxos@, inputs@.subrange(0, i + 1), sender@) == SpendOutcome::Missing(prev));
                        lemma_spend_stops(old(self).utxos@, inputs@, i + 1, sender@);
                    }
                    return Err(StateError::UtxoMissing);
                },
                Some(u) => {
                    if !addr_eq(&u.owner, sender) {
                        proof {
                            assert(spend_inputs(old(self).utxos@, inputs@.subrange(0, i + 1), sender@) == SpendOutcome::NotOwner(
                                prev.remove(key@),
                            ));
                            lemma_spend_stops(old(self).utxos@, inputs@, i + 1, sender@);
                        }
                        return Err(StateError::InvalidTx(String::from_str("utxo owner mismatch")));
                    }
                    proof {
                        work.lemma_total_nonneg(utxo_fn());
                    }
                    input_sum = input_sum + u.amount;
                },
            }
            i = i + 1;
        }
        proof {
            assert(inputs@.subrange(0, n as int) =~= inputs@);
        }
        let ghost mid = work@;
        let mut output_sum: u128 = 0;
        let mut j: usize = 0;
        while j < outputs.len()
            invariant
                j <= outputs@.len(),
                output_sum == outputs_total(outputs@.subrange(0, j as int)),
                outputs_total(outputs@) <= u128::MAX,
            decreases outputs@.len() - j,
        {
            proof {
                assert(outputs@.subrange(0, j + 1).drop_last() =~= outputs@.subrange(0, j as int));
                lemma_outputs_total_prefix(outputs@, j + 1);
            }
            output_sum = output_sum + outputs[j].amount;
            j = j + 1;
        }
        proof {
            assert(outputs@.subrange(0, outputs@.len() as int) =~= outputs@);
        }
        if output_sum > input_sum {
            return Err(StateError::InsufficientBalance);
        }
        let mut f: usize = 0;
        while f < outputs.len()
            invariant
                f <= outputs@.len(),
                outputs@.len() <= u32::MAX,
                work@ == mid,
                work.total(utxo_fn()) == t0 - input_sum,
                forall|x: int| 0 <= x < f ==> !#[trigger] mid.contains_key((tx_id@, x as u32)),
                *self == *old(self),
                spend_inputs(old(self).utxos@, inputs@, sender@) == SpendOutcome::Spent(mid, input_sum as int),
                output_sum == outputs_total(outputs@),
                output_sum <= input_sum,
                tx.origin == (Origin::Utxo { inputs: *inputs }),
                *gas_used == *old(gas_used) + 12000 * inputs@.len() + 8000 * outputs@.len(),
                t0 == old(self).utxos.total(utxo_fn()),
                old(self).supply() <= u128::MAX,
            decreases outputs@.len() - f,
        {
            let idx: u32 = f as u32;
            if work.contains_key(&(*tx_id, idx)) {
                proof {
                    assert(mid.contains_key((tx_id@, f as int as u32)));
                }
                return Err(StateError::InvalidTx(String::from_str("utxo exists")));
            }
            f = f + 1;
        }
        let leftover = input_sum - output_sum;
        let ghost t1 = work.total(utxo_fn());
        proof {
            lemma_outputs_total_prefix(outputs@, 0);
            assert(outputs@.subrange(0, 0) =~= Seq::<TxOutput>::empty());
        }
        let mut k: usize = 0;
        while k < outputs.len()
            invariant
                k <= outputs@.len(),
                outputs@.len() <= u32::MAX,
                work@ == add_outputs(mid, tx_id@, outputs@.subrange(0, k as int)),
                outputs_fresh(mid, tx_id@, outputs@.len() as int),
                work.total(utxo_fn()) == t1 + outputs_total(outputs@.subrange(0, k as int)),
                forall|x: int| k <= x < outputs@.len() ==> !#[trigger] work@.contains_key((tx_id@, x as u32)),
                t1 == t0 - input_sum,
                leftover == input_sum - output_sum,
                *self == *old(self),
                spend_inputs(old(self).utxos@, inputs@, sender@) == SpendOutcome::Spent(mid, input_sum as int),
                output_sum == outputs_total(outputs@),
                output_sum <= input_sum,
                tx.origin == (Origin::Utxo { inputs: *inputs }),
                *gas_used == *old(gas_used) + 12000 * inputs@.len() + 8000 * outputs@.len(),
                t0 == old(self).utxos.total(utxo_fn()),
                old(self).supply() <= u128::MAX,
            decreases outputs@.len() - k,
        {
            proof {
                assert(outputs@.subrange(0, k + 1).drop_last() =~= outputs@.subrange(0, k as int));
                lemma_add_outputs_keys(mid, tx_id@, outputs@.subrange(0, k as int));
            }
            let idx: u32 = k as u32;
            work.insert((*tx_id, idx), outputs[k]);
            k = k + 1;
        }
        proof {
            assert(outputs@.subrange(0, outputs@.len() as int) =~= outputs@);
            self.lemma_supply_parts();
        }
        self.utxos = work;
        self.fee_burned = self.fee_burned + leftover;
        Ok(())
    }

    /// Sets the code hash and storage of `a`'s account, creating it if
    /// missing.
    pub(crate) fn set_account_meta(&mut self, a: &Address, code_hash: Option<Hash256>, storage: std::collections::BTreeMap<u64, u64>)
        ensures
            acct_set(
                old(self).accounts@,
                final(self).accounts@,
                a@,
                balance_of(old(self).accounts@, a@),
                bonded_of(old(self).accounts@, a@),
                nonce_of(old(self).accounts@, a@),
                code_hash,
                storage@,
            ),
            nonces_kept(old(self).accounts@, final(self).accounts@),
            forall|k: Seq<u8>|
                #[trigger] balance_of(final(self).accounts@, k) == balance_of(old(self).accounts@, k) && bonded_of(
                    final(self).accounts@,
                    k,
                ) == bonded_of(old(self).accounts@, k),
            forall|k: Seq<u8>|
                k != a@ ==> #[trigger] code_hash_of(final(self).accounts@, k) == code_hash_of(old(self).accounts@, k)
                    && storage_of(final(self).accounts@, k) == storage_of(old(self).accounts@, k),
            final(self).supply() == old(self).supply(),
            *final(self) == (ChainState { accounts: final(self).accounts, ..*old(self) }),
    {
        let mut acct = self.get_account(a);
        acct.code_hash = code_hash;
        acct.storage = storage;
        self.accounts.insert(*a, acct);
        proof {
            let m0 = old(self).accounts@;
            let m1 = self.accounts@;
            assert(m1.dom() =~= m0.dom().insert(a@));
            assert forall|k: Seq<u8>| #[trigger] nonce_of(m1, k) == nonce_of(m0, k) by {
                if k != a@ {
                    assert(m1.contains_key(k) == m0.contains_key(k));
                }
            }
            assert forall|k: Seq<u8>| #[trigger] balance_of(m1, k) == balance_of(m0, k) && bonded_of(m1, k) == bonded_of(m0, k) by {
                if k != a@ {
                    assert(m1.contains_key(k) == m0.contains_key(k));
                }
            }
            assert forall|k: Seq<u8>| k != a@ implies #[trigger] code_hash_of(m1, k) == code_hash_of(m0, k) && storage_of(m1, k) == storage_of(m0, k) by {
                assert(m1.contains_key(k) == m0.contains_key(k));
            }
        }
    }

    /// Adds one to the nonce of `from`, if it has an account.
    pub(crate) fn bump_nonce(&mut self, from: &Address)
        requires
            nonce_of(old(self).accounts@, from@) < u64::MAX,
        ensures
            *final(self) == (ChainState { accounts: final(self).accounts, ..*old(self) }),
            final(self).accounts@.dom() == old(self).accounts@.dom(),
            old(self).accounts@.contains_key(from@) ==> nonce_of(final(self).accounts@, from@) == nonce_of(
                old(self).accounts@,
                from@,
            ) + 1,
            forall|k: Seq<u8>|
                k != from@ ==> #[trigger] nonce_of(final(self).accounts@, k) == nonce_of(old(self).accounts@, k),
            forall|k: Seq<u8>|
                #[trigger] balance_of(final(self).accounts@, k) == balance_of(old(self).accounts@, k) && bonded_of(
                    final(self).accounts@,
                    k,
                ) == bonded_of(old(self).accounts@, k),
            forall|k: Seq<u8>|
                #[trigger] code_hash_of(final(self).accounts@, k) == code_hash_of(old(self).accounts@, k) && storage_of(
                    final(self).accounts@,
                    k,
                ) == storage_of(old(self).accounts@, k),
            final(self).supply() == old(self).supply(),
    {
        if let Some(a) = self.accounts.get(from) {
            let mut acct = a.duplicate();
            acct.nonce = acct.nonce + 1;
            let ghost old_bal = a.balance;
            let ghost old_bnd = a.bonded;
            self.accounts.insert(*from, acct);
            proof {
                let m0 = old(self).accounts@;
                let m1 = self.accounts@;
                assert(m1.dom() =~= m0.dom());
                assert forall|k: Seq<u8>| k != from@ implies #[trigger] nonce_of(m1, k) == nonce_of(m0, k) by {}
                assert forall|k: Seq<u8>| #[trigger] balance_of(m1, k) == balance_of(m0, k) && bonded_of(m1, k) == bonded_of(m0, k) by {}
                assert forall|k: Seq<u8>| #[trigger] code_hash_of(m1, k) == code_hash_of(m0, k) && storage_of(m1, k) == storage_of(m0, k) by {}
            }
        }
    }
}

} // verus!
