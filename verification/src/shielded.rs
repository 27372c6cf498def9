//! The shielded pool on the ledger: shielding, private transfers and
//! unshielding, with the note tree and the nullifier set.

use vstd::prelude::*;
use vstd::string::*;
use crate::bytes::hash_eq;
use crate::errors::{fails_as, fails_with, StateError};
use crate::field::{canonical, le_value, lemma_le_value_injective};
use crate::notes::{commitment_values, spec_tree_root, tree_of, NoteTree};
use crate::proofs::{
    groth16_verdict, shield_inputs, transfer_inputs, unshield_inputs, verify_shield, verify_transfer, verify_unshield,
    ShieldPublicInputs, ShieldedVerifyingKey, TransferPublicInputs, UnshieldPublicInputs,
};
use crate::state::{balance_of, bonded_of, funds_set, nonces_kept, ChainState};
use crate::types::{Address, Hash256};
use crate::zk::{zk_error_text, ZkError};

use crate::state::tombstones_kept;

verus! {

/// The root of the note tree over a list of commitments.
pub open spec fn spec_notes_root(leaves: Seq<Hash256>) -> nat {
    spec_tree_root(commitment_values(leaves))
}

/// A `Zk` error carrying the text of a zero-knowledge error.
pub open spec fn is_zk_error(r: Result<(), StateError>, e: ZkError) -> bool {
    r matches Err(StateError::Zk(m)) && m@ == zk_error_text(e)
}

pub open spec fn keys_missing(r: Result<(), StateError>) -> bool {
    r matches Err(StateError::Zk(m)) && m@ == "zk keys not loaded"@
}

/// What `apply_shield_mint` does: the state it leaves, the gas it counts and its
/// result, from `s_in` and `gas_in`.
pub open spec fn shield_mint_effect(s_in: ChainState, s_out: ChainState, from: Address, commitment: Hash256, value: u64, proof: Seq<u8>, keys: Option<ShieldedVerifyingKey>, gas_in: u64, gas_out: u64, r: Result<(), StateError>) -> bool {
    &&& tombstones_kept(s_in.validators@, s_out.validators@)
    &&& gas_out == gas_in + 100000
    &&& s_out.supply() <= s_in.supply()
    &&& !s_in.notes@.contains_key(commitment@) ==> s_out.supply() == s_in.supply()
    &&& nonces_kept(s_in.accounts@, s_out.accounts@)
    &&& s_out == (ChainState {
        accounts: s_out.accounts,
        notes: s_out.notes,
        note_leaves: s_out.note_leaves,
        shielded_value: s_out.shielded_value,
        ..s_in
    })
    &&& ({
        let m0 = s_in.accounts@;
        let bal = balance_of(m0, from@);
        let bnd = bonded_of(m0, from@);
        let v = groth16_verdict(
            keys.unwrap().shield@,
            proof,
            shield_inputs(ShieldPublicInputs { commitment: commitment, value }),
        );
        &&& keys is None ==> keys_missing(r) && s_out == s_in
        &&& keys is Some && v is Err ==> is_zk_error(r, v->Err_0) && s_out == s_in
        &&& keys is Some && v is Ok && bal < value ==> fails_as(r, StateError::InsufficientBalance) && s_out == s_in
        &&& keys is Some && v is Ok && bal >= value && s_in.notes@.contains_key(commitment@) ==> fails_with(
            r,
            "duplicate note commitment"@,
        ) && s_out == s_in
        &&& keys is Some && v is Ok && bal >= value ==> {
            &&& !s_in.notes@.contains_key(commitment@) ==> {
                &&& funds_set(m0, s_out.accounts@, from@, bal - value, bnd)
                &&& r is Ok
                &&& s_out.shielded_value == s_in.shielded_value + value
                &&& s_out.notes@ == s_in.notes@.insert(commitment@, ())
                &&& s_out.note_leaves@ == s_in.note_leaves@.push(commitment)
                &&& s_out.supply() == s_in.supply()
            }
        }
    })
}

/// What `apply_shielded_transfer` does: the state it leaves, the gas it counts and its
/// result, from `s_in` and `gas_in`.
pub open spec fn shielded_transfer_effect(s_in: ChainState, s_out: ChainState, anchor: Hash256, commitments: Seq<Hash256>, nullifiers: Seq<Hash256>, fee: u64, proof: Seq<u8>, keys: Option<ShieldedVerifyingKey>, gas_in: u64, gas_out: u64, r: Result<(), StateError>) -> bool {
    &&& tombstones_kept(s_in.validators@, s_out.validators@)
    &&& gas_out == gas_in + 250000
    &&& s_out.supply() == s_in.supply()
    &&& s_out == (ChainState {
        nullifiers: s_out.nullifiers,
        notes: s_out.notes,
        note_leaves: s_out.note_leaves,
        shielded_value: s_out.shielded_value,
        fee_burned: s_out.fee_burned,
        ..s_in
    })
    &&& commitments.len() != 1 || nullifiers.len() != 1 ==> fails_with(r, "v0.2 transfer supports 1-in 1-out"@) && s_out
    == s_in
    &&& commitments.len() == 1 && nullifiers.len() == 1 ==> {
        let v = groth16_verdict(
            keys.unwrap().transfer@,
            proof,
            transfer_inputs(TransferPublicInputs { anchor: anchor, nullifier: nullifiers[0], cm_out: commitments[0], fee }),
        );
        let fresh_anchor = le_value(anchor@) == spec_notes_root(s_in.note_leaves@);
        let nf = nullifiers[0]@;
        let cm = commitments[0]@;
        &&& !fresh_anchor ==> fails_with(r, "stale shielded anchor"@) && s_out == s_in
        &&& fresh_anchor && keys is None ==> keys_missing(r) && s_out == s_in
        &&& fresh_anchor && keys is Some && v is Err ==> is_zk_error(r, v->Err_0) && s_out == s_in
        &&& fresh_anchor && keys is Some && v is Ok && s_in.nullifiers@.contains_key(nf) ==> fails_with(
            r,
            "nullifier reused"@,
        ) && s_out == s_in
        &&& fresh_anchor && keys is Some && v is Ok && !s_in.nullifiers@.contains_key(nf) && s_in.notes@.contains_key(cm) ==> fails_with(
            r,
            "duplicate note commitment"@,
        ) && s_out == s_in
        &&& fresh_anchor && keys is Some && v is Ok && !s_in.nullifiers@.contains_key(nf) && !s_in.notes@.contains_key(cm)
            && s_in.shielded_value < fee ==> fails_with(r, "shielded supply underflow"@) && s_out == s_in
        &&& fresh_anchor && keys is Some && v is Ok && !s_in.nullifiers@.contains_key(nf) && !s_in.notes@.contains_key(cm)
            && s_in.shielded_value >= fee ==> {
            &&& r is Ok
            &&& s_out.nullifiers@ == s_in.nullifiers@.insert(nf, ())
            &&& s_out.note_leaves@ == s_in.note_leaves@.push(commitments[0])
            &&& s_out.fee_burned == s_in.fee_burned + fee
            &&& s_out.shielded_value == s_in.shielded_value - fee
        }
    }
}

/// What `apply_unshield` does: the state it leaves, the gas it counts and its
/// result, from `s_in` and `gas_in`.
pub open spec fn unshield_effect(s_in: ChainState, s_out: ChainState, to: Address, anchor: Hash256, nullifier: Hash256, value: u64, proof: Seq<u8>, keys: Option<ShieldedVerifyingKey>, gas_in: u64, gas_out: u64, r: Result<(), StateError>) -> bool {
    &&& tombstones_kept(s_in.validators@, s_out.validators@)
    &&& gas_out == gas_in + 200000
    &&& s_out.supply() == s_in.supply()
    &&& nonces_kept(s_in.accounts@, s_out.accounts@)
    &&& s_out == (ChainState {
        nullifiers: s_out.nullifiers,
        shielded_value: s_out.shielded_value,
        accounts: s_out.accounts,
        ..s_in
    })
    &&& ({
        let v = groth16_verdict(
            keys.unwrap().unshield@,
            proof,
            unshield_inputs(UnshieldPublicInputs { anchor: anchor, nullifier: nullifier, value }),
        );
        let fresh_anchor = le_value(anchor@) == spec_notes_root(s_in.note_leaves@);
        let m0 = s_in.accounts@;
        &&& !fresh_anchor ==> fails_with(r, "stale shielded anchor"@) && s_out == s_in
        &&& fresh_anchor && keys is None ==> keys_missing(r) && s_out == s_in
        &&& fresh_anchor && keys is Some && v is Err ==> is_zk_error(r, v->Err_0) && s_out == s_in
        &&& fresh_anchor && keys is Some && v is Ok && s_in.nullifiers@.contains_key(nullifier@) ==> fails_with(
            r,
            "nullifier reused"@,
        ) && s_out == s_in
        &&& fresh_anchor && keys is Some && v is Ok && !s_in.nullifiers@.contains_key(nullifier@) ==> {
            &&& s_in.shielded_value < value ==> fails_with(r, "shielded supply underflow"@) && s_out == s_in
            &&& s_in.shielded_value >= value ==> {
                &&& s_out.nullifiers@ == s_in.nullifiers@.insert(nullifier@, ())
                &&& r is Ok
                &&& s_out.shielded_value == s_in.shielded_value - value
                &&& funds_set(m0, s_out.accounts@, to@, balance_of(m0, to@) + value, bonded_of(m0, to@))
            }
        }
    })
}

impl ChainState {
    /// The note tree over the recorded commitments.
    pub fn note_tree(&self) -> (t: NoteTree)
        ensures
            t.values() == commitment_values(self.note_leaves@),
    {
        tree_of(self.note_leaves.as_slice())
    }

    /// The root of the note tree: the shielded anchor.
    pub fn notes_root(&self) -> (r: Hash256)
        ensures
            le_value(r@) == spec_notes_root(self.note_leaves@),
            canonical(r),
    {
        self.note_tree().root_hash()
    }

    /// Records a new note commitment; fails on a commitment seen before.
    pub(crate) fn append_note(&mut self, commitment: &Hash256) -> (r: Result<(), StateError>)
        ensures
            *final(self) == (ChainState { notes: final(self).notes, note_leaves: final(self).note_leaves, ..*old(self) }),
            old(self).notes@.contains_key(commitment@) ==> fails_with(r, "duplicate note commitment"@) && *final(self) == *old(self),
            !old(self).notes@.contains_key(commitment@) ==> {
                &&& r is Ok
                &&& final(self).notes@ == old(self).notes@.insert(commitment@, ())
                &&& final(self).note_leaves@ == old(self).note_leaves@.push(*commitment)
            },
    {
        if self.notes.contains_key(commitment) {
            return Err(StateError::InvalidTx(String::from_str("duplicate note commitment")));
        }
        self.notes.insert(*commitment, ());
        self.note_leaves.push(*commitment);
        Ok(())
    }

    /// Moves `value` of `from`'s balance into the shielded pool as the note
    /// `commitment`, given a valid shield proof. The balance is taken before
    /// the commitment is checked for reuse.
    pub(crate) fn apply_shield_mint(
        &mut self,
        from: &Address,
        commitment: &Hash256,
        value: u64,
        proof: &[u8],
        keys: Option<&ShieldedVerifyingKey>,
        gas_used: &mut u64,
    ) -> (r: Result<(), StateError>)
        requires
            old(self).supply() <= u128::MAX,
            *old(gas_used) + 100000 <= u64::MAX,
        ensures
            shield_mint_effect(*old(self), *final(self), *from, *commitment, value, proof@, (match keys { Some(v) => Some(*v), None => None }), *old(gas_used), *final(gas_used), r),
    {
        *gas_used = *gas_used + 100000;
        let vk = match keys {
            None => {
                return Err(StateError::Zk(String::from_str("zk keys not loaded")));
            },
            Some(k) => k,
        };
        let publics = ShieldPublicInputs { commitment: *commitment, value };
        match verify_shield(vk, proof, &publics) {
            Ok(()) => {},
            Err(e) => {
                return Err(StateError::Zk(e.message()));
            },
        }
        let amount = value as u128;
        let acct = self.get_account(from);
        if acct.balance < amount {
            return Err(StateError::InsufficientBalance);
        }
        if self.notes.contains_key(commitment) {
            return Err(StateError::InvalidTx(String::from_str("duplicate note commitment")));
        }
        proof {
            self.lemma_supply_parts();
        }
        self.debit(from, amount);
        let a = self.append_note(commitment);
        if a.is_err() {
            return a;
        }
        proof {
            self.lemma_supply_parts();
        }
        self.shielded_value = self.shielded_value + amount;
        Ok(())
    }

    /// Spends one shielded note into one new note, paying `fee` from the
    /// shielded pool to the burn, given a valid transfer proof against the
    /// current anchor.
    pub(crate) fn apply_shielded_transfer(
        &mut self,
        anchor: &Hash256,
        commitments: &[Hash256],
        nullifiers: &[Hash256],
        fee: u64,
        proof: &[u8],
        keys: Option<&ShieldedVerifyingKey>,
        gas_used: &mut u64,
    ) -> (r: Result<(), StateError>)
        requires
            *old(gas_used) + 250000 <= u64::MAX,
            old(self).supply() + fee <= u128::MAX,
        ensures
            shielded_transfer_effect(*old(self), *final(self), *anchor, commitments@, nullifiers@, fee, proof@, (match keys { Some(v) => Some(*v), None => None }), *old(gas_used), *final(gas_used), r),
    {
        *gas_used = *gas_used + 250000;
        if commitments.len() != 1 || nullifiers.len() != 1 {
            return Err(StateError::InvalidTx(String::from_str("v0.2 transfer supports 1-in 1-out")));
        }
        let current = self.notes_root();
        if !hash_eq(anchor, &current) {
            proof {
                if le_value(anchor@) == spec_notes_root(self.note_leaves@) {
                    lemma_le_value_injective(anchor@, current@);
                }
            }
            return Err(StateError::InvalidTx(String::from_str("stale shielded anchor")));
        }
        let vk = match keys {
            None => {
                return Err(StateError::Zk(String::from_str("zk keys not loaded")));
            },
            Some(k) => k,
        };
        let publics = TransferPublicInputs { anchor: *anchor, nullifier: nullifiers[0], cm_out: commitments[0], fee };
        match verify_transfer(vk, proof, &publics) {
            Ok(()) => {},
            Err(e) => {
                return Err(StateError::Zk(e.message()));
            },
        }
        if self.nullifiers.contains_key(&nullifiers[0]) {
            return Err(StateError::InvalidTx(String::from_str("nullifier reused")));
        }
        if self.notes.contains_key(&commitments[0]) {
            return Err(StateError::InvalidTx(String::from_str("duplicate note commitment")));
        }
        if self.shielded_value < fee as u128 {
            return Err(StateError::InvalidTx(String::from_str("shielded supply underflow")));
        }
        self.nullifiers.insert(nullifiers[0], ());
        let a = self.append_note(&commitments[0]);
        if a.is_err() {
            return a;
        }
        proof {
            self.lemma_supply_parts();
        }
        self.shielded_value = self.shielded_value - fee as u128;
        self.fee_burned = self.fee_burned + fee as u128;
        Ok(())
    }

    /// Spends a shielded note into `value` on `to`'s balance, given a valid
    /// unshield proof against the current anchor and enough shielded value.
    pub(crate) fn apply_unshield(
        &mut self,
        to: &Address,
        anchor: &Hash256,
        nullifier: &Hash256,
        value: u64,
        proof: &[u8],
        keys: Option<&ShieldedVerifyingKey>,
        gas_used: &mut u64,
    ) -> (r: Result<(), StateError>)
        requires
            old(self).supply() <= u128::MAX,
            *old(gas_used) + 200000 <= u64::MAX,
        ensures
            unshield_effect(*old(self), *final(self), *to, *anchor, *nullifier, value, proof@, (match keys { Some(v) => Some(*v), None => None }), *old(gas_used), *final(gas_used), r),
    {
        *gas_used = *gas_used + 200000;
        let current = self.notes_root();
        if !hash_eq(anchor, &current) {
            proof {
                if le_value(anchor@) == spec_notes_root(self.note_leaves@) {
                    lemma_le_value_injective(anchor@, current@);
                }
            }
            return Err(StateError::InvalidTx(String::from_str("stale shielded anchor")));
        }
        let vk = match keys {
            None => {
                return Err(StateError::Zk(String::from_str("zk keys not loaded")));
            },
            Some(k) => k,
        };
        let publics = UnshieldPublicInputs { anchor: *anchor, nullifier: *nullifier, value };
        match verify_unshield(vk, proof, &publics) {
            Ok(()) => {},
            Err(e) => {
                return Err(StateError::Zk(e.message()));
            },
        }
        if self.nullifiers.contains_key(nullifier) {
            return Err(StateError::InvalidTx(String::from_str("nullifier reused")));
        }
        let amount = value as u128;
        if self.shielded_value < amount {
            return Err(StateError::InvalidTx(String::from_str("shielded supply underflow")));
        }
        self.nullifiers.insert(*nullifier, ());
        self.shielded_value = self.shielded_value - amount;
        proof {
            self.lemma_supply_parts();
            self.lemma_account_le_totals(to@);
        }
        self.credit(to, amount);
        Ok(())
    }
}

/// The serialized tables that the state root commits to, as the node
/// encodes them: accounts, UTXOs, contract code, the sorted nullifiers,
/// rollups and validators.
pub struct StateEncodings {
    pub accounts: Vec<u8>,
    pub utxos: Vec<u8>,
    pub code: Vec<u8>,
    pub nullifiers: Vec<u8>,
    pub rollups: Vec<u8>,
    pub validators: Vec<u8>,
}

/// The blob hash of an encoding.
pub open spec fn blob_hash(b: Seq<u8>) -> Seq<u8> {
    crate::crypto::spec_tagged_hash(crate::crypto::tag("AETH/BLOB/V1"), b)
}

/// The state root over the tables' blob hashes and the notes root.
pub open spec fn spec_state_root(enc: StateEncodings, notes_root: Seq<u8>) -> Seq<u8> {
    crate::crypto::spec_tagged_hash(
        crate::crypto::tag("AETH/STATE/V1"),
        blob_hash(enc.accounts@) + blob_hash(enc.utxos@) + blob_hash(enc.code@) + notes_root + blob_hash(enc.nullifiers@)
            + blob_hash(enc.rollups@) + blob_hash(enc.validators@),
    )
}

impl ChainState {
    /// The state root: the composite of the tables' blob hashes and the
    /// notes root.
    pub fn compute_state_root(&self, enc: &StateEncodings) -> (h: Hash256)
        ensures
            exists|nr: Hash256| le_value(nr@) == spec_notes_root(self.note_leaves@) && canonical(nr) && h@ == spec_state_root(*enc, nr@),
    {
        let accounts_root = crate::crypto::hash_bytes(enc.accounts.as_slice());
        let utxo_root = crate::crypto::hash_bytes(enc.utxos.as_slice());
        let contracts_root = crate::crypto::hash_bytes(enc.code.as_slice());
        let notes_root = self.notes_root();
        let nullifiers_root = crate::crypto::hash_bytes(enc.nullifiers.as_slice());
        let rollups_root = crate::crypto::hash_bytes(enc.rollups.as_slice());
        let validator_set_root = crate::crypto::hash_bytes(enc.validators.as_slice());
        let parts = [accounts_root, utxo_root, contracts_root, notes_root, nullifiers_root, rollups_root, validator_set_root];
        let h = crate::crypto::composite_state_root(parts.as_slice());
        proof {
            let hv = crate::crypto::hashes_view(parts@);
            reveal_with_fuel(crate::crypto::concat_all, 8);
            assert(hv[0] == accounts_root@);
            assert(hv.subrange(0, 1) =~= hv.drop_last().drop_last().drop_last().drop_last().drop_last().drop_last());
            assert(crate::crypto::concat_all(hv) =~= accounts_root@ + utxo_root@ + contracts_root@ + notes_root@ + nullifiers_root@
                + rollups_root@ + validator_set_root@);
        }
        h
    }

    /// A light-client view of an account: the account, the state root and
    /// the hash of the encoded accounts table.
    pub fn light_account_proof(&self, addr: &Address, enc: &StateEncodings) -> (p: crate::types::AccountProof)
        ensures
            p.address == *addr,
            p.valid,
            p.accounts_blob_hash@ == blob_hash(enc.accounts@),
            exists|nr: Hash256| le_value(nr@) == spec_notes_root(self.note_leaves@) && canonical(nr) && p.state_root@ == spec_state_root(
                *enc,
                nr@,
            ),
            self.accounts@.contains_key(addr@) ==> p.account.balance == self.accounts@[addr@].balance && p.account.nonce
                == self.accounts@[addr@].nonce && p.account.bonded == self.accounts@[addr@].bonded,
            !self.accounts@.contains_key(addr@) ==> p.account.is_empty_account(),
    {
        let account = self.get_account(addr);
        let accounts_blob_hash = crate::crypto::hash_bytes(enc.accounts.as_slice());
        let state_root = self.compute_state_root(enc);
        crate::types::AccountProof { address: *addr, account, state_root, accounts_blob_hash, valid: true }
    }
}

} // verus!
