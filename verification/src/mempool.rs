//! Priority mempool with duplicate suppression and operator filters.

use vstd::prelude::*;
use vstd::string::*;
use crate::adapters::{AllowAll, TxFilter};
use crate::bytes::hash_eq;
use crate::crypto::{spec_verify_tx, verify_tx};
use crate::errors::{is_invalid_tx, StateError};
use crate::types::{Hash256, Origin, Transaction};

verus! {

/// The nonce used to order transactions of equal priority fee: the account
/// nonce, or 0 for UTXO-funded transactions.
pub open spec fn nonce_key(tx: Transaction) -> u64 {
    match tx.origin {
        Origin::Account { .. } => tx.nonce,
        _ => 0,
    }
}

/// `a` is ordered strictly before `b`: a higher priority fee, or the same
/// fee and a lower nonce key.
pub open spec fn goes_before(a: Transaction, b: Transaction) -> bool {
    a.max_priority_fee_per_gas > b.max_priority_fee_per_gas || (a.max_priority_fee_per_gas
        == b.max_priority_fee_per_gas && nonce_key(a) < nonce_key(b))
}

/// Where `x` goes in an ordered list: before the first element it is
/// ordered strictly before (after all equal ones).
pub open spec fn insert_pos(s: Seq<Transaction>, x: Transaction) -> int
    decreases s.len(),
{
    if s.len() == 0 {
        0
    } else if goes_before(x, s[0]) {
        0
    } else {
        1 + insert_pos(s.subrange(1, s.len() as int), x)
    }
}

/// The list in priority order; transactions that compare equal keep their
/// arrival order.
pub open spec fn prioritized(s: Seq<Transaction>) -> Seq<Transaction>
    decreases s.len(),
{
    if s.len() == 0 {
        Seq::empty()
    } else {
        let p = prioritized(s.drop_last());
        p.insert(insert_pos(p, s.last()), s.last())
    }
}

/// No element is ordered strictly before an earlier one.
pub open spec fn is_prioritized(s: Seq<Transaction>) -> bool {
    forall|i: int, j: int| 0 <= i < j < s.len() ==> !goes_before(#[trigger] s[j], #[trigger] s[i])
}

proof fn lemma_insert_pos(s: Seq<Transaction>, x: Transaction)
    ensures
        0 <= insert_pos(s, x) <= s.len(),
        forall|k: int| 0 <= k < insert_pos(s, x) ==> !goes_before(x, #[trigger] s[k]),
        insert_pos(s, x) < s.len() ==> goes_before(x, s[insert_pos(s, x)]),
    decreases s.len(),
{
    if s.len() > 0 && !goes_before(x, s[0]) {
        let t = s.subrange(1, s.len() as int);
        lemma_insert_pos(t, x);
        assert forall|k: int| 0 <= k < insert_pos(s, x) implies !goes_before(x, #[trigger] s[k]) by {
            if k > 0 {
                assert(s[k] == t[k - 1]);
            }
        }
    }
}

/// Law: draining yields the pending transactions in priority order,
/// each exactly as often as it was pending.
pub proof fn law_prioritized_sorted_permutation(s: Seq<Transaction>)
    ensures
        is_prioritized(prioritized(s)),
        prioritized(s).to_multiset() == s.to_multiset(),
        prioritized(s).len() == s.len(),
    decreases s.len(),
{
    broadcast use vstd::seq_lib::group_to_multiset_ensures;
    if s.len() > 0 {
        let d = s.drop_last();
        let x = s.last();
        law_prioritized_sorted_permutation(d);
        let p = prioritized(d);
        let k = insert_pos(p, x);
        lemma_insert_pos(p, x);
        let r = p.insert(k, x);
        assert(r == prioritized(s));
        assert forall|i: int, j: int| 0 <= i < j < r.len() implies !goes_before(#[trigger] r[j], #[trigger] r[i]) by {
            if j < k {
                assert(r[i] == p[i] && r[j] == p[j]);
            } else if j == k {
                assert(r[i] == p[i]);
            } else if i > k {
                assert(r[i] == p[i - 1] && r[j] == p[j - 1]);
            } else if i == k {
                assert(r[j] == p[j - 1]);
                if k < p.len() {
                    assert(goes_before(x, p[k]));
                    if j - 1 > k {
                        assert(!goes_before(p[j - 1], p[k]));
                    }
                }
            } else {
                assert(r[i] == p[i] && r[j] == p[j - 1]);
            }
        }
        broadcast use vstd::seq_lib::group_seq_properties;
        assert(s =~= d.push(x));
        assert(r.to_multiset() =~= p.to_multiset().insert(x)) by {
            vstd::seq_lib::lemma_multiset_commutative(p.subrange(0, k), seq![x] + p.subrange(k, p.len() as int));
            vstd::seq_lib::lemma_multiset_commutative(seq![x], p.subrange(k, p.len() as int));
            vstd::seq_lib::lemma_multiset_commutative(p.subrange(0, k), p.subrange(k, p.len() as int));
            assert(r =~= p.subrange(0, k) + (seq![x] + p.subrange(k, p.len() as int)));
            assert(p =~= p.subrange(0, k) + p.subrange(k, p.len() as int));
        }
    }
}

/// Pending transactions waiting for a block.
pub struct Mempool<F: TxFilter> {
    txs: Vec<Transaction>,
    seen: Vec<Hash256>,
    max_size: usize,
    filter: F,
}

impl<F: TxFilter> Mempool<F> {
    /// The pending transactions in arrival order.
    pub closed spec fn pending(self) -> Seq<Transaction> {
        self.txs@
    }

    /// Ids of the transactions accepted since the last drain.
    pub closed spec fn known(self) -> Seq<Hash256> {
        self.seen@
    }

    pub closed spec fn capacity(self) -> usize {
        self.max_size
    }

    /// The operator filter that new transactions go through.
    pub closed spec fn filter(self) -> F {
        self.filter
    }

    pub fn new(max_size: usize, filter: F) -> (m: Self)
        ensures
            m.pending().len() == 0,
            m.known().len() == 0,
            m.capacity() == max_size,
            m.filter() == filter,
    {
        Mempool { txs: Vec::new(), seen: Vec::new(), max_size, filter }
    }

    pub fn len(&self) -> (n: usize)
        ensures
            n == self.pending().len(),
    {
        self.txs.len()
    }

    pub fn is_empty(&self) -> (b: bool)
        ensures
            b == (self.pending().len() == 0),
    {
        self.txs.len() == 0
    }

    fn is_known(&self, id: &Hash256) -> (b: bool)
        ensures
            b == self.known().contains(*id),
    {
        let n = self.seen.len();
        let mut i: usize = 0;
        while i < n
            invariant
                n == self.seen@.len(),
                i <= n,
                forall|j: int| 0 <= j < i ==> #[trigger] self.seen@[j] != *id,
            decreases n - i,
        {
            if hash_eq(&self.seen[i], id) {
                assert(self.seen@[i as int] == *id);
                return true;
            }
            i = i + 1;
        }
        false
    }

    /// Accepts an authenticated transaction unless its id is known or the
    /// pool is full.
    pub fn enqueue(&mut self, tx: Transaction, tx_id: &Hash256) -> (r: Result<Hash256, StateError>)
        ensures
            old(self).known().contains(*tx_id) ==> {
                &&& r is Err
                &&& is_invalid_tx(r->Err_0, "duplicate tx"@)
                &&& *final(self) == *old(self)
            },
            !old(self).known().contains(*tx_id) && old(self).pending().len() >= old(self).capacity() ==> {
                &&& r is Err
                &&& is_invalid_tx(r->Err_0, "mempool full"@)
                &&& *final(self) == *old(self)
            },
            !old(self).known().contains(*tx_id) && old(self).pending().len() < old(self).capacity() ==> {
                &&& r == Ok::<Hash256, StateError>(*tx_id)
                &&& final(self).pending() == old(self).pending().push(tx)
                &&& final(self).known() == old(self).known().push(*tx_id)
                &&& final(self).capacity() == old(self).capacity()
                &&& final(self).filter() == old(self).filter()
            },
    {
        if self.is_known(tx_id) {
            return Err(StateError::InvalidTx(String::from_str("duplicate tx")));
        }
        if self.txs.len() >= self.max_size {
            return Err(StateError::InvalidTx(String::from_str("mempool full")));
        }
        self.seen.push(*tx_id);
        self.txs.push(tx);
        Ok(*tx_id)
    }

    /// Authenticates `tx` against `sighash` (the hash of its unsigned body),
    /// runs the operator filter, then enqueues it under `tx_id`: a bad
    /// signature gives a `Crypto` error and a refusal by the filter an
    /// `InvalidTx` error with the filter's reason; otherwise `enqueue`
    /// decides. Every error leaves the pool as it was.
    pub fn insert(&mut self, tx: Transaction, sighash: &Hash256, tx_id: &Hash256) -> (r: Result<Hash256, StateError>)
        ensures
            spec_verify_tx(tx, sighash@) matches Err(e) ==> {
                &&& r matches Err(StateError::Crypto(m)) && m@ == crate::crypto::crypto_error_text(e)
                &&& *final(self) == *old(self)
            },
            spec_verify_tx(tx, sighash@) is Ok ==> match old(self).filter().verdict(tx) {
                Err(m) => (r matches Err(StateError::InvalidTx(t)) && t@ == m) && *final(self) == *old(self),
                Ok(()) => {
                    &&& old(self).known().contains(*tx_id) ==> (r is Err && is_invalid_tx(r->Err_0, "duplicate tx"@))
                    &&& !old(self).known().contains(*tx_id) && old(self).pending().len() >= old(self).capacity() ==> (r is Err
                        && is_invalid_tx(r->Err_0, "mempool full"@))
                    &&& !old(self).known().contains(*tx_id) && old(self).pending().len() < old(self).capacity() ==> {
                        &&& r == Ok::<Hash256, StateError>(*tx_id)
                        &&& final(self).pending() == old(self).pending().push(tx)
                        &&& final(self).known() == old(self).known().push(*tx_id)
                        &&& final(self).capacity() == old(self).capacity()
                        &&& final(self).filter() == old(self).filter()
                    }
                },
            },
            r matches Err(StateError::Crypto(_)) ==> spec_verify_tx(tx, sighash@) is Err,
            r is Err ==> *final(self) == *old(self),
    {
        match verify_tx(&tx, sighash) {
            Err(e) => {
                return Err(StateError::Crypto(e.message()));
            },
            Ok(_) => {},
        }
        match self.filter.allow(&tx) {
            Err(m) => {
                return Err(StateError::InvalidTx(m));
            },
            Ok(()) => {},
        }
        self.enqueue(tx, tx_id)
    }

    /// Takes out all pending transactions in priority order and forgets
    /// the known ids.
    pub fn drain_prioritized(&mut self) -> (out: Vec<Transaction>)
        ensures
            out@ == prioritized(old(self).pending()),
            final(self).pending().len() == 0,
            final(self).known().len() == 0,
            final(self).capacity() == old(self).capacity(),
    {
        let mut pending: Vec<Transaction> = Vec::new();
        std::mem::swap(&mut pending, &mut self.txs);
        self.seen = Vec::new();
        let ghost orig = pending@;
        let mut out: Vec<Transaction> = Vec::new();
        let mut i: usize = 0;
        let n = pending.len();
        while pending.len() > 0
            invariant
                orig.len() == n,
                i + pending@.len() == n,
                pending@ == orig.subrange(i as int, n as int),
                out@ == prioritized(orig.subrange(0, i as int)),
            decreases pending@.len(),
        {
            let tx = pending.remove(0);
            let p = find_pos(&out, &tx);
            proof {
                lemma_insert_pos(out@, tx);
            }
            out.insert(p, tx);
            proof {
                assert(orig.subrange(0, i + 1).drop_last() =~= orig.subrange(0, i as int));
                assert(orig.subrange(0, i + 1).last() == tx);
                assert(pending@ =~= orig.subrange(i + 1, n as int));
            }
            i = i + 1;
        }
        assert(orig.subrange(0, n as int) =~= orig);
        out
    }

    /// Puts a transaction back at the end of the queue and remembers its id.
    pub fn requeue(&mut self, tx: Transaction, tx_id: &Hash256)
        ensures
            final(self).pending() == old(self).pending().push(tx),
            final(self).known() == old(self).known().push(*tx_id),
            final(self).capacity() == old(self).capacity(),
    {
        self.seen.push(*tx_id);
        self.txs.push(tx);
    }
}

impl Mempool<AllowAll> {
    /// A pool of 5000 transactions that lets everything through.
    pub fn default_pool() -> (m: Self)
        ensures
            m.pending().len() == 0,
            m.known().len() == 0,
            m.capacity() == 5_000,
    {
        Mempool::new(5_000, AllowAll)
    }
}

fn priority_nonce(tx: &Transaction) -> (k: u64)
    ensures
        k == nonce_key(*tx),
{
    match &tx.origin {
        Origin::Account { .. } => tx.nonce,
        _ => 0,
    }
}

fn find_pos(out: &Vec<Transaction>, tx: &Transaction) -> (p: usize)
    ensures
        p == insert_pos(out@, *tx),
{
    let n = out.len();
    let mut i: usize = 0;
    assert(out@.subrange(0, n as int) =~= out@);
    let fee = tx.max_priority_fee_per_gas;
    let nk = priority_nonce(tx);
    while i < n
        invariant
            n == out@.len(),
            i <= n,
            fee == tx.max_priority_fee_per_gas,
            nk == nonce_key(*tx),
            insert_pos(out@, *tx) == i + insert_pos(out@.subrange(i as int, n as int), *tx),
        decreases n - i,
    {
        let ghost rest = out@.subrange(i as int, n as int);
        assert(rest[0] == out@[i as int]);
        let of = out[i].max_priority_fee_per_gas;
        let onk = priority_nonce(&out[i]);
        if fee > of || (fee == of && nk < onk) {
            return i;
        }
        proof {
            assert(rest.subrange(1, rest.len() as int) =~= out@.subrange(i + 1, n as int));
        }
        i = i + 1;
    }
    i
}

} // verus!
