//! Why finality holds: two vote lists that both reach quorum over the same
//! validator set share a voter with power, so a validator that votes once
//! per height and round cannot let two different blocks be committed.

use vstd::prelude::*;
use crate::consensus::{active_total, first_power, is_first_vote, sat128, spec_has_quorum, vote_power, Vote};
use crate::types::{Address, ValidatorInfo};

verus! {

/// Power of the first validator listed with `addr`, 0 if none.
pub open spec fn fp(vals: Seq<ValidatorInfo>, addr: Address) -> int {
    match first_power(vals, addr) {
        Some(p) => p as int,
        None => 0,
    }
}

/// Sum of `fp` over a list of addresses.
pub open spec fn addr_power(vals: Seq<ValidatorInfo>, xs: Seq<Address>) -> int
    decreases xs.len(),
{
    if xs.len() == 0 {
        0
    } else {
        addr_power(vals, xs.drop_last()) + fp(vals, xs.last())
    }
}

/// No address occurs twice.
pub open spec fn distinct(xs: Seq<Address>) -> bool {
    forall|i: int, j: int| 0 <= i < j < xs.len() ==> xs[i] != xs[j]
}

/// The validators of the first votes of each voter, in order.
pub open spec fn voters(votes: Seq<Vote>) -> Seq<Address>
    decreases votes.len(),
{
    if votes.len() == 0 {
        Seq::empty()
    } else {
        let rest = voters(votes.drop_last());
        if is_first_vote(votes, votes.len() - 1) { rest.push(votes.last().validator) } else { rest }
    }
}

/// The addresses of `xs` that carry power.
pub open spec fn powered(vals: Seq<ValidatorInfo>, xs: Seq<Address>) -> Seq<Address>
    decreases xs.len(),
{
    if xs.len() == 0 {
        Seq::empty()
    } else {
        let rest = powered(vals, xs.drop_last());
        if fp(vals, xs.last()) > 0 { rest.push(xs.last()) } else { rest }
    }
}

proof fn lemma_fp_nonneg(vals: Seq<ValidatorInfo>, addr: Address)
    ensures
        fp(vals, addr) >= 0,
{
}

proof fn lemma_addr_power_nonneg(vals: Seq<ValidatorInfo>, xs: Seq<Address>)
    ensures
        addr_power(vals, xs) >= 0,
    decreases xs.len(),
{
    if xs.len() > 0 {
        lemma_addr_power_nonneg(vals, xs.drop_last());
    }
}

proof fn lemma_active_total_nonneg(vals: Seq<ValidatorInfo>)
    ensures
        active_total(vals) >= 0,
    decreases vals.len(),
{
    if vals.len() > 0 {
        lemma_active_total_nonneg(vals.drop_last());
    }
}

/// The share of the first validator in the active total.
pub open spec fn head_share(v: ValidatorInfo) -> int {
    if v.jailed { 0int } else { v.power as int }
}

proof fn lemma_active_total_front(vals: Seq<ValidatorInfo>)
    requires
        vals.len() > 0,
    ensures
        active_total(vals) == head_share(vals[0]) + active_total(vals.subrange(1, vals.len() as int)),
    decreases vals.len(),
{
    if vals.len() > 1 {
        let d = vals.drop_last();
        lemma_active_total_front(d);
        assert(d.subrange(1, d.len() as int) =~= vals.subrange(1, vals.len() as int).drop_last());
        assert(vals.subrange(1, vals.len() as int).last() == vals.last());
    } else {
        assert(vals.drop_last() =~= Seq::<ValidatorInfo>::empty());
        assert(vals.subrange(1, vals.len() as int) =~= Seq::<ValidatorInfo>::empty());
    }
}

proof fn lemma_addr_power_concat(vals: Seq<ValidatorInfo>, xs: Seq<Address>, ys: Seq<Address>)
    ensures
        addr_power(vals, xs + ys) == addr_power(vals, xs) + addr_power(vals, ys),
    decreases ys.len(),
{
    if ys.len() == 0 {
        assert(xs + ys =~= xs);
    } else {
        lemma_addr_power_concat(vals, xs, ys.drop_last());
        assert((xs + ys).drop_last() =~= xs + ys.drop_last());
    }
}

proof fn lemma_addr_power_remove(vals: Seq<ValidatorInfo>, xs: Seq<Address>, k: int)
    requires
        0 <= k < xs.len(),
    ensures
        addr_power(vals, xs) == fp(vals, xs[k]) + addr_power(vals, xs.remove(k)),
    decreases xs.len(),
{
    if k == xs.len() - 1 {
        assert(xs.remove(k) =~= xs.drop_last());
    } else {
        lemma_addr_power_remove(vals, xs.drop_last(), k);
        assert(xs.remove(k).drop_last() =~= xs.drop_last().remove(k));
        assert(xs.remove(k).last() == xs.last());
    }
}

/// Addresses other than the first validator's have the same power in the
/// rest of the list.
proof fn lemma_addr_power_tail(vals: Seq<ValidatorInfo>, xs: Seq<Address>)
    requires
        vals.len() > 0,
        forall|i: int| 0 <= i < xs.len() ==> xs[i] != vals[0].address,
    ensures
        addr_power(vals, xs) == addr_power(vals.subrange(1, vals.len() as int), xs),
    decreases xs.len(),
{
    if xs.len() > 0 {
        lemma_addr_power_tail(vals, xs.drop_last());
    }
}

proof fn lemma_addr_power_empty_vals(vals: Seq<ValidatorInfo>, xs: Seq<Address>)
    requires
        vals.len() == 0,
    ensures
        addr_power(vals, xs) == 0,
    decreases xs.len(),
{
    if xs.len() > 0 {
        lemma_addr_power_empty_vals(vals, xs.drop_last());
    }
}

/// Distinct addresses never carry more than the active total.
proof fn lemma_distinct_power_bound(vals: Seq<ValidatorInfo>, xs: Seq<Address>)
    requires
        distinct(xs),
    ensures
        addr_power(vals, xs) <= active_total(vals),
    decreases vals.len(),
{
    if vals.len() == 0 {
        lemma_addr_power_empty_vals(vals, xs);
        return;
    }
    let rest = vals.subrange(1, vals.len() as int);
    let a0 = vals[0].address;
    lemma_active_total_front(vals);
    lemma_active_total_nonneg(rest);
    if exists|k: int| 0 <= k < xs.len() && xs[k] == a0 {
        let k = choose|k: int| 0 <= k < xs.len() && xs[k] == a0;
        lemma_addr_power_remove(vals, xs, k);
        let ys = xs.remove(k);
        assert forall|i: int| 0 <= i < ys.len() implies ys[i] != a0 by {
            if i < k {
                assert(ys[i] == xs[i]);
            } else {
                assert(ys[i] == xs[i + 1]);
            }
        }
        assert(distinct(ys)) by {
            assert forall|i: int, j: int| 0 <= i < j < ys.len() implies ys[i] != ys[j] by {
                let ii = if i < k { i } else { i + 1 };
                let jj = if j < k { j } else { j + 1 };
                assert(ys[i] == xs[ii] && ys[j] == xs[jj]);
            }
        }
        lemma_addr_power_tail(vals, ys);
        lemma_distinct_power_bound(rest, ys);
        assert(fp(vals, xs[k]) == head_share(vals[0]));
    } else {
        lemma_addr_power_tail(vals, xs);
        lemma_distinct_power_bound(rest, xs);
        assert(head_share(vals[0]) >= 0);
    }
}

proof fn lemma_voters(votes: Seq<Vote>, vals: Seq<ValidatorInfo>)
    ensures
        vote_power(votes, vals) == addr_power(vals, voters(votes)),
        distinct(voters(votes)),
        forall|k: int| 0 <= k < voters(votes).len() ==> exists|i: int| 0 <= i < votes.len() && #[trigger] voters(votes)[k] == votes[i].validator,
    decreases votes.len(),
{
    if votes.len() > 0 {
        let d = votes.drop_last();
        let n = votes.len() - 1;
        lemma_voters(d, vals);
        let r = voters(d);
        assert forall|k: int| 0 <= k < r.len() implies exists|i: int| 0 <= i < votes.len() && #[trigger] r[k] == votes[i].validator by {
            let i = choose|i: int| 0 <= i < d.len() && r[k] == d[i].validator;
            assert(d[i] == votes[i]);
        }
        if is_first_vote(votes, n) {
            let v = votes[n].validator;
            assert(voters(votes) == r.push(v));
            assert forall|k: int| 0 <= k < r.len() implies r[k] != v by {
                let i = choose|i: int| 0 <= i < d.len() && r[k] == d[i].validator;
                assert(d[i] == votes[i]);
                assert(votes[i].validator != votes[n].validator);
            }
            assert(distinct(r.push(v))) by {
                assert forall|i: int, j: int| 0 <= i < j < r.push(v).len() implies r.push(v)[i] != r.push(v)[j] by {
                    if j == r.len() {
                        assert(r.push(v)[i] == r[i]);
                    } else {
                        assert(r.push(v)[i] == r[i] && r.push(v)[j] == r[j]);
                    }
                }
            }
            assert forall|k: int| 0 <= k < r.push(v).len() implies exists|i: int| 0 <= i < votes.len() && #[trigger] r.push(v)[k]
                == votes[i].validator by {
                if k < r.len() {
                    assert(r.push(v)[k] == r[k]);
                } else {
                    assert(r.push(v)[k] == votes[n].validator);
                }
            }
            assert(r.push(v).drop_last() =~= r);
        }
    }
}

proof fn lemma_powered(vals: Seq<ValidatorInfo>, xs: Seq<Address>)
    requires
        distinct(xs),
    ensures
        addr_power(vals, powered(vals, xs)) == addr_power(vals, xs),
        distinct(powered(vals, xs)),
        forall|k: int| 0 <= k < powered(vals, xs).len() ==> fp(vals, #[trigger] powered(vals, xs)[k]) > 0,
        forall|k: int| 0 <= k < powered(vals, xs).len() ==> exists|i: int| 0 <= i < xs.len() && #[trigger] powered(vals, xs)[k] == xs[i],
    decreases xs.len(),
{
    if xs.len() > 0 {
        let d = xs.drop_last();
        assert(distinct(d)) by {
            assert forall|i: int, j: int| 0 <= i < j < d.len() implies d[i] != d[j] by {
                assert(d[i] == xs[i] && d[j] == xs[j]);
            }
        }
        lemma_powered(vals, d);
        let r = powered(vals, d);
        let x = xs.last();
        assert forall|k: int| 0 <= k < r.len() implies exists|i: int| 0 <= i < xs.len() && #[trigger] r[k] == xs[i] by {
            let i = choose|i: int| 0 <= i < d.len() && r[k] == d[i];
            assert(d[i] == xs[i]);
        }
        if fp(vals, x) > 0 {
            assert(powered(vals, xs) == r.push(x));
            assert forall|k: int| 0 <= k < r.len() implies r[k] != x by {
                let i = choose|i: int| 0 <= i < d.len() && r[k] == d[i];
                assert(d[i] == xs[i]);
                assert(xs[i] != xs[xs.len() - 1]);
            }
            assert(r.push(x).drop_last() =~= r);
            assert(distinct(r.push(x))) by {
                assert forall|i: int, j: int| 0 <= i < j < r.push(x).len() implies r.push(x)[i] != r.push(x)[j] by {
                    if j == r.len() {
                        assert(r.push(x)[i] == r[i]);
                    } else {
                        assert(r.push(x)[i] == r[i] && r.push(x)[j] == r[j]);
                    }
                }
            }
            assert forall|k: int| 0 <= k < r.push(x).len() implies fp(vals, #[trigger] r.push(x)[k]) > 0 by {
                if k < r.len() {
                    assert(r.push(x)[k] == r[k]);
                }
            }
            assert forall|k: int| 0 <= k < r.push(x).len() implies exists|i: int| 0 <= i < xs.len() && #[trigger] r.push(x)[k]
                == xs[i] by {
                if k < r.len() {
                    assert(r.push(x)[k] == r[k]);
                } else {
                    assert(r.push(x)[k] == xs[xs.len() - 1]);
                }
            }
        } else {
            lemma_fp_nonneg(vals, x);
        }
    }
}

/// Finality (I5): if two lists of votes both reach quorum over the same
/// validator set, some active validator with power voted in both. So two conflicting commits at one
/// height and round need a validator that voted twice.
pub proof fn law_quorums_intersect(a: Seq<Vote>, b: Seq<Vote>, vals: Seq<ValidatorInfo>)
    requires
        spec_has_quorum(a, vals),
        spec_has_quorum(b, vals),
    ensures
        exists|i: int, j: int|
            0 <= i < a.len() && 0 <= j < b.len() && #[trigger] a[i].validator == #[trigger] b[j].validator && fp(
                vals,
                a[i].validator,
            ) > 0,
{
    lemma_voters(a, vals);
    lemma_voters(b, vals);
    let va = voters(a);
    let vb = voters(b);
    lemma_powered(vals, va);
    lemma_powered(vals, vb);
    let pa = powered(vals, va);
    let pb = powered(vals, vb);
    let t = active_total(vals);
    let wa = vote_power(a, vals);
    let wb = vote_power(b, vals);
    lemma_addr_power_nonneg(vals, va);
    lemma_addr_power_nonneg(vals, vb);
    lemma_active_total_nonneg(vals);
    assert(3 * wa > 2 * t && 3 * wb > 2 * t) by {
        if 2 * t > u128::MAX {
            assert(sat128(2 * t) == u128::MAX);
        }
        assert(sat128(wa) <= wa);
        assert(sat128(wb) <= wb);
    }
    if !(exists|i: int, j: int|
        0 <= i < a.len() && 0 <= j < b.len() && #[trigger] a[i].validator == #[trigger] b[j].validator && fp(vals, a[i].validator) > 0) {
        let all = pa + pb;
        assert(distinct(all)) by {
            assert forall|i: int, j: int| 0 <= i < j < all.len() implies all[i] != all[j] by {
                if j < pa.len() {
                    assert(all[i] == pa[i] && all[j] == pa[j]);
                } else if i >= pa.len() {
                    assert(all[i] == pb[i - pa.len()] && all[j] == pb[j - pa.len()]);
                } else {
                    assert(all[i] == pa[i] && all[j] == pb[j - pa.len()]);
                    let x = pa[i];
                    assert(fp(vals, x) > 0);
                    let ka = choose|k: int| 0 <= k < va.len() && pa[i] == va[k];
                    let ia = choose|ii: int| 0 <= ii < a.len() && va[ka] == a[ii].validator;
                    let kb = choose|k: int| 0 <= k < vb.len() && pb[j - pa.len()] == vb[k];
                    let ib = choose|jj: int| 0 <= jj < b.len() && vb[kb] == b[jj].validator;
                    if all[i] == all[j] {
                        assert(a[ia].validator == b[ib].validator);
                        assert(fp(vals, a[ia].validator) > 0);
                    }
                }
            }
        }
        lemma_addr_power_concat(vals, pa, pb);
        lemma_distinct_power_bound(vals, all);
        assert(false);
    }
}

} // verus!
