use vstd::prelude::*;
use crate::UNIT;
use crate::auction::MAX_TOTAL;

verus! {

pub open spec fn seq_sum(s: Seq<u128>) -> int
    decreases s.len(),
{
    if s.len() == 0 {
        0
    } else {
        seq_sum(s.drop_last()) + s.last()
    }
}

/// Index of the first largest entry (0 for an empty sequence).
pub open spec fn argmax(s: Seq<u128>) -> int
    decreases s.len(),
{
    if s.len() <= 1 {
        0
    } else {
        let j = argmax(s.drop_last());
        if s.last() > s[j] {
            s.len() - 1
        } else {
            j
        }
    }
}

/// Sum of the `m` largest entries, taken one largest at a time.
pub open spec fn top_sum(s: Seq<u128>, m: nat) -> int
    decreases m,
{
    if m == 0 || s.len() == 0 {
        0
    } else {
        s[argmax(s)] + top_sum(s.remove(argmax(s)), (m - 1) as nat)
    }
}

proof fn lemma_argmax(s: Seq<u128>)
    requires
        s.len() >= 1,
    ensures
        0 <= argmax(s) < s.len(),
        forall|i: int| 0 <= i < s.len() ==> #[trigger] s[i] <= s[argmax(s)],
    decreases s.len(),
{
    if s.len() > 1 {
        lemma_argmax(s.drop_last());
        assert forall|i: int| 0 <= i < s.len() implies #[trigger] s[i] <= s[argmax(s)] by {
            if i < s.len() - 1 {
                assert(s[i] == s.drop_last()[i]);
            }
        }
    }
}

proof fn lemma_sum_nonneg(s: Seq<u128>)
    ensures
        seq_sum(s) >= 0,
    decreases s.len(),
{
    if s.len() > 0 {
        lemma_sum_nonneg(s.drop_last());
    }
}

proof fn lemma_sum_remove(s: Seq<u128>, i: int)
    requires
        0 <= i < s.len(),
    ensures
        seq_sum(s.remove(i)) == seq_sum(s) - s[i],
    decreases s.len(),
{
    if i == s.len() - 1 {
        assert(s.remove(i) =~= s.drop_last());
    } else {
        lemma_sum_remove(s.drop_last(), i);
        assert(s.remove(i).drop_last() =~= s.drop_last().remove(i));
        assert(s.remove(i).last() == s.last());
    }
}

/// The `m` largest entries add up to no more than all entries.
pub proof fn lemma_top_sum_bounded(s: Seq<u128>, m: nat)
    ensures
        0 <= top_sum(s, m) <= seq_sum(s),
    decreases m,
{
    lemma_sum_nonneg(s);
    if m > 0 && s.len() > 0 {
        lemma_argmax(s);
        lemma_sum_remove(s, argmax(s));
        lemma_top_sum_bounded(s.remove(argmax(s)), (m - 1) as nat);
    }
}

/// Sum of the `m` largest profits.
pub fn top_profit_sum(profits: &Vec<u128>, m: usize) -> (r: u128)
    requires
        seq_sum(profits@) <= MAX_TOTAL,
    ensures
        r == top_sum(profits@, m as nat),
        r <= seq_sum(profits@),
{
    let mut v = profits.clone();
    assert(v@ =~= profits@);
    let mut acc: u128 = 0;
    let mut t: usize = 0;
    proof {
        lemma_sum_nonneg(v@);
    }
    while t < m && v.len() > 0
        invariant
            t <= m,
            acc + top_sum(v@, (m - t) as nat) == top_sum(profits@, m as nat),
            acc + seq_sum(v@) == seq_sum(profits@),
            seq_sum(v@) >= 0,
            seq_sum(profits@) <= MAX_TOTAL,
        decreases m - t,
    {
        let n = v.len();
        let mut best: usize = 0;
        let mut i: usize = 1;
        while i < n
            invariant
                n == v@.len(),
                n >= 1,
                1 <= i <= n,
                best == argmax(v@.take(i as int)),
                best < i,
            decreases n - i,
        {
            proof {
                lemma_argmax(v@.take(i as int));
            }
            assert(v@.take(i as int + 1).drop_last() =~= v@.take(i as int));
            assert(v@.take(i as int + 1)[best as int] == v@[best as int]);
            assert(v@.take(i as int + 1).last() == v@[i as int]);
            if v[i] > v[best] {
                best = i;
            }
            i = i + 1;
        }
        assert(v@.take(n as int) =~= v@);
        proof {
            lemma_argmax(v@);
            lemma_sum_remove(v@, best as int);
            lemma_sum_nonneg(v@.remove(best as int));
        }
        let x = v.remove(best);
        acc = acc + x;
        t = t + 1;
    }
    proof {
        lemma_sum_nonneg(v@);
    }
    acc
}

/// `part / whole` in millionths, 0 when `whole` is 0.
pub open spec fn share_spec(part: int, whole: int) -> int {
    if whole == 0 { 0 } else { part * UNIT / whole }
}

/// Share of `part` in `whole`, in millionths; within `[0, UNIT]`.
pub fn share(part: u128, whole: u128) -> (r: u64)
    requires
        part <= whole,
        whole <= MAX_TOTAL,
    ensures
        r == share_spec(part as int, whole as int),
        r <= UNIT,
{
    if whole == 0 {
        0
    } else {
        proof {
            assert(part * UNIT <= whole * UNIT) by (nonlinear_arith) requires part <= whole;
            assert((part * UNIT) as int / (whole as int) <= UNIT) by (nonlinear_arith)
                requires part * UNIT <= whole * UNIT, whole > 0;
        }
        (part * (UNIT as u128) / whole) as u64
    }
}

/// Size of the top cohort: a fifth of the bidders, at least one.
pub open spec fn top_cohort_spec(num_bidders: int) -> int {
    if num_bidders / 5 >= 1 { num_bidders / 5 } else { 1 }
}

pub fn top_cohort(num_bidders: usize) -> (r: usize)
    ensures
        r == top_cohort_spec(num_bidders as int),
{
    if num_bidders / 5 >= 1 { num_bidders / 5 } else { 1 }
}

/// Share of total profit held by the top fifth of bidders, in millionths.
pub open spec fn concentration_spec(profits: Seq<u128>, total: int) -> int {
    share_spec(top_sum(profits, top_cohort_spec(profits.len() as int) as nat), total)
}

pub fn profit_concentration(profits: &Vec<u128>, total: u128) -> (r: u64)
    requires
        seq_sum(profits@) <= total,
        total <= MAX_TOTAL,
    ensures
        r == concentration_spec(profits@, total as int),
        r <= UNIT,
{
    let m = top_cohort(profits.len());
    let top = top_profit_sum(profits, m);
    share(top, total)
}

/// Failed attempts over all attempts (at least one), in millionths.
pub open spec fn gas_waste_spec(failed: int, successful: int) -> int {
    failed * UNIT / (if failed + successful >= 1 { failed + successful } else { 1 })
}

pub fn gas_waste_ratio(failed: usize, successful: usize) -> (r: u64)
    requires
        failed + successful <= usize::MAX,
    ensures
        r == gas_waste_spec(failed as int, successful as int),
        r <= UNIT,
{
    let all = failed + successful;
    let d = if all >= 1 { all } else { 1 };
    proof {
        assert(failed * UNIT <= d * UNIT) by (nonlinear_arith) requires failed <= d;
        assert((failed * UNIT) as int / (d as int) <= UNIT) by (nonlinear_arith)
            requires failed * UNIT <= d * UNIT, d >= 1;
    }
    (failed as u128 * (UNIT as u128) / (d as u128)) as u64
}

/// Successful liquidations over eligible positions (at least one), in millionths.
pub open spec fn coverage_spec(successful: int, eligible: int) -> int {
    successful * UNIT / (if eligible >= 1 { eligible } else { 1 })
}

pub fn coverage(successful: usize, eligible: usize) -> (r: u64)
    requires
        successful <= eligible,
    ensures
        r == coverage_spec(successful as int, eligible as int),
        r <= UNIT,
{
    let d = if eligible >= 1 { eligible } else { 1 };
    proof {
        assert(successful * UNIT <= d * UNIT) by (nonlinear_arith) requires successful <= d;
        assert((successful * UNIT) as int / (d as int) <= UNIT) by (nonlinear_arith)
            requires successful * UNIT <= d * UNIT, d >= 1;
    }
    (successful as u128 * (UNIT as u128) / (d as u128)) as u64
}

} // verus!
