//! BLEU statistics: clipped n-gram matches for each order.

use vstd::prelude::*;
use vstd::multiset::Multiset;

use crate::lcs::dv;
use crate::ngram::windows_eq;
use crate::text::{tokenize, tokens};

verus! {

broadcast use vstd::seq_lib::group_seq_properties, vstd::multiset::group_multiset_axioms,
    vstd::multiset::group_multiset_properties;

/// All n-grams of `t` in order, with repetitions.
pub open spec fn all_windows(t: Seq<Seq<char>>, n: nat) -> Seq<Seq<Seq<char>>> {
    if t.len() < n {
        Seq::empty()
    } else {
        Seq::new((t.len() - n + 1) as nat, |i: int| t.subrange(i, i + n))
    }
}

/// Clipped matches: the size of the multiset intersection of the hypothesis
/// n-grams with the reference n-grams (each hypothesis n-gram counts at most
/// as often as it occurs in the reference).
pub open spec fn clipped_matches(reference: Seq<Seq<char>>, hypothesis: Seq<Seq<char>>, n: nat) -> nat {
    all_windows(hypothesis, n).to_multiset().intersection_with(all_windows(reference, n).to_multiset()).len()
}

/// `|A.insert(x) ∩ B|` grows by one exactly when `A` had fewer copies of `x` than `B`.
proof fn lemma_intersection_insert<V>(a: Multiset<V>, b: Multiset<V>, x: V)
    ensures
        a.insert(x).intersection_with(b).len() == a.intersection_with(b).len() + (if a.count(x)
            < b.count(x) {
            1int
        } else {
            0int
        }),
{
    broadcast use vstd::multiset::group_multiset_properties;

    if a.count(x) < b.count(x) {
        assert(a.insert(x).intersection_with(b) =~= a.intersection_with(b).insert(x));
    } else {
        assert(a.insert(x).intersection_with(b) =~= a.intersection_with(b));
    }
}

/// Number of clipped n-gram matches and the number of hypothesis n-grams.
pub fn clipped_count(reference: &Vec<Vec<char>>, hypothesis: &Vec<Vec<char>>, n: usize) -> (res: (usize, usize))
    requires
        n >= 1,
    ensures
        res.0 == clipped_matches(dv(reference@), dv(hypothesis@), n as nat),
        res.1 == all_windows(dv(hypothesis@), n as nat).len(),
        res.0 <= res.1,
{
    let ghost dr = dv(reference@);
    let ghost dh = dv(hypothesis@);
    let ghost rw = all_windows(dr, n as nat);
    let ghost hw = all_windows(dh, n as nat);
    let rl = reference.len();
    let hl = hypothesis.len();
    if hl < n {
        assert(hw =~= Seq::<Seq<Seq<char>>>::empty());
        assert(hw.to_multiset().len() == 0);
        assert(hw.to_multiset() =~= Multiset::empty());
        assert(hw.to_multiset().intersection_with(rw.to_multiset()) =~= Multiset::empty());
        return (0, 0);
    }
    let mut remaining: Vec<usize> = Vec::new();
    if rl >= n {
        let mut i: usize = 0;
        while i <= rl - n
            invariant
                rl == reference@.len(),
                rl >= n >= 1,
                i <= rl - n + 1,
                dr == dv(reference@),
                rw == all_windows(dr, n as nat),
                remaining@.len() == i,
                forall|k: int| 0 <= k < i ==> remaining@[k] == k,
            decreases rl - n + 1 - i,
        {
            remaining.push(i);
            i = i + 1;
        }
    }
    let ghost rem_of = |v: Seq<usize>| v.map_values(|k: usize| dr.subrange(k as int, k + n));
    assert(rem_of(remaining@) =~= rw);
    let total = hl - n + 1;
    let mut clipped: usize = 0;
    assert(hw.take(0) =~= Seq::<Seq<Seq<char>>>::empty());
    assert(hw.take(0).to_multiset().len() == 0);
    assert(hw.take(0).to_multiset() =~= Multiset::empty());
    assert(hw.take(0).to_multiset().intersection_with(rw.to_multiset()) =~= Multiset::empty());
    let mut j: usize = 0;
    while j < total
        invariant
            n >= 1,
            rl == reference@.len(),
            hl == hypothesis@.len(),
            total == hl - n + 1,
            j <= total,
            dr == dv(reference@),
            dh == dv(hypothesis@),
            rw == all_windows(dr, n as nat),
            hw == all_windows(dh, n as nat),
            rem_of == (|v: Seq<usize>| v.map_values(|k: usize| dr.subrange(k as int, k + n))),
            forall|k: int| 0 <= k < remaining@.len() ==> remaining@[k] + n <= rl,
            clipped == hw.take(j as int).to_multiset().intersection_with(rw.to_multiset()).len(),
            forall|y: Seq<Seq<char>>|
                #[trigger] rem_of(remaining@).to_multiset().count(y) == rw.to_multiset().count(y)
                    - hw.take(j as int).to_multiset().intersection_with(rw.to_multiset()).count(y),
            clipped <= j,
        decreases total - j,
    {
        let ghost x = hw[j as int];
        let ghost p = hw.take(j as int);
        assert(hw.take(j + 1) =~= p.push(x));
        proof {
            lemma_intersection_insert(p.to_multiset(), rw.to_multiset(), x);
        }
        let ghost before = rem_of(remaining@);
        let mut found: Option<usize> = None;
        let mut k: usize = 0;
        while k < remaining.len()
            invariant
                n >= 1,
                j < total,
                hl == hypothesis@.len(),
                total == hl - n + 1,
                k <= remaining@.len(),
                forall|q: int| 0 <= q < remaining@.len() ==> remaining@[q] + n <= rl,
                rl == reference@.len(),
                dr == dv(reference@),
                dh == dv(hypothesis@),
                x == dh.subrange(j as int, j + n),
                before == rem_of(remaining@),
                rem_of == (|v: Seq<usize>| v.map_values(|k: usize| dr.subrange(k as int, k + n))),
                found is None ==> forall|q: int| 0 <= q < k ==> before[q] != x,
                found matches Some(q) ==> q < remaining@.len() && before[q as int] == x,
            ensures
                found is None ==> forall|q: int| 0 <= q < remaining@.len() ==> before[q] != x,
                found matches Some(q) ==> q < remaining@.len() && before[q as int] == x,
            decreases remaining@.len() - k,
        {
            if windows_eq(reference, remaining[k], hypothesis, j, n) {
                found = Some(k);
                break;
            }
            k = k + 1;
        }
        match found {
            Some(q) => {
                proof {
                    assert(before.contains(x));
                }
                remaining.remove(q);
                proof {
                    assert(rem_of(remaining@) =~= before.remove(q as int));
                    assert(before.to_multiset().count(x) > 0);
                }
                clipped = clipped + 1;
            },
            None => {
                proof {
                    assert(!before.contains(x));
                    assert(before.to_multiset().count(x) == 0);
                }
            },
        }
        j = j + 1;
    }
    assert(hw.take(total as int) =~= hw);
    (clipped, total)
}

/// Clipped and total n-gram counts of one order.
#[derive(Clone, Copy, Debug, PartialEq, Eq)]
pub struct NgramCount {
    /// The n-gram order.
    pub n: usize,
    /// Clipped matches of hypothesis n-grams in the reference.
    pub clipped: usize,
    /// Number of hypothesis n-grams.
    pub total: usize,
}

/// The statistics BLEU is computed from.
#[derive(Clone, Debug, PartialEq, Eq)]
pub enum BleuStats {
    /// The hypothesis has no tokens; BLEU is zero.
    EmptyHypothesis,
    /// Per-order counts for orders `1, 2, ...`, stopping at the first order
    /// without any match (then `zero` is set and BLEU is zero) or at `max_n`.
    Counted {
        reference_len: usize,
        hypothesis_len: usize,
        max_n: usize,
        orders: Vec<NgramCount>,
        zero: bool,
    },
}

/// The counts of order `k` for the given token sequences.
pub open spec fn order_counts(r: Seq<Seq<char>>, h: Seq<Seq<char>>, k: nat) -> NgramCount {
    NgramCount {
        n: k as usize,
        clipped: clipped_matches(r, h, k) as usize,
        total: all_windows(h, k).len() as usize,
    }
}

/// What `compute_bleu_stats` returns for two texts.
pub open spec fn bleu_stats_ok(reference: Seq<char>, hypothesis: Seq<char>, max_n: nat, res: BleuStats) -> bool {
    let r = tokens(reference);
    let h = tokens(hypothesis);
    if h.len() == 0 {
        res is EmptyHypothesis
    } else {
        match res {
            BleuStats::EmptyHypothesis => false,
            BleuStats::Counted { reference_len, hypothesis_len, max_n: m, orders, zero } => {
                &&& reference_len == r.len()
                &&& hypothesis_len == h.len()
                &&& m == max_n
                &&& 1 <= orders@.len() <= max_n
                &&& forall|i: int| 0 <= i < orders@.len() ==> #[trigger] orders@[i] == order_counts(r, h, (i + 1) as nat)
                &&& forall|i: int| 0 <= i < orders@.len() - 1 ==> #[trigger] orders@[i].clipped > 0
                &&& zero == (orders@.last().clipped == 0)
                &&& !zero ==> orders@.len() == max_n
            },
        }
    }
}

/// Counts, for each n-gram order from 1 up to `max_n`, the clipped matches of
/// the hypothesis against the reference, stopping at the first order with none.
pub fn compute_bleu_stats(reference: &str, hypothesis: &str, max_n: usize) -> (res: BleuStats)
    requires
        1 <= max_n <= 4,
    ensures
        bleu_stats_ok(reference@, hypothesis@, max_n as nat, res),
{
    let rt = tokenize(reference);
    let ht = tokenize(hypothesis);
    let ghost r = tokens(reference@);
    let ghost h = tokens(hypothesis@);
    assert(dv(rt@) =~= r);
    assert(dv(ht@) =~= h);
    if ht.len() == 0 {
        return BleuStats::EmptyHypothesis;
    }
    let mut orders: Vec<NgramCount> = Vec::new();
    let mut zero = false;
    let mut n: usize = 1;
    while n <= max_n
        invariant_except_break
            orders@.len() == n - 1,
            forall|i: int| 0 <= i < orders@.len() ==> #[trigger] orders@[i].clipped > 0,
            !zero,
        invariant
            1 <= n <= max_n + 1,
            1 <= max_n <= 4,
            dv(rt@) == r,
            dv(ht@) == h,
            forall|i: int| 0 <= i < orders@.len() ==> #[trigger] orders@[i] == order_counts(r, h, (i + 1) as nat),
        ensures
            1 <= orders@.len() <= max_n,
            forall|i: int| 0 <= i < orders@.len() ==> #[trigger] orders@[i] == order_counts(r, h, (i + 1) as nat),
            forall|i: int| 0 <= i < orders@.len() - 1 ==> #[trigger] orders@[i].clipped > 0,
            zero == (orders@.last().clipped == 0),
            !zero ==> orders@.len() == max_n,
        decreases max_n + 1 - n,
    {
        let (clipped, total) = clipped_count(&rt, &ht, n);
        orders.push(NgramCount { n, clipped, total });
        if clipped == 0 {
            zero = true;
            break;
        }
        n = n + 1;
    }
    BleuStats::Counted {
        reference_len: rt.len(),
        hypothesis_len: ht.len(),
        max_n,
        orders,
        zero,
    }
}

/// A hypothesis identical to the reference matches all of its own n-grams:
/// for every order the clipped count equals the total.
pub proof fn law_bleu_identical(text: Seq<char>, n: nat)
    ensures
        clipped_matches(tokens(text), tokens(text), n) == all_windows(tokens(text), n).len(),
{
    let m = all_windows(tokens(text), n).to_multiset();
    assert(m.intersection_with(m) =~= m);
}

} // verus!
