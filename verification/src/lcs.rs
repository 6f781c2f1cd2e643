//! Longest common subsequence of token sequences.

use vstd::prelude::*;

use crate::text::chars_eq;

verus! {

/// Token sequences viewed as sequences of character sequences.
pub open spec fn dv(v: Seq<Vec<char>>) -> Seq<Seq<char>> {
    v.map_values(|x: Vec<char>| x@)
}

/// Length of the longest common subsequence of `a` and `b`.
pub open spec fn lcs(a: Seq<Seq<char>>, b: Seq<Seq<char>>) -> nat
    decreases a.len() + b.len(),
{
    if a.len() == 0 || b.len() == 0 {
        0
    } else if a.last() == b.last() {
        lcs(a.drop_last(), b.drop_last()) + 1
    } else {
        let x = lcs(a.drop_last(), b);
        let y = lcs(a, b.drop_last());
        if x >= y {
            x
        } else {
            y
        }
    }
}

/// The common subsequence is never longer than either sequence.
pub proof fn lemma_lcs_bounded(a: Seq<Seq<char>>, b: Seq<Seq<char>>)
    ensures
        lcs(a, b) <= a.len(),
        lcs(a, b) <= b.len(),
    decreases a.len() + b.len(),
{
    if a.len() == 0 || b.len() == 0 {
    } else if a.last() == b.last() {
        lemma_lcs_bounded(a.drop_last(), b.drop_last());
    } else {
        lemma_lcs_bounded(a.drop_last(), b);
        lemma_lcs_bounded(a, b.drop_last());
    }
}

/// The longest common subsequence does not depend on the order of its arguments.
pub proof fn lemma_lcs_symmetric(a: Seq<Seq<char>>, b: Seq<Seq<char>>)
    ensures
        lcs(a, b) == lcs(b, a),
    decreases a.len() + b.len(),
{
    if a.len() == 0 || b.len() == 0 {
    } else if a.last() == b.last() {
        lemma_lcs_symmetric(a.drop_last(), b.drop_last());
    } else {
        lemma_lcs_symmetric(a.drop_last(), b);
        lemma_lcs_symmetric(a, b.drop_last());
    }
}

/// A sequence's longest common subsequence with itself is the whole sequence.
pub proof fn lemma_lcs_self(a: Seq<Seq<char>>)
    ensures
        lcs(a, a) == a.len(),
    decreases a.len(),
{
    if a.len() > 0 {
        lemma_lcs_self(a.drop_last());
    }
}

/// `ia` and `ib` pick a common subsequence of `a` and `b`: increasing
/// positions of equal length whose tokens agree pairwise.
pub open spec fn common_positions(a: Seq<Seq<char>>, b: Seq<Seq<char>>, ia: Seq<int>, ib: Seq<int>) -> bool {
    &&& ia.len() == ib.len()
    &&& forall|t: int| 0 <= t < ia.len() ==> 0 <= #[trigger] ia[t] < a.len() && 0 <= ib[t] < b.len() && a[ia[t]] == b[ib[t]]
    &&& forall|s: int, t: int| 0 <= s < t < ia.len() ==> #[trigger] ia[s] < #[trigger] ia[t] && ib[s] < ib[t]
}

/// Positions of a common subsequence as long as [`lcs`].
proof fn lemma_lcs_witness(a: Seq<Seq<char>>, b: Seq<Seq<char>>) -> (r: (Seq<int>, Seq<int>))
    ensures
        common_positions(a, b, r.0, r.1),
        r.0.len() == lcs(a, b),
    decreases a.len() + b.len(),
{
    if a.len() == 0 || b.len() == 0 {
        (Seq::empty(), Seq::empty())
    } else if a.last() == b.last() {
        let (ia, ib) = lemma_lcs_witness(a.drop_last(), b.drop_last());
        let ja = ia.push(a.len() - 1);
        let jb = ib.push(b.len() - 1);
        assert forall|t: int| 0 <= t < ja.len() implies 0 <= #[trigger] ja[t] < a.len() && 0 <= jb[t] < b.len() && a[ja[t]] == b[jb[t]] by {
            if t < ia.len() {
                assert(ja[t] == ia[t] && jb[t] == ib[t]);
                assert(a.drop_last()[ia[t]] == a[ia[t]]);
                assert(0 <= ia[t] < a.len() && 0 <= ib[t] < b.drop_last().len());
                assert(b.drop_last()[ib[t]] == b[ib[t]]);
            }
        }
        assert forall|s: int, t: int| 0 <= s < t < ja.len() implies #[trigger] ja[s] < #[trigger] ja[t] && jb[s] < jb[t] by {
            assert(ja[s] == ia[s] && jb[s] == ib[s]);
            if t < ia.len() {
                assert(ja[t] == ia[t] && jb[t] == ib[t]);
            }
        }
        (ja, jb)
    } else {
        let x = lcs(a.drop_last(), b);
        let y = lcs(a, b.drop_last());
        if x >= y {
            let (ia, ib) = lemma_lcs_witness(a.drop_last(), b);
            assert forall|t: int| 0 <= t < ia.len() implies 0 <= #[trigger] ia[t] < a.len() && 0 <= ib[t] < b.len() && a[ia[t]] == b[ib[t]] by {
                assert(a.drop_last()[ia[t]] == a[ia[t]]);
            }
            (ia, ib)
        } else {
            let (ia, ib) = lemma_lcs_witness(a, b.drop_last());
            assert forall|t: int| 0 <= t < ia.len() implies 0 <= #[trigger] ia[t] < a.len() && 0 <= ib[t] < b.len() && a[ia[t]] == b[ib[t]] by {
                assert(0 <= ia[t] < a.len() && 0 <= ib[t] < b.drop_last().len());
                assert(b.drop_last()[ib[t]] == b[ib[t]]);
            }
            (ia, ib)
        }
    }
}

/// No common subsequence is longer than [`lcs`].
proof fn lemma_lcs_upper(a: Seq<Seq<char>>, b: Seq<Seq<char>>, ia: Seq<int>, ib: Seq<int>)
    requires
        common_positions(a, b, ia, ib),
    ensures
        ia.len() <= lcs(a, b),
    decreases a.len() + b.len(),
{
    if ia.len() == 0 {
        return;
    }
    let n = ia.len() - 1;
    let p = ia[n];
    let q = ib[n];
    assert(0 <= p < a.len() && 0 <= q < b.len());
    let a1 = a.drop_last();
    let b1 = b.drop_last();
    if a.last() == b.last() {
        let ja = ia.drop_last();
        let jb = ib.drop_last();
        assert forall|t: int| 0 <= t < ja.len() implies 0 <= #[trigger] ja[t] < a1.len() && 0 <= jb[t] < b1.len() && a1[ja[t]] == b1[jb[t]] by {
            assert(ia[t] < ia[n] && ib[t] < ib[n]);
            assert(ja[t] == ia[t] && jb[t] == ib[t]);
        }
        assert forall|s: int, t: int| 0 <= s < t < ja.len() implies #[trigger] ja[s] < #[trigger] ja[t] && jb[s] < jb[t] by {
            assert(ia[s] < ia[t]);
        }
        lemma_lcs_upper(a1, b1, ja, jb);
    } else if p < a.len() - 1 {
        assert forall|t: int| 0 <= t < ia.len() implies 0 <= #[trigger] ia[t] < a1.len() && 0 <= ib[t] < b.len() && a1[ia[t]] == b[ib[t]] by {
            if t < n {
                assert(ia[t] < ia[n]);
            }
        }
        lemma_lcs_upper(a1, b, ia, ib);
    } else {
        assert(q < b.len() - 1) by {
            if q == b.len() - 1 {
                assert(a[p] == b[q]);
            }
        }
        assert forall|t: int| 0 <= t < ia.len() implies 0 <= #[trigger] ia[t] < a.len() && 0 <= ib[t] < b1.len() && a[ia[t]] == b1[ib[t]] by {
            if t < n {
                assert(ia[t] < ia[n] && ib[t] < ib[n]);
            }
        }
        lemma_lcs_upper(a, b1, ia, ib);
    }
}

/// [`lcs`] is the length of a longest common subsequence: some common
/// subsequence has that length, and none is longer.
pub proof fn law_lcs_is_longest(a: Seq<Seq<char>>, b: Seq<Seq<char>>)
    ensures
        exists|ia: Seq<int>, ib: Seq<int>| common_positions(a, b, ia, ib) && ia.len() == lcs(a, b),
        forall|ia: Seq<int>, ib: Seq<int>| common_positions(a, b, ia, ib) ==> ia.len() <= lcs(a, b),
{
    let (ia, ib) = lemma_lcs_witness(a, b);
    assert(common_positions(a, b, ia, ib) && ia.len() == lcs(a, b));
    assert forall|ia: Seq<int>, ib: Seq<int>| common_positions(a, b, ia, ib) implies ia.len() <= lcs(a, b) by {
        lemma_lcs_upper(a, b, ia, ib);
    }
}

/// Length of the longest common subsequence of two token sequences
/// (dynamic programming over prefixes, keeping one row at a time).
pub fn lcs_length(a: &Vec<Vec<char>>, b: &Vec<Vec<char>>) -> (res: usize)
    ensures
        res == lcs(dv(a@), dv(b@)),
{
    let m = a.len();
    let n = b.len();
    let ghost da = dv(a@);
    let ghost db = dv(b@);
    let mut prev: Vec<usize> = Vec::new();
    prev.push(0);
    let mut j: usize = 0;
    while j < n
        invariant
            j <= n,
            n == b@.len(),
            prev@.len() == j + 1,
            forall|k: int| 0 <= k <= j ==> prev@[k] == 0,
        decreases n - j,
    {
        prev.push(0);
        j = j + 1;
    }
    assert forall|k: int| 0 <= k <= n implies prev@[k] == lcs(da.take(0), db.take(k)) by {}
    let mut i: usize = 0;
    while i < m
        invariant
            i <= m,
            m == a@.len(),
            n == b@.len(),
            da == dv(a@),
            db == dv(b@),
            prev@.len() == n + 1,
            forall|k: int| 0 <= k <= n ==> prev@[k] == lcs(da.take(i as int), db.take(k)),
        decreases m - i,
    {
        let mut cur: Vec<usize> = Vec::new();
        cur.push(0);
        assert(cur@[0] == lcs(da.take(i + 1), db.take(0)));
        let mut j: usize = 0;
        while j < n
            invariant
                i < m,
                j <= n,
                m == a@.len(),
                n == b@.len(),
                da == dv(a@),
                db == dv(b@),
                prev@.len() == n + 1,
                forall|k: int| 0 <= k <= n ==> prev@[k] == lcs(da.take(i as int), db.take(k)),
                cur@.len() == j + 1,
                forall|k: int| 0 <= k <= j ==> cur@[k] == lcs(da.take(i + 1), db.take(k)),
            decreases n - j,
        {
            let ghost ai = da.take(i + 1);
            let ghost bj = db.take(j + 1);
            assert(ai.drop_last() =~= da.take(i as int));
            assert(bj.drop_last() =~= db.take(j as int));
            assert(ai.last() == a@[i as int]@);
            assert(bj.last() == b@[j as int]@);
            proof {
                lemma_lcs_bounded(da.take(i as int), db.take(j as int));
            }
            let v = if chars_eq(a[i].as_slice(), b[j].as_slice()) {
                prev[j] + 1
            } else {
                let x = prev[j + 1];
                let y = cur[j];
                if x >= y {
                    x
                } else {
                    y
                }
            };
            cur.push(v);
            j = j + 1;
        }
        prev = cur;
        i = i + 1;
    }
    assert(da.take(m as int) =~= da);
    assert(db.take(n as int) =~= db);
    prev[n]
}

} // verus!
