//! N-grams of token sequences: distinct n-gram sets and their overlaps.

use vstd::prelude::*;

use crate::lcs::dv;
use crate::text::chars_eq;

verus! {

/// The set of distinct n-grams (contiguous windows of `n` tokens) of `t`.
pub open spec fn ngram_set(t: Seq<Seq<char>>, n: nat) -> Set<Seq<Seq<char>>> {
    Set::new(|g: Seq<Seq<char>>| exists|i: int| 0 <= i && i + n <= t.len() && g == #[trigger] t.subrange(i, i + n))
}

/// The windows of `t` that start at the given positions.
pub open spec fn windows_at(t: Seq<Seq<char>>, starts: Seq<usize>, n: nat) -> Seq<Seq<Seq<char>>> {
    starts.map_values(|i: usize| t.subrange(i as int, i + n))
}

/// Whether the window of `t` at `i` equals the window of `u` at `j`.
pub fn windows_eq(t: &Vec<Vec<char>>, i: usize, u: &Vec<Vec<char>>, j: usize, n: usize) -> (res: bool)
    requires
        i + n <= t@.len(),
        j + n <= u@.len(),
    ensures
        res == (dv(t@).subrange(i as int, i + n) == dv(u@).subrange(j as int, j + n)),
{
    let tl = t.len();
    let ul = u.len();
    let ghost ta = dv(t@).subrange(i as int, i + n);
    let ghost ua = dv(u@).subrange(j as int, j + n);
    let mut k: usize = 0;
    while k < n
        invariant
            i + n <= t@.len(),
            j + n <= u@.len(),
            k <= n,
            tl == t@.len(),
            ul == u@.len(),
            ta == dv(t@).subrange(i as int, i + n),
            ua == dv(u@).subrange(j as int, j + n),
            forall|x: int| 0 <= x < k ==> ta[x] == ua[x],
        decreases n - k,
    {
        if !chars_eq(t[i + k].as_slice(), u[j + k].as_slice()) {
            assert(ta[k as int] != ua[k as int]);
            return false;
        }
        k = k + 1;
    }
    assert(dv(t@).subrange(i as int, i + n) =~= dv(u@).subrange(j as int, j + n));
    true
}

/// Whether the window of `u` at `j` is one of the windows of `t` at `starts`.
pub fn contains_window(t: &Vec<Vec<char>>, starts: &Vec<usize>, n: usize, u: &Vec<Vec<char>>, j: usize) -> (res: bool)
    requires
        forall|k: int| 0 <= k < starts@.len() ==> starts@[k] + n <= t@.len(),
        j + n <= u@.len(),
    ensures
        res == windows_at(dv(t@), starts@, n as nat).contains(dv(u@).subrange(j as int, j + n)),
{
    let ghost ws = windows_at(dv(t@), starts@, n as nat);
    let ghost w = dv(u@).subrange(j as int, j + n);
    let mut k: usize = 0;
    while k < starts.len()
        invariant
            forall|x: int| 0 <= x < starts@.len() ==> starts@[x] + n <= t@.len(),
            j + n <= u@.len(),
            k <= starts@.len(),
            ws == windows_at(dv(t@), starts@, n as nat),
            w == dv(u@).subrange(j as int, j + n),
            forall|x: int| 0 <= x < k ==> ws[x] != w,
        decreases starts@.len() - k,
    {
        if windows_eq(t, starts[k], u, j, n) {
            assert(ws[k as int] == w);
            return true;
        }
        k = k + 1;
    }
    false
}

/// Start positions of the distinct n-grams of `t`, first occurrences in order.
pub fn distinct_ngrams(t: &Vec<Vec<char>>, n: usize) -> (starts: Vec<usize>)
    requires
        n >= 1,
    ensures
        forall|k: int| 0 <= k < starts@.len() ==> starts@[k] + n <= t@.len(),
        windows_at(dv(t@), starts@, n as nat).no_duplicates(),
        windows_at(dv(t@), starts@, n as nat).to_set() == ngram_set(dv(t@), n as nat),
{
    let ghost dt = dv(t@);
    let mut starts: Vec<usize> = Vec::new();
    if t.len() < n {
        assert(windows_at(dt, starts@, n as nat).to_set() =~= ngram_set(dt, n as nat));
        return starts;
    }
    let tl = t.len();
    let last = tl - n;
    let mut i: usize = 0;
    while i <= last
        invariant
            dt == dv(t@),
            last + n == t@.len(),
            tl == t@.len(),
            n >= 1,
            i <= last + 1,
            forall|k: int| 0 <= k < starts@.len() ==> starts@[k] + n <= t@.len(),
            windows_at(dt, starts@, n as nat).no_duplicates(),
            windows_at(dt, starts@, n as nat).to_set() == Set::new(
                |g: Seq<Seq<char>>| exists|x: int| 0 <= x < i && g == #[trigger] dt.subrange(x, x + n),
            ),
        decreases last + 1 - i,
    {
        let ghost old_ws = windows_at(dt, starts@, n as nat);
        let ghost w = dt.subrange(i as int, i + n);
        let found = contains_window(t, &starts, n, t, i);
        if !found {
            starts.push(i);
            let ghost new_ws = windows_at(dt, starts@, n as nat);
            assert(new_ws =~= old_ws.push(w));
            assert forall|a: int, b: int| 0 <= a < b < new_ws.len() implies new_ws[a] != new_ws[b] by {
                if b == new_ws.len() - 1 {
                    assert(old_ws.contains(old_ws[a]));
                }
            }
        }
        let ghost new_ws = windows_at(dt, starts@, n as nat);
        assert(new_ws.to_set() =~= Set::new(
            |g: Seq<Seq<char>>| exists|x: int| 0 <= x < i + 1 && g == #[trigger] dt.subrange(x, x + n),
        )) by {
            assert forall|g: Seq<Seq<char>>| new_ws.to_set().contains(g) implies exists|x: int|
                0 <= x < i + 1 && g == #[trigger] dt.subrange(x, x + n) by {
                let k = choose|k: int| 0 <= k < new_ws.len() && new_ws[k] == g;
                if found || k < old_ws.len() {
                    assert(old_ws[k] == g);
                    assert(old_ws.to_set().contains(g));
                }
            }
            assert forall|g: Seq<Seq<char>>| (exists|x: int| 0 <= x < i + 1 && g == #[trigger] dt.subrange(x, x + n))
                implies new_ws.to_set().contains(g) by {
                let x = choose|x: int| 0 <= x < i + 1 && g == #[trigger] dt.subrange(x, x + n);
                if x < i {
                    assert(old_ws.to_set().contains(g));
                    let k = choose|k: int| 0 <= k < old_ws.len() && old_ws[k] == g;
                    assert(new_ws[k] == g);
                } else if found {
                    let k = choose|k: int| 0 <= k < old_ws.len() && old_ws[k] == w;
                    assert(new_ws[k] == g);
                } else {
                    assert(new_ws[new_ws.len() - 1] == g);
                }
            }
        }
        i = i + 1;
    }
    assert(windows_at(dt, starts@, n as nat).to_set() =~= ngram_set(dt, n as nat));
    starts
}

/// Distinct n-gram counts of two token sequences and the size of their overlap.
pub struct NgramOverlap {
    /// Number of n-grams present in both sequences.
    pub overlap: usize,
    /// Number of distinct n-grams of the reference.
    pub reference: usize,
    /// Number of distinct n-grams of the hypothesis.
    pub hypothesis: usize,
}

/// Counts the distinct n-grams of `reference` and `hypothesis` and their common ones.
pub fn ngram_overlap(reference: &Vec<Vec<char>>, hypothesis: &Vec<Vec<char>>, n: usize) -> (res: NgramOverlap)
    requires
        n >= 1,
    ensures
        ngram_set(dv(reference@), n as nat).finite(),
        ngram_set(dv(hypothesis@), n as nat).finite(),
        res.reference == ngram_set(dv(reference@), n as nat).len(),
        res.hypothesis == ngram_set(dv(hypothesis@), n as nat).len(),
        res.overlap == ngram_set(dv(reference@), n as nat).intersect(
            ngram_set(dv(hypothesis@), n as nat),
        ).len(),
{
    let rs = distinct_ngrams(reference, n);
    let hs = distinct_ngrams(hypothesis, n);
    let ghost rws = windows_at(dv(reference@), rs@, n as nat);
    let ghost hws = windows_at(dv(hypothesis@), hs@, n as nat);
    proof {
        rws.unique_seq_to_set();
        hws.unique_seq_to_set();
    }
    let ghost hset = hws.to_set();
    let ghost mut common: Seq<Seq<Seq<char>>> = Seq::empty();
    let mut count: usize = 0;
    let mut k: usize = 0;
    while k < rs.len()
        invariant
            k <= rs@.len(),
            forall|x: int| 0 <= x < rs@.len() ==> rs@[x] + n <= reference@.len(),
            forall|x: int| 0 <= x < hs@.len() ==> hs@[x] + n <= hypothesis@.len(),
            rws == windows_at(dv(reference@), rs@, n as nat),
            hws == windows_at(dv(hypothesis@), hs@, n as nat),
            hset == hws.to_set(),
            rws.no_duplicates(),
            common.no_duplicates(),
            common.len() == count,
            count <= k,
            common.to_set() == rws.take(k as int).to_set().intersect(hset),
        decreases rs@.len() - k,
    {
        let ghost x = rws[k as int];
        assert(rws.take(k + 1) =~= rws.take(k as int).push(x));
        assert(!rws.take(k as int).contains(x)) by {
            let tk = rws.take(k as int);
            if tk.contains(x) {
                let y = choose|y: int| 0 <= y < tk.len() && tk[y] == x;
                assert(rws[y] == rws[k as int]);
            }
        }
        let ghost tk = rws.take(k as int);
        let ghost tk1 = rws.take(k + 1);
        let ghost old_common = common;
        assert(tk1.to_set() =~= tk.to_set().insert(x)) by {
            assert forall|g| tk1.to_set().contains(g) <==> tk.to_set().insert(x).contains(g) by {
                if tk1.to_set().contains(g) && g != x {
                    let y = choose|y: int| 0 <= y < tk1.len() && tk1[y] == g;
                    assert(tk[y] == g);
                }
                if tk.to_set().contains(g) {
                    let y = choose|y: int| 0 <= y < tk.len() && tk[y] == g;
                    assert(tk1[y] == g);
                }
                if g == x {
                    assert(tk1[k as int] == g);
                }
            }
        }
        if contains_window(hypothesis, &hs, n, reference, rs[k]) {
            proof {
                assert(hset.contains(x));
                assert(!common.contains(x)) by {
                    if common.contains(x) {
                        assert(common.to_set().contains(x));
                    }
                }
                common = common.push(x);
                assert(common.to_set() =~= old_common.to_set().insert(x)) by {
                    assert forall|g| common.to_set().contains(g) <==> old_common.to_set().insert(x).contains(g) by {
                        if common.to_set().contains(g) && g != x {
                            let y = choose|y: int| 0 <= y < common.len() && common[y] == g;
                            assert(old_common[y] == g);
                        }
                        if old_common.to_set().contains(g) {
                            let y = choose|y: int| 0 <= y < old_common.len() && old_common[y] == g;
                            assert(common[y] == g);
                        }
                        if g == x {
                            assert(common[common.len() - 1] == g);
                        }
                    }
                }
            }
            count = count + 1;
        } else {
            assert(!hset.contains(x));
        }
        assert(common.to_set() =~= tk1.to_set().intersect(hset));
        k = k + 1;
    }
    proof {
        assert(rws.take(k as int) =~= rws);
        common.unique_seq_to_set();
    }
    NgramOverlap { overlap: count, reference: rs.len(), hypothesis: hs.len() }
}

} // verus!
