//! ROUGE-N (distinct n-gram overlap) and ROUGE-L (longest common subsequence) scores.

use vstd::prelude::*;

use crate::lcs::{dv, lcs, lcs_length, lemma_lcs_bounded, lemma_lcs_self, lemma_lcs_symmetric};
use crate::ngram::{ngram_overlap, ngram_set};
use crate::score::{share, share_of, Ratio};
use crate::text::{tokenize, tokens};

verus! {

/// F-measure of precision `o/h` and recall `o/r`: `2PR/(P+R)`, which equals
/// `2o/(h+r)` when `o > 0`, and `0` when there is no overlap.
pub open spec fn f_measure(o: nat, h: nat, r: nat) -> Ratio {
    if o == 0 {
        Ratio { num: 0, den: 1 }
    } else {
        Ratio { num: (2 * o) as u128, den: (h + r) as u128 }
    }
}

fn f_measure_of(o: usize, h: usize, r: usize) -> (res: Ratio)
    requires
        o <= h,
        o <= r,
    ensures
        res == f_measure(o as nat, h as nat, r as nat),
{
    if o == 0 {
        Ratio::zero()
    } else {
        Ratio { num: 2 * (o as u128), den: (h as u128) + (r as u128) }
    }
}

/// Which quantity besides precision, recall and F1 a ROUGE score reports.
#[derive(Clone, Copy, Debug, PartialEq, Eq)]
pub enum RougeDetail {
    /// ROUGE-N with the n-gram size.
    N { n: usize },
    /// ROUGE-L with the length of the longest common subsequence.
    L { lcs_length: usize },
}

/// A ROUGE score with its components.
#[derive(Clone, Copy, Debug, PartialEq, Eq)]
pub struct RougeOutput {
    /// Precision (overlap over the hypothesis).
    pub precision: Ratio,
    /// Recall (overlap over the reference).
    pub recall: Ratio,
    /// F1 of precision and recall; this is the score.
    pub f1: Ratio,
    /// Variant-specific detail.
    pub detail: RougeDetail,
}

/// ROUGE-N of two texts: overlap of their distinct n-grams.
pub open spec fn rouge_n_spec(reference: Seq<char>, hypothesis: Seq<char>, n: nat) -> RougeOutput {
    let r = ngram_set(tokens(reference), n);
    let h = ngram_set(tokens(hypothesis), n);
    let o = r.intersect(h).len();
    RougeOutput {
        precision: share(o, h.len(), Ratio { num: 0, den: 1 }),
        recall: share(o, r.len(), Ratio { num: 0, den: 1 }),
        f1: f_measure(o, h.len(), r.len()),
        detail: RougeDetail::N { n: n as usize },
    }
}

/// ROUGE-L of two texts: longest common token subsequence.
pub open spec fn rouge_l_spec(reference: Seq<char>, hypothesis: Seq<char>) -> RougeOutput {
    let r = tokens(reference);
    let h = tokens(hypothesis);
    let l = lcs(r, h);
    RougeOutput {
        precision: share(l, h.len(), Ratio { num: 0, den: 1 }),
        recall: share(l, r.len(), Ratio { num: 0, den: 1 }),
        f1: f_measure(l, h.len(), r.len()),
        detail: RougeDetail::L { lcs_length: l as usize },
    }
}

proof fn lemma_dv_tokens(v: Vec<Vec<char>>, s: Seq<char>)
    requires
        v@.len() == tokens(s).len(),
        forall|i: int| 0 <= i < v@.len() ==> #[trigger] v@[i]@ == tokens(s)[i],
    ensures
        dv(v@) == tokens(s),
{
    assert(dv(v@) =~= tokens(s));
}

/// Computes ROUGE-N for `n >= 1`.
pub fn compute_rouge_n(reference: &str, hypothesis: &str, n: usize) -> (res: RougeOutput)
    requires
        n >= 1,
    ensures
        res == rouge_n_spec(reference@, hypothesis@, n as nat),
{
    let rt = tokenize(reference);
    let ht = tokenize(hypothesis);
    proof {
        lemma_dv_tokens(rt, reference@);
        lemma_dv_tokens(ht, hypothesis@);
    }
    let c = ngram_overlap(&rt, &ht, n);
    proof {
        let r = ngram_set(tokens(reference@), n as nat);
        let h = ngram_set(tokens(hypothesis@), n as nat);
        vstd::set_lib::lemma_len_intersect(r, h);
        vstd::set_lib::lemma_len_intersect(h, r);
        assert(r.intersect(h) =~= h.intersect(r));
    }
    RougeOutput {
        precision: share_of(c.overlap, c.hypothesis, Ratio::zero()),
        recall: share_of(c.overlap, c.reference, Ratio::zero()),
        f1: f_measure_of(c.overlap, c.hypothesis, c.reference),
        detail: RougeDetail::N { n },
    }
}

/// Computes ROUGE-L.
pub fn compute_rouge_l(reference: &str, hypothesis: &str) -> (res: RougeOutput)
    ensures
        res == rouge_l_spec(reference@, hypothesis@),
{
    let rt = tokenize(reference);
    let ht = tokenize(hypothesis);
    proof {
        lemma_dv_tokens(rt, reference@);
        lemma_dv_tokens(ht, hypothesis@);
    }
    let l = lcs_length(&rt, &ht);
    proof {
        lemma_lcs_bounded(dv(rt@), dv(ht@));
    }
    RougeOutput {
        precision: share_of(l, ht.len(), Ratio::zero()),
        recall: share_of(l, rt.len(), Ratio::zero()),
        f1: f_measure_of(l, ht.len(), rt.len()),
        detail: RougeDetail::L { lcs_length: l },
    }
}

/// ROUGE-N scores lie in `[0, 1]`: precision, recall and F1 are fractions of
/// at most one.
pub proof fn law_rouge_n_in_unit(reference: Seq<char>, hypothesis: Seq<char>, n: nat)
    requires
        n >= 1,
        tokens(reference).len() <= usize::MAX,
        tokens(hypothesis).len() <= usize::MAX,
    ensures
        rouge_n_spec(reference, hypothesis, n).precision.in_unit(),
        rouge_n_spec(reference, hypothesis, n).recall.in_unit(),
        rouge_n_spec(reference, hypothesis, n).f1.in_unit(),
{
    let r = ngram_set(tokens(reference), n);
    let h = ngram_set(tokens(hypothesis), n);
    lemma_ngram_set_finite(tokens(reference), n);
    lemma_ngram_set_finite(tokens(hypothesis), n);
    vstd::set_lib::lemma_len_intersect(r, h);
    vstd::set_lib::lemma_len_intersect(h, r);
    assert(r.intersect(h) =~= h.intersect(r));
}

/// ROUGE-L scores lie in `[0, 1]`.
pub proof fn law_rouge_l_in_unit(reference: Seq<char>, hypothesis: Seq<char>)
    requires
        tokens(reference).len() <= usize::MAX,
        tokens(hypothesis).len() <= usize::MAX,
    ensures
        rouge_l_spec(reference, hypothesis).precision.in_unit(),
        rouge_l_spec(reference, hypothesis).recall.in_unit(),
        rouge_l_spec(reference, hypothesis).f1.in_unit(),
{
    lemma_lcs_bounded(tokens(reference), tokens(hypothesis));
}

/// Swapping reference and hypothesis swaps precision and recall and keeps F1.
pub proof fn law_rouge_swap(reference: Seq<char>, hypothesis: Seq<char>, n: nat)
    requires
        n >= 1,
    ensures
        rouge_n_spec(hypothesis, reference, n).f1 == rouge_n_spec(reference, hypothesis, n).f1,
        rouge_n_spec(hypothesis, reference, n).precision == rouge_n_spec(reference, hypothesis, n).recall,
        rouge_l_spec(hypothesis, reference).f1.same_value(rouge_l_spec(reference, hypothesis).f1),
        rouge_l_spec(hypothesis, reference).precision == rouge_l_spec(reference, hypothesis).recall,
{
    let r = ngram_set(tokens(reference), n);
    let h = ngram_set(tokens(hypothesis), n);
    assert(r.intersect(h) =~= h.intersect(r));
    lemma_lcs_symmetric(tokens(reference), tokens(hypothesis));
    let a = rouge_l_spec(hypothesis, reference).f1;
    let b = rouge_l_spec(reference, hypothesis).f1;
    assert(a.num * b.den == b.num * a.den) by (nonlinear_arith)
        requires
            a.num == b.num,
            a.den == b.den || (a.num == 0 && b.num == 0),
    ;
}

/// A text scored against itself gets F1 equal to one, provided it has at
/// least one n-gram (for ROUGE-N) or one token (for ROUGE-L).
pub proof fn law_rouge_identical(text: Seq<char>, n: nat)
    requires
        n >= 1,
    ensures
        tokens(text).len() >= n ==> rouge_n_spec(text, text, n).f1.same_value(Ratio { num: 1, den: 1 }),
        tokens(text).len() > 0 ==> rouge_l_spec(text, text).f1.same_value(Ratio { num: 1, den: 1 }),
{
    let t = tokens(text);
    let r = ngram_set(t, n);
    lemma_ngram_set_finite(t, n);
    assert(r.intersect(r) =~= r);
    if t.len() >= n {
        let w = t.subrange(0, 0 + n as int);
        assert(r.contains(w));
        vstd::set::axiom_set_contains_len(r, w);
    }
    lemma_lcs_self(t);
}

/// The n-gram set of a sequence is finite.
pub proof fn lemma_ngram_set_finite(t: Seq<Seq<char>>, n: nat)
    ensures
        ngram_set(t, n).finite(),
        ngram_set(t, n).len() <= t.len() + 1,
{
    let starts = Seq::new((t.len() + 1) as nat, |i: int| t.subrange(i, i + n));
    assert(ngram_set(t, n).subset_of(starts.to_set())) by {
        assert forall|g| ngram_set(t, n).contains(g) implies starts.to_set().contains(g) by {
            let i = choose|i: int| 0 <= i && i + n <= t.len() && g == #[trigger] t.subrange(i, i + n);
            assert(starts[i] == g);
        }
    }
    vstd::set_lib::lemma_len_subset(ngram_set(t, n), starts.to_set());
    starts.lemma_cardinality_of_set();
}

} // verus!
