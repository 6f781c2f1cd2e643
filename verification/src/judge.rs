//! Aggregation of multi-step judge verdicts into scores.

use vstd::prelude::*;

use crate::score::{share, share_of, Ratio};
use crate::text::chars_eq;

verus! {

/// Number of `true` verdicts.
pub open spec fn count_true(v: Seq<bool>) -> nat
    decreases v.len(),
{
    if v.len() == 0 {
        0
    } else {
        count_true(v.drop_last()) + if v.last() { 1nat } else { 0nat }
    }
}

/// At most every verdict is true.
pub proof fn lemma_count_true_bounded(v: Seq<bool>)
    ensures
        count_true(v) <= v.len(),
    decreases v.len(),
{
    if v.len() > 0 {
        lemma_count_true_bounded(v.drop_last());
    }
}

/// Counts the `true` verdicts.
pub fn count_verdicts(v: &[bool]) -> (res: usize)
    ensures
        res == count_true(v@),
        res <= v@.len(),
{
    let mut c: usize = 0;
    let mut i: usize = 0;
    while i < v.len()
        invariant
            i <= v@.len(),
            c == count_true(v@.take(i as int)),
            c <= i,
        decreases v@.len() - i,
    {
        assert(v@.take(i + 1).drop_last() =~= v@.take(i as int));
        if v[i] {
            c = c + 1;
        }
        i = i + 1;
    }
    assert(v@.take(i as int) =~= v@);
    c
}

/// F1 of true positives against false positives and false negatives:
/// `tp / (tp + (fp + fn) / 2)`, that is `2tp / (2tp + fp + fn)`, and zero
/// when all counts are zero.
pub open spec fn accuracy_f1(tp: nat, fp: nat, fn_count: nat) -> Ratio {
    if tp + fp + fn_count == 0 {
        Ratio { num: 0, den: 1 }
    } else {
        Ratio { num: (2 * tp) as u128, den: (2 * tp + fp + fn_count) as u128 }
    }
}

/// Answer accuracy from true-positive, false-positive and false-negative claim counts.
pub fn answer_accuracy_f1(tp: usize, fp: usize, fn_count: usize) -> (res: Ratio)
    ensures
        res == accuracy_f1(tp as nat, fp as nat, fn_count as nat),
        res.in_unit(),
        res.num == res.den <==> (tp > 0 && fp == 0 && fn_count == 0),
{
    if tp == 0 && fp == 0 && fn_count == 0 {
        Ratio::zero()
    } else {
        let t = tp as u128;
        Ratio { num: 2 * t, den: 2 * t + (fp as u128) + (fn_count as u128) }
    }
}

/// Answer accuracy of the verdicts "answer claim is in the reference" and
/// "reference claim is covered by the answer".
pub open spec fn answer_accuracy_of(in_reference: Seq<bool>, covered: Seq<bool>) -> Ratio {
    accuracy_f1(
        count_true(in_reference),
        (in_reference.len() - count_true(in_reference)) as nat,
        (covered.len() - count_true(covered)) as nat,
    )
}

/// Answer accuracy from the verdicts "answer claim is in the reference" and
/// "reference claim is covered by the answer".
pub fn answer_accuracy_score(in_reference: &[bool], covered: &[bool]) -> (res: Ratio)
    ensures
        res == answer_accuracy_of(in_reference@, covered@),
        res.in_unit(),
{
    let tp = count_verdicts(in_reference);
    let fp = in_reference.len() - tp;
    let fn_count = covered.len() - count_verdicts(covered);
    answer_accuracy_f1(tp, fp, fn_count)
}

/// Faithfulness of claim verdicts: supported claims over all claims; one without claims.
pub open spec fn faithfulness_of(supported: Seq<bool>) -> Ratio {
    share(count_true(supported), supported.len(), Ratio { num: 1, den: 1 })
}

/// Faithfulness: supported claims over all claims; one when there are no claims.
pub fn faithfulness_score(supported: &[bool]) -> (res: Ratio)
    ensures
        res == faithfulness_of(supported@),
        res.in_unit(),
{
    share_of(count_verdicts(supported), supported.len(), Ratio::one())
}

/// Answer relevancy of question verdicts: matching questions over all; zero without questions.
pub open spec fn answer_relevancy_of(matched: Seq<bool>) -> Ratio {
    share(count_true(matched), matched.len(), Ratio { num: 0, den: 1 })
}

/// Answer relevancy: generated questions matching the original over all
/// generated questions; zero when none were generated.
pub fn answer_relevancy_score(matched: &[bool]) -> (res: Ratio)
    ensures
        res == answer_relevancy_of(matched@),
        res.in_unit(),
{
    share_of(count_verdicts(matched), matched.len(), Ratio::zero())
}

/// Context recall of claim verdicts: supported claims over all; one without claims.
pub open spec fn context_recall_of(supported: Seq<bool>) -> Ratio {
    share(count_true(supported), supported.len(), Ratio { num: 1, den: 1 })
}

/// Context recall: reference claims supported by the contexts over all
/// reference claims; one when there are no claims.
pub fn context_recall_score(supported: &[bool]) -> (res: Ratio)
    ensures
        res == context_recall_of(supported@),
        res.in_unit(),
{
    share_of(count_verdicts(supported), supported.len(), Ratio::one())
}

/// Context relevancy of chunk verdicts: relevant chunks over all; zero without chunks.
pub open spec fn context_relevancy_of(relevant: Seq<bool>) -> Ratio {
    share(count_true(relevant), relevant.len(), Ratio { num: 0, den: 1 })
}

/// Context relevancy: relevant chunks over all chunks; zero without chunks.
pub fn context_relevancy_score(relevant: &[bool]) -> (res: Ratio)
    ensures
        res == context_relevancy_of(relevant@),
        res.in_unit(),
{
    share_of(count_verdicts(relevant), relevant.len(), Ratio::zero())
}

/// Noise sensitivity of claim verdicts: incorrect claims over all; zero without claims.
pub open spec fn noise_sensitivity_of(correct: Seq<bool>) -> Ratio {
    share((correct.len() - count_true(correct)) as nat, correct.len(), Ratio { num: 0, den: 1 })
}

/// Noise sensitivity: incorrect claims over all claims (lower is better);
/// zero when there are no claims.
pub fn noise_sensitivity_score(correct: &[bool]) -> (res: Ratio)
    ensures
        res == noise_sensitivity_of(correct@),
        res.in_unit(),
{
    let c = count_verdicts(correct);
    share_of(correct.len() - c, correct.len(), Ratio::zero())
}

/// Summarization score of question verdicts: correct answers over all; zero without questions.
pub open spec fn summarization_of(correct: Seq<bool>) -> Ratio {
    share(count_true(correct), correct.len(), Ratio { num: 0, den: 1 })
}

/// Summarization score: questions answered correctly from the summary over
/// all questions; zero when there are no questions.
pub fn summarization_score(correct: &[bool]) -> (res: Ratio)
    ensures
        res == summarization_of(correct@),
        res.in_unit(),
{
    share_of(count_verdicts(correct), correct.len(), Ratio::zero())
}

/// The reference entities found among the context entities, those missing,
/// and the recall score.
#[derive(Debug)]
pub struct EntitiesRecall {
    /// Reference entities present in the contexts, in reference order.
    pub found: Vec<String>,
    /// Reference entities absent from the contexts, in reference order.
    pub missing: Vec<String>,
    /// `found / reference entities`, one when the reference has no entities.
    pub score: Ratio,
}

/// Strings viewed as character sequences.
pub open spec fn sv(v: Seq<String>) -> Seq<Seq<char>> {
    v.map_values(|s: String| s@)
}

/// Whether `needle` occurs in `hay`.
pub fn contains_str(hay: &[String], needle: &String) -> (res: bool)
    ensures
        res == sv(hay@).contains(needle@),
{
    let mut i: usize = 0;
    while i < hay.len()
        invariant
            i <= hay@.len(),
            forall|k: int| 0 <= k < i ==> hay@[k]@ != needle@,
        decreases hay@.len() - i,
    {
        let a = chars_of_string(&hay[i]);
        let b = chars_of_string(needle);
        if chars_eq(a.as_slice(), b.as_slice()) {
            assert(sv(hay@)[i as int] == needle@);
            return true;
        }
        i = i + 1;
    }
    false
}

/// The characters of a string.
pub fn chars_of_string(s: &String) -> (res: Vec<char>)
    ensures
        res@ == s@,
{
    crate::text::chars_of(s.as_str())
}

/// The texts of `s` without repeats, each where it first occurs.
pub open spec fn distinct_of(s: Seq<Seq<char>>) -> Seq<Seq<char>>
    decreases s.len(),
{
    if s.len() == 0 {
        s
    } else {
        let r = distinct_of(s.drop_last());
        if r.contains(s.last()) {
            r
        } else {
            r.push(s.last())
        }
    }
}

/// The repeat-free texts hold each text of `s` once and nothing else.
pub proof fn lemma_distinct_of(s: Seq<Seq<char>>)
    ensures
        distinct_of(s).no_duplicates(),
        forall|x: Seq<char>| distinct_of(s).contains(x) <==> s.contains(x),
        distinct_of(s).len() <= s.len(),
    decreases s.len(),
{
    if s.len() > 0 {
        let p = s.drop_last();
        lemma_distinct_of(p);
        let r = distinct_of(p);
        assert forall|x: Seq<char>| s.contains(x) <==> p.contains(x) || x == s.last() by {
            if s.contains(x) {
                let k = choose|k: int| 0 <= k < s.len() && s[k] == x;
                if k < s.len() - 1 {
                    assert(p[k] == x);
                }
            }
            if p.contains(x) {
                let k = choose|k: int| 0 <= k < p.len() && p[k] == x;
                assert(s[k] == x);
            }
            if x == s.last() {
                assert(s[s.len() - 1] == x);
            }
        }
        if !r.contains(s.last()) {
            let q = r.push(s.last());
            assert forall|x: Seq<char>| q.contains(x) <==> r.contains(x) || x == s.last() by {
                if q.contains(x) {
                    let k = choose|k: int| 0 <= k < q.len() && q[k] == x;
                    if k < r.len() {
                        assert(r[k] == x);
                    }
                }
                if r.contains(x) {
                    let k = choose|k: int| 0 <= k < r.len() && r[k] == x;
                    assert(q[k] == x);
                }
                if x == s.last() {
                    assert(q[r.len() as int] == x);
                }
            }
            assert forall|a: int, b: int| 0 <= a < q.len() && 0 <= b < q.len() && a != b implies q[a] != q[b] by {
                if a < r.len() && b < r.len() {
                } else if a < r.len() {
                    assert(r.contains(q[a]));
                } else {
                    assert(r.contains(q[b]));
                }
            }
        }
    }
}

/// The texts of a list without repeats, each where it first occurs.
pub fn distinct_strings(v: &[String]) -> (res: Vec<String>)
    ensures
        sv(res@) == distinct_of(sv(v@)),
{
    let mut out: Vec<String> = Vec::new();
    let mut i: usize = 0;
    while i < v.len()
        invariant
            i <= v@.len(),
            sv(out@) == distinct_of(sv(v@).take(i as int)),
        decreases v@.len() - i,
    {
        let ghost t = sv(v@).take(i as int);
        let ghost t1 = sv(v@).take(i + 1);
        assert(t1.drop_last() =~= t);
        assert(t1.last() == v@[i as int]@);
        if !contains_str(out.as_slice(), &v[i]) {
            out.push(v[i].clone());
            assert(sv(out@) =~= distinct_of(t).push(v@[i as int]@));
        }
        i = i + 1;
    }
    assert(sv(v@).take(i as int) =~= sv(v@));
    out
}

/// The reference entities `re`, each once, that occur among `rce`.
pub open spec fn entities_found(re: Seq<Seq<char>>, rce: Seq<Seq<char>>) -> Seq<Seq<char>> {
    distinct_of(re).filter(|e: Seq<char>| rce.contains(e))
}

/// The reference entities `re`, each once, that do not occur among `rce`.
pub open spec fn entities_missing(re: Seq<Seq<char>>, rce: Seq<Seq<char>>) -> Seq<Seq<char>> {
    distinct_of(re).filter(|e: Seq<char>| !rce.contains(e))
}

/// Context entities recall of reference entities `re` among context
/// entities `rce`: `|RE ∩ RCE| / |RE|` over the sets `RE` and `RCE`; one when
/// the reference has no entities.
pub open spec fn entities_recall_of(re: Seq<Seq<char>>, rce: Seq<Seq<char>>) -> Ratio {
    let entities = distinct_of(re);
    share(entities_found(re, rce).len(), entities.len(), Ratio { num: 1, den: 1 })
}

/// Context entities recall `|RE ∩ RCE| / |RE|` over the set `RE` of
/// reference entities and the set `RCE` of context entities: repeats count
/// once, and `found` and `missing` list the reference entities in the order
/// in which they first occur.
pub fn context_entities_recall(reference: &[String], contexts: &[String]) -> (res: EntitiesRecall)
    ensures
        sv(res.found@) == entities_found(sv(reference@), sv(contexts@)),
        sv(res.missing@) == entities_missing(sv(reference@), sv(contexts@)),
        res.score == entities_recall_of(sv(reference@), sv(contexts@)),
        res.score.in_unit(),
{
    let entities = distinct_strings(reference);
    let reference = entities.as_slice();
    let ghost inc = |e: Seq<char>| sv(contexts@).contains(e);
    let ghost exc = |e: Seq<char>| !sv(contexts@).contains(e);
    let mut found: Vec<String> = Vec::new();
    let mut missing: Vec<String> = Vec::new();
    let mut i: usize = 0;
    while i < reference.len()
        invariant
            i <= reference@.len(),
            inc == (|e: Seq<char>| sv(contexts@).contains(e)),
            exc == (|e: Seq<char>| !sv(contexts@).contains(e)),
            sv(found@) == sv(reference@).take(i as int).filter(inc),
            sv(missing@) == sv(reference@).take(i as int).filter(exc),
            found@.len() <= i,
        decreases reference@.len() - i,
    {
        let ghost t = sv(reference@).take(i as int);
        let ghost t1 = sv(reference@).take(i + 1);
        assert(t1 =~= t.push(reference@[i as int]@));
        assert(t1.filter(inc) == t.filter(inc).push(reference@[i as int]@) || t1.filter(inc) == t.filter(inc)) by {
            reveal_with_fuel(Seq::filter, 1);
            assert(t1.drop_last() =~= t);
        }
        let e = reference[i].clone();
        if contains_str(contexts, &e) {
            proof {
                reveal_with_fuel(Seq::filter, 1);
                assert(t1.drop_last() =~= t);
            }
            found.push(e);
            assert(sv(found@) =~= t1.filter(inc));
            assert(sv(missing@) =~= t1.filter(exc));
        } else {
            proof {
                reveal_with_fuel(Seq::filter, 1);
                assert(t1.drop_last() =~= t);
            }
            missing.push(e);
            assert(sv(found@) =~= t1.filter(inc));
            assert(sv(missing@) =~= t1.filter(exc));
        }
        i = i + 1;
    }
    assert(sv(reference@).take(i as int) =~= sv(reference@));
    assert(sv(reference@) == sv(entities@));
    let score = share_of(found.len(), reference.len(), Ratio::one());
    EntitiesRecall { found, missing, score }
}

} // verus!
