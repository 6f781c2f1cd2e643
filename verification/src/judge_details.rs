//! The details reported with the score of a finished judge run: the inputs,
//! what the judge model listed, each verdict beside its item, and the counts.

use vstd::prelude::*;
use vstd::string::*;

use crate::error::owned;
use crate::judge::{count_true, count_verdicts, distinct_of, entities_found, entities_missing, sv};
use crate::json::{Json, JsonV};
use crate::judge_run::{JudgeRun, dec_digits, input_list, input_str, questions_param, read_text, read_texts, u64_text};

verus! {

/// The judge metrics that run in several steps.
#[derive(Debug, Clone, Copy, PartialEq, Eq)]
pub enum JudgeKind {
    Faithfulness,
    AnswerRelevancy,
    ContextRecall,
    ContextRelevancy,
    ContextEntitiesRecall,
    NoiseSensitivity,
    SummarizationScore,
    AnswerAccuracy,
}

/// A text member of the input, empty when it is missing.
pub open spec fn text_field(input: JsonV, key: Seq<char>) -> JsonV {
    JsonV::Str(
        match input_str(input, key) {
            Some(s) => s,
            None => Seq::empty(),
        },
    )
}

/// A list of texts as a JSON array of strings.
pub open spec fn texts_json(l: Seq<Seq<char>>) -> JsonV {
    JsonV::Array(l.map_values(|s: Seq<char>| JsonV::Str(s)))
}

/// A list-of-texts member of the input, empty when it is missing.
pub open spec fn list_field(input: JsonV, key: Seq<char>) -> JsonV {
    texts_json(
        match input_list(input, key) {
            Some(l) => l,
            None => Seq::empty(),
        },
    )
}

/// A count as a JSON number.
pub open spec fn count_json(n: nat) -> JsonV {
    JsonV::Number(dec_digits(n))
}

/// Each judged item beside its verdict, as objects whose members `k1` and `k2` hold them.
pub open spec fn pairs_json(items: Seq<Seq<char>>, verdicts: Seq<bool>, k1: Seq<char>, k2: Seq<char>) -> JsonV {
    JsonV::Array(
        Seq::new(
            if items.len() < verdicts.len() { items.len() } else { verdicts.len() },
            |i: int| JsonV::Object(seq![(k1, JsonV::Str(items[i])), (k2, JsonV::Bool(verdicts[i]))]),
        ),
    )
}

/// Verdicts as the numbers 1 and 0.
pub open spec fn flags_json(v: Seq<bool>) -> JsonV {
    JsonV::Array(v.map_values(|b: bool| JsonV::Number(if b { seq!['1'] } else { seq!['0'] })))
}

/// The lists and verdict lists that the details of a metric read exist.
pub open spec fn shape_ok(kind: JudgeKind, nl: int, nv: int) -> bool {
    match kind {
        JudgeKind::ContextRecall => nl >= 2 && nv >= 1,
        JudgeKind::ContextEntitiesRecall => nl >= 3,
        JudgeKind::SummarizationScore => nl >= 2 && nv >= 1,
        JudgeKind::AnswerAccuracy => nl >= 2 && nv >= 2,
        _ => nl >= 1 && nv >= 1,
    }
}

/// The details of faithfulness: the input, the answer's claims and, when
/// there are claims, each beside whether the context supports it.
pub open spec fn faithfulness_details(input: JsonV, claims: Seq<Seq<char>>, v: Seq<bool>) -> JsonV {
    if claims.len() == 0 {
        JsonV::Object(seq![
            ("question"@, text_field(input, "question"@)),
            ("context"@, text_field(input, "context"@)),
            ("answer"@, text_field(input, "answer"@)),
            ("claims"@, texts_json(claims)),
            ("supported"@, count_json(0)),
            ("total"@, count_json(0)),
        ])
    } else {
        JsonV::Object(seq![
            ("question"@, text_field(input, "question"@)),
            ("context"@, text_field(input, "context"@)),
            ("answer"@, text_field(input, "answer"@)),
            ("claims"@, texts_json(claims)),
            ("verdicts"@, pairs_json(claims, v, "claim"@, "supported"@)),
            ("supported"@, count_json(count_true(v))),
            ("total"@, count_json(claims.len())),
        ])
    }
}

/// The details of answer relevancy: the input, the question count `n`, the
/// generated questions and, when there are any, each beside whether it
/// matches the original question.
pub open spec fn answer_relevancy_details(params: JsonV, input: JsonV, questions: Seq<Seq<char>>, v: Seq<bool>) -> JsonV {
    if questions.len() == 0 {
        JsonV::Object(seq![
            ("question"@, text_field(input, "question"@)),
            ("answer"@, text_field(input, "answer"@)),
            ("n"@, count_json(questions_param(params, input) as nat)),
            ("generated_questions"@, texts_json(questions)),
            ("matched"@, count_json(0)),
            ("total"@, count_json(0)),
        ])
    } else {
        JsonV::Object(seq![
            ("question"@, text_field(input, "question"@)),
            ("answer"@, text_field(input, "answer"@)),
            ("n"@, count_json(questions_param(params, input) as nat)),
            ("generated_questions"@, texts_json(questions)),
            ("pair_results"@, pairs_json(questions, v, "generated_question"@, "matched"@)),
            ("matched"@, count_json(count_true(v))),
            ("total"@, count_json(questions.len())),
        ])
    }
}

/// The details of context recall: the input, the reference's claims and,
/// when there are claims, each beside whether the contexts support it.
pub open spec fn context_recall_details(input: JsonV, contexts: Seq<Seq<char>>, claims: Seq<Seq<char>>, v: Seq<bool>) -> JsonV {
    if claims.len() == 0 {
        JsonV::Object(seq![
            ("question"@, text_field(input, "question"@)),
            ("reference"@, text_field(input, "reference"@)),
            ("contexts"@, texts_json(contexts)),
            ("claims"@, texts_json(claims)),
            ("supported"@, count_json(0)),
            ("total"@, count_json(0)),
        ])
    } else {
        JsonV::Object(seq![
            ("question"@, text_field(input, "question"@)),
            ("reference"@, text_field(input, "reference"@)),
            ("contexts"@, texts_json(contexts)),
            ("claims"@, texts_json(claims)),
            ("verdicts"@, pairs_json(claims, v, "claim"@, "supported"@)),
            ("supported"@, count_json(count_true(v))),
            ("total"@, count_json(claims.len())),
        ])
    }
}

/// The details of context relevancy: the question, the contexts and, when
/// there are any, their verdicts as 1 or 0 with the count of relevant ones.
pub open spec fn context_relevancy_details(input: JsonV, contexts: Seq<Seq<char>>, v: Seq<bool>) -> JsonV {
    if contexts.len() == 0 {
        JsonV::Object(seq![
            ("question"@, text_field(input, "question"@)),
            ("contexts"@, texts_json(contexts)),
            ("total"@, count_json(0)),
        ])
    } else {
        JsonV::Object(seq![
            ("question"@, text_field(input, "question"@)),
            ("contexts"@, texts_json(contexts)),
            ("verdicts"@, flags_json(v)),
            ("relevant"@, count_json(count_true(v))),
            ("total"@, count_json(contexts.len())),
        ])
    }
}

/// The details of context entities recall: the input, both entity lists,
/// the reference entities found among the context entities and those
/// missing (each once), and their number; a reference without entities
/// reports the score 1.0 in place of the number.
pub open spec fn entities_details(input: JsonV, contexts: Seq<Seq<char>>, re: Seq<Seq<char>>, rce: Seq<Seq<char>>) -> JsonV {
    if re.len() == 0 {
        JsonV::Object(seq![
            ("reference"@, text_field(input, "reference"@)),
            ("contexts"@, texts_json(contexts)),
            ("entities_reference"@, texts_json(re)),
            ("entities_contexts"@, texts_json(rce)),
            ("found"@, texts_json(Seq::empty())),
            ("missing"@, texts_json(Seq::empty())),
            ("score"@, JsonV::Number("1.0"@)),
        ])
    } else {
        JsonV::Object(seq![
            ("reference"@, text_field(input, "reference"@)),
            ("contexts"@, texts_json(contexts)),
            ("entities_reference"@, texts_json(re)),
            ("entities_contexts"@, texts_json(rce)),
            ("found"@, texts_json(entities_found(re, rce))),
            ("missing"@, texts_json(entities_missing(re, rce))),
            ("total"@, count_json(distinct_of(re).len())),
        ])
    }
}

/// The details of noise sensitivity: the input, the answer's claims and,
/// when there are claims, each beside whether it is correct, with the
/// number of incorrect ones.
pub open spec fn noise_details(input: JsonV, claims: Seq<Seq<char>>, v: Seq<bool>) -> JsonV {
    if claims.len() == 0 {
        JsonV::Object(seq![
            ("question"@, text_field(input, "question"@)),
            ("reference"@, text_field(input, "reference"@)),
            ("contexts"@, list_field(input, "contexts"@)),
            ("answer"@, text_field(input, "answer"@)),
            ("claims"@, texts_json(claims)),
            ("incorrect"@, count_json(0)),
            ("total"@, count_json(0)),
        ])
    } else {
        JsonV::Object(seq![
            ("question"@, text_field(input, "question"@)),
            ("reference"@, text_field(input, "reference"@)),
            ("contexts"@, list_field(input, "contexts"@)),
            ("answer"@, text_field(input, "answer"@)),
            ("claims"@, texts_json(claims)),
            ("verdicts"@, pairs_json(claims, v, "claim"@, "correct"@)),
            ("incorrect"@, count_json((v.len() - count_true(v)) as nat)),
            ("total"@, count_json(claims.len())),
        ])
    }
}

/// The details of the summarization score: the input, the keyphrases, the
/// questions and each beside whether the summary answers it; a run ended
/// without keyphrases or without questions reports what it had.
pub open spec fn summarization_details(input: JsonV, keyphrases: Seq<Seq<char>>, questions: Seq<Seq<char>>, v: Seq<bool>) -> JsonV {
    if keyphrases.len() == 0 {
        JsonV::Object(seq![
            ("reference"@, text_field(input, "reference"@)),
            ("summary"@, text_field(input, "summary"@)),
            ("keyphrases"@, texts_json(keyphrases)),
            ("total_questions"@, count_json(0)),
        ])
    } else if questions.len() == 0 {
        JsonV::Object(seq![
            ("reference"@, text_field(input, "reference"@)),
            ("summary"@, text_field(input, "summary"@)),
            ("keyphrases"@, texts_json(keyphrases)),
            ("questions"@, texts_json(questions)),
            ("total"@, count_json(0)),
        ])
    } else {
        JsonV::Object(seq![
            ("reference"@, text_field(input, "reference"@)),
            ("summary"@, text_field(input, "summary"@)),
            ("keyphrases"@, texts_json(keyphrases)),
            ("questions"@, texts_json(questions)),
            ("qa_results"@, pairs_json(questions, v, "question"@, "correct"@)),
            ("correct"@, count_json(count_true(v))),
            ("total"@, count_json(questions.len())),
        ])
    }
}

/// The details of answer accuracy: the input, both claim lists, the counts
/// of true positives, false positives and false negatives, and each claim
/// beside its verdict.
pub open spec fn accuracy_details(input: JsonV, answer_claims: Seq<Seq<char>>, reference_claims: Seq<Seq<char>>, matched: Seq<bool>, covered: Seq<bool>) -> JsonV {
    JsonV::Object(seq![
        ("question"@, text_field(input, "question"@)),
        ("reference"@, text_field(input, "reference"@)),
        ("answer"@, text_field(input, "answer"@)),
        ("answer_claims"@, texts_json(answer_claims)),
        ("reference_claims"@, texts_json(reference_claims)),
        ("tp"@, count_json(count_true(matched))),
        ("fp"@, count_json((matched.len() - count_true(matched)) as nat)),
        ("fn"@, count_json((covered.len() - count_true(covered)) as nat)),
        ("matched_pairs"@, pairs_json(answer_claims, matched, "claim"@, "in_reference"@)),
        ("fn_pairs"@, pairs_json(reference_claims, covered, "reference_claim"@, "covered_by_answer"@)),
    ])
}

/// The details of a finished run of a metric, from its input, its
/// parameters and what the run collected.
pub open spec fn details_of(kind: JudgeKind, params: JsonV, input: JsonV, lists: Seq<Seq<Seq<char>>>, verdicts: Seq<Seq<bool>>) -> JsonV {
    match kind {
        JudgeKind::Faithfulness => faithfulness_details(input, lists[0], verdicts[0]),
        JudgeKind::AnswerRelevancy => answer_relevancy_details(params, input, lists[0], verdicts[0]),
        JudgeKind::ContextRecall => context_recall_details(input, lists[0], lists[1], verdicts[0]),
        JudgeKind::ContextRelevancy => context_relevancy_details(input, lists[0], verdicts[0]),
        JudgeKind::ContextEntitiesRecall => entities_details(input, lists[0], lists[1], lists[2]),
        JudgeKind::NoiseSensitivity => noise_details(input, lists[0], verdicts[0]),
        JudgeKind::SummarizationScore => summarization_details(input, lists[0], lists[1], verdicts[0]),
        JudgeKind::AnswerAccuracy => accuracy_details(input, lists[0], lists[1], verdicts[0], verdicts[1]),
    }
}

fn text_json(input: &Json, key: &str) -> (res: Json)
    ensures
        res.v() == text_field(input.v(), key@),
{
    match read_text(input, key) {
        Ok(t) => Json::Str(t),
        Err(_) => Json::Str(String::new()),
    }
}

fn strings_json(l: &[String]) -> (res: Json)
    ensures
        res.v() == texts_json(sv(l@)),
{
    let mut out: Vec<Json> = Vec::new();
    let mut i: usize = 0;
    while i < l.len()
        invariant
            i <= l@.len(),
            out@.len() == i,
            forall|k: int| 0 <= k < i ==> #[trigger] out@[k].v() == JsonV::Str(l@[k]@),
        decreases l@.len() - i,
    {
        out.push(Json::Str(l[i].clone()));
        i = i + 1;
    }
    let res = Json::Array(out);
    assert(res.v()->Array_0.len() == l@.len());
    assert forall|k: int| 0 <= k < l@.len() implies #[trigger] res.v()->Array_0[k] == sv(l@).map_values(|s: Seq<char>| JsonV::Str(s))[k] by {
        assert(res.v()->Array_0[k] == out@[k].v());
        assert(sv(l@)[k] == l@[k]@);
    }
    assert(res.v()->Array_0 =~= sv(l@).map_values(|s: Seq<char>| JsonV::Str(s)));
    res
}

fn list_json(input: &Json, key: &str) -> (res: Json)
    ensures
        res.v() == list_field(input.v(), key@),
{
    match read_texts(input, key) {
        Ok(l) => strings_json(l.as_slice()),
        Err(_) => {
            let res = Json::Array(Vec::new());
            assert(res.v()->Array_0 =~= Seq::<Seq<char>>::empty().map_values(|s: Seq<char>| JsonV::Str(s)));
            res
        },
    }
}

fn count_to_json(n: usize) -> (res: Json)
    ensures
        res.v() == count_json(n as nat),
{
    Json::Number(u64_text(n as u64))
}

fn pairs_to_json(items: &[String], verdicts: &[bool], k1: &str, k2: &str) -> (res: Json)
    ensures
        res.v() == pairs_json(sv(items@), verdicts@, k1@, k2@),
{
    let n = if items.len() < verdicts.len() { items.len() } else { verdicts.len() };
    let mut out: Vec<Json> = Vec::new();
    let mut i: usize = 0;
    while i < n
        invariant
            i <= n,
            n <= items@.len(),
            n <= verdicts@.len(),
            out@.len() == i,
            forall|k: int| 0 <= k < i ==> #[trigger] out@[k].v() == JsonV::Object(
                seq![(k1@, JsonV::Str(items@[k]@)), (k2@, JsonV::Bool(verdicts@[k]))],
            ),
        decreases n - i,
    {
        let mut m: Vec<(String, Json)> = Vec::new();
        let item = Json::Str(items[i].clone());
        let verdict = Json::Bool(verdicts[i]);
        assert(item.v() == JsonV::Str(items@[i as int]@));
        assert(verdict.v() == JsonV::Bool(verdicts@[i as int]));
        m.push(member(k1, item));
        m.push(member(k2, verdict));
        let o = Json::Object(m);
        let ghost want = seq![(k1@, JsonV::Str(items@[i as int]@)), (k2@, JsonV::Bool(verdicts@[i as int]))];
        assert(o.v()->Object_0.len() == 2);
        assert(o.v()->Object_0[0] == want[0]);
        assert(o.v()->Object_0[1] == want[1]);
        assert(o.v()->Object_0 =~= want);
        out.push(o);
        i = i + 1;
    }
    let res = Json::Array(out);
    assert forall|k: int| 0 <= k < n implies #[trigger] res.v()->Array_0[k] == pairs_json(sv(items@), verdicts@, k1@, k2@)->Array_0[k] by {
        assert(res.v()->Array_0[k] == out@[k].v());
        assert(sv(items@)[k] == items@[k]@);
    }
    assert(res.v()->Array_0 =~= pairs_json(sv(items@), verdicts@, k1@, k2@)->Array_0);
    res
}

fn flags_to_json(v: &[bool]) -> (res: Json)
    ensures
        res.v() == flags_json(v@),
{
    let mut out: Vec<Json> = Vec::new();
    let mut i: usize = 0;
    proof {
        reveal_strlit("1");
        reveal_strlit("0");
        assert("1"@ =~= seq!['1']);
        assert("0"@ =~= seq!['0']);
    }
    while i < v.len()
        invariant
            i <= v@.len(),
            out@.len() == i,
            forall|k: int| 0 <= k < i ==> #[trigger] out@[k].v() == JsonV::Number(if v@[k] { seq!['1'] } else { seq!['0'] }),
        decreases v@.len() - i,
    {
        proof {
            reveal_strlit("1");
            reveal_strlit("0");
            assert("1"@ =~= seq!['1']);
            assert("0"@ =~= seq!['0']);
        }
        let t = if v[i] { owned("1") } else { owned("0") };
        let f = Json::Number(t);
        assert(f.v() == JsonV::Number(if v@[i as int] { seq!['1'] } else { seq!['0'] }));
        out.push(f);
        i = i + 1;
    }
    let res = Json::Array(out);
    assert forall|k: int| 0 <= k < v@.len() implies #[trigger] res.v()->Array_0[k] == flags_json(v@)->Array_0[k] by {
        assert(res.v()->Array_0[k] == out@[k].v());
    }
    assert(res.v()->Array_0 =~= flags_json(v@)->Array_0);
    res
}

fn member(key: &str, value: Json) -> (res: (String, Json))
    ensures
        res.0@ == key@,
        res.1 == value,
{
    (owned(key), value)
}

/// Whether a run with `nl` lists and `nv` verdict lists has what the
/// details of `kind` read (see [`shape_ok`]).
pub fn shape_fits(kind: JudgeKind, nl: usize, nv: usize) -> (res: bool)
    ensures
        res == shape_ok(kind, nl as int, nv as int),
{
    match kind {
        JudgeKind::ContextRecall => nl >= 2 && nv >= 1,
        JudgeKind::ContextEntitiesRecall => nl >= 3,
        JudgeKind::SummarizationScore => nl >= 2 && nv >= 1,
        JudgeKind::AnswerAccuracy => nl >= 2 && nv >= 2,
        _ => nl >= 1 && nv >= 1,
    }
}

fn faithfulness_obj(input: &Json, claims: &Vec<String>, v: &Vec<bool>) -> (res: Json)
    ensures
        res.v() == faithfulness_details(input.v(), sv(claims@), v@),
{
    let q = text_json(input, "question");
    let c = text_json(input, "context");
    let a = text_json(input, "answer");
    let cl = strings_json(claims.as_slice());
    let res = if claims.len() == 0 {
        Json::Object(vec![
            member("question", q),
            member("context", c),
            member("answer", a),
            member("claims", cl),
            member("supported", count_to_json(0)),
            member("total", count_to_json(0)),
        ])
    } else {
        let supported = count_verdicts(v.as_slice());
        Json::Object(vec![
            member("question", q),
            member("context", c),
            member("answer", a),
            member("claims", cl),
            member("verdicts", pairs_to_json(claims.as_slice(), v.as_slice(), "claim", "supported")),
            member("supported", count_to_json(supported)),
            member("total", count_to_json(claims.len())),
        ])
    };
    assert(res.v()->Object_0 =~= faithfulness_details(input.v(), sv(claims@), v@)->Object_0);
    res
}

fn answer_relevancy_obj(params: &Json, input: &Json, questions: &Vec<String>, v: &Vec<bool>) -> (res: Json)
    ensures
        res.v() == answer_relevancy_details(params.v(), input.v(), sv(questions@), v@),
{
    let n: u32 = match crate::metrics::get_u64(input, "n") {
        Some(n) => n as u32,
        None => match crate::metrics::get_u64(params, "n") {
            Some(n) => n as u32,
            None => 3,
        },
    };
    let q = text_json(input, "question");
    let a = text_json(input, "answer");
    let nj = count_to_json(n as usize);
    let gq = strings_json(questions.as_slice());
    let res = if questions.len() == 0 {
        Json::Object(vec![
            member("question", q),
            member("answer", a),
            member("n", nj),
            member("generated_questions", gq),
            member("matched", count_to_json(0)),
            member("total", count_to_json(0)),
        ])
    } else {
        let matched = count_verdicts(v.as_slice());
        Json::Object(vec![
            member("question", q),
            member("answer", a),
            member("n", nj),
            member("generated_questions", gq),
            member("pair_results", pairs_to_json(questions.as_slice(), v.as_slice(), "generated_question", "matched")),
            member("matched", count_to_json(matched)),
            member("total", count_to_json(questions.len())),
        ])
    };
    assert(res.v()->Object_0 =~= answer_relevancy_details(params.v(), input.v(), sv(questions@), v@)->Object_0);
    res
}

fn context_recall_obj(input: &Json, contexts: &Vec<String>, claims: &Vec<String>, v: &Vec<bool>) -> (res: Json)
    ensures
        res.v() == context_recall_details(input.v(), sv(contexts@), sv(claims@), v@),
{
    let q = text_json(input, "question");
    let r = text_json(input, "reference");
    let cx = strings_json(contexts.as_slice());
    let cl = strings_json(claims.as_slice());
    let res = if claims.len() == 0 {
        Json::Object(vec![
            member("question", q),
            member("reference", r),
            member("contexts", cx),
            member("claims", cl),
            member("supported", count_to_json(0)),
            member("total", count_to_json(0)),
        ])
    } else {
        let supported = count_verdicts(v.as_slice());
        Json::Object(vec![
            member("question", q),
            member("reference", r),
            member("contexts", cx),
            member("claims", cl),
            member("verdicts", pairs_to_json(claims.as_slice(), v.as_slice(), "claim", "supported")),
            member("supported", count_to_json(supported)),
            member("total", count_to_json(claims.len())),
        ])
    };
    assert(res.v()->Object_0 =~= context_recall_details(input.v(), sv(contexts@), sv(claims@), v@)->Object_0);
    res
}

fn context_relevancy_obj(input: &Json, contexts: &Vec<String>, v: &Vec<bool>) -> (res: Json)
    ensures
        res.v() == context_relevancy_details(input.v(), sv(contexts@), v@),
{
    let q = text_json(input, "question");
    let cx = strings_json(contexts.as_slice());
    let res = if contexts.len() == 0 {
        Json::Object(vec![member("question", q), member("contexts", cx), member("total", count_to_json(0))])
    } else {
        let relevant = count_verdicts(v.as_slice());
        Json::Object(vec![
            member("question", q),
            member("contexts", cx),
            member("verdicts", flags_to_json(v.as_slice())),
            member("relevant", count_to_json(relevant)),
            member("total", count_to_json(contexts.len())),
        ])
    };
    assert(res.v()->Object_0 =~= context_relevancy_details(input.v(), sv(contexts@), v@)->Object_0);
    res
}

fn entities_obj(input: &Json, contexts: &Vec<String>, re: &Vec<String>, rce: &Vec<String>) -> (res: Json)
    ensures
        res.v() == entities_details(input.v(), sv(contexts@), sv(re@), sv(rce@)),
{
    let r = text_json(input, "reference");
    let cx = strings_json(contexts.as_slice());
    let rj = strings_json(re.as_slice());
    let rcj = strings_json(rce.as_slice());
    let res = if re.len() == 0 {
        let none: Vec<String> = Vec::new();
        let found = strings_json(none.as_slice());
        let missing = strings_json(none.as_slice());
        proof {
            reveal_strlit("1.0");
            assert(sv(none@) =~= Seq::<Seq<char>>::empty());
        }
        let score = Json::Number(owned("1.0"));
        assert(score.v() == JsonV::Number("1.0"@));
        assert(found.v() == texts_json(Seq::empty()));
        let o = Json::Object(vec![
            member("reference", r),
            member("contexts", cx),
            member("entities_reference", rj),
            member("entities_contexts", rcj),
            member("found", found),
            member("missing", missing),
            member("score", score),
        ]);
        assert(o.v()->Object_0 =~= entities_details(input.v(), sv(contexts@), sv(re@), sv(rce@))->Object_0);
        o
    } else {
        let recall = crate::judge::context_entities_recall(re.as_slice(), rce.as_slice());
        let entities = crate::judge::distinct_strings(re.as_slice());
        assert(sv(entities@).len() == entities@.len());
        let found = strings_json(recall.found.as_slice());
        let missing = strings_json(recall.missing.as_slice());
        let total = count_to_json(entities.len());
        assert(total.v() == count_json(distinct_of(sv(re@)).len()));
        Json::Object(vec![
            member("reference", r),
            member("contexts", cx),
            member("entities_reference", rj),
            member("entities_contexts", rcj),
            member("found", found),
            member("missing", missing),
            member("total", total),
        ])
    };
    assert(res.v()->Object_0 =~= entities_details(input.v(), sv(contexts@), sv(re@), sv(rce@))->Object_0);
    res
}

fn noise_obj(input: &Json, claims: &Vec<String>, v: &Vec<bool>) -> (res: Json)
    ensures
        res.v() == noise_details(input.v(), sv(claims@), v@),
{
    let q = text_json(input, "question");
    let r = text_json(input, "reference");
    let cx = list_json(input, "contexts");
    let a = text_json(input, "answer");
    let cl = strings_json(claims.as_slice());
    let res = if claims.len() == 0 {
        Json::Object(vec![
            member("question", q),
            member("reference", r),
            member("contexts", cx),
            member("answer", a),
            member("claims", cl),
            member("incorrect", count_to_json(0)),
            member("total", count_to_json(0)),
        ])
    } else {
        let correct = count_verdicts(v.as_slice());
        let incorrect = v.len() - correct;
        Json::Object(vec![
            member("question", q),
            member("reference", r),
            member("contexts", cx),
            member("answer", a),
            member("claims", cl),
            member("verdicts", pairs_to_json(claims.as_slice(), v.as_slice(), "claim", "correct")),
            member("incorrect", count_to_json(incorrect)),
            member("total", count_to_json(claims.len())),
        ])
    };
    assert(res.v()->Object_0 =~= noise_details(input.v(), sv(claims@), v@)->Object_0);
    res
}

fn summarization_obj(input: &Json, keyphrases: &Vec<String>, questions: &Vec<String>, v: &Vec<bool>) -> (res: Json)
    ensures
        res.v() == summarization_details(input.v(), sv(keyphrases@), sv(questions@), v@),
{
    let r = text_json(input, "reference");
    let sm = text_json(input, "summary");
    let kp = strings_json(keyphrases.as_slice());
    let res = if keyphrases.len() == 0 {
        Json::Object(vec![
            member("reference", r),
            member("summary", sm),
            member("keyphrases", kp),
            member("total_questions", count_to_json(0)),
        ])
    } else if questions.len() == 0 {
        Json::Object(vec![
            member("reference", r),
            member("summary", sm),
            member("keyphrases", kp),
            member("questions", strings_json(questions.as_slice())),
            member("total", count_to_json(0)),
        ])
    } else {
        let correct = count_verdicts(v.as_slice());
        Json::Object(vec![
            member("reference", r),
            member("summary", sm),
            member("keyphrases", kp),
            member("questions", strings_json(questions.as_slice())),
            member("qa_results", pairs_to_json(questions.as_slice(), v.as_slice(), "question", "correct")),
            member("correct", count_to_json(correct)),
            member("total", count_to_json(questions.len())),
        ])
    };
    assert(res.v()->Object_0 =~= summarization_details(input.v(), sv(keyphrases@), sv(questions@), v@)->Object_0);
    res
}

fn accuracy_obj(input: &Json, answer_claims: &Vec<String>, reference_claims: &Vec<String>, matched: &Vec<bool>, covered: &Vec<bool>) -> (res: Json)
    ensures
        res.v() == accuracy_details(input.v(), sv(answer_claims@), sv(reference_claims@), matched@, covered@),
{
    let tp = count_verdicts(matched.as_slice());
    let covered_count = count_verdicts(covered.as_slice());
    let fp = matched.len() - tp;
    let fn_count = covered.len() - covered_count;
    let res = Json::Object(vec![
        member("question", text_json(input, "question")),
        member("reference", text_json(input, "reference")),
        member("answer", text_json(input, "answer")),
        member("answer_claims", strings_json(answer_claims.as_slice())),
        member("reference_claims", strings_json(reference_claims.as_slice())),
        member("tp", count_to_json(tp)),
        member("fp", count_to_json(fp)),
        member("fn", count_to_json(fn_count)),
        member("matched_pairs", pairs_to_json(answer_claims.as_slice(), matched.as_slice(), "claim", "in_reference")),
        member("fn_pairs", pairs_to_json(reference_claims.as_slice(), covered.as_slice(), "reference_claim", "covered_by_answer")),
    ]);
    assert(res.v()->Object_0 =~= accuracy_details(input.v(), sv(answer_claims@), sv(reference_claims@), matched@, covered@)->Object_0);
    res
}

/// The details of a finished run of `kind` (see [`details_of`]). The score
/// itself is reported beside them by the caller.
pub fn judge_details(kind: JudgeKind, params: &Json, input: &Json, run: &JudgeRun) -> (res: Json)
    requires
        shape_ok(kind, run.lists@.len() as int, run.verdicts@.len() as int),
    ensures
        res.v() == details_of(kind, params.v(), input.v(), run.lists_view(), run.verdicts_view()),
{
    let ghost lv = run.lists_view();
    let ghost vv = run.verdicts_view();
    assert(forall|k: int| 0 <= k < run.lists@.len() ==> #[trigger] lv[k] == sv(run.lists@[k]@));
    assert(forall|k: int| 0 <= k < run.verdicts@.len() ==> #[trigger] vv[k] == run.verdicts@[k]@);
    match kind {
        JudgeKind::Faithfulness => faithfulness_obj(input, &run.lists[0], &run.verdicts[0]),
        JudgeKind::AnswerRelevancy => answer_relevancy_obj(params, input, &run.lists[0], &run.verdicts[0]),
        JudgeKind::ContextRecall => context_recall_obj(input, &run.lists[0], &run.lists[1], &run.verdicts[0]),
        JudgeKind::ContextRelevancy => context_relevancy_obj(input, &run.lists[0], &run.verdicts[0]),
        JudgeKind::ContextEntitiesRecall => entities_obj(input, &run.lists[0], &run.lists[1], &run.lists[2]),
        JudgeKind::NoiseSensitivity => noise_obj(input, &run.lists[0], &run.verdicts[0]),
        JudgeKind::SummarizationScore => summarization_obj(input, &run.lists[0], &run.lists[1], &run.verdicts[0]),
        JudgeKind::AnswerAccuracy => accuracy_obj(input, &run.lists[0], &run.lists[1], &run.verdicts[0], &run.verdicts[1]),
    }
}

} // verus!
