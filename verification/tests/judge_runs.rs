use eval_rs::error::EvalError;
use eval_rs::json::Json;
use eval_rs::judge_details::{JudgeKind, judge_details, shape_fits};
use eval_rs::judge_run::{
    JudgeRun, JudgeStep, answer_accuracy_run, answer_relevancy_run, context_entities_recall_run,
    context_recall_run, context_relevancy_run, faithfulness_run, join, noise_sensitivity_run,
    summarization_score_run, u32_text,
};
use eval_rs::score::Ratio;

fn obj(members: Vec<(&str, Json)>) -> Json {
    Json::Object(members.into_iter().map(|(k, v)| (k.to_string(), v)).collect())
}

fn text(t: &str) -> Json {
    Json::Str(t.to_string())
}

fn list(items: &[&str]) -> Json {
    Json::Array(items.iter().map(|s| text(s)).collect())
}

/// Runs a judge run against canned replies, returning the prompts asked and the result.
fn drive(mut run: JudgeRun, replies: &[&str]) -> (Vec<String>, Ratio, bool) {
    let mut prompts = Vec::new();
    let mut i = 0;
    loop {
        match run.next() {
            JudgeStep::Call(c) => {
                prompts.push(c.prompt_name.clone());
                run.on_reply(replies[i]).unwrap();
                i += 1;
            },
            JudgeStep::Done { score, early } => return (prompts, score, early),
        }
    }
}

#[test]
fn faithfulness_run_asks_per_claim() {
    let input = obj(vec![("question", text("q")), ("context", text("ctx")), ("answer", text("ans"))]);
    let mut run = faithfulness_run(&input).unwrap();
    match run.next() {
        JudgeStep::Call(c) => {
            assert_eq!(c.prompt_name, "faithfulness_extract_claims");
            assert_eq!(c.vars, vec![("answer".to_string(), text("ans"))]);
        },
        _ => panic!(),
    }
    run.on_reply(r#"{"claims": ["c1", "c2", 3]}"#).unwrap();
    match run.next() {
        JudgeStep::Call(c) => {
            assert_eq!(c.prompt_name, "faithfulness_verify_claim");
            assert_eq!(c.vars, vec![("context".to_string(), text("ctx")), ("claim".to_string(), text("c1"))]);
        },
        _ => panic!(),
    }
    run.on_reply(r#"{"verdict": 1}"#).unwrap();
    run.on_reply("```json\n{\"verdict\": false}\n```").unwrap();
    match run.next() {
        JudgeStep::Done { score, early } => {
            assert_eq!(score, Ratio { num: 1, den: 2 });
            assert!(!early);
        },
        _ => panic!(),
    }
}

#[test]
fn empty_claims_end_the_run() {
    let input = obj(vec![("question", text("q")), ("context", text("ctx")), ("answer", text("ans"))]);
    let (prompts, score, early) = drive(faithfulness_run(&input).unwrap(), &[r#"{"claims": []}"#]);
    assert_eq!(prompts.len(), 1);
    assert_eq!(score, Ratio { num: 1, den: 1 });
    assert!(early);
}

#[test]
fn unreadable_replies_are_errors() {
    let input = obj(vec![("question", text("q")), ("context", text("ctx")), ("answer", text("ans"))]);
    let mut run = faithfulness_run(&input).unwrap();
    assert!(matches!(run.on_reply("nothing"), Err(EvalError::JudgeParseFailed(_))));
    assert!(matches!(run.on_reply(r#"{"claims": "x"}"#), Err(EvalError::JudgeParseFailed(_))));
    assert!(matches!(faithfulness_run(&obj(vec![("question", text("q"))])), Err(EvalError::InvalidParams(_))));
}

#[test]
fn answer_relevancy_passes_question_count() {
    let input = obj(vec![("question", text("q")), ("answer", text("a"))]);
    let params = obj(vec![("n", Json::Number("5".to_string()))]);
    let mut run = answer_relevancy_run(&params, &input).unwrap();
    match run.next() {
        JudgeStep::Call(c) => assert_eq!(c.vars[1], ("n".to_string(), Json::Number("5".to_string()))),
        _ => panic!(),
    }
    run.on_reply(r#"{"questions": ["g1", "g2", "g3"]}"#).unwrap();
    let (_, score, _) = drive(run, &[r#"{"match": 1}"#, r#"{"verdict": "yes"}"#, r#"{"match": 0}"#]);
    assert_eq!(score, Ratio { num: 2, den: 3 });
}

#[test]
fn context_recall_joins_contexts() {
    let input = obj(vec![("question", text("q")), ("reference", text("r")), ("contexts", list(&["a", "b"]))]);
    let mut run = context_recall_run(&input).unwrap();
    run.on_reply(r#"{"claims": ["c"]}"#).unwrap();
    match run.next() {
        JudgeStep::Call(c) => assert_eq!(c.vars[0], ("contexts".to_string(), text("a\n---\nb"))),
        _ => panic!(),
    }
    let (_, score, _) = drive(run, &[r#"{"supported": true}"#]);
    assert_eq!(score, Ratio { num: 1, den: 1 });
}

#[test]
fn context_relevancy_without_contexts_is_zero_at_once() {
    let input = obj(vec![("question", text("q")), ("contexts", list(&[]))]);
    let (prompts, score, _) = drive(context_relevancy_run(&input).unwrap(), &[]);
    assert!(prompts.is_empty());
    assert_eq!(score, Ratio { num: 0, den: 1 });
    let input = obj(vec![("question", text("q")), ("contexts", list(&["x", "y"]))]);
    let (prompts, score, _) = drive(context_relevancy_run(&input).unwrap(), &[r#"{"relevant": 1}"#, r#"{"relevant": 0}"#]);
    assert_eq!(prompts, vec!["chunk_relevance".to_string(), "chunk_relevance".to_string()]);
    assert_eq!(score, Ratio { num: 1, den: 2 });
}

#[test]
fn entities_are_lowercased() {
    let input = obj(vec![("reference", text("r")), ("contexts", list(&["c"]))]);
    let (prompts, score, _) = drive(
        context_entities_recall_run(&input).unwrap(),
        &[r#"{"entities": ["Paris", "Rome"]}"#, r#"{"entities": ["paris"]}"#],
    );
    assert_eq!(prompts.len(), 2);
    assert_eq!(score, Ratio { num: 1, den: 2 });
}

#[test]
fn noise_counts_incorrect_claims() {
    let input = obj(vec![
        ("question", text("q")),
        ("reference", text("r")),
        ("contexts", list(&[])),
        ("answer", text("a")),
    ]);
    let (_, score, _) = drive(
        noise_sensitivity_run(&input).unwrap(),
        &[r#"{"claims": ["x", "y", "z", "w"]}"#, r#"{"correct": 1}"#, r#"{"correct": 0}"#, r#"{"correct": 0}"#, r#"{"correct": 1}"#],
    );
    assert_eq!(score, Ratio { num: 2, den: 4 });
}

#[test]
fn summarization_stops_without_keyphrases() {
    let input = obj(vec![("reference", text("r")), ("summary", text("s"))]);
    let (prompts, score, early) = drive(summarization_score_run(&input).unwrap(), &[r#"{"keyphrases": []}"#]);
    assert_eq!(prompts.len(), 1);
    assert_eq!(score, Ratio { num: 0, den: 1 });
    assert!(early);
    let mut run = summarization_score_run(&input).unwrap();
    run.on_reply(r#"{"keyphrases": ["k1", "k2"]}"#).unwrap();
    match run.next() {
        JudgeStep::Call(c) => assert_eq!(c.vars, vec![("keyphrases".to_string(), list(&["k1", "k2"]))]),
        _ => panic!(),
    }
    let (_, score, _) = drive(run, &[r#"{"questions": ["q1"]}"#, r#"{"correct": 1}"#]);
    assert_eq!(score, Ratio { num: 1, den: 1 });
}

#[test]
fn answer_accuracy_runs_both_directions() {
    let input = obj(vec![("reference", text("r")), ("answer", text("a"))]);
    let (prompts, score, _) = drive(
        answer_accuracy_run(&input).unwrap(),
        &[
            r#"{"claims": ["a1", "a2"]}"#,
            r#"{"claims": ["r1"]}"#,
            r#"{"match": 1}"#,
            r#"{"match": 0}"#,
            r#"{"covered": 0}"#,
        ],
    );
    assert_eq!(prompts.len(), 5);
    // tp = 1, fp = 1, fn = 1
    assert_eq!(score, Ratio { num: 2, den: 4 });
}

#[test]
fn join_and_number_text() {
    assert_eq!(join(&vec!["a".to_string(), "b".to_string()], ", "), "a, b");
    assert_eq!(join(&Vec::new(), ", "), "");
    assert_eq!(u32_text(0), "0");
    assert_eq!(u32_text(4294967295), "4294967295");
}

#[test]
fn entities_are_compared_as_sets() {
    let input = obj(vec![("reference", text("r")), ("contexts", list(&["c1"]))]);
    let (_, score, _) = drive(
        context_entities_recall_run(&input).unwrap(),
        &[r#"{"entities": ["A", "a", "b"]}"#, r#"{"entities": ["a"]}"#],
    );
    assert_eq!(score, Ratio { num: 1, den: 2 });
}

#[test]
fn answer_relevancy_reads_question_count_from_input() {
    let first_n = |params: Json, input: Json| -> Json {
        let mut run = answer_relevancy_run(&params, &input).unwrap();
        match run.next() {
            JudgeStep::Call(c) => c.vars[1].1.copy(),
            _ => panic!(),
        }
    };
    let five = Json::Number("5".to_string());
    let input = obj(vec![("question", text("q")), ("answer", text("a")), ("n", five.copy())]);
    assert_eq!(first_n(obj(vec![]), input.copy()), five);
    assert_eq!(first_n(obj(vec![("n", Json::Number("7".to_string()))]), input), five);
    let plain = obj(vec![("question", text("q")), ("answer", text("a"))]);
    assert_eq!(first_n(obj(vec![]), plain), Json::Number("3".to_string()));
}

#[test]
fn answer_accuracy_reports_its_counts() {
    let input = obj(vec![("reference", text("r")), ("answer", text("a"))]);
    let mut run = answer_accuracy_run(&input).unwrap();
    let replies = [
        r#"{"claims": ["c1"]}"#,
        r#"{"claims": ["r1", "r2", "r3"]}"#,
        r#"{"match": 1}"#,
        r#"{"covered": 1}"#,
        r#"{"covered": 0}"#,
        r#"{"covered": 0}"#,
    ];
    let mut i = 0;
    let score = loop {
        match run.next() {
            JudgeStep::Call(_) => {
                run.on_reply(replies[i]).unwrap();
                i += 1;
            },
            JudgeStep::Done { score, .. } => break score,
        }
    };
    assert_eq!(score, Ratio { num: 2, den: 4 });
    assert_eq!(run.f1_counts(), Some((1, 0, 2)));
    assert_eq!(faithfulness_run(&obj(vec![("question", text("q")), ("context", text("c")), ("answer", text("a"))])).unwrap().f1_counts(), None);
}

fn finish(mut run: JudgeRun, replies: &[&str]) -> JudgeRun {
    let mut i = 0;
    while let JudgeStep::Call(_) = run.next() {
        run.on_reply(replies[i]).unwrap();
        i += 1;
    }
    run
}

fn number(t: &str) -> Json {
    Json::Number(t.to_string())
}

#[test]
fn answer_relevancy_details_carry_n() {
    let input = obj(vec![("question", text("q")), ("answer", text("a")), ("n", number("5"))]);
    let params = obj(vec![]);
    let run = finish(answer_relevancy_run(&params, &input).unwrap(), &[r#"{"questions": ["g1"]}"#, r#"{"match": 1}"#]);
    let d = judge_details(JudgeKind::AnswerRelevancy, &params, &input, &run);
    assert_eq!(d.get("n"), Some(&number("5")));
    assert_eq!(d.get("question"), Some(&text("q")));
    assert_eq!(d.get("generated_questions"), Some(&list(&["g1"])));
    assert_eq!(
        d.get("pair_results"),
        Some(&Json::Array(vec![obj(vec![("generated_question", text("g1")), ("matched", Json::Bool(true))])]))
    );
    assert_eq!(d.get("matched"), Some(&number("1")));
    assert_eq!(d.get("total"), Some(&number("1")));
    let early = finish(answer_relevancy_run(&params, &input).unwrap(), &[r#"{"questions": []}"#]);
    let e = judge_details(JudgeKind::AnswerRelevancy, &params, &input, &early);
    assert_eq!(e.get("pair_results"), None);
    assert_eq!(e.get("total"), Some(&number("0")));
}

#[test]
fn accuracy_and_entities_details() {
    let input = obj(vec![("reference", text("r")), ("answer", text("a"))]);
    let params = obj(vec![]);
    let run = finish(
        answer_accuracy_run(&input).unwrap(),
        &[
            r#"{"claims": ["c1"]}"#,
            r#"{"claims": ["r1", "r2", "r3"]}"#,
            r#"{"match": 1}"#,
            r#"{"covered": 1}"#,
            r#"{"covered": 0}"#,
            r#"{"covered": 0}"#,
        ],
    );
    let d = judge_details(JudgeKind::AnswerAccuracy, &params, &input, &run);
    assert_eq!((d.get("tp"), d.get("fp"), d.get("fn")), (Some(&number("1")), Some(&number("0")), Some(&number("2"))));
    assert_eq!(d.get("question"), Some(&text("")));
    let input = obj(vec![("reference", text("r")), ("contexts", list(&["c1"]))]);
    let run = finish(context_entities_recall_run(&input).unwrap(), &[r#"{"entities": ["A", "a", "b"]}"#, r#"{"entities": ["a"]}"#]);
    let d = judge_details(JudgeKind::ContextEntitiesRecall, &params, &input, &run);
    assert_eq!(d.get("found"), Some(&list(&["a"])));
    assert_eq!(d.get("missing"), Some(&list(&["b"])));
    assert_eq!(d.get("total"), Some(&number("2")));
    let run = finish(context_entities_recall_run(&input).unwrap(), &[r#"{"entities": []}"#, r#"{"entities": ["a"]}"#]);
    let d = judge_details(JudgeKind::ContextEntitiesRecall, &params, &input, &run);
    assert_eq!(d.get("score"), Some(&number("1.0")));
    assert!(shape_fits(JudgeKind::ContextEntitiesRecall, run.lists.len(), run.verdicts.len()));
    assert!(!shape_fits(JudgeKind::AnswerAccuracy, 1, 1));
}

#[test]
fn relevancy_and_summary_details() {
    let params = obj(vec![]);
    let input = obj(vec![("question", text("q")), ("contexts", list(&["x", "y"]))]);
    let run = finish(context_relevancy_run(&input).unwrap(), &[r#"{"relevant": 1}"#, r#"{"relevant": 0}"#]);
    let d = judge_details(JudgeKind::ContextRelevancy, &params, &input, &run);
    assert_eq!(d.get("verdicts"), Some(&Json::Array(vec![number("1"), number("0")])));
    assert_eq!(d.get("relevant"), Some(&number("1")));
    let input = obj(vec![("reference", text("r")), ("summary", text("s"))]);
    let run = finish(summarization_score_run(&input).unwrap(), &[r#"{"keyphrases": []}"#]);
    let d = judge_details(JudgeKind::SummarizationScore, &params, &input, &run);
    assert_eq!(d.get("total_questions"), Some(&number("0")));
    assert_eq!(d.get("questions"), None);
}
