use eval_rs::judge::{
    answer_accuracy_f1, answer_relevancy_score, context_entities_recall, context_recall_score,
    context_relevancy_score, faithfulness_score, noise_sensitivity_score, summarization_score,
};
use eval_rs::score::Ratio;

fn value(r: Ratio) -> f64 {
    r.num as f64 / r.den as f64
}

fn verdicts(trues: usize, total: usize) -> Vec<bool> {
    (0..total).map(|i| i < trues).collect()
}

fn strings(items: &[&str]) -> Vec<String> {
    items.iter().map(|s| s.to_string()).collect()
}

#[test]
fn test_perfect_match() {
    let score = value(answer_accuracy_f1(3, 0, 0));
    assert!((score - 1.0_f64).abs() < 0.001);
}

#[test]
fn test_partial_match() {
    let score = value(answer_accuracy_f1(2, 1, 1));
    assert!((score - 0.667_f64).abs() < 0.01);
}

#[test]
fn test_all_wrong() {
    let score = value(answer_accuracy_f1(0, 3, 3));
    assert!((score - 0.0_f64).abs() < 0.001);
}

#[test]
fn test_hallucination_penalty() {
    let score = value(answer_accuracy_f1(1, 2, 0));
    assert!((score - 0.5_f64).abs() < 0.001);
}

#[test]
fn test_missing_penalty() {
    let score = value(answer_accuracy_f1(1, 0, 2));
    assert!((score - 0.5_f64).abs() < 0.001);
}

#[test]
fn test_all_matched() {
    assert!((value(answer_relevancy_score(&verdicts(3, 3))) - 1.0).abs() < 0.001);
}

#[test]
fn test_partial_matched() {
    let score = value(answer_relevancy_score(&verdicts(2, 3)));
    assert!((score - 0.667).abs() < 0.001);
}

#[test]
fn test_all_found() {
    let r = context_entities_recall(&strings(&["a", "b", "c"]), &strings(&["a", "b", "c", "d"]));
    assert!((value(r.score) - 1.0).abs() < 0.001);
}

#[test]
fn test_partial_found() {
    let r = context_entities_recall(&strings(&["a", "b", "c", "d"]), &strings(&["a", "c"]));
    assert!((value(r.score) - 0.5).abs() < 0.001);
}

#[test]
fn test_none_found() {
    let r = context_entities_recall(&strings(&["a", "b"]), &[]);
    assert!((value(r.score) - 0.0).abs() < 0.001);
}

#[test]
fn test_full_recall() {
    assert!((value(context_recall_score(&verdicts(5, 5))) - 1.0).abs() < 0.001);
}

#[test]
fn test_partial_recall() {
    let score = value(context_recall_score(&verdicts(3, 5)));
    assert!((score - 0.6).abs() < 0.001);
}

#[test]
fn test_all_relevant() {
    assert!((value(context_relevancy_score(&verdicts(5, 5))) - 1.0).abs() < 0.001);
}

#[test]
fn test_half_relevant() {
    assert!((value(context_relevancy_score(&verdicts(2, 4))) - 0.5).abs() < 0.001);
}

#[test]
fn test_score_calculation() {
    let score = value(faithfulness_score(&verdicts(2, 3)));
    assert!((score - 0.667).abs() < 0.001);
}

#[test]
fn test_all_supported() {
    assert!((value(faithfulness_score(&verdicts(3, 3))) - 1.0).abs() < 0.001);
}

#[test]
fn test_none_supported() {
    assert!((value(faithfulness_score(&verdicts(0, 3))) - 0.0).abs() < 0.001);
}

#[test]
fn test_no_noise() {
    // every claim correct: no incorrect claim
    assert!((value(noise_sensitivity_score(&verdicts(3, 3))) - 0.0).abs() < 0.001);
}

#[test]
fn test_some_noise() {
    let score = value(noise_sensitivity_score(&verdicts(2, 4)));
    assert!((score - 0.5).abs() < 0.001);
}

#[test]
fn test_all_noise() {
    assert!((value(noise_sensitivity_score(&verdicts(0, 3))) - 1.0).abs() < 0.001);
}

#[test]
fn test_all_correct() {
    assert!((value(summarization_score(&verdicts(5, 5))) - 1.0).abs() < 0.001);
}

#[test]
fn test_partial_correct() {
    let score = value(summarization_score(&verdicts(3, 5)));
    assert!((score - 0.6).abs() < 0.001);
}

#[test]
fn test_none_correct() {
    assert!((value(summarization_score(&verdicts(0, 5))) - 0.0).abs() < 0.001);
}

#[test]
fn empty_verdicts_use_the_documented_defaults() {
    assert_eq!(faithfulness_score(&[]), Ratio { num: 1, den: 1 });
    assert_eq!(context_recall_score(&[]), Ratio { num: 1, den: 1 });
    assert_eq!(answer_relevancy_score(&[]), Ratio { num: 0, den: 1 });
    assert_eq!(context_relevancy_score(&[]), Ratio { num: 0, den: 1 });
    assert_eq!(noise_sensitivity_score(&[]), Ratio { num: 0, den: 1 });
    assert_eq!(summarization_score(&[]), Ratio { num: 0, den: 1 });
    assert_eq!(context_entities_recall(&[], &strings(&["x"])).score, Ratio { num: 1, den: 1 });
    assert_eq!(answer_accuracy_f1(0, 0, 0), Ratio { num: 0, den: 1 });
}

#[test]
fn entities_recall_lists_found_and_missing_in_order() {
    let r = context_entities_recall(&strings(&["b", "x", "a"]), &strings(&["a", "b"]));
    assert_eq!(r.found, strings(&["b", "a"]));
    assert_eq!(r.missing, strings(&["x"]));
}

#[test]
fn entities_recall_counts_each_entity_once() {
    let r = context_entities_recall(&strings(&["a", "a", "b"]), &strings(&["a", "a"]));
    assert_eq!(r.score, Ratio { num: 1, den: 2 });
    assert_eq!(r.found, strings(&["a"]));
    assert_eq!(r.missing, strings(&["b"]));
}
