//! Reading judge replies: the JSON object in a reply, binary verdicts, and
//! scores with their normalisation.

use vstd::prelude::*;
use vstd::string::*;

use crate::decimal::{Decimal, Number, dec_le, le_unsigned, number_of, parse_number_str, pow10};
use crate::error::{EvalError, owned};
use crate::json::{Json, JsonV, json_parse, parse_json_text};
use crate::pattern::{regex_capture, regex_first_capture, regex_valid};
use crate::text::{eq_fold, eq_fold_exec, trim, trim_str};

verus! {

/// The pattern of a fenced code block holding an object.
pub open spec fn code_block_pattern() -> Seq<char> {
    "```(?:json)?\\s*(\\{.*?\\})\\s*```"@
}

/// The pattern of the first brace-delimited object without nested braces.
pub open spec fn inline_object_pattern() -> Seq<char> {
    "(\\{[^{}]*\\})"@
}

/// The pattern of the first unsigned number.
pub open spec fn number_pattern() -> Seq<char> {
    "(\\d+\\.?\\d*)"@
}

fn code_block_pattern_str() -> (r: &'static str)
    ensures
        r@ == code_block_pattern(),
{
    "```(?:json)?\\s*(\\{.*?\\})\\s*```"
}

fn inline_object_pattern_str() -> (r: &'static str)
    ensures
        r@ == inline_object_pattern(),
{
    "(\\{[^{}]*\\})"
}

fn number_pattern_str() -> (r: &'static str)
    ensures
        r@ == number_pattern(),
{
    "(\\d+\\.?\\d*)"
}

/// The JSON document in the text that `pattern` captures, if any.
pub open spec fn captured_json(pattern: Seq<char>, text: Seq<char>) -> Option<JsonV> {
    match regex_first_capture(pattern, text) {
        Some(c) => json_parse(c),
        None => None,
    }
}

/// The view of an optional value.
pub open spec fn opt_v(o: Option<Json>) -> Option<JsonV> {
    match o {
        Some(j) => Some(j.v()),
        None => None,
    }
}

/// The JSON document in the capture of `pattern`; `Err` when the pattern is refused.
pub fn json_in_capture(pattern: &str, text: &str) -> (res: Result<Option<Json>, ()>)
    ensures
        res is Err <==> !regex_valid(pattern@),
        res matches Ok(o) ==> opt_v(o) == captured_json(pattern@, text@),
{
    match regex_capture(pattern, text) {
        Err(_) => Err(()),
        Ok(None) => Ok(None),
        Ok(Some(c)) => Ok(parse_json_text(c.as_str())),
    }
}

/// The JSON object of a (trimmed) judge reply: the whole text, else the first
/// fenced code block, else the first brace-delimited object.
pub open spec fn reply_json(t: Seq<char>) -> Option<JsonV> {
    if json_parse(t) is Some {
        json_parse(t)
    } else if regex_valid(code_block_pattern()) && captured_json(code_block_pattern(), t) is Some {
        captured_json(code_block_pattern(), t)
    } else if regex_valid(inline_object_pattern()) {
        captured_json(inline_object_pattern(), t)
    } else {
        None
    }
}

/// Extracts the JSON object from an LLM reply.
pub fn parse_json(response: &str) -> (res: Result<Json, EvalError>)
    ensures
        match reply_json(trim(response@)) {
            Some(j) => res matches Ok(r) && r.v() == j,
            None => res matches Err(EvalError::JudgeParseFailed(_)),
        },
{
    let t = trim_str(response);
    if let Some(v) = parse_json_text(t) {
        return Ok(v);
    }
    if let Ok(Some(v)) = json_in_capture(code_block_pattern_str(), t) {
        return Ok(v);
    }
    if let Ok(Some(v)) = json_in_capture(inline_object_pattern_str(), t) {
        return Ok(v);
    }
    Err(EvalError::JudgeParseFailed(owned("无法从 LLM 响应中提取 JSON: ").concat(t)))
}

/// An affirmative verdict word: `1`, `true` or `yes` in any case.
pub open spec fn affirmative(s: Seq<char>) -> bool {
    eq_fold(s, seq!['1']) || eq_fold(s, seq!['t', 'r', 'u', 'e']) || eq_fold(s, seq!['y', 'e', 's'])
}

/// Whether a text is an affirmative verdict word.
pub fn is_affirmative(s: &str) -> (res: bool)
    ensures
        res == affirmative(s@),
{
    let cs = crate::text::chars_of(s);
    let one: Vec<char> = vec!['1'];
    let t: Vec<char> = vec!['t', 'r', 'u', 'e'];
    let y: Vec<char> = vec!['y', 'e', 's'];
    assert(one@ =~= seq!['1']);
    assert(t@ =~= seq!['t', 'r', 'u', 'e']);
    assert(y@ =~= seq!['y', 'e', 's']);
    eq_fold_exec(cs.as_slice(), one.as_slice()) || eq_fold_exec(cs.as_slice(), t.as_slice())
        || eq_fold_exec(cs.as_slice(), y.as_slice())
}

/// A number text that `serde_json` holds as an integer (no point, no exponent).
pub open spec fn integer_text(t: Seq<char>) -> bool {
    forall|i: int| 0 <= i < t.len() ==> #[trigger] t[i] != '.' && t[i] != 'e' && t[i] != 'E'
}

/// Some digit of the text is not zero.
pub open spec fn has_nonzero_digit(t: Seq<char>) -> bool {
    exists|i: int| 0 <= i < t.len() && '1' <= #[trigger] t[i] && t[i] <= '9'
}

/// The verdict a JSON value states: integers count when not zero, other numbers
/// when above one half, booleans as they are, strings when affirmative.
/// `None` for other values and for number texts that are not numbers.
pub open spec fn verdict_value(v: JsonV) -> Option<bool> {
    match v {
        JsonV::Number(t) => if integer_text(t) {
            Some(has_nonzero_digit(t))
        } else {
            match number_of(t) {
                Some(n) => Some(n.gt_half()),
                None => None,
            }
        },
        JsonV::Bool(b) => Some(b),
        JsonV::Str(s) => Some(affirmative(s)),
        _ => None,
    }
}

/// The verdict under the first of `fields` present in `j`; `None` when none is
/// present, `Some(None)` when that member holds no verdict.
pub open spec fn verdict_in(j: JsonV, fields: Seq<Seq<char>>) -> Option<Option<bool>>
    decreases fields.len(),
{
    if fields.len() == 0 {
        None
    } else {
        match j.get(fields[0]) {
            Some(v) => Some(verdict_value(v)),
            None => verdict_in(j, fields.drop_first()),
        }
    }
}

/// The views of string slices.
pub open spec fn strs_v(fields: Seq<&str>) -> Seq<Seq<char>> {
    fields.map_values(|f: &str| f@)
}

fn number_verdict(t: &String) -> (res: Option<bool>)
    ensures
        res == verdict_value(JsonV::Number(t@)),
{
    let cs = crate::text::chars_of(t.as_str());
    let mut integer = true;
    let mut nonzero = false;
    let mut i: usize = 0;
    while i < cs.len()
        invariant
            i <= cs@.len(),
            integer == (forall|k: int| 0 <= k < i ==> #[trigger] cs@[k] != '.' && cs@[k] != 'e' && cs@[k] != 'E'),
            nonzero == (exists|k: int| 0 <= k < i && '1' <= #[trigger] cs@[k] && cs@[k] <= '9'),
        decreases cs@.len() - i,
    {
        let c = cs[i];
        if c == '.' || c == 'e' || c == 'E' {
            integer = false;
        }
        if c >= '1' && c <= '9' {
            nonzero = true;
        }
        i = i + 1;
    }
    if integer {
        Some(nonzero)
    } else {
        match parse_number_str(t.as_str()) {
            Some(n) => Some(n.is_gt_half()),
            None => None,
        }
    }
}

/// Reads a binary verdict from the first of `fields` present in `json`.
pub fn parse_verdict(json: &Json, fields: &[&str]) -> (res: Result<bool, EvalError>)
    ensures
        match verdict_in(json.v(), strs_v(fields@)) {
            Some(Some(b)) => res == Ok::<bool, EvalError>(b),
            Some(None) => res matches Err(EvalError::JudgeParseFailed(_)),
            None => res matches Err(EvalError::JudgeParseFailed(_)),
        },
{
    let mut i: usize = 0;
    assert(strs_v(fields@).skip(0) =~= strs_v(fields@));
    while i < fields.len()
        invariant
            i <= fields@.len(),
            verdict_in(json.v(), strs_v(fields@)) == verdict_in(json.v(), strs_v(fields@).skip(i as int)),
        decreases fields@.len() - i,
    {
        let ghost rest = strs_v(fields@).skip(i as int);
        assert(rest[0] == fields@[i as int]@);
        assert(rest.drop_first() =~= strs_v(fields@).skip(i + 1));
        if let Some(v) = json.get(fields[i]) {
            let r = match v {
                Json::Number(t) => number_verdict(t),
                Json::Bool(b) => Some(*b),
                Json::Str(s) => Some(is_affirmative(s.as_str())),
                _ => None,
            };
            return match r {
                Some(b) => Ok(b),
                None => Err(EvalError::JudgeParseFailed(owned("verdict 不是有效数字或类型不支持"))),
            };
        }
        i = i + 1;
    }
    assert(strs_v(fields@).skip(i as int).len() == 0);
    Err(EvalError::JudgeParseFailed(owned("JSON 中未找到 verdict 字段")))
}

/// The members read as a score, in order of preference.
pub open spec fn score_keys() -> Seq<Seq<char>> {
    seq![
        "score"@,
        "Score"@,
        "SCORE"@,
        "rating"@,
        "Rating"@,
        "evaluation"@,
        "Evaluation"@,
        "result"@,
        "Result"@,
    ]
}

fn score_keys_exec() -> (res: Vec<&'static str>)
    ensures
        strs_v(res@) == score_keys(),
{
    let v: Vec<&'static str> = vec![
        "score",
        "Score",
        "SCORE",
        "rating",
        "Rating",
        "evaluation",
        "Evaluation",
        "result",
        "Result",
    ];
    assert(strs_v(v@) =~= score_keys());
    v
}

/// The number a member holds: a JSON number, or a string whose trimmed text is a number.
pub open spec fn value_score(v: JsonV) -> Option<Number> {
    match v {
        JsonV::Number(t) => number_of(t),
        JsonV::Str(s) => number_of(trim(s)),
        _ => None,
    }
}

/// The first score found under `keys`, skipping members that hold no number.
pub open spec fn score_in(j: JsonV, keys: Seq<Seq<char>>) -> Option<Number>
    decreases keys.len(),
{
    if keys.len() == 0 {
        None
    } else {
        match j.get(keys[0]) {
            Some(v) => match value_score(v) {
                Some(d) => Some(d),
                None => score_in(j, keys.drop_first()),
            },
            None => score_in(j, keys.drop_first()),
        }
    }
}

/// The score of a JSON reply (see [`score_keys`]).
pub fn extract_score_from_json(json: &Json) -> (res: Option<Number>)
    ensures
        res == score_in(json.v(), score_keys()),
{
    let keys = score_keys_exec();
    let mut i: usize = 0;
    assert(strs_v(keys@).skip(0) =~= strs_v(keys@));
    while i < keys.len()
        invariant
            i <= keys@.len(),
            strs_v(keys@) == score_keys(),
            score_in(json.v(), score_keys()) == score_in(json.v(), strs_v(keys@).skip(i as int)),
        decreases keys@.len() - i,
    {
        let ghost rest = strs_v(keys@).skip(i as int);
        assert(rest[0] == keys@[i as int]@);
        assert(rest.drop_first() =~= strs_v(keys@).skip(i + 1));
        if let Some(v) = json.get(keys[i]) {
            let found = match v {
                Json::Number(t) => parse_number_str(t.as_str()),
                Json::Str(s) => parse_number_str(trim_str(s.as_str())),
                _ => None,
            };
            if found.is_some() {
                return found;
            }
        }
        i = i + 1;
    }
    assert(strs_v(keys@).skip(i as int).len() == 0);
    None
}

/// The JSON object embedded in a text: the first fenced code block, else the
/// first brace-delimited object.
pub open spec fn embedded_json(t: Seq<char>) -> Option<JsonV> {
    if !regex_valid(code_block_pattern()) {
        None
    } else if captured_json(code_block_pattern(), t) is Some {
        captured_json(code_block_pattern(), t)
    } else if !regex_valid(inline_object_pattern()) {
        None
    } else {
        captured_json(inline_object_pattern(), t)
    }
}

/// Extracts an embedded JSON object (see [`embedded_json`]).
pub fn extract_embedded_json(text: &str) -> (res: Option<Json>)
    ensures
        opt_v(res) == embedded_json(text@),
{
    match json_in_capture(code_block_pattern_str(), text) {
        Err(_) => None,
        Ok(Some(v)) => Some(v),
        Ok(None) => match json_in_capture(inline_object_pattern_str(), text) {
            Err(_) => None,
            Ok(o) => o,
        },
    }
}

/// Where a score was read.
#[derive(Clone, Copy, Debug, PartialEq, Eq)]
pub enum ScoreSource {
    /// The whole reply is a JSON object with a score.
    Json,
    /// A JSON object inside the reply holds the score.
    EmbeddedJson,
    /// The whole reply is a number.
    Number,
    /// The first number in the reply.
    ExtractedNumber,
}

/// How a text yields a score.
pub enum Reading {
    Json(Number, JsonV),
    Embedded(Number, JsonV),
    Number(Number),
    Extracted(Number),
    PatternRefused,
    Unreadable,
}

/// How the (trimmed) text `t` yields a score: a JSON object with a score, an
/// embedded object with a score, a number, or the first number in it.
pub open spec fn read_score(t: Seq<char>) -> Reading {
    let whole = json_parse(t);
    let emb = embedded_json(t);
    if whole is Some && score_in(whole->Some_0, score_keys()) is Some {
        Reading::Json(score_in(whole->Some_0, score_keys())->Some_0, whole->Some_0)
    } else if emb is Some && score_in(emb->Some_0, score_keys()) is Some {
        Reading::Embedded(score_in(emb->Some_0, score_keys())->Some_0, emb->Some_0)
    } else if number_of(t) is Some {
        Reading::Number(number_of(t)->Some_0)
    } else if !regex_valid(number_pattern()) {
        Reading::PatternRefused
    } else if regex_first_capture(number_pattern(), t) matches Some(c) && number_of(c) is Some {
        Reading::Extracted(number_of(regex_first_capture(number_pattern(), t)->Some_0)->Some_0)
    } else {
        Reading::Unreadable
    }
}

/// A score `value / divisor`.
#[derive(Clone, Copy, Debug, PartialEq, Eq)]
pub struct Score {
    /// The number read.
    pub value: Decimal,
    /// What it is divided by (one when it is kept as read).
    pub divisor: Decimal,
}

/// One as a decimal.
pub open spec fn dec_one() -> Decimal {
    Decimal { negative: false, mantissa: 1, exponent: 0 }
}

/// One hundred as a decimal.
pub open spec fn dec_hundred() -> Decimal {
    Decimal { negative: false, mantissa: 100, exponent: 0 }
}

/// Zero as a decimal.
pub open spec fn dec_zero() -> Decimal {
    Decimal { negative: false, mantissa: 0, exponent: 0 }
}

/// A number up to one is the score itself; a larger one is divided by the
/// scale, or by one hundred when the scale is not positive.
pub open spec fn divided(raw: Decimal, scale: Decimal) -> Score {
    if raw.le_one() {
        Score { value: raw, divisor: dec_one() }
    } else if scale.positive() {
        Score { value: raw, divisor: scale }
    } else {
        Score { value: raw, divisor: dec_hundred() }
    }
}

/// The score in `[0, 1]`: the number [`divided`] as above, with a negative
/// number taken as zero and a quotient above one taken as one.
pub open spec fn normalized(raw: Decimal, scale: Decimal) -> Score {
    let s = divided(raw, scale);
    if raw.num() < 0 {
        Score { value: dec_zero(), divisor: dec_one() }
    } else if !dec_le(s.value, s.divisor) {
        Score { value: dec_one(), divisor: dec_one() }
    } else {
        s
    }
}

/// Brings a score into `[0, 1]` (see [`normalized`]).
pub fn normalize_score(raw: Decimal, scale: Decimal) -> (res: Score)
    ensures
        res == normalized(raw, scale),
{
    let one = Decimal { negative: false, mantissa: 1, exponent: 0 };
    if raw.negative && raw.mantissa > 0 {
        proof {
            if raw.exponent >= 0 {
                crate::decimal::lemma_pow10_mono(0, raw.exponent as nat);
                assert(raw.mantissa * pow10(raw.exponent as nat) > 0) by (nonlinear_arith)
                    requires raw.mantissa > 0, pow10(raw.exponent as nat) >= 1;
            }
        }
        return Score { value: Decimal { negative: false, mantissa: 0, exponent: 0 }, divisor: one };
    }
    let s = if raw.is_le_one() {
        Score { value: raw, divisor: one }
    } else if scale.is_positive() {
        Score { value: raw, divisor: scale }
    } else {
        Score { value: raw, divisor: Decimal { negative: false, mantissa: 100, exponent: 0 } }
    };
    proof {
        if raw.exponent >= 0 {
            crate::decimal::lemma_pow10_mono(0, raw.exponent as nat);
            assert(raw.mantissa * pow10(raw.exponent as nat) >= 0) by (nonlinear_arith)
                requires pow10(raw.exponent as nat) >= 1;
        }
        assert(raw.num() >= 0);
        if raw.negative {
            assert(raw.mantissa == 0);
            assert(raw.num() == 0) by {
                if raw.exponent >= 0 {
                    assert(0 * pow10(raw.exponent as nat) == 0);
                }
            }
        }
        if s.divisor == scale {
            assert(scale.positive());
            if scale.negative {
                if scale.exponent >= 0 {
                    crate::decimal::lemma_pow10_mono(0, scale.exponent as nat);
                    assert(scale.mantissa * pow10(scale.exponent as nat) >= 0) by (nonlinear_arith)
                        requires pow10(scale.exponent as nat) >= 1;
                }
            }
        }
    }
    let value = Decimal { negative: false, mantissa: raw.mantissa, exponent: raw.exponent };
    assert(value.num() == raw.num() && value.den() == raw.den());
    if !le_unsigned(&value, &s.divisor) {
        return Score { value: one, divisor: one };
    }
    s
}

/// The score in `[0, 1]` of any number read: a finite one as [`normalized`]
/// says; plus infinity is one, minus infinity zero, and not-a-number zero.
pub open spec fn normalized_number(raw: Number, scale: Decimal) -> Score {
    match raw {
        Number::Finite(d) => normalized(d, scale),
        Number::Infinite(neg) => if neg {
            Score { value: dec_zero(), divisor: dec_one() }
        } else {
            Score { value: dec_one(), divisor: dec_one() }
        },
        Number::NaN => Score { value: dec_zero(), divisor: dec_one() },
    }
}

/// Brings any number read into `[0, 1]` (see [`normalized_number`]).
pub fn normalize_number(raw: Number, scale: Decimal) -> (res: Score)
    ensures
        res == normalized_number(raw, scale),
{
    let zero = Decimal { negative: false, mantissa: 0, exponent: 0 };
    let one = Decimal { negative: false, mantissa: 1, exponent: 0 };
    match raw {
        Number::Finite(d) => normalize_score(d, scale),
        Number::Infinite(neg) => if neg {
            Score { value: zero, divisor: one }
        } else {
            Score { value: one, divisor: one }
        },
        Number::NaN => Score { value: zero, divisor: one },
    }
}

/// A score read from a judge reply.
#[derive(Debug)]
pub struct ParsedScore {
    /// Where it was read.
    pub source: ScoreSource,
    /// The number read.
    pub raw: Number,
    /// The normalised score.
    pub score: Score,
    /// The JSON object it was read from, for the JSON sources.
    pub raw_json: Option<Json>,
    /// The caller's pattern, when the text was its capture.
    pub source_regex: Option<String>,
}

/// The view of an optional string.
pub open spec fn opt_str_v(o: Option<String>) -> Option<Seq<char>> {
    match o {
        Some(s) => Some(s@),
        None => None,
    }
}

/// The view of an optional string slice.
pub open spec fn opt_slice_v(o: Option<&str>) -> Option<Seq<char>> {
    match o {
        Some(s) => Some(s@),
        None => None,
    }
}

/// What [`parse_extracted`] yields for a trimmed text.
pub open spec fn extracted_ok(p: ParsedScore, t: Seq<char>, scale: Decimal, src: Option<Seq<char>>) -> bool {
    &&& opt_str_v(p.source_regex) == src
    &&& p.score == normalized_number(p.raw, scale)
    &&& match read_score(t) {
        Reading::Json(d, j) => p.source == ScoreSource::Json && p.raw == d && opt_v(p.raw_json) == Some(j),
        Reading::Embedded(d, j) => p.source == ScoreSource::EmbeddedJson && p.raw == d && opt_v(p.raw_json) == Some(j),
        Reading::Number(d) => p.source == ScoreSource::Number && p.raw == d && p.raw_json is None,
        Reading::Extracted(d) => p.source == ScoreSource::ExtractedNumber && p.raw == d && p.raw_json is None,
        _ => false,
    }
}

fn copy_opt_str(o: Option<&str>) -> (res: Option<String>)
    ensures
        opt_str_v(res) == opt_slice_v(o),
{
    match o {
        Some(s) => Some(owned(s)),
        None => None,
    }
}

/// Reads a score from a text: JSON, embedded JSON, a number, then the first
/// number in it; `source_regex` is recorded as where the text came from.
pub fn parse_extracted(text: &str, scale: Decimal, source_regex: Option<&str>) -> (res: Result<ParsedScore, EvalError>)
    ensures
        match read_score(trim(text@)) {
            Reading::PatternRefused => res matches Err(EvalError::Internal(_)),
            Reading::Unreadable => res matches Err(EvalError::JudgeParseFailed(_)),
            _ => res matches Ok(p) && extracted_ok(p, trim(text@), scale, opt_slice_v(source_regex)),
        },
{
    let t = trim_str(text);
    if let Some(j) = parse_json_text(t) {
        if let Some(raw) = extract_score_from_json(&j) {
            let score = normalize_number(raw, scale);
            return Ok(ParsedScore { source: ScoreSource::Json, raw, score, raw_json: Some(j), source_regex: copy_opt_str(source_regex) });
        }
    }
    if let Some(j) = extract_embedded_json(t) {
        if let Some(raw) = extract_score_from_json(&j) {
            let score = normalize_number(raw, scale);
            return Ok(ParsedScore { source: ScoreSource::EmbeddedJson, raw, score, raw_json: Some(j), source_regex: copy_opt_str(source_regex) });
        }
    }
    if let Some(raw) = parse_number_str(t) {
        let score = normalize_number(raw, scale);
        return Ok(ParsedScore { source: ScoreSource::Number, raw, score, raw_json: None, source_regex: copy_opt_str(source_regex) });
    }
    match regex_capture(number_pattern_str(), t) {
        Err(e) => Err(EvalError::Internal(e)),
        Ok(c) => {
            if let Some(c) = c {
                if let Some(raw) = parse_number_str(c.as_str()) {
                    let score = normalize_number(raw, scale);
                    return Ok(ParsedScore { source: ScoreSource::ExtractedNumber, raw, score, raw_json: None, source_regex: copy_opt_str(source_regex) });
                }
            }
            Err(EvalError::JudgeParseFailed(owned("无法从响应中解析评分: ").concat(t)))
        },
    }
}

/// Whether [`parse_extracted`] reads a score from a text.
pub open spec fn readable(t: Seq<char>) -> bool {
    !(read_score(t) is PatternRefused) && !(read_score(t) is Unreadable)
}

/// The text a caller's pattern selects from a (trimmed) reply, if the pattern
/// is accepted and matches.
pub open spec fn pattern_capture(pattern: Option<Seq<char>>, t: Seq<char>) -> Option<Seq<char>> {
    match pattern {
        Some(p) => if regex_valid(p) { regex_first_capture(p, t) } else { None },
        None => None,
    }
}

/// What reading the score of a judge reply gives: the reading of the capture
/// of `regex` when that capture yields a score, else the reading of the whole
/// (trimmed) reply.
pub open spec fn judge_response_ok(response: Seq<char>, regex: Option<Seq<char>>, scale: Decimal, res: Result<ParsedScore, EvalError>) -> bool {
    let t = trim(response);
    let cap = pattern_capture(regex, t);
    if cap is Some && readable(trim(cap->Some_0)) {
        res matches Ok(p) && extracted_ok(p, trim(cap->Some_0), scale, regex)
    } else {
        match read_score(t) {
            Reading::PatternRefused => res matches Err(EvalError::Internal(_)),
            Reading::Unreadable => res matches Err(EvalError::JudgeParseFailed(_)),
            _ => res matches Ok(p) && extracted_ok(p, t, scale, None),
        }
    }
}

/// Reads the score of a judge reply: first from the capture of
/// `response_regex` when it yields one, else from the whole reply.
pub fn parse_judge_response(response: &str, response_regex: Option<&str>, scale: Decimal) -> (res: Result<ParsedScore, EvalError>)
    ensures
        judge_response_ok(response@, opt_slice_v(response_regex), scale, res),
{
    let t = trim_str(response);
    proof {
        crate::text::lemma_trim_idempotent(response@);
    }
    if let Some(p) = response_regex {
        if let Ok(Some(c)) = regex_capture(p, t) {
            let r = parse_extracted(c.as_str(), scale, Some(p));
            if r.is_ok() {
                return r;
            }
        }
    }
    parse_extracted(t, scale, None)
}

/// A normalised finite score lies in `[0, 1]`.
proof fn lemma_decimal_score_in_unit(raw: Decimal, scale: Decimal)
    ensures
        ({
            let s = normalized(raw, scale);
            &&& s.divisor.num() > 0
            &&& 0 <= s.value.num() * s.divisor.den()
            &&& s.value.num() * s.divisor.den() <= s.divisor.num() * s.value.den()
        }),
{
    let s = normalized(raw, scale);
    let d = divided(raw, scale);
    crate::decimal::lemma_pow10_mono(0, (if raw.exponent >= 0 { raw.exponent as int } else { -raw.exponent }) as nat);
    crate::decimal::lemma_pow10_mono(0, (if scale.exponent >= 0 { scale.exponent as int } else { -scale.exponent }) as nat);
    assert(dec_hundred().num() == 100 && dec_hundred().den() == 1) by {
        reveal_with_fuel(pow10, 1);
    }
    assert(dec_one().num() == 1 && dec_one().den() == 1) by {
        reveal_with_fuel(pow10, 1);
    }
    assert(dec_zero().num() == 0 && dec_zero().den() == 1) by {
        reveal_with_fuel(pow10, 1);
    }
    assert(d.divisor.num() > 0);
    if raw.num() >= 0 && dec_le(d.value, d.divisor) {
        assert(s == d);
        assert(d.divisor.den() >= 1);
        assert(0 <= s.value.num() * d.divisor.den()) by (nonlinear_arith)
            requires s.value.num() >= 0, d.divisor.den() >= 1;
    }
}

/// A normalised score lies in `[0, 1]`, whatever number was read (finite,
/// infinite or not a number) and whatever the scale.
pub proof fn law_normalized_score_in_unit(raw: Number, scale: Decimal)
    ensures
        ({
            let s = normalized_number(raw, scale);
            &&& s.divisor.num() > 0
            &&& 0 <= s.value.num() * s.divisor.den()
            &&& s.value.num() * s.divisor.den() <= s.divisor.num() * s.value.den()
        }),
{
    match raw {
        Number::Finite(d) => lemma_decimal_score_in_unit(d, scale),
        _ => {
            assert(dec_one().num() == 1 && dec_one().den() == 1) by {
                reveal_with_fuel(pow10, 1);
            }
            assert(dec_zero().num() == 0 && dec_zero().den() == 1) by {
                reveal_with_fuel(pow10, 1);
            }
        },
    }
}

} // verus!
