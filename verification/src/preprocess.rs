//! Input preprocessing: a dotted JSON path or a regular expression selects
//! the part of a model output that the metrics see.

use vstd::prelude::*;
use vstd::string::*;

use crate::error::{EvalError, owned};
use crate::json::{Json, JsonV, json_parse, parse_json_text};
use crate::pattern::{regex_capture, regex_first_capture, regex_valid};

verus! {

/// The pieces of `s` between occurrences of `sep` (empty pieces included).
pub open spec fn split_on(s: Seq<char>, sep: char) -> Seq<Seq<char>>
    decreases s.len(),
{
    if s.len() == 0 {
        seq![Seq::<char>::empty()]
    } else {
        let rest = split_on(s.drop_last(), sep);
        if s.last() == sep {
            rest.push(Seq::<char>::empty())
        } else {
            rest.update(rest.len() - 1, rest.last().push(s.last()))
        }
    }
}

/// There is always at least one piece.
pub proof fn lemma_split_nonempty(s: Seq<char>, sep: char)
    ensures
        split_on(s, sep).len() >= 1,
    decreases s.len(),
{
    if s.len() > 0 {
        lemma_split_nonempty(s.drop_last(), sep);
    }
}

/// The pieces of `s` separated by `sep`, as strings.
pub fn split_str(s: &str, sep: char) -> (res: Vec<String>)
    ensures
        res@.len() == split_on(s@, sep).len(),
        forall|i: int| 0 <= i < res@.len() ==> #[trigger] res@[i]@ == split_on(s@, sep)[i],
{
    let cs = crate::text::chars_of(s);
    let mut parts: Vec<String> = Vec::new();
    let mut start: usize = 0;
    let mut i: usize = 0;
    while i < cs.len()
        invariant
            i <= cs@.len() == s@.len(),
            cs@ == s@,
            start <= i,
            parts@.len() + 1 == split_on(s@.take(i as int), sep).len(),
            forall|k: int| 0 <= k < parts@.len() ==> #[trigger] parts@[k]@ == split_on(s@.take(i as int), sep)[k],
            split_on(s@.take(i as int), sep).last() == s@.subrange(start as int, i as int),
        decreases cs@.len() - i,
    {
        proof {
            lemma_split_nonempty(s@.take(i as int), sep);
            assert(s@.take(i + 1).drop_last() =~= s@.take(i as int));
        }
        if cs[i] == sep {
            let piece = s.substring_char(start, i);
            parts.push(owned(piece));
            start = i + 1;
            assert(s@.subrange(start as int, i + 1) =~= Seq::<char>::empty());
        } else {
            assert(s@.subrange(start as int, i + 1) =~= s@.subrange(start as int, i as int).push(s@[i as int]));
        }
        i = i + 1;
    }
    assert(s@.take(i as int) =~= s@);
    let last = s.substring_char(start, i);
    parts.push(owned(last));
    parts
}

/// The value reached from `j` by following the member names `segs`.
pub open spec fn walk(j: JsonV, segs: Seq<Seq<char>>) -> Option<JsonV>
    decreases segs.len(),
{
    if segs.len() == 0 {
        Some(j)
    } else {
        match j.get(segs[0]) {
            Some(v) => walk(v, segs.drop_first()),
            None => None,
        }
    }
}

/// The member names of a dotted path: its pieces between dots, where a
/// leading `$` piece stands for the root and names no member.
pub open spec fn path_segments(path: Seq<char>) -> Seq<Seq<char>> {
    let s = split_on(path, '.');
    if s.len() > 0 && s[0] == "$"@ {
        s.drop_first()
    } else {
        s
    }
}

/// The value at a dotted path (`data.response.text`, or `$.data` from the root).
pub fn extract_by_path(input: &Json, path: &str) -> (res: Result<Json, EvalError>)
    ensures
        match walk(input.v(), path_segments(path@)) {
            Some(v) => res matches Ok(r) && r.v() == v,
            None => res matches Err(EvalError::JsonPathNotFound(p)) && p@ == path@,
        },
{
    let segs = split_str(path, '.');
    let ghost sv = split_on(path@, '.');
    let mut cur: &Json = input;
    let root = owned("$");
    proof {
        reveal_strlit("$");
    }
    let mut i: usize = if segs.len() > 0 && segs[0] == root { 1 } else { 0 };
    assert(sv.skip(0) =~= sv);
    assert(sv.skip(1) =~= sv.drop_first());
    assert(path_segments(path@) == sv.skip(i as int));
    while i < segs.len()
        invariant
            i <= segs@.len() == sv.len(),
            sv == split_on(path@, '.'),
            forall|k: int| 0 <= k < segs@.len() ==> #[trigger] segs@[k]@ == sv[k],
            walk(input.v(), path_segments(path@)) == walk(cur.v(), sv.skip(i as int)),
        decreases segs@.len() - i,
    {
        assert(sv.skip(i as int)[0] == sv[i as int]);
        assert(sv.skip(i as int).len() > 0);
        assert(sv.skip(i as int).drop_first() =~= sv.skip(i + 1));
        let key = segs[i].as_str();
        assert(key@ == sv.skip(i as int)[0]);
        match cur.get(key) {
            Some(n) => {
                cur = n;
            },
            None => {
                assert(walk(cur.v(), sv.skip(i as int)) is None);
                return Err(EvalError::JsonPathNotFound(owned(path)));
            },
        }
        i = i + 1;
    }
    assert(sv.skip(i as int).len() == 0);
    Ok(cur.copy())
}

/// A string holding a JSON document becomes that document; anything else is kept.
pub open spec fn converted(v: JsonV) -> JsonV {
    match v {
        JsonV::Str(s) => match json_parse(s) {
            Some(p) => p,
            None => v,
        },
        _ => v,
    }
}

/// Parses a string value that holds JSON (see [`converted`]).
pub fn auto_convert(value: Json) -> (res: Result<Json, EvalError>)
    ensures
        res matches Ok(r) && r.v() == converted(value.v()),
{
    match value {
        Json::Str(s) => {
            match parse_json_text(s.as_str()) {
                Some(p) => Ok(p),
                None => Ok(Json::Str(s)),
            }
        },
        other => Ok(other),
    }
}

/// The capture of `pattern` in `text` (group 1, else the whole match).
pub fn extract_by_regex(text: &str, pattern: &str) -> (res: Result<String, EvalError>)
    ensures
        !regex_valid(pattern@) ==> res matches Err(EvalError::InvalidParams(_)),
        regex_valid(pattern@) ==> match regex_first_capture(pattern@, text@) {
            Some(c) => res matches Ok(r) && r@ == c,
            None => res matches Err(EvalError::RegexNoMatch),
        },
{
    match regex_capture(pattern, text) {
        Err(e) => Err(EvalError::InvalidParams(owned("无效的正则表达式: ").concat(e.as_str()))),
        Ok(None) => Err(EvalError::RegexNoMatch),
        Ok(Some(c)) => Ok(c),
    }
}

/// How a raw output is reduced before scoring.
#[derive(Debug, Clone)]
pub enum PreprocessConfig {
    /// Select the value at a dotted path.
    JsonPath { json_path: String },
    /// Select the capture of a pattern in a string output.
    Regex { regex: String },
}

/// Applies a preprocessing step, then [`auto_convert`].
pub fn preprocess(input: &Json, config: &PreprocessConfig) -> (res: Result<Json, EvalError>)
    ensures
        match config {
            PreprocessConfig::JsonPath { json_path } => match walk(input.v(), path_segments(json_path@)) {
                Some(v) => res matches Ok(r) && r.v() == converted(v),
                None => res matches Err(EvalError::JsonPathNotFound(_)),
            },
            PreprocessConfig::Regex { regex } => match input.v() {
                JsonV::Str(s) => if !regex_valid(regex@) {
                    res matches Err(EvalError::InvalidParams(_))
                } else {
                    match regex_first_capture(regex@, s) {
                        Some(c) => res matches Ok(r) && r.v() == converted(JsonV::Str(c)),
                        None => res matches Err(EvalError::RegexNoMatch),
                    }
                },
                _ => res matches Err(EvalError::InvalidParams(_)),
            },
        },
{
    match config {
        PreprocessConfig::JsonPath { json_path } => {
            let extracted = extract_by_path(input, json_path.as_str())?;
            auto_convert(extracted)
        },
        PreprocessConfig::Regex { regex } => {
            let text = match input.as_str() {
                Some(t) => t,
                None => {
                    return Err(EvalError::InvalidParams(owned("正则提取要求输入为字符串")));
                },
            };
            let extracted = extract_by_regex(text.as_str(), regex.as_str())?;
            auto_convert(Json::Str(extracted))
        },
    }
}

} // verus!
