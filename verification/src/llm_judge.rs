//! The single-prompt LLM judge: the prompt sent for an input, and the score
//! read from the reply.

use vstd::prelude::*;
use vstd::string::*;

use crate::decimal::{Decimal, decimal_of, parse_decimal_str};
use crate::error::{EvalError, owned};
use crate::json::{Json, JsonV};
use crate::metrics::{member_str, get_str};
use crate::prompts::{PromptRegistry, PromptTemplate, context_from_json, context_of, context_v, render, required_supplied};
use crate::reply::{ParsedScore, judge_response_ok, opt_str_v, parse_judge_response};

verus! {

/// A metric that renders one prompt for an input and reads a score from the reply.
#[derive(Debug)]
pub struct LlmJudgeMetric {
    /// Metric name, such as `llm_judge_accuracy`.
    pub name: String,
    /// Name of its prompt template.
    pub prompt_name: String,
    /// Template version; the newest when absent.
    pub prompt_version: Option<String>,
}

/// The call a judge metric makes and how its reply is read.
#[derive(Debug)]
pub struct JudgeRequest {
    /// Provider to call, if the parameters name one.
    pub provider: Option<String>,
    /// Model to call, if the parameters name one.
    pub model: Option<String>,
    /// The rendered prompt.
    pub prompt: String,
    /// Version of the template used.
    pub prompt_version: String,
    /// Pattern that selects the score in the reply, if given.
    pub response_regex: Option<String>,
    /// Scale of scores above one.
    pub score_scale: Decimal,
}

/// Parameter `score_scale` when it is a finite number, else one hundred.
pub open spec fn score_scale_param(params: JsonV) -> Decimal {
    match params.get("score_scale"@) {
        Some(JsonV::Number(t)) => match decimal_of(t) {
            Some(d) => d,
            None => Decimal { negative: false, mantissa: 100, exponent: 0 },
        },
        _ => Decimal { negative: false, mantissa: 100, exponent: 0 },
    }
}

fn opt_owned(o: Option<&String>) -> (res: Option<String>)
    ensures
        opt_str_v(res) == match o { Some(s) => Some(s@), None => None::<Seq<char>> },
{
    match o {
        Some(s) => Some(s.clone()),
        None => None,
    }
}

impl LlmJudgeMetric {
    /// A judge metric named `name` over a prompt template.
    pub fn new(name: String, prompt_name: String, prompt_version: Option<String>) -> (res: Self)
        ensures
            res.name == name,
            res.prompt_name == prompt_name,
            res.prompt_version == prompt_version,
    {
        LlmJudgeMetric { name, prompt_name, prompt_version }
    }

    /// Kind of the metric.
    pub fn metric_type(&self) -> (res: String)
        ensures
            res@ == "llm"@,
    {
        owned("llm")
    }

    /// Parameters: `provider`, `model`, `prompt_version`, `response_regex`
    /// and `score_scale`, all optional.
    pub fn params_schema(&self) -> (res: Vec<(String, Json)>)
        ensures
            crate::metrics::schema_keys(res@) == seq!["provider"@, "model"@, "prompt_version"@, "response_regex"@, "score_scale"@],
    {
        let mut v = crate::metrics::llm_params_schema(true);
        let ghost b = v@;
        assert(crate::metrics::schema_keys(b) == seq!["provider"@, "model"@, "prompt_version"@]);
        assert(b.len() == 3);
        v.push((
            owned("response_regex"),
            crate::metrics::schema_entry(
                "string",
                "用于从 LLM 响应中提取评分的正则表达式。若提供，则优先使用该正则提取评分（取第一个捕获组或整体匹配）。若未提供，则按 JSON / 纯数字 / 默认数字提取顺序解析。",
                Some(false),
                None,
            ),
        ));
        v.push((
            owned("score_scale"),
            crate::metrics::schema_entry(
                "number",
                "评分量程上限。若 LLM 返回的评分 > 1，且未提供 response_regex，则按 score_scale 进行归一化（默认 100）。",
                Some(false),
                None,
            ),
        ));
        assert(crate::metrics::schema_keys(v@) =~= seq!["provider"@, "model"@, "prompt_version"@, "response_regex"@, "score_scale"@]) by {
            assert(v@.len() == 5);
            assert forall|i: int| 0 <= i < 3 implies v@[i].0@ == crate::metrics::schema_keys(b)[i] by {
                assert(v@[i] == b[i]);
            }
        }
        v
    }

    /// The version of the template used: parameter `prompt_version`, else the metric's own.
    pub open spec fn version_for(&self, params: JsonV) -> Option<Seq<char>> {
        match member_str(params, "prompt_version"@) {
            Some(v) => Some(v),
            None => opt_str_v(self.prompt_version),
        }
    }

    /// The prompt and reading options for an input: the template by name and
    /// version (the newest without a version), rendered with the input's variables.
    pub fn prepare(&self, prompts: &PromptRegistry, params: &Json, input: &Json) -> (res: Result<JudgeRequest, EvalError>)
        requires
            prompts.wf(),
        ensures
            match prompts.selected(self.prompt_name@, self.version_for(params.v())) {
                None => res matches Err(EvalError::PromptNotFound(_)),
                Some(t) => if !required_supplied(t, context_of(input.v())) {
                    res matches Err(EvalError::InvalidPromptVariables(_))
                } else {
                    &&& ((res matches Err(EvalError::PromptRenderError(_))) || (res matches Ok(r) && {
                            &&& r.prompt_version@ == t.version@
                            &&& opt_str_v(r.provider) == member_str(params.v(), "provider"@)
                            &&& opt_str_v(r.model) == member_str(params.v(), "model"@)
                            &&& opt_str_v(r.response_regex) == member_str(params.v(), "response_regex"@)
                            &&& r.score_scale == score_scale_param(params.v())
                        }))
                    &&& (crate::prompts::subst(t.template@, context_of(input.v())) matches Some(p)
                        ==> (res matches Ok(r) && r.prompt@ == p))
                },
            },
    {
        let provider = opt_owned(get_str(params, "provider"));
        let model = opt_owned(get_str(params, "model"));
        let response_regex = opt_owned(get_str(params, "response_regex"));
        let version: Option<&str> = match get_str(params, "prompt_version") {
            Some(v) => Some(v.as_str()),
            None => match &self.prompt_version {
                Some(v) => Some(v.as_str()),
                None => None,
            },
        };
        let ghost vv = self.version_for(params.v());
        assert(match version { Some(v) => vv == Some(v@), None => vv is None });
        let score_scale = match params.get("score_scale") {
            Some(Json::Number(t)) => match parse_decimal_str(t.as_str()) {
                Some(d) => d,
                None => Decimal { negative: false, mantissa: 100, exponent: 0 },
            },
            _ => Decimal { negative: false, mantissa: 100, exponent: 0 },
        };
        let template = match prompts.get(self.prompt_name.as_str(), version) {
            Ok(t) => t,
            Err(e) => {
                proof {
                    if prompts.selected(self.prompt_name@, vv) is Some {
                        let t = choose|t: PromptTemplate| prompts.selects(t, self.prompt_name@, vv);
                        assert(prompts.selects(t, self.prompt_name@, vv));
                        let i = choose|i: int| 0 <= i < prompts.templates().len() && prompts.templates()[i] == t;
                        assert(prompts.templates()[i].name@ == self.prompt_name@);
                        if version is Some {
                            assert(crate::prompts::has_key(prompts.templates()[i], self.prompt_name@, vv->Some_0));
                        }
                    }
                }
                return Err(e);
            },
        };
        proof {
            crate::prompts::lemma_selected_unique(*prompts, *template, self.prompt_name@, vv);
        }
        let context = context_from_json(input)?;
        let prompt = render(template, &context)?;
        Ok(JudgeRequest {
            provider,
            model,
            prompt,
            prompt_version: template.version.clone(),
            response_regex,
            score_scale,
        })
    }

    /// The score of a reply to a [`JudgeRequest`].
    pub fn read_reply(&self, request: &JudgeRequest, response: &str) -> (res: Result<ParsedScore, EvalError>)
        ensures
            judge_response_ok(response@, opt_str_v(request.response_regex), request.score_scale, res),
    {
        let regex: Option<&str> = match &request.response_regex {
            Some(r) => Some(r.as_str()),
            None => None,
        };
        parse_judge_response(response, regex, request.score_scale)
    }
}


/// Whether `prefix` begins `s`.
pub fn starts_with(s: &str, prefix: &str) -> (res: bool)
    ensures
        res == prefix@.is_prefix_of(s@),
{
    let a = crate::text::chars_of(s);
    let b = crate::text::chars_of(prefix);
    if b.len() > a.len() {
        return false;
    }
    let mut i: usize = 0;
    while i < b.len()
        invariant
            i <= b@.len() <= a@.len(),
            a@ == s@,
            b@ == prefix@,
            forall|k: int| 0 <= k < i ==> a@[k] == b@[k],
        decreases b@.len() - i,
    {
        if a[i] != b[i] {
            return false;
        }
        i = i + 1;
    }
    true
}

/// The prompt names that name judge metrics: those beginning with `llm_judge_`.
pub fn judge_metric_names(names: Vec<String>) -> (res: Vec<String>)
    ensures
        crate::judge::sv(res@) == crate::judge::sv(names@).filter(|n: Seq<char>| "llm_judge_"@.is_prefix_of(n)),
{
    let ghost keep = |n: Seq<char>| "llm_judge_"@.is_prefix_of(n);
    let mut out: Vec<String> = Vec::new();
    let mut i: usize = 0;
    while i < names.len()
        invariant
            i <= names@.len(),
            keep == (|n: Seq<char>| "llm_judge_"@.is_prefix_of(n)),
            crate::judge::sv(out@) == crate::judge::sv(names@).take(i as int).filter(keep),
        decreases names@.len() - i,
    {
        let ghost t = crate::judge::sv(names@).take(i as int);
        let ghost t1 = crate::judge::sv(names@).take(i + 1);
        assert(t1.drop_last() =~= t);
        assert(t1.last() == names@[i as int]@);
        proof {
            reveal_with_fuel(Seq::filter, 1);
        }
        if starts_with(names[i].as_str(), "llm_judge_") {
            let ghost before = out@;
            out.push(names[i].clone());
            assert(crate::judge::sv(out@) =~= crate::judge::sv(before).push(names@[i as int]@));
        }
        i = i + 1;
    }
    assert(crate::judge::sv(names@).take(i as int) =~= crate::judge::sv(names@));
    out
}

/// The question the perplexity metric asks about the input's `text`.
pub fn perplexity_prompt(input: &Json) -> (res: Result<String, EvalError>)
    ensures
        match crate::metrics::member_str(input.v(), "text"@) {
            Some(t) => res matches Ok(p) && p@ == "请评估以下文本的自然度与流畅度，返回一个 1-100 的整数评分（越低表示越困惑、越不自然）：\n\n"@ + t + "\n\n请仅返回数字。"@,
            None => res matches Err(EvalError::InvalidParams(_)),
        },
{
    match get_str(input, "text") {
        Some(t) => {
            let mut p = owned("请评估以下文本的自然度与流畅度，返回一个 1-100 的整数评分（越低表示越困惑、越不自然）：\n\n");
            p.append(t.as_str());
            p.append("\n\n请仅返回数字。");
            Ok(p)
        },
        None => Err(EvalError::InvalidParams(owned("缺少 text 字段"))),
    }
}

} // verus!
