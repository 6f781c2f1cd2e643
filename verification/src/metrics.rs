//! Metric descriptors, their registry, and the text metrics' evaluation from
//! request parameters and input.

use vstd::prelude::*;
use vstd::string::*;

use crate::bleu::{BleuStats, bleu_stats_ok, compute_bleu_stats};
use crate::decimal::{all_digits, check_digits, digits_to_u128, digits_value};
use crate::error::{EvalError, owned};
use crate::json::{Json, JsonV, lookup, members_v};
use crate::rouge::{RougeOutput, compute_rouge_l, compute_rouge_n, rouge_l_spec, rouge_n_spec};

verus! {

/// The value of a JSON number that `serde_json` reads as a `u64`: digits only,
/// at most `u64::MAX`.
pub open spec fn json_u64(v: JsonV) -> Option<u64> {
    match v {
        JsonV::Number(t) => if t.len() > 0 && all_digits(t) && digits_value(t) <= u64::MAX {
            Some(digits_value(t) as u64)
        } else {
            None
        },
        _ => None,
    }
}

/// The `u64` value of a JSON value, if it is such a number.
pub fn as_u64(v: &Json) -> (res: Option<u64>)
    ensures
        res == json_u64(v.v()),
{
    match v {
        Json::Number(t) => {
            let cs = crate::text::chars_of(t.as_str());
            if cs.len() == 0 || !check_digits(cs.as_slice()) {
                return None;
            }
            match digits_to_u128(cs.as_slice()) {
                Some(x) => if x <= u64::MAX as u128 {
                    Some(x as u64)
                } else {
                    None
                },
                None => None,
            }
        },
        _ => None,
    }
}

/// Parameter `key` as a `u64`, if present and such a number.
pub open spec fn param_u64(params: JsonV, key: Seq<char>) -> Option<u64> {
    match params.get(key) {
        Some(v) => json_u64(v),
        None => None,
    }
}

/// Parameter or input member `key` as a string, if present and a string.
pub open spec fn member_str(obj: JsonV, key: Seq<char>) -> Option<Seq<char>> {
    match obj.get(key) {
        Some(v) => v.as_str(),
        None => None,
    }
}

/// Member `key` of an object as a string.
pub fn get_str<'a>(obj: &'a Json, key: &str) -> (res: Option<&'a String>)
    ensures
        match res {
            Some(s) => member_str(obj.v(), key@) == Some(s@),
            None => member_str(obj.v(), key@) is None,
        },
{
    match obj.get(key) {
        Some(v) => v.as_str(),
        None => None,
    }
}

/// Member `key` of an object as a `u64`.
pub fn get_u64(obj: &Json, key: &str) -> (res: Option<u64>)
    ensures
        res == param_u64(obj.v(), key@),
{
    match obj.get(key) {
        Some(v) => as_u64(v),
        None => None,
    }
}

/// Name, kind and parameter schema of a metric.
#[derive(Debug)]
pub struct MetricDescriptor {
    /// Unique metric name.
    pub name: String,
    /// `"llm"` or `"non_llm"`.
    pub metric_type: String,
    /// Parameter name and its schema object.
    pub params_schema: Vec<(String, Json)>,
}

/// The text members `reference` and `hypothesis` of an input, in that order of checking.
pub open spec fn text_pair(input: JsonV) -> Option<(Seq<char>, Seq<char>)> {
    match (member_str(input, "reference"@), member_str(input, "hypothesis"@)) {
        (Some(r), Some(h)) => Some((r, h)),
        _ => None,
    }
}

/// The ROUGE metric.
#[derive(Debug)]
pub struct RougeMetric;

/// Which ROUGE variant the parameters select: `l` for ROUGE-L, otherwise
/// ROUGE-N with `n` (default 1).
pub open spec fn rouge_variant_l(params: JsonV) -> bool {
    member_str(params, "variant"@) == Some("l"@)
}

/// The n-gram size of ROUGE-N.
pub open spec fn rouge_n_param(params: JsonV) -> u64 {
    match param_u64(params, "n"@) {
        Some(n) => n,
        None => 1,
    }
}

impl RougeMetric {
    /// A new ROUGE metric.
    pub fn new() -> (res: Self) {
        RougeMetric
    }

    /// Evaluates ROUGE-L or ROUGE-N on the input's `reference` and `hypothesis`.
    pub fn evaluate(&self, params: &Json, input: &Json) -> (res: Result<RougeOutput, EvalError>)
        requires
            rouge_variant_l(params.v()) || 1 <= rouge_n_param(params.v()) <= usize::MAX,
        ensures
            match text_pair(input.v()) {
                None => res matches Err(EvalError::InvalidParams(_)),
                Some((r, h)) => if rouge_variant_l(params.v()) {
                    res == Ok::<RougeOutput, EvalError>(rouge_l_spec(r, h))
                } else {
                    res == Ok::<RougeOutput, EvalError>(rouge_n_spec(r, h, rouge_n_param(params.v()) as nat))
                },
            },
            match text_pair(input.v()) {
                Some((r, h)) => !rouge_variant_l(params.v()) && param_u64(params.v(), "n"@) is None
                    ==> res == Ok::<RougeOutput, EvalError>(rouge_n_spec(r, h, 1)),
                None => true,
            },
    {
        let reference = match get_str(input, "reference") {
            Some(r) => r,
            None => {
                return Err(EvalError::InvalidParams(owned("缺少 reference 字段")));
            },
        };
        let hypothesis = match get_str(input, "hypothesis") {
            Some(h) => h,
            None => {
                return Err(EvalError::InvalidParams(owned("缺少 hypothesis 字段")));
            },
        };
        let l = owned("l");
        let is_l = match get_str(params, "variant") {
            Some(v) => *v == l,
            None => false,
        };
        if is_l {
            Ok(compute_rouge_l(reference.as_str(), hypothesis.as_str()))
        } else {
            let n: u64 = match get_u64(params, "n") {
                Some(n) => n,
                None => 1,
            };
            Ok(compute_rouge_n(reference.as_str(), hypothesis.as_str(), n as usize))
        }
    }
}

/// The BLEU metric.
#[derive(Debug)]
pub struct BleuMetric;

/// The largest n-gram order of BLEU: parameter `n` (default 4) clamped to `1..=4`.
pub open spec fn bleu_max_n(params: JsonV) -> nat {
    let n = match param_u64(params, "n"@) {
        Some(n) => n as nat,
        None => 4,
    };
    if n < 1 { 1 } else if n > 4 { 4 } else { n }
}

impl BleuMetric {
    /// A new BLEU metric.
    pub fn new() -> (res: Self) {
        BleuMetric
    }

    /// Counts the BLEU statistics of the input's `reference` and `hypothesis`.
    pub fn evaluate(&self, params: &Json, input: &Json) -> (res: Result<BleuStats, EvalError>)
        ensures
            match text_pair(input.v()) {
                None => res matches Err(EvalError::InvalidParams(_)),
                Some((r, h)) => res matches Ok(s) && bleu_stats_ok(r, h, bleu_max_n(params.v()), s),
            },
            match text_pair(input.v()) {
                Some((r, h)) => param_u64(params.v(), "n"@) is None ==> (res matches Ok(s) && bleu_stats_ok(r, h, 4, s)),
                None => true,
            },
    {
        let reference = match get_str(input, "reference") {
            Some(r) => r,
            None => {
                return Err(EvalError::InvalidParams(owned("缺少 reference 字段")));
            },
        };
        let hypothesis = match get_str(input, "hypothesis") {
            Some(h) => h,
            None => {
                return Err(EvalError::InvalidParams(owned("缺少 hypothesis 字段")));
            },
        };
        let n: u64 = match get_u64(params, "n") {
            Some(n) => n,
            None => 4,
        };
        let max_n: usize = if n < 1 { 1 } else if n > 4 { 4 } else { n as usize };
        Ok(compute_bleu_stats(reference.as_str(), hypothesis.as_str(), max_n))
    }
}

/// `k` is the first position of a descriptor named `name`.
pub open spec fn first_named(s: Seq<MetricDescriptor>, name: Seq<char>, k: int) -> bool {
    &&& 0 <= k < s.len()
    &&& s[k].name@ == name
    &&& forall|j: int| 0 <= j < k ==> (#[trigger] s[j]).name@ != name
}

/// Some descriptor is named `name`.
pub open spec fn has_named(s: Seq<MetricDescriptor>, name: Seq<char>) -> bool {
    exists|k: int| 0 <= k < s.len() && (#[trigger] s[k]).name@ == name
}

/// Metrics by name; registering a name again replaces its metric.
#[derive(Debug)]
pub struct MetricRegistry {
    entries: Vec<MetricDescriptor>,
}

impl MetricRegistry {
    /// The registered descriptors.
    pub closed spec fn descriptors(&self) -> Seq<MetricDescriptor> {
        self.entries@
    }

    /// The descriptor that `get(name)` returns.
    pub open spec fn named(&self, name: Seq<char>) -> Option<MetricDescriptor> {
        if has_named(self.descriptors(), name) {
            Some(self.descriptors()[choose|k: int| first_named(self.descriptors(), name, k)])
        } else {
            None
        }
    }

    /// An empty registry.
    pub fn new() -> (res: Self)
        ensures
            res.descriptors().len() == 0,
            forall|n: Seq<char>| res.named(n) is None,
    {
        MetricRegistry { entries: Vec::new() }
    }

    fn find(&self, name: &String) -> (res: Option<usize>)
        ensures
            match res {
                Some(k) => first_named(self.descriptors(), name@, k as int),
                None => !has_named(self.descriptors(), name@),
            },
    {
        let mut i: usize = 0;
        while i < self.entries.len()
            invariant
                i <= self.entries@.len(),
                forall|j: int| 0 <= j < i ==> (#[trigger] self.entries@[j]).name@ != name@,
            decreases self.entries@.len() - i,
        {
            if self.entries[i].name == *name {
                return Some(i);
            }
            i = i + 1;
        }
        None
    }

    /// Registers a metric, replacing one of the same name.
    pub fn register(&mut self, metric: MetricDescriptor)
        ensures
            final(self).named(metric.name@) == Some(metric),
            forall|n: Seq<char>| n != metric.name@ ==> final(self).named(n) == old(self).named(n),
    {
        let ghost old_s = self.entries@;
        let ghost mn = metric.name@;
        proof {
            lemma_first_unique(old_s);
        }
        match self.find(&metric.name) {
            Some(i) => {
                assert(first_named(old_s, mn, i as int));
                self.entries.set(i, metric);
                proof {
                    let s = self.entries@;
                    lemma_first_unique(s);
                    assert(first_named(s, mn, i as int));
                    assert forall|n: Seq<char>| n != mn implies #[trigger] has_named(s, n) == has_named(old_s, n)
                        && forall|k: int| first_named(s, n, k) == first_named(old_s, n, k) by {
                        lemma_update_other(old_s, s, i as int, mn, n);
                    }
                    assert forall|n: Seq<char>| n != mn implies self.named(n) == old(self).named(n) by {
                        if has_named(s, n) {
                            let k = choose|k: int| first_named(s, n, k);
                            assert(first_named(old_s, n, k));
                            assert(k != i);
                            assert(s[k] == old_s[k]);
                        }
                    }
                }
            },
            None => {
                self.entries.push(metric);
                proof {
                    let s = self.entries@;
                    lemma_first_unique(s);
                    let last = (s.len() - 1) as int;
                    assert(first_named(s, mn, last)) by {
                        assert forall|j: int| 0 <= j < last implies (#[trigger] s[j]).name@ != mn by {
                            assert(s[j] == old_s[j]);
                        }
                    }
                    assert forall|n: Seq<char>| n != mn implies self.named(n) == old(self).named(n) by {
                        if has_named(s, n) {
                            let k = choose|k: int| 0 <= k < s.len() && (#[trigger] s[k]).name@ == n;
                            assert(k != last);
                            assert(old_s[k].name@ == n);
                        }
                        if has_named(old_s, n) {
                            let k = choose|k: int| first_named(old_s, n, k);
                            assert(first_named(s, n, k)) by {
                                assert forall|j: int| 0 <= j < k implies (#[trigger] s[j]).name@ != n by {
                                    assert(s[j] == old_s[j]);
                                }
                            }
                            assert(s[k] == old_s[k]);
                        }
                    }
                }
            },
        }
    }

    /// The metric registered under `name`.
    pub fn get(&self, name: &str) -> (res: Option<&MetricDescriptor>)
        ensures
            match res {
                Some(d) => self.named(name@) == Some(*d),
                None => self.named(name@) is None,
            },
    {
        let n = owned(name);
        proof {
            lemma_first_unique(self.descriptors());
        }
        match self.find(&n) {
            Some(i) => Some(&self.entries[i]),
            None => None,
        }
    }

    /// All registered metrics.
    pub fn list(&self) -> (res: &Vec<MetricDescriptor>)
        ensures
            res@ == self.descriptors(),
    {
        &self.entries
    }
}

/// Replacing a descriptor of name `mn` keeps where every other name is found.
proof fn lemma_update_other(old_s: Seq<MetricDescriptor>, s: Seq<MetricDescriptor>, i: int, mn: Seq<char>, n: Seq<char>)
    requires
        0 <= i < old_s.len(),
        s.len() == old_s.len(),
        forall|j: int| 0 <= j < s.len() && j != i ==> s[j] == old_s[j],
        s[i].name@ == mn,
        old_s[i].name@ == mn,
        n != mn,
    ensures
        has_named(s, n) == has_named(old_s, n),
        forall|k: int| first_named(s, n, k) == first_named(old_s, n, k),
{
    if has_named(s, n) {
        let k = choose|k: int| 0 <= k < s.len() && (#[trigger] s[k]).name@ == n;
        assert(old_s[k].name@ == n);
    }
    if has_named(old_s, n) {
        let k = choose|k: int| 0 <= k < old_s.len() && (#[trigger] old_s[k]).name@ == n;
        assert(s[k].name@ == n);
    }
    assert forall|k: int| first_named(s, n, k) == first_named(old_s, n, k) by {
        if 0 <= k < s.len() {
            assert forall|j: int| 0 <= j < k implies ((#[trigger] s[j]).name@ != n <==> old_s[j].name@ != n) by {
                if j != i {
                    assert(s[j] == old_s[j]);
                }
            }
            if k != i {
                assert(s[k] == old_s[k]);
            }
        }
    }
}

/// The first position of a name exists whenever the name occurs, and is unique.
pub proof fn lemma_first_unique(s: Seq<MetricDescriptor>)
    ensures
        forall|n: Seq<char>| #[trigger] has_named(s, n) ==> exists|k: int| first_named(s, n, k),
        forall|n: Seq<char>, a: int, b: int| first_named(s, n, a) && first_named(s, n, b) ==> a == b,
{
    assert forall|n: Seq<char>| #[trigger] has_named(s, n) implies exists|k: int| first_named(s, n, k) by {
        let k0 = choose|k: int| 0 <= k < s.len() && (#[trigger] s[k]).name@ == n;
        lemma_first_exists(s, n, k0);
    }
    assert forall|n: Seq<char>, a: int, b: int| first_named(s, n, a) && first_named(s, n, b) implies a == b by {
        if a < b {
            assert(s[a].name@ != n);
        }
        if b < a {
            assert(s[b].name@ != n);
        }
    }
}

proof fn lemma_first_exists(s: Seq<MetricDescriptor>, n: Seq<char>, k0: int)
    requires
        0 <= k0 < s.len(),
        s[k0].name@ == n,
    ensures
        exists|k: int| first_named(s, n, k),
    decreases k0,
{
    if exists|j: int| 0 <= j < k0 && (#[trigger] s[j]).name@ == n {
        let j = choose|j: int| 0 <= j < k0 && (#[trigger] s[j]).name@ == n;
        lemma_first_exists(s, n, j);
    } else {
        assert(first_named(s, n, k0));
    }
}

/// Looks a metric up by name.
pub fn route_metric<'a>(registry: &'a MetricRegistry, metric_name: &str) -> (res: Result<&'a MetricDescriptor, EvalError>)
    ensures
        match registry.named(metric_name@) {
            Some(d) => res matches Ok(r) && *r == d,
            None => res matches Err(EvalError::MetricNotFound(n)) && n@ == metric_name@,
        },
{
    match registry.get(metric_name) {
        Some(d) => Ok(d),
        None => Err(EvalError::MetricNotFound(owned(metric_name))),
    }
}

/// Whether a metric calls an LLM (its type is `"llm"`).
pub fn is_llm_metric(metric: &MetricDescriptor) -> (res: bool)
    ensures
        res == (metric.metric_type@ == "llm"@),
{
    let llm = owned("llm");
    metric.metric_type == llm
}

/// Whether a schema entry marks its parameter required (`required`, default true).
pub open spec fn schema_required(entry: JsonV) -> bool {
    match entry.get("required"@) {
        Some(JsonV::Bool(b)) => b,
        _ => true,
    }
}

/// Checks that every required parameter of `schema` is present in `params`.
pub fn validate_params(params: &Json, schema: &Vec<(String, Json)>) -> (res: Result<(), EvalError>)
    ensures
        res is Ok <==> forall|i: int| 0 <= i < schema@.len() && schema_required((#[trigger] schema@[i]).1.v())
            ==> params.v().get(schema@[i].0@) is Some,
        res is Err ==> res matches Err(EvalError::InvalidParams(_)),
{
    let mut i: usize = 0;
    while i < schema.len()
        invariant
            i <= schema@.len(),
            forall|k: int| 0 <= k < i && schema_required((#[trigger] schema@[k]).1.v()) ==> params.v().get(schema@[k].0@) is Some,
        decreases schema@.len() - i,
    {
        let required = match schema[i].1.get("required") {
            Some(Json::Bool(b)) => *b,
            _ => true,
        };
        if required && params.get(schema[i].0.as_str()).is_none() {
            let msg = owned("缺少必填参数: ").concat(schema[i].0.as_str());
            return Err(EvalError::InvalidParams(msg));
        }
        i = i + 1;
    }
    Ok(())
}


/// The members of a parameter schema object.
pub open spec fn schema_members(ty: Seq<char>, description: Seq<char>, required: Option<bool>, default: Option<JsonV>) -> Seq<(Seq<char>, JsonV)> {
    seq![("type"@, JsonV::Str(ty)), ("description"@, JsonV::Str(description))]
        + (match required { Some(b) => seq![("required"@, JsonV::Bool(b))], None => Seq::empty() })
        + (match default { Some(d) => seq![("default"@, d)], None => Seq::empty() })
}

/// A parameter schema object: `type`, `description`, then `required` and
/// `default` when given.
pub fn schema_entry(ty: &str, description: &str, required: Option<bool>, default: Option<Json>) -> (res: Json)
    ensures
        res.v() == JsonV::Object(schema_members(ty@, description@, required, match default { Some(d) => Some(d.v()), None => None })),
{
    let ghost dv = match &default { Some(d) => Some(d.v()), None => None::<JsonV> };
    let mut m: Vec<(String, Json)> = Vec::new();
    m.push((owned("type"), Json::Str(owned(ty))));
    m.push((owned("description"), Json::Str(owned(description))));
    let ghost base = m@;
    assert(members_v(m@) =~= seq![("type"@, JsonV::Str(ty@)), ("description"@, JsonV::Str(description@))]);
    match required {
        Some(b) => {
            m.push((owned("required"), Json::Bool(b)));
        },
        None => {},
    }
    let ghost r = match required { Some(b) => seq![("required"@, JsonV::Bool(b))], None => Seq::<(Seq<char>, JsonV)>::empty() };
    assert(members_v(m@) =~= seq![("type"@, JsonV::Str(ty@)), ("description"@, JsonV::Str(description@))] + r);
    match default {
        Some(d) => {
            m.push((owned("default"), d));
        },
        None => {},
    }
    assert(members_v(m@) =~= schema_members(ty@, description@, required, dv));
    let res = Json::Object(m);
    assert(res.v()->Object_0 =~= schema_members(ty@, description@, required, dv));
    res
}

/// The `default` member of the schema object of parameter `key`, if any.
pub open spec fn schema_default(schema: Seq<(String, Json)>, key: Seq<char>) -> Option<JsonV> {
    match lookup(members_v(schema), key) {
        Some(entry) => entry.get("default"@),
        None => None,
    }
}

/// The default of a parameter schema object with a description and a
/// default but no `required` member.
proof fn lemma_entry_default(e: Json, ty: Seq<char>, d: Seq<char>, dv: JsonV)
    requires
        e.v() == JsonV::Object(schema_members(ty, d, None, Some(dv))),
    ensures
        e.v().get("default"@) == Some(dv),
{
    let m = schema_members(ty, d, None, Some(dv));
    assert(m =~= seq![("type"@, JsonV::Str(ty)), ("description"@, JsonV::Str(d)), ("default"@, dv)]);
    reveal_strlit("type");
    reveal_strlit("description");
    reveal_strlit("default");
    assert("type"@[0] != "default"@[0]);
    assert("description"@[2] != "default"@[2]);
    assert(m.drop_first().drop_first() =~= seq![("default"@, dv)]);
    reveal_with_fuel(lookup, 3);
}

/// The default of the first parameter of a schema named `key`.
proof fn lemma_schema_default_first(schema: Seq<(String, Json)>, key: Seq<char>)
    requires
        schema.len() >= 1,
        schema[0].0@ == key,
    ensures
        schema_default(schema, key) == schema[0].1.v().get("default"@),
{
    assert(members_v(schema)[0] == (schema[0].0@, schema[0].1.v()));
}

/// The default of the second parameter of a schema, named `key`, the first
/// being named otherwise.
proof fn lemma_schema_default_second(schema: Seq<(String, Json)>, key: Seq<char>)
    requires
        schema.len() >= 2,
        schema[0].0@ != key,
        schema[1].0@ == key,
    ensures
        schema_default(schema, key) == schema[1].1.v().get("default"@),
{
    let m = members_v(schema);
    assert(m[0] == (schema[0].0@, schema[0].1.v()));
    assert(m.drop_first()[0] == (schema[1].0@, schema[1].1.v()));
    reveal_with_fuel(lookup, 2);
}

/// The names of a schema's parameters.
pub open spec fn schema_keys(schema: Seq<(String, Json)>) -> Seq<Seq<char>> {
    schema.map_values(|e: (String, Json)| e.0@)
}

impl RougeMetric {
    /// Name of the metric.
    pub fn name(&self) -> (res: String)
        ensures
            res@ == "rouge"@,
    {
        owned("rouge")
    }

    /// Kind of the metric.
    pub fn metric_type(&self) -> (res: String)
        ensures
            res@ == "non_llm"@,
    {
        owned("non_llm")
    }

    /// Parameters: `variant` (`n` or `l`, default `n`) and `n` (default 1).
    pub fn params_schema(&self) -> (res: Vec<(String, Json)>)
        ensures
            schema_keys(res@) == seq!["variant"@, "n"@],
            schema_default(res@, "n"@) == Some(JsonV::Number("1"@)),
    {
        let v = vec![
            (owned("variant"), schema_entry("string", "ROUGE 变体: n (ROUGE-N) 或 l (ROUGE-L)", None, Some(Json::Str(owned("n"))))),
            (owned("n"), schema_entry("integer", "N-gram 大小（仅 ROUGE-N 使用）", None, Some(Json::Number(owned("1"))))),
        ];
        assert(schema_keys(v@) =~= seq!["variant"@, "n"@]);
        proof {
            reveal_strlit("variant");
            reveal_strlit("n");
            assert(v@[0].0@[0] != "n"@[0]);
            lemma_schema_default_second(v@, "n"@);
            lemma_entry_default(v@[1].1, "integer"@, "N-gram 大小（仅 ROUGE-N 使用）"@, JsonV::Number("1"@));
        }
        v
    }
}

impl BleuMetric {
    /// Name of the metric.
    pub fn name(&self) -> (res: String)
        ensures
            res@ == "bleu"@,
    {
        owned("bleu")
    }

    /// Kind of the metric.
    pub fn metric_type(&self) -> (res: String)
        ensures
            res@ == "non_llm"@,
    {
        owned("non_llm")
    }

    /// Parameters: `n`, the largest n-gram order (1 to 4, default 4).
    pub fn params_schema(&self) -> (res: Vec<(String, Json)>)
        ensures
            schema_keys(res@) == seq!["n"@],
            schema_default(res@, "n"@) == Some(JsonV::Number("4"@)),
    {
        let v = vec![(owned("n"), schema_entry("integer", "最大 N-gram 大小 (1-4)", None, Some(Json::Number(owned("4")))))];
        assert(schema_keys(v@) =~= seq!["n"@]);
        proof {
            lemma_schema_default_first(v@, "n"@);
            lemma_entry_default(v@[0].1, "integer"@, "最大 N-gram 大小 (1-4)"@, JsonV::Number("4"@));
        }
        v
    }
}

/// The optional parameters every LLM metric takes: `provider`, `model` and
/// `prompt_version`.
pub fn llm_params_schema(with_version: bool) -> (res: Vec<(String, Json)>)
    ensures
        schema_keys(res@) == (if with_version { seq!["provider"@, "model"@, "prompt_version"@] } else { seq!["provider"@, "model"@] }),
{
    let mut v = vec![
        (owned("provider"), schema_entry("string", "LLM provider 名称", Some(false), None)),
        (owned("model"), schema_entry("string", "模型名称", Some(false), None)),
    ];
    if with_version {
        v.push((owned("prompt_version"), schema_entry("string", "提示词版本", Some(false), None)));
    }
    assert(schema_keys(v@) =~= (if with_version { seq!["provider"@, "model"@, "prompt_version"@] } else { seq!["provider"@, "model"@] }));
    v
}

/// Looking up in members with one member put in front.
proof fn lemma_lookup_front(m: Seq<(Seq<char>, JsonV)>, k: Seq<char>, x: JsonV, key: Seq<char>)
    ensures
        lookup(seq![(k, x)] + m, key) == (if k == key { Some(x) } else { lookup(m, key) }),
{
    let s = seq![(k, x)] + m;
    assert(s[0] == (k, x));
    assert(s.drop_first() =~= m);
}

/// ROUGE without an `n` parameter computes what it computes with `n` set to
/// the default its parameter schema advertises, `1`: the same variant and
/// the same n-gram size, which is 1.
pub proof fn law_rouge_default_is_advertised(m: Seq<(Seq<char>, JsonV)>)
    requires
        lookup(m, "n"@) is None,
    ensures
        ({
            let with_default = JsonV::Object(seq![("n"@, JsonV::Number("1"@))] + m);
            &&& rouge_variant_l(JsonV::Object(m)) == rouge_variant_l(with_default)
            &&& rouge_n_param(JsonV::Object(m)) == rouge_n_param(with_default)
            &&& rouge_n_param(JsonV::Object(m)) == 1
        }),
{
    reveal_strlit("n");
    reveal_strlit("1");
    reveal_strlit("variant");
    assert("n"@[0] != "variant"@[0]);
    lemma_lookup_front(m, "n"@, JsonV::Number("1"@), "n"@);
    lemma_lookup_front(m, "n"@, JsonV::Number("1"@), "variant"@);
    assert("1"@ =~= seq!['1']);
    assert(seq!['1'].drop_last() =~= Seq::<char>::empty());
    assert(digits_value(seq!['1']) == 1) by {
        reveal_with_fuel(digits_value, 2);
    }
}

/// BLEU without an `n` parameter counts what it counts with `n` set to the
/// default its parameter schema advertises, `4`: n-gram orders up to 4.
pub proof fn law_bleu_default_is_advertised(m: Seq<(Seq<char>, JsonV)>)
    requires
        lookup(m, "n"@) is None,
    ensures
        ({
            let with_default = JsonV::Object(seq![("n"@, JsonV::Number("4"@))] + m);
            &&& bleu_max_n(JsonV::Object(m)) == bleu_max_n(with_default)
            &&& bleu_max_n(JsonV::Object(m)) == 4
        }),
{
    reveal_strlit("n");
    reveal_strlit("4");
    lemma_lookup_front(m, "n"@, JsonV::Number("4"@), "n"@);
    assert("4"@ =~= seq!['4']);
    assert(seq!['4'].drop_last() =~= Seq::<char>::empty());
    assert(digits_value(seq!['4']) == 4) by {
        reveal_with_fuel(digits_value, 2);
    }
}

} // verus!
