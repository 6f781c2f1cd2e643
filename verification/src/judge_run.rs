//! Multi-step LLM judge runs. A run is a list of stages: each asks the judge
//! model either for a list of strings or for one verdict per item of a list.
//! The runner sends the calls that [`JudgeRun::next`] names and hands each
//! reply to [`JudgeRun::on_reply`]; the score comes from the collected
//! verdicts and lists.

use vstd::prelude::*;
use vstd::string::*;

use crate::error::{EvalError, owned};
use crate::judge::{
    EntitiesRecall, answer_accuracy_score, context_entities_recall, count_true, count_verdicts, sv,
};
use crate::json::{Json, JsonV};
use crate::reply::{parse_json, parse_verdict, reply_json, strs_v, verdict_in};
use crate::score::{Ratio, share, share_of};
use crate::text::trim;

verus! {

/// What `str::to_lowercase` returns for a text (Unicode lower case).
pub uninterp spec fn unicode_lowercase(s: Seq<char>) -> Seq<char>;

/// Lower-cases a text with `str::to_lowercase`.
#[verifier::external_body]
fn to_lowercase(s: &str) -> (res: String)
    ensures
        res@ == unicode_lowercase(s@),
{
    s.to_lowercase()
}

/// The strings of a reply list: string items, in order, lower-cased on request.
pub open spec fn strings_of(items: Seq<JsonV>, lowercase: bool) -> Seq<Seq<char>>
    decreases items.len(),
{
    if items.len() == 0 {
        Seq::empty()
    } else {
        let rest = strings_of(items.drop_last(), lowercase);
        match items.last() {
            JsonV::Str(s) => rest.push(if lowercase { unicode_lowercase(s) } else { s }),
            _ => rest,
        }
    }
}

/// The list a reply gives under `key`: its JSON object's member `key` must be an array.
pub open spec fn list_reading(reply: Seq<char>, key: Seq<char>, lowercase: bool) -> Option<Seq<Seq<char>>> {
    match reply_json(trim(reply)) {
        Some(j) => match j.get(key) {
            Some(JsonV::Array(items)) => Some(strings_of(items, lowercase)),
            _ => None,
        },
        None => None,
    }
}

/// The verdict a reply gives under the first of `fields` present.
pub open spec fn verdict_reading(reply: Seq<char>, fields: Seq<Seq<char>>) -> Option<bool> {
    match reply_json(trim(reply)) {
        Some(j) => match verdict_in(j, fields) {
            Some(Some(b)) => Some(b),
            _ => None,
        },
        None => None,
    }
}

/// Reads the list under `key` from a judge reply.
pub fn read_list(reply: &str, key: &str, lowercase: bool) -> (res: Result<Vec<String>, EvalError>)
    ensures
        match list_reading(reply@, key@, lowercase) {
            Some(l) => res matches Ok(v) && sv(v@) == l,
            None => res matches Err(EvalError::JudgeParseFailed(_)),
        },
{
    let parsed = parse_json(reply)?;
    let items = match parsed.get(key) {
        Some(Json::Array(items)) => items,
        _ => {
            return Err(EvalError::JudgeParseFailed(owned(key).concat(" 不是数组")));
        },
    };
    let ghost iv = parsed.v().get(key@)->Some_0->Array_0;
    let mut out: Vec<String> = Vec::new();
    let mut i: usize = 0;
    while i < items.len()
        invariant
            i <= items@.len() == iv.len(),
            forall|k: int| 0 <= k < items@.len() ==> #[trigger] iv[k] == items@[k].v(),
            sv(out@) == strings_of(iv.take(i as int), lowercase),
        decreases items@.len() - i,
    {
        assert(iv.take(i + 1).drop_last() =~= iv.take(i as int));
        assert(iv.take(i + 1).last() == items@[i as int].v());
        let ghost before = out@;
        match &items[i] {
            Json::Str(s) => {
                let t = if lowercase { to_lowercase(s.as_str()) } else { s.clone() };
                out.push(t);
                assert(sv(out@) =~= sv(before).push(t@));
            },
            _ => {},
        }
        i = i + 1;
    }
    assert(iv.take(i as int) =~= iv);
    Ok(out)
}

/// Reads a verdict from a judge reply.
pub fn read_verdict(reply: &str, fields: &[&str]) -> (res: Result<bool, EvalError>)
    ensures
        match verdict_reading(reply@, strs_v(fields@)) {
            Some(b) => res == Ok::<bool, EvalError>(b),
            None => res matches Err(EvalError::JudgeParseFailed(_)),
        },
{
    let parsed = parse_json(reply)?;
    parse_verdict(&parsed, fields)
}

/// The pieces of a list joined by a separator.
pub open spec fn joined(l: Seq<Seq<char>>, sep: Seq<char>) -> Seq<char>
    decreases l.len(),
{
    if l.len() == 0 {
        Seq::empty()
    } else if l.len() == 1 {
        l[0]
    } else {
        joined(l.drop_last(), sep) + sep + l.last()
    }
}

/// Joins strings with a separator.
pub fn join(l: &Vec<String>, sep: &str) -> (res: String)
    ensures
        res@ == joined(sv(l@), sep@),
{
    let mut out = String::new();
    let mut i: usize = 0;
    while i < l.len()
        invariant
            i <= l@.len(),
            out@ == joined(sv(l@).take(i as int), sep@),
        decreases l@.len() - i,
    {
        assert(sv(l@).take(i + 1).drop_last() =~= sv(l@).take(i as int));
        if i > 0 {
            out.append(sep);
        }
        out.append(l[i].as_str());
        proof {
            if i == 0 {
                assert(Seq::<char>::empty() + l@[0]@ =~= l@[0]@);
            }
        }
        i = i + 1;
    }
    assert(sv(l@).take(i as int) =~= sv(l@));
    out
}

/// Where the value of a template variable comes from.
#[derive(Debug)]
pub enum VarSource {
    /// A value from the input.
    Value(Json),
    /// List `i` joined with a separator.
    Joined(usize, String),
    /// List `i` as an array of strings.
    List(usize),
    /// The item a verdict is asked for.
    Item,
}

/// The view of a variable source.
pub enum VarSourceV {
    Value(JsonV),
    Joined(int, Seq<char>),
    List(int),
    Item,
}

impl VarSource {
    /// Its view.
    pub open spec fn v(&self) -> VarSourceV {
        match self {
            VarSource::Value(j) => VarSourceV::Value(j.v()),
            VarSource::Joined(i, s) => VarSourceV::Joined(*i as int, s@),
            VarSource::List(i) => VarSourceV::List(*i as int),
            VarSource::Item => VarSourceV::Item,
        }
    }
}

/// One stage of a judge run.
#[derive(Debug)]
pub enum Stage {
    /// Asks for a list of strings under `key` and stores it as list `into`;
    /// when the list is empty and `stop_if_empty` is set, the run ends with that score.
    Extract {
        prompt: String,
        vars: Vec<(String, VarSource)>,
        key: String,
        lowercase: bool,
        into: usize,
        stop_if_empty: Option<Ratio>,
    },
    /// Asks one verdict per item of list `over` and stores the verdicts as verdict list `into`.
    Verdicts { prompt: String, vars: Vec<(String, VarSource)>, over: usize, fields: Vec<String>, into: usize },
}

/// The view of a stage.
pub enum StageV {
    Extract {
        prompt: Seq<char>,
        vars: Seq<(Seq<char>, VarSourceV)>,
        key: Seq<char>,
        lowercase: bool,
        into: int,
        stop_if_empty: Option<Ratio>,
    },
    Verdicts { prompt: Seq<char>, vars: Seq<(Seq<char>, VarSourceV)>, over: int, fields: Seq<Seq<char>>, into: int },
}

/// The views of stage variables.
pub open spec fn vars_v(vars: Seq<(String, VarSource)>) -> Seq<(Seq<char>, VarSourceV)> {
    vars.map_values(|e: (String, VarSource)| (e.0@, e.1.v()))
}

impl Stage {
    /// Its view.
    pub open spec fn v(&self) -> StageV {
        match self {
            Stage::Extract { prompt, vars, key, lowercase, into, stop_if_empty } => StageV::Extract {
                prompt: prompt@,
                vars: vars_v(vars@),
                key: key@,
                lowercase: *lowercase,
                into: *into as int,
                stop_if_empty: *stop_if_empty,
            },
            Stage::Verdicts { prompt, vars, over, fields, into } => StageV::Verdicts {
                prompt: prompt@,
                vars: vars_v(vars@),
                over: *over as int,
                fields: sv(fields@),
                into: *into as int,
            },
        }
    }
}

/// How the score of a run is computed.
#[derive(Debug, Clone, Copy, PartialEq, Eq)]
pub enum Scoring {
    /// True verdicts of verdict list `verdicts` over all of them; `when_empty` without verdicts.
    Share { verdicts: usize, when_empty: Ratio },
    /// False verdicts of verdict list `verdicts` over all of them; zero without verdicts.
    FalseShare { verdicts: usize },
    /// Answer accuracy F1 from the verdicts "answer claim matched" and "reference claim covered".
    F1 { matched: usize, covered: usize },
    /// Recall of the entities of list `reference` among those of list `contexts`.
    Entities { reference: usize, contexts: usize },
}

/// The views of string lists.
pub open spec fn lists_v(lists: Seq<Vec<String>>) -> Seq<Seq<Seq<char>>> {
    lists.map_values(|l: Vec<String>| sv(l@))
}

/// The views of verdict lists.
pub open spec fn verdicts_v(v: Seq<Vec<bool>>) -> Seq<Seq<bool>> {
    v.map_values(|l: Vec<bool>| l@)
}

/// The score of a finished run.
pub open spec fn final_score(scoring: Scoring, lists: Seq<Seq<Seq<char>>>, verdicts: Seq<Seq<bool>>) -> Ratio {
    match scoring {
        Scoring::Share { verdicts: v, when_empty } => share(count_true(verdicts[v as int]), verdicts[v as int].len(), when_empty),
        Scoring::FalseShare { verdicts: v } => share(
            (verdicts[v as int].len() - count_true(verdicts[v as int])) as nat,
            verdicts[v as int].len(),
            Ratio { num: 0, den: 1 },
        ),
        Scoring::F1 { matched, covered } => crate::judge::accuracy_f1(
            count_true(verdicts[matched as int]),
            (verdicts[matched as int].len() - count_true(verdicts[matched as int])) as nat,
            (verdicts[covered as int].len() - count_true(verdicts[covered as int])) as nat,
        ),
        Scoring::Entities { reference, contexts } => {
            let entities = crate::judge::distinct_of(lists[reference as int]);
            let found = crate::judge::entities_found(lists[reference as int], lists[contexts as int]);
            share(found.len(), entities.len(), Ratio { num: 1, den: 1 })
        },
    }
}

/// A call to the judge model: a prompt template and its variables.
#[derive(Debug)]
pub struct JudgeCall {
    /// Prompt template name.
    pub prompt_name: String,
    /// Template variables.
    pub vars: Vec<(String, Json)>,
}

/// What the runner does next.
#[derive(Debug)]
pub enum JudgeStep {
    /// Send this call and hand the reply to [`JudgeRun::on_reply`].
    Call(JudgeCall),
    /// The run is over with this score; `early` when an empty list ended it.
    Done { score: Ratio, early: bool },
}

/// A judge run in progress.
#[derive(Debug)]
pub struct JudgeRun {
    /// The stages, in order.
    pub stages: Vec<Stage>,
    /// How the score is computed.
    pub scoring: Scoring,
    /// String lists: those from the input, then those the stages collect.
    pub lists: Vec<Vec<String>>,
    /// Verdict lists the stages collect.
    pub verdicts: Vec<Vec<bool>>,
    /// The current stage.
    pub stage: usize,
    /// The score when an empty list ended the run early.
    pub stopped: Option<Ratio>,
}

/// The views of stages.
pub open spec fn stages_v(stages: Seq<Stage>) -> Seq<StageV> {
    stages.map_values(|s: Stage| s.v())
}

/// The first stage from `s` on that still has work: verdict stages whose list
/// is fully judged are passed over.
pub open spec fn settle(stages: Seq<StageV>, lists: Seq<Seq<Seq<char>>>, verdicts: Seq<Seq<bool>>, s: int) -> int
    decreases stages.len() - s,
{
    if s < 0 || s >= stages.len() {
        s
    } else {
        match stages[s] {
            StageV::Verdicts { over, into, .. } => if verdicts[into].len() >= lists[over].len() {
                settle(stages, lists, verdicts, s + 1)
            } else {
                s
            },
            _ => s,
        }
    }
}

/// Settling never moves backwards.
pub proof fn lemma_settle_ge(stages: Seq<StageV>, lists: Seq<Seq<Seq<char>>>, verdicts: Seq<Seq<bool>>, s: int)
    requires
        s >= 0,
    ensures
        settle(stages, lists, verdicts, s) >= s,
    decreases stages.len() - s,
{
    if s < stages.len() {
        match stages[s] {
            StageV::Verdicts { over, into, .. } => if verdicts[into].len() >= lists[over].len() {
                lemma_settle_ge(stages, lists, verdicts, s + 1);
            },
            _ => {},
        }
    }
}

/// Settling a settled stage leaves it in place.
pub proof fn lemma_settle_idem(stages: Seq<StageV>, lists: Seq<Seq<Seq<char>>>, verdicts: Seq<Seq<bool>>, s: int)
    ensures
        settle(stages, lists, verdicts, settle(stages, lists, verdicts, s)) == settle(stages, lists, verdicts, s),
    decreases stages.len() - s,
{
    if 0 <= s < stages.len() {
        match stages[s] {
            StageV::Verdicts { over, into, .. } => if verdicts[into].len() >= lists[over].len() {
                lemma_settle_idem(stages, lists, verdicts, s + 1);
            },
            _ => {},
        }
    }
}

/// The value of a template variable.
pub open spec fn var_value(src: VarSourceV, lists: Seq<Seq<Seq<char>>>, item: Seq<char>) -> JsonV {
    match src {
        VarSourceV::Value(j) => j,
        VarSourceV::Joined(i, sep) => JsonV::Str(joined(lists[i], sep)),
        VarSourceV::List(i) => JsonV::Array(lists[i].map_values(|s: Seq<char>| JsonV::Str(s))),
        VarSourceV::Item => JsonV::Str(item),
    }
}

/// The template variables of a call.
pub open spec fn call_vars(vars: Seq<(Seq<char>, VarSourceV)>, lists: Seq<Seq<Seq<char>>>, item: Seq<char>) -> Seq<(Seq<char>, JsonV)> {
    vars.map_values(|e: (Seq<char>, VarSourceV)| (e.0, var_value(e.1, lists, item)))
}

/// The indices a stage uses are in range.
pub open spec fn stage_ok(st: StageV, nl: int, nv: int) -> bool {
    match st {
        StageV::Extract { vars, into, .. } => 0 <= into < nl && vars_ok(vars, nl),
        StageV::Verdicts { vars, over, into, .. } => 0 <= over < nl && 0 <= into < nv && vars_ok(vars, nl),
    }
}

/// The lists the variables name exist.
pub open spec fn vars_ok(vars: Seq<(Seq<char>, VarSourceV)>, nl: int) -> bool {
    forall|k: int| 0 <= k < vars.len() ==> match (#[trigger] vars[k]).1 {
        VarSourceV::Joined(i, _) => 0 <= i < nl,
        VarSourceV::List(i) => 0 <= i < nl,
        _ => true,
    }
}

/// The indices the scoring uses are in range.
pub open spec fn scoring_ok(sc: Scoring, nl: int, nv: int) -> bool {
    match sc {
        Scoring::Share { verdicts, .. } => verdicts < nv,
        Scoring::FalseShare { verdicts } => verdicts < nv,
        Scoring::F1 { matched, covered } => matched < nv && covered < nv,
        Scoring::Entities { reference, contexts } => reference < nl && contexts < nl,
    }
}

impl JudgeRun {
    /// Its stages' views.
    pub open spec fn stages_view(&self) -> Seq<StageV> {
        stages_v(self.stages@)
    }

    /// Its lists' views.
    pub open spec fn lists_view(&self) -> Seq<Seq<Seq<char>>> {
        lists_v(self.lists@)
    }

    /// Its verdicts' views.
    pub open spec fn verdicts_view(&self) -> Seq<Seq<bool>> {
        verdicts_v(self.verdicts@)
    }

    /// Indices in range, and the current stage settled.
    pub open spec fn wf(&self) -> bool {
        &&& forall|k: int| 0 <= k < self.stages@.len() ==> stage_ok(
            #[trigger] self.stages_view()[k],
            self.lists@.len() as int,
            self.verdicts@.len() as int,
        )
        &&& scoring_ok(self.scoring, self.lists@.len() as int, self.verdicts@.len() as int)
        &&& self.stage <= self.stages@.len()
        &&& self.stage == settle(self.stages_view(), self.lists_view(), self.verdicts_view(), self.stage as int)
    }

    /// The score when every stage is done.
    pub open spec fn score_now(&self) -> Ratio {
        final_score(self.scoring, self.lists_view(), self.verdicts_view())
    }

    /// The run is over.
    pub open spec fn is_done(&self) -> bool {
        self.stopped is Some || self.stage >= self.stages@.len()
    }

    /// The call the current stage makes: its prompt and variables, with the
    /// next item to judge for a verdict stage.
    pub open spec fn current_call(&self) -> (Seq<char>, Seq<(Seq<char>, JsonV)>) {
        match self.stages_view()[self.stage as int] {
            StageV::Extract { prompt, vars, .. } => (prompt, call_vars(vars, self.lists_view(), Seq::empty())),
            StageV::Verdicts { prompt, vars, over, into, .. } => (
                prompt,
                call_vars(vars, self.lists_view(), self.lists_view()[over][self.verdicts_view()[into].len() as int]),
            ),
        }
    }
}


fn copy_bools(v: &Vec<bool>) -> (res: Vec<bool>)
    ensures
        res@ == v@,
{
    let mut out: Vec<bool> = Vec::new();
    let mut i: usize = 0;
    while i < v.len()
        invariant
            i <= v@.len(),
            out@ == v@.take(i as int),
        decreases v@.len() - i,
    {
        out.push(v[i]);
        assert(v@.take(i + 1) =~= v@.take(i as int).push(v@[i as int]));
        i = i + 1;
    }
    assert(v@.take(i as int) =~= v@);
    out
}

fn eval_var(src: &VarSource, lists: &Vec<Vec<String>>, item: &String) -> (res: Json)
    requires
        match src.v() {
            VarSourceV::Joined(i, _) => 0 <= i < lists@.len(),
            VarSourceV::List(i) => 0 <= i < lists@.len(),
            _ => true,
        },
    ensures
        res.v() == var_value(src.v(), lists_v(lists@), item@),
{
    match src {
        VarSource::Value(j) => j.copy(),
        VarSource::Joined(i, sep) => {
            assert(lists_v(lists@)[*i as int] == sv(lists@[*i as int]@));
            Json::Str(join(&lists[*i], sep.as_str()))
        },
        VarSource::List(i) => {
            let l = &lists[*i];
            let ghost lv = lists_v(lists@)[*i as int];
            assert(lv == sv(l@));
            let mut out: Vec<Json> = Vec::new();
            let mut k: usize = 0;
            while k < l.len()
                invariant
                    k <= l@.len(),
                    lv == sv(l@),
                    out@.len() == k,
                    forall|m: int| 0 <= m < k ==> (#[trigger] out@[m]).v() == JsonV::Str(l@[m]@),
                decreases l@.len() - k,
            {
                out.push(Json::Str(l[k].clone()));
                k = k + 1;
            }
            let res = Json::Array(out);
            assert(res.v()->Array_0 =~= lv.map_values(|s: Seq<char>| JsonV::Str(s)));
            res
        },
        VarSource::Item => Json::Str(item.clone()),
    }
}

fn eval_vars(vars: &Vec<(String, VarSource)>, lists: &Vec<Vec<String>>, item: &String) -> (res: Vec<(String, Json)>)
    requires
        vars_ok(vars_v(vars@), lists@.len() as int),
    ensures
        crate::prompts::context_v(res@) == call_vars(vars_v(vars@), lists_v(lists@), item@),
{
    let mut out: Vec<(String, Json)> = Vec::new();
    let mut k: usize = 0;
    while k < vars.len()
        invariant
            k <= vars@.len(),
            vars_ok(vars_v(vars@), lists@.len() as int),
            out@.len() == k,
            forall|m: int| 0 <= m < k ==> (#[trigger] out@[m]).0@ == vars@[m].0@
                && out@[m].1.v() == var_value(vars@[m].1.v(), lists_v(lists@), item@),
        decreases vars@.len() - k,
    {
        assert(vars_v(vars@)[k as int] == (vars@[k as int].0@, vars@[k as int].1.v()));
        let v = eval_var(&vars[k].1, lists, item);
        out.push((vars[k].0.clone(), v));
        k = k + 1;
    }
    assert(crate::prompts::context_v(out@) =~= call_vars(vars_v(vars@), lists_v(lists@), item@));
    out
}

impl JudgeRun {
    fn settle_now(&mut self)
        requires
            old(self).stage <= old(self).stages@.len(),
            forall|k: int| 0 <= k < old(self).stages@.len() ==> stage_ok(
                #[trigger] old(self).stages_view()[k],
                old(self).lists@.len() as int,
                old(self).verdicts@.len() as int,
            ),
        ensures
            final(self).stages == old(self).stages,
            final(self).lists == old(self).lists,
            final(self).verdicts == old(self).verdicts,
            final(self).scoring == old(self).scoring,
            final(self).stopped == old(self).stopped,
            final(self).stage as int == settle(old(self).stages_view(), old(self).lists_view(), old(self).verdicts_view(), old(self).stage as int),
            final(self).stage <= final(self).stages@.len(),
    {
        let ghost st = self.stages_view();
        let ghost lv = self.lists_view();
        let ghost vv = self.verdicts_view();
        let ghost target = settle(st, lv, vv, self.stage as int);
        loop
            invariant
                self.stages == old(self).stages,
                self.lists == old(self).lists,
                self.verdicts == old(self).verdicts,
                self.scoring == old(self).scoring,
                self.stopped == old(self).stopped,
                st == self.stages_view(),
                lv == self.lists_view(),
                vv == self.verdicts_view(),
                self.stage <= self.stages@.len(),
                forall|k: int| 0 <= k < self.stages@.len() ==> stage_ok(
                    #[trigger] self.stages_view()[k],
                    self.lists@.len() as int,
                    self.verdicts@.len() as int,
                ),
                settle(st, lv, vv, self.stage as int) == target,
            ensures
                self.stages == old(self).stages,
                self.lists == old(self).lists,
                self.verdicts == old(self).verdicts,
                self.scoring == old(self).scoring,
                self.stopped == old(self).stopped,
                self.stage as int == target,
                self.stage <= self.stages@.len(),
            decreases self.stages@.len() - self.stage,
        {
            if self.stage >= self.stages.len() {
                break;
            }
            let i = self.stage;
            assert(st[i as int] == self.stages@[i as int].v());
            assert(stage_ok(st[i as int], self.lists@.len() as int, self.verdicts@.len() as int));
            let done = match &self.stages[i] {
                Stage::Verdicts { over, into, .. } => {
                    assert(lv[*over as int] == sv(self.lists@[*over as int]@));
                    assert(vv[*into as int] == self.verdicts@[*into as int]@);
                    self.verdicts[*into].len() >= self.lists[*over].len()
                },
                _ => false,
            };
            if !done {
                break;
            }
            self.stage = i + 1;
        }
    }

    /// What the runner does next: the call of the current stage, or the end
    /// with the score.
    pub fn next(&self) -> (res: JudgeStep)
        requires
            self.wf(),
        ensures
            match self.stopped {
                Some(s) => res == JudgeStep::Done { score: s, early: true },
                None => if self.stage >= self.stages@.len() {
                    res == JudgeStep::Done { score: self.score_now(), early: false }
                } else {
                    res matches JudgeStep::Call(c) && (c.prompt_name@, crate::prompts::context_v(c.vars@)) == self.current_call()
                },
            },
    {
        if let Some(s) = self.stopped {
            return JudgeStep::Done { score: s, early: true };
        }
        if self.stage >= self.stages.len() {
            return JudgeStep::Done { score: self.compute_score(), early: false };
        }
        let i = self.stage;
        assert(self.stages_view()[i as int] == self.stages@[i as int].v());
        assert(stage_ok(self.stages_view()[i as int], self.lists@.len() as int, self.verdicts@.len() as int));
        match &self.stages[i] {
            Stage::Extract { prompt, vars, .. } => {
                let empty = String::new();
                let vs = eval_vars(vars, &self.lists, &empty);
                JudgeStep::Call(JudgeCall { prompt_name: prompt.clone(), vars: vs })
            },
            Stage::Verdicts { prompt, vars, over, into, .. } => {
                proof {
                    lemma_settle_ge(self.stages_view(), self.lists_view(), self.verdicts_view(), self.stage + 1);
                }
                assert(self.settle_stops_here());
                let k = self.verdicts[*into].len();
                let item = &self.lists[*over][k];
                assert(self.lists_view()[*over as int][k as int] == item@);
                let vs = eval_vars(vars, &self.lists, item);
                JudgeStep::Call(JudgeCall { prompt_name: prompt.clone(), vars: vs })
            },
        }
    }

    /// At a settled, unfinished verdict stage an item is left to judge.
    pub open spec fn settle_stops_here(&self) -> bool {
        self.stage < self.stages@.len() ==> match self.stages_view()[self.stage as int] {
            StageV::Verdicts { over, into, .. } => self.verdicts_view()[into].len() < self.lists_view()[over].len(),
            _ => true,
        }
    }

    fn compute_score(&self) -> (res: Ratio)
        requires
            scoring_ok(self.scoring, self.lists@.len() as int, self.verdicts@.len() as int),
        ensures
            res == self.score_now(),
    {
        match self.scoring {
            Scoring::Share { verdicts, when_empty } => {
                let v = &self.verdicts[verdicts];
                assert(self.verdicts_view()[verdicts as int] == v@);
                share_of(count_verdicts(v.as_slice()), v.len(), when_empty)
            },
            Scoring::FalseShare { verdicts } => {
                let v = &self.verdicts[verdicts];
                assert(self.verdicts_view()[verdicts as int] == v@);
                let c = count_verdicts(v.as_slice());
                proof {
                    crate::judge::lemma_count_true_bounded(v@);
                }
                share_of(v.len() - c, v.len(), Ratio::zero())
            },
            Scoring::F1 { matched, covered } => {
                assert(self.verdicts_view()[matched as int] == self.verdicts@[matched as int]@);
                assert(self.verdicts_view()[covered as int] == self.verdicts@[covered as int]@);
                answer_accuracy_score(self.verdicts[matched].as_slice(), self.verdicts[covered].as_slice())
            },
            Scoring::Entities { reference, contexts } => {
                assert(self.lists_view()[reference as int] == sv(self.lists@[reference as int]@));
                assert(self.lists_view()[contexts as int] == sv(self.lists@[contexts as int]@));
                let r = context_entities_recall(self.lists[reference].as_slice(), self.lists[contexts].as_slice());
                r.score
            },
        }
    }

    /// The counts behind an answer-accuracy score: true positives (answer
    /// claims found in the reference), false positives (answer claims not
    /// found) and false negatives (reference claims the answer does not
    /// cover); `None` for a run scored otherwise.
    pub fn f1_counts(&self) -> (res: Option<(usize, usize, usize)>)
        requires
            scoring_ok(self.scoring, self.lists@.len() as int, self.verdicts@.len() as int),
        ensures
            match self.scoring {
                Scoring::F1 { matched, covered } => res == Some((
                    count_true(self.verdicts_view()[matched as int]) as usize,
                    (self.verdicts_view()[matched as int].len() - count_true(self.verdicts_view()[matched as int])) as usize,
                    (self.verdicts_view()[covered as int].len() - count_true(self.verdicts_view()[covered as int])) as usize,
                )),
                _ => res is None,
            },
    {
        match self.scoring {
            Scoring::F1 { matched, covered } => {
                let m = &self.verdicts[matched];
                let c = &self.verdicts[covered];
                assert(self.verdicts_view()[matched as int] == m@);
                assert(self.verdicts_view()[covered as int] == c@);
                let tp = count_verdicts(m.as_slice());
                let covered_count = count_verdicts(c.as_slice());
                Some((tp, m.len() - tp, c.len() - covered_count))
            },
            _ => None,
        }
    }

    /// Takes the reply to the current call: a list for an extract stage, a
    /// verdict for a verdict stage; then moves to the next stage with work.
    /// A reply that cannot be read leaves the run as it was.
    pub fn on_reply(&mut self, reply: &str) -> (res: Result<(), EvalError>)
        requires
            old(self).wf(),
            !old(self).is_done(),
        ensures
            final(self).wf(),
            final(self).stages == old(self).stages,
            final(self).scoring == old(self).scoring,
            match old(self).stages_view()[old(self).stage as int] {
                StageV::Extract { key, lowercase, into, stop_if_empty, .. } => match list_reading(reply@, key, lowercase) {
                    None => res matches Err(EvalError::JudgeParseFailed(_)) && *final(self) == *old(self),
                    Some(l) => {
                        &&& res is Ok
                        &&& final(self).lists_view() == old(self).lists_view().update(into, l)
                        &&& final(self).verdicts_view() == old(self).verdicts_view()
                        &&& final(self).stopped == (if l.len() == 0 { stop_if_empty } else { None })
                        &&& final(self).stage == settle(old(self).stages_view(), final(self).lists_view(), final(self).verdicts_view(), old(self).stage + 1)
                    },
                },
                StageV::Verdicts { fields, into, .. } => match verdict_reading(reply@, fields) {
                    None => res matches Err(EvalError::JudgeParseFailed(_)) && *final(self) == *old(self),
                    Some(b) => {
                        &&& res is Ok
                        &&& final(self).lists_view() == old(self).lists_view()
                        &&& final(self).verdicts_view() == old(self).verdicts_view().update(into, old(self).verdicts_view()[into].push(b))
                        &&& final(self).stopped is None
                        &&& final(self).stage == settle(old(self).stages_view(), final(self).lists_view(), final(self).verdicts_view(), old(self).stage as int)
                    },
                },
            },
    {
        let i = self.stage;
        let n = self.stages.len();
        assert(i < n);
        assert(self.stages_view()[i as int] == self.stages@[i as int].v());
        assert(stage_ok(self.stages_view()[i as int], self.lists@.len() as int, self.verdicts@.len() as int));
        let ghost old_lists = self.lists_view();
        let ghost old_verdicts = self.verdicts_view();
        let ghost st = self.stages_view();
        let is_extract = match &self.stages[i] {
            Stage::Extract { .. } => true,
            _ => false,
        };
        if is_extract {
            let (l, into, stop) = match &self.stages[i] {
                Stage::Extract { key, lowercase, into, stop_if_empty, .. } => {
                    let l = read_list(reply, key.as_str(), *lowercase)?;
                    (l, *into, *stop_if_empty)
                },
                _ => {
                    assert(false);
                    return Err(EvalError::Internal(String::new()));
                },
            };
            let empty = l.len() == 0;
            self.lists.set(into, l);
            assert(self.lists_view() =~= old_lists.update(into as int, self.lists_view()[into as int]));
            self.stopped = if empty { stop } else { None };
            self.stage = i + 1;
            self.settle_now();
        } else {
            let (b, into) = match &self.stages[i] {
                Stage::Verdicts { fields, into, .. } => {
                    let mut fs: Vec<&str> = Vec::new();
                    let mut k: usize = 0;
                    while k < fields.len()
                        invariant
                            k <= fields@.len(),
                            fs@.len() == k,
                            strs_v(fs@) == sv(fields@).take(k as int),
                        decreases fields@.len() - k,
                    {
                        let f = fields[k].as_str();
                        let ghost prev = fs@;
                        fs.push(f);
                        assert(strs_v(fs@) =~= sv(fields@).take(k + 1)) by {
                            assert(fs@ == prev.push(f));
                            assert forall|m: int| 0 <= m < k implies fs@[m]@ == fields@[m]@ by {
                                assert(strs_v(prev)[m] == sv(fields@).take(k as int)[m]);
                            }
                        }
                        k = k + 1;
                    }
                    assert(sv(fields@).take(k as int) =~= sv(fields@));
                    let b = read_verdict(reply, fs.as_slice())?;
                    (b, *into)
                },
                _ => {
                    assert(false);
                    return Err(EvalError::Internal(String::new()));
                },
            };
            let mut v = copy_bools(&self.verdicts[into]);
            v.push(b);
            self.verdicts.set(into, v);
            assert(self.verdicts_view() =~= old_verdicts.update(into as int, old_verdicts[into as int].push(b)));
            self.settle_now();
        }
        proof {
            lemma_settle_idem(st, self.lists_view(), self.verdicts_view(), if is_extract { i + 1 } else { i as int });
        }
        Ok(())
    }
}


/// Member `key` of an input as a string.
pub open spec fn input_str(input: JsonV, key: Seq<char>) -> Option<Seq<char>> {
    match input.get(key) {
        Some(JsonV::Str(s)) => Some(s),
        _ => None,
    }
}

/// Member `key` of an input as a list of strings: the string items of an array.
pub open spec fn input_list(input: JsonV, key: Seq<char>) -> Option<Seq<Seq<char>>> {
    match input.get(key) {
        Some(JsonV::Array(items)) => Some(strings_of(items, false)),
        _ => None,
    }
}

pub(crate) fn read_text(input: &Json, key: &str) -> (res: Result<String, EvalError>)
    ensures
        match input_str(input.v(), key@) {
            Some(s) => res matches Ok(t) && t@ == s,
            None => res matches Err(EvalError::InvalidParams(_)),
        },
{
    match input.get(key) {
        Some(Json::Str(s)) => Ok(s.clone()),
        _ => Err(EvalError::InvalidParams(owned("缺少 ").concat(key).concat(" 字段"))),
    }
}

pub(crate) fn read_texts(input: &Json, key: &str) -> (res: Result<Vec<String>, EvalError>)
    ensures
        match input_list(input.v(), key@) {
            Some(l) => res matches Ok(v) && sv(v@) == l,
            None => res matches Err(EvalError::InvalidParams(_)),
        },
{
    let items = match input.get(key) {
        Some(Json::Array(items)) => items,
        _ => {
            return Err(EvalError::InvalidParams(owned("缺少 ").concat(key).concat(" 数组")));
        },
    };
    let ghost iv = input.v().get(key@)->Some_0->Array_0;
    let mut out: Vec<String> = Vec::new();
    let mut i: usize = 0;
    while i < items.len()
        invariant
            i <= items@.len() == iv.len(),
            forall|k: int| 0 <= k < items@.len() ==> #[trigger] iv[k] == items@[k].v(),
            sv(out@) == strings_of(iv.take(i as int), false),
        decreases items@.len() - i,
    {
        assert(iv.take(i + 1).drop_last() =~= iv.take(i as int));
        assert(iv.take(i + 1).last() == items@[i as int].v());
        let ghost before = out@;
        match &items[i] {
            Json::Str(s) => {
                out.push(s.clone());
                assert(sv(out@) =~= sv(before).push(s@));
            },
            _ => {},
        }
        i = i + 1;
    }
    assert(iv.take(i as int) =~= iv);
    Ok(out)
}

fn var(name: &str, source: VarSource) -> (res: (String, VarSource))
    ensures
        res.0@ == name@,
        res.1 == source,
{
    (owned(name), source)
}

fn strings(items: Vec<&str>) -> (res: Vec<String>)
    ensures
        sv(res@) == strs_v(items@),
{
    let mut out: Vec<String> = Vec::new();
    let mut i: usize = 0;
    while i < items.len()
        invariant
            i <= items@.len(),
            sv(out@) == strs_v(items@).take(i as int),
        decreases items@.len() - i,
    {
        let ghost before = out@;
        out.push(owned(items[i]));
        assert(sv(out@) =~= strs_v(items@).take(i + 1)) by {
            assert(sv(out@) =~= sv(before).push(items@[i as int]@));
        }
        i = i + 1;
    }
    assert(strs_v(items@).take(i as int) =~= strs_v(items@));
    out
}

fn empty_lists(n: usize) -> (res: Vec<Vec<String>>)
    ensures
        lists_v(res@) == Seq::new(n as nat, |i: int| Seq::<Seq<char>>::empty()),
        res@.len() == n,
{
    let mut out: Vec<Vec<String>> = Vec::new();
    let mut i: usize = 0;
    while i < n
        invariant
            i <= n,
            out@.len() == i,
            forall|k: int| 0 <= k < i ==> (#[trigger] out@[k])@.len() == 0,
        decreases n - i,
    {
        out.push(Vec::new());
        i = i + 1;
    }
    assert(lists_v(out@) =~= Seq::new(n as nat, |i: int| Seq::<Seq<char>>::empty())) by {
        assert forall|k: int| 0 <= k < n implies lists_v(out@)[k] =~= Seq::<Seq<char>>::empty() by {
            assert(sv(out@[k]@).len() == 0);
        }
    }
    out
}

fn empty_verdicts(n: usize) -> (res: Vec<Vec<bool>>)
    ensures
        verdicts_v(res@) == Seq::new(n as nat, |i: int| Seq::<bool>::empty()),
        res@.len() == n,
{
    let mut out: Vec<Vec<bool>> = Vec::new();
    let mut i: usize = 0;
    while i < n
        invariant
            i <= n,
            out@.len() == i,
            forall|k: int| 0 <= k < i ==> (#[trigger] out@[k])@.len() == 0,
        decreases n - i,
    {
        out.push(Vec::new());
        i = i + 1;
    }
    assert(verdicts_v(out@) =~= Seq::new(n as nat, |i: int| Seq::<bool>::empty())) by {
        assert forall|k: int| 0 <= k < n implies verdicts_v(out@)[k] =~= Seq::<bool>::empty() by {}
    }
    out
}

impl JudgeRun {
    /// A run at its first stage with work.
    fn start(stages: Vec<Stage>, scoring: Scoring, lists: Vec<Vec<String>>, verdicts: Vec<Vec<bool>>) -> (res: JudgeRun)
        requires
            forall|k: int| 0 <= k < stages@.len() ==> stage_ok(
                #[trigger] stages_v(stages@)[k],
                lists@.len() as int,
                verdicts@.len() as int,
            ),
            scoring_ok(scoring, lists@.len() as int, verdicts@.len() as int),
        ensures
            res.wf(),
            res.stages == stages,
            res.scoring == scoring,
            res.lists == lists,
            res.verdicts == verdicts,
            res.stopped is None,
            res.stage == settle(stages_v(stages@), lists_v(lists@), verdicts_v(verdicts@), 0),
    {
        let mut run = JudgeRun { stages, scoring, lists, verdicts, stage: 0, stopped: None };
        run.settle_now();
        proof {
            lemma_settle_idem(run.stages_view(), run.lists_view(), run.verdicts_view(), 0);
        }
        run
    }
}

/// One as a fraction.
pub open spec fn one() -> Ratio {
    Ratio { num: 1, den: 1 }
}

/// Zero as a fraction.
pub open spec fn zero() -> Ratio {
    Ratio { num: 0, den: 1 }
}

/// The stages of faithfulness: claims of the answer, then whether the context supports each.
pub open spec fn faithfulness_stages(context: Seq<char>, answer: Seq<char>) -> Seq<StageV> {
    seq![
        StageV::Extract {
            prompt: "faithfulness_extract_claims"@,
            vars: seq![("answer"@, VarSourceV::Value(JsonV::Str(answer)))],
            key: "claims"@,
            lowercase: false,
            into: 0,
            stop_if_empty: Some(one()),
        },
        StageV::Verdicts {
            prompt: "faithfulness_verify_claim"@,
            vars: seq![("context"@, VarSourceV::Value(JsonV::Str(context))), ("claim"@, VarSourceV::Item)],
            over: 0,
            fields: seq!["verdict"@],
            into: 0,
        },
    ]
}

/// A faithfulness run for an input with `question`, `context` and `answer`:
/// supported claims over all claims, one without claims.
pub fn faithfulness_run(input: &Json) -> (res: Result<JudgeRun, EvalError>)
    ensures
        match (input_str(input.v(), "question"@), input_str(input.v(), "context"@), input_str(input.v(), "answer"@)) {
            (Some(_), Some(c), Some(a)) => res matches Ok(r) && {
                &&& r.wf() && r.stage == 0 && r.stopped is None
                &&& r.stages_view() == faithfulness_stages(c, a)
                &&& r.scoring == (Scoring::Share { verdicts: 0, when_empty: one() })
                &&& r.lists_view() == seq![Seq::<Seq<char>>::empty()]
                &&& r.verdicts_view() == seq![Seq::<bool>::empty()]
            },
            _ => res matches Err(EvalError::InvalidParams(_)),
        },
{
    let _question = read_text(input, "question")?;
    let context = read_text(input, "context")?;
    let answer = read_text(input, "answer")?;
    let ghost (c, a) = (context@, answer@);
    let v0 = vec![var("answer", VarSource::Value(Json::Str(answer)))];
    assert(vars_v(v0@) =~= seq![("answer"@, VarSourceV::Value(JsonV::Str(a)))]);
    let s0 = Stage::Extract {
        prompt: owned("faithfulness_extract_claims"),
        vars: v0,
        key: owned("claims"),
        lowercase: false,
        into: 0,
        stop_if_empty: Some(Ratio::one()),
    };
    let v1 = vec![var("context", VarSource::Value(Json::Str(context))), var("claim", VarSource::Item)];
    assert(vars_v(v1@) =~= seq![("context"@, VarSourceV::Value(JsonV::Str(c))), ("claim"@, VarSourceV::Item)]);
    let f1 = vec!["verdict"];
    assert(strs_v(f1@) =~= seq!["verdict"@]);
    let s1 = Stage::Verdicts { prompt: owned("faithfulness_verify_claim"), vars: v1, over: 0, fields: strings(f1), into: 0 };
    let stages = vec![s0, s1];
    assert(stages_v(stages@) =~= faithfulness_stages(c, a));
    let run = JudgeRun::start(stages, Scoring::Share { verdicts: 0, when_empty: Ratio::one() }, empty_lists(1), empty_verdicts(1));
    assert(run.lists_view() =~= seq![Seq::<Seq<char>>::empty()]);
    assert(run.verdicts_view() =~= seq![Seq::<bool>::empty()]);
    Ok(run)
}


/// The character of a decimal digit.
pub open spec fn digit_char(d: nat) -> char {
    (('0' as u32) + d) as char
}

/// The decimal digits of a number.
pub open spec fn dec_digits(n: nat) -> Seq<char>
    decreases n,
{
    if n < 10 {
        seq![digit_char(n)]
    } else {
        dec_digits(n / 10).push(digit_char(n % 10))
    }
}

fn digit_str(d: u32) -> (res: &'static str)
    requires
        d < 10,
    ensures
        res@ == seq![digit_char(d as nat)],
{
    proof {
        reveal_strlit("0");
        reveal_strlit("1");
        reveal_strlit("2");
        reveal_strlit("3");
        reveal_strlit("4");
        reveal_strlit("5");
        reveal_strlit("6");
        reveal_strlit("7");
        reveal_strlit("8");
        reveal_strlit("9");
    }
    if d == 0 {
        "0"
    } else if d == 1 {
        "1"
    } else if d == 2 {
        "2"
    } else if d == 3 {
        "3"
    } else if d == 4 {
        "4"
    } else if d == 5 {
        "5"
    } else if d == 6 {
        "6"
    } else if d == 7 {
        "7"
    } else if d == 8 {
        "8"
    } else {
        "9"
    }
}

/// The decimal text of a number.
pub fn u32_text(n: u32) -> (res: String)
    ensures
        res@ == dec_digits(n as nat),
    decreases n,
{
    if n < 10 {
        owned(digit_str(n))
    } else {
        let mut t = u32_text(n / 10);
        t.append(digit_str(n % 10));
        t
    }
}

/// The decimal text of a 64-bit number.
pub fn u64_text(n: u64) -> (res: String)
    ensures
        res@ == dec_digits(n as nat),
    decreases n,
{
    if n < 10 {
        owned(digit_str(n as u32))
    } else {
        let mut t = u64_text(n / 10);
        t.append(digit_str((n % 10) as u32));
        t
    }
}

/// The stages of answer relevancy: `n` questions generated from the answer,
/// then whether each matches the original question.
pub open spec fn answer_relevancy_stages(question: Seq<char>, answer: Seq<char>, n: u32) -> Seq<StageV> {
    seq![
        StageV::Extract {
            prompt: "answer_relevancy_generate_questions"@,
            vars: seq![("answer"@, VarSourceV::Value(JsonV::Str(answer))), ("n"@, VarSourceV::Value(JsonV::Number(dec_digits(n as nat))))],
            key: "questions"@,
            lowercase: false,
            into: 0,
            stop_if_empty: Some(zero()),
        },
        StageV::Verdicts {
            prompt: "answer_relevancy_match"@,
            vars: seq![("original"@, VarSourceV::Value(JsonV::Str(question))), ("generated"@, VarSourceV::Item)],
            over: 0,
            fields: seq!["match"@, "verdict"@],
            into: 0,
        },
    ]
}

/// The number `n` of questions that answer relevancy generates: the input's
/// field `n`, else the parameter `n`, else 3; a `u64` number cut to 32 bits.
pub open spec fn questions_param(params: JsonV, input: JsonV) -> u32 {
    match crate::metrics::param_u64(input, "n"@) {
        Some(n) => n as u32,
        None => match crate::metrics::param_u64(params, "n"@) {
            Some(n) => n as u32,
            None => 3,
        },
    }
}

/// An answer relevancy run for an input with `question` and `answer`:
/// matching generated questions over all of them, zero without any.
pub fn answer_relevancy_run(params: &Json, input: &Json) -> (res: Result<JudgeRun, EvalError>)
    ensures
        match (input_str(input.v(), "question"@), input_str(input.v(), "answer"@)) {
            (Some(q), Some(a)) => res matches Ok(r) && {
                &&& r.wf() && r.stage == 0 && r.stopped is None
                &&& r.stages_view() == answer_relevancy_stages(q, a, questions_param(params.v(), input.v()))
                &&& r.scoring == (Scoring::Share { verdicts: 0, when_empty: zero() })
                &&& r.lists_view() == seq![Seq::<Seq<char>>::empty()]
                &&& r.verdicts_view() == seq![Seq::<bool>::empty()]
            },
            _ => res matches Err(EvalError::InvalidParams(_)),
        },
{
    let n: u32 = match crate::metrics::get_u64(input, "n") {
        Some(n) => n as u32,
        None => match crate::metrics::get_u64(params, "n") {
            Some(n) => n as u32,
            None => 3,
        },
    };
    let question = read_text(input, "question")?;
    let answer = read_text(input, "answer")?;
    let ghost (q, a) = (question@, answer@);
    let v0 = vec![var("answer", VarSource::Value(Json::Str(answer))), var("n", VarSource::Value(Json::Number(u32_text(n))))];
    assert(vars_v(v0@) =~= seq![("answer"@, VarSourceV::Value(JsonV::Str(a))), ("n"@, VarSourceV::Value(JsonV::Number(dec_digits(n as nat))))]);
    let s0 = Stage::Extract {
        prompt: owned("answer_relevancy_generate_questions"),
        vars: v0,
        key: owned("questions"),
        lowercase: false,
        into: 0,
        stop_if_empty: Some(Ratio::zero()),
    };
    let v1 = vec![var("original", VarSource::Value(Json::Str(question))), var("generated", VarSource::Item)];
    assert(vars_v(v1@) =~= seq![("original"@, VarSourceV::Value(JsonV::Str(q))), ("generated"@, VarSourceV::Item)]);
    let f1 = vec!["match", "verdict"];
    assert(strs_v(f1@) =~= seq!["match"@, "verdict"@]);
    let s1 = Stage::Verdicts { prompt: owned("answer_relevancy_match"), vars: v1, over: 0, fields: strings(f1), into: 0 };
    let stages = vec![s0, s1];
    assert(stages_v(stages@) =~= answer_relevancy_stages(q, a, n));
    let run = JudgeRun::start(stages, Scoring::Share { verdicts: 0, when_empty: Ratio::zero() }, empty_lists(1), empty_verdicts(1));
    assert(run.lists_view() =~= seq![Seq::<Seq<char>>::empty()]);
    assert(run.verdicts_view() =~= seq![Seq::<bool>::empty()]);
    Ok(run)
}

/// The stages of context recall: claims of the reference, then whether the
/// joined contexts (list 0) support each.
pub open spec fn context_recall_stages(reference: Seq<char>) -> Seq<StageV> {
    seq![
        StageV::Extract {
            prompt: "context_recall_extract_claims"@,
            vars: seq![("reference"@, VarSourceV::Value(JsonV::Str(reference)))],
            key: "claims"@,
            lowercase: false,
            into: 1,
            stop_if_empty: Some(one()),
        },
        StageV::Verdicts {
            prompt: "context_recall_verify_claim"@,
            vars: seq![("contexts"@, VarSourceV::Joined(0, "\n---\n"@)), ("claim"@, VarSourceV::Item)],
            over: 1,
            fields: seq!["verdict"@, "supported"@],
            into: 0,
        },
    ]
}

fn lists_with(first: Vec<String>, extra: usize) -> (res: Vec<Vec<String>>)
    ensures
        res@.len() == extra + 1,
        lists_v(res@) == seq![sv(first@)] + Seq::new(extra as nat, |i: int| Seq::<Seq<char>>::empty()),
{
    let ghost f = sv(first@);
    let mut out: Vec<Vec<String>> = vec![first];
    let mut i: usize = 0;
    while i < extra
        invariant
            i <= extra,
            out@.len() == i + 1,
            lists_v(out@) == seq![f] + Seq::new(i as nat, |k: int| Seq::<Seq<char>>::empty()),
        decreases extra - i,
    {
        let ghost before = out@;
        let e: Vec<String> = Vec::new();
        assert(sv(e@) =~= Seq::<Seq<char>>::empty());
        out.push(e);
        assert(lists_v(out@) =~= seq![f] + Seq::new((i + 1) as nat, |k: int| Seq::<Seq<char>>::empty())) by {
            assert(lists_v(out@) =~= lists_v(before).push(Seq::<Seq<char>>::empty()));
        }
        i = i + 1;
    }
    out
}

/// A context recall run for an input with `question`, `reference` and
/// `contexts`: supported reference claims over all of them, one without claims.
pub fn context_recall_run(input: &Json) -> (res: Result<JudgeRun, EvalError>)
    ensures
        match (input_str(input.v(), "question"@), input_str(input.v(), "reference"@), input_list(input.v(), "contexts"@)) {
            (Some(_), Some(r), Some(c)) => res matches Ok(run) && {
                &&& run.wf() && run.stage == 0 && run.stopped is None
                &&& run.stages_view() == context_recall_stages(r)
                &&& run.scoring == (Scoring::Share { verdicts: 0, when_empty: one() })
                &&& run.lists_view() == seq![c, Seq::<Seq<char>>::empty()]
                &&& run.verdicts_view() == seq![Seq::<bool>::empty()]
            },
            _ => res matches Err(EvalError::InvalidParams(_)),
        },
{
    let _question = read_text(input, "question")?;
    let reference = read_text(input, "reference")?;
    let contexts = read_texts(input, "contexts")?;
    let ghost r = reference@;
    let v0 = vec![var("reference", VarSource::Value(Json::Str(reference)))];
    assert(vars_v(v0@) =~= seq![("reference"@, VarSourceV::Value(JsonV::Str(r)))]);
    let s0 = Stage::Extract {
        prompt: owned("context_recall_extract_claims"),
        vars: v0,
        key: owned("claims"),
        lowercase: false,
        into: 1,
        stop_if_empty: Some(Ratio::one()),
    };
    let v1 = vec![var("contexts", VarSource::Joined(0, owned("\n---\n"))), var("claim", VarSource::Item)];
    assert(vars_v(v1@) =~= seq![("contexts"@, VarSourceV::Joined(0, "\n---\n"@)), ("claim"@, VarSourceV::Item)]);
    let f1 = vec!["verdict", "supported"];
    assert(strs_v(f1@) =~= seq!["verdict"@, "supported"@]);
    let s1 = Stage::Verdicts { prompt: owned("context_recall_verify_claim"), vars: v1, over: 1, fields: strings(f1), into: 0 };
    let stages = vec![s0, s1];
    assert(stages_v(stages@) =~= context_recall_stages(r));
    let lists = lists_with(contexts, 1);
    let run = JudgeRun::start(stages, Scoring::Share { verdicts: 0, when_empty: Ratio::one() }, lists, empty_verdicts(1));
    assert(run.lists_view() =~= seq![input_list(input.v(), "contexts"@)->Some_0, Seq::<Seq<char>>::empty()]);
    assert(run.verdicts_view() =~= seq![Seq::<bool>::empty()]);
    Ok(run)
}

/// The stage of context relevancy: whether each context chunk (list 0) is
/// relevant to the question.
pub open spec fn context_relevancy_stages(question: Seq<char>) -> Seq<StageV> {
    seq![
        StageV::Verdicts {
            prompt: "chunk_relevance"@,
            vars: seq![("question"@, VarSourceV::Value(JsonV::Str(question))), ("chunk"@, VarSourceV::Item)],
            over: 0,
            fields: seq!["verdict"@, "relevant"@],
            into: 0,
        },
    ]
}

/// A context relevancy run for an input with `question` and `contexts`:
/// relevant chunks over all chunks, zero without chunks.
pub fn context_relevancy_run(input: &Json) -> (res: Result<JudgeRun, EvalError>)
    ensures
        match (input_str(input.v(), "question"@), input_list(input.v(), "contexts"@)) {
            (Some(q), Some(c)) => res matches Ok(run) && {
                &&& run.wf() && run.stopped is None
                &&& run.stage == (if c.len() == 0 { 1int } else { 0 })
                &&& run.stages_view() == context_relevancy_stages(q)
                &&& run.scoring == (Scoring::Share { verdicts: 0, when_empty: zero() })
                &&& run.lists_view() == seq![c]
                &&& run.verdicts_view() == seq![Seq::<bool>::empty()]
            },
            _ => res matches Err(EvalError::InvalidParams(_)),
        },
{
    let question = read_text(input, "question")?;
    let contexts = read_texts(input, "contexts")?;
    let ghost q = question@;
    let v0 = vec![var("question", VarSource::Value(Json::Str(question))), var("chunk", VarSource::Item)];
    assert(vars_v(v0@) =~= seq![("question"@, VarSourceV::Value(JsonV::Str(q))), ("chunk"@, VarSourceV::Item)]);
    let f0 = vec!["verdict", "relevant"];
    assert(strs_v(f0@) =~= seq!["verdict"@, "relevant"@]);
    let s0 = Stage::Verdicts { prompt: owned("chunk_relevance"), vars: v0, over: 0, fields: strings(f0), into: 0 };
    let stages = vec![s0];
    assert(stages_v(stages@) =~= context_relevancy_stages(q));
    let lists = lists_with(contexts, 0);
    let run = JudgeRun::start(stages, Scoring::Share { verdicts: 0, when_empty: Ratio::zero() }, lists, empty_verdicts(1));
    assert(run.lists_view() =~= seq![input_list(input.v(), "contexts"@)->Some_0]);
    assert(run.verdicts_view() =~= seq![Seq::<bool>::empty()]);
    proof {
        let st = run.stages_view();
        if run.lists_view()[0].len() == 0 {
            assert(settle(st, run.lists_view(), run.verdicts_view(), 1) == 1);
        }
    }
    Ok(run)
}

/// The stages of context entities recall: lower-cased entities of the
/// reference (list 1) and of the joined contexts (list 2).
pub open spec fn context_entities_stages(reference: Seq<char>) -> Seq<StageV> {
    seq![
        StageV::Extract {
            prompt: "entity_extraction"@,
            vars: seq![("text"@, VarSourceV::Value(JsonV::Str(reference)))],
            key: "entities"@,
            lowercase: true,
            into: 1,
            stop_if_empty: None,
        },
        StageV::Extract {
            prompt: "entity_extraction"@,
            vars: seq![("text"@, VarSourceV::Joined(0, "\n---\n"@))],
            key: "entities"@,
            lowercase: true,
            into: 2,
            stop_if_empty: None,
        },
    ]
}

/// A context entities recall run for an input with `reference` and
/// `contexts`: reference entities found among the context entities over all
/// reference entities, one without any.
pub fn context_entities_recall_run(input: &Json) -> (res: Result<JudgeRun, EvalError>)
    ensures
        match (input_str(input.v(), "reference"@), input_list(input.v(), "contexts"@)) {
            (Some(r), Some(c)) => res matches Ok(run) && {
                &&& run.wf() && run.stage == 0 && run.stopped is None
                &&& run.stages_view() == context_entities_stages(r)
                &&& run.scoring == (Scoring::Entities { reference: 1, contexts: 2 })
                &&& run.lists_view() == seq![c, Seq::<Seq<char>>::empty(), Seq::<Seq<char>>::empty()]
                &&& run.verdicts_view().len() == 0
                &&& run.current_call() == ("entity_extraction"@, seq![("text"@, JsonV::Str(r))])
                &&& (run.stages_view()[1] matches StageV::Extract { prompt, vars, into, .. } && prompt == "entity_extraction"@
                    && into == 2 && call_vars(vars, run.lists_view(), Seq::empty()) == seq![("text"@, JsonV::Str(joined(c, "\n---\n"@)))])
            },
            _ => res matches Err(EvalError::InvalidParams(_)),
        },
{
    let reference = read_text(input, "reference")?;
    let contexts = read_texts(input, "contexts")?;
    let ghost r = reference@;
    let v0 = vec![var("text", VarSource::Value(Json::Str(reference)))];
    assert(vars_v(v0@) =~= seq![("text"@, VarSourceV::Value(JsonV::Str(r)))]);
    let s0 = Stage::Extract {
        prompt: owned("entity_extraction"),
        vars: v0,
        key: owned("entities"),
        lowercase: true,
        into: 1,
        stop_if_empty: None,
    };
    let v1 = vec![var("text", VarSource::Joined(0, owned("\n---\n")))];
    assert(vars_v(v1@) =~= seq![("text"@, VarSourceV::Joined(0, "\n---\n"@))]);
    let s1 = Stage::Extract {
        prompt: owned("entity_extraction"),
        vars: v1,
        key: owned("entities"),
        lowercase: true,
        into: 2,
        stop_if_empty: None,
    };
    let stages = vec![s0, s1];
    assert(stages_v(stages@) =~= context_entities_stages(r));
    let lists = lists_with(contexts, 2);
    let run = JudgeRun::start(stages, Scoring::Entities { reference: 1, contexts: 2 }, lists, empty_verdicts(0));
    assert(run.lists_view() =~= seq![input_list(input.v(), "contexts"@)->Some_0, Seq::<Seq<char>>::empty(), Seq::<Seq<char>>::empty()]);
    proof {
        law_entities_calls(run, r, input_list(input.v(), "contexts"@)->Some_0);
    }
    Ok(run)
}

/// The calls of a context entities recall run: at the first stage the judge
/// is asked for the entities of the reference; at the second, after those
/// are read, for the entities of the contexts joined by `\n---\n` (list 0),
/// which the first reply leaves in place.
pub proof fn law_entities_calls(run: JudgeRun, reference: Seq<char>, contexts: Seq<Seq<char>>)
    requires
        run.stages_view() == context_entities_stages(reference),
        run.lists_view().len() == 3,
        run.lists_view()[0] == contexts,
    ensures
        run.stage == 0 ==> run.current_call() == ("entity_extraction"@, seq![("text"@, JsonV::Str(reference))]),
        run.stage == 1 ==> run.current_call() == ("entity_extraction"@, seq![("text"@, JsonV::Str(joined(contexts, "\n---\n"@)))]),
        run.stages_view()[1] matches StageV::Extract { prompt, vars, into, .. } && prompt == "entity_extraction"@ && into == 2
            && call_vars(vars, run.lists_view(), Seq::empty()) == seq![("text"@, JsonV::Str(joined(contexts, "\n---\n"@)))],
        forall|l: Seq<Seq<char>>| (#[trigger] run.lists_view().update(1, l))[0] == contexts,
{
    let st = context_entities_stages(reference);
    assert(call_vars(seq![("text"@, VarSourceV::Value(JsonV::Str(reference)))], run.lists_view(), Seq::empty())
        =~= seq![("text"@, JsonV::Str(reference))]);
    assert(call_vars(seq![("text"@, VarSourceV::Joined(0, "\n---\n"@))], run.lists_view(), Seq::empty())
        =~= seq![("text"@, JsonV::Str(joined(contexts, "\n---\n"@)))]);
}

/// The stages of noise sensitivity: claims of the answer, then whether the
/// reference confirms each.
pub open spec fn noise_sensitivity_stages(reference: Seq<char>, answer: Seq<char>) -> Seq<StageV> {
    seq![
        StageV::Extract {
            prompt: "noise_sensitivity_extract_claims"@,
            vars: seq![("response"@, VarSourceV::Value(JsonV::Str(answer)))],
            key: "claims"@,
            lowercase: false,
            into: 0,
            stop_if_empty: Some(zero()),
        },
        StageV::Verdicts {
            prompt: "noise_sensitivity_verify_claim"@,
            vars: seq![("ground_truth"@, VarSourceV::Value(JsonV::Str(reference))), ("claim"@, VarSourceV::Item)],
            over: 0,
            fields: seq!["correct"@],
            into: 0,
        },
    ]
}

/// A noise sensitivity run for an input with `question`, `reference`,
/// `contexts` and `answer`: incorrect claims over all claims, zero without claims.
pub fn noise_sensitivity_run(input: &Json) -> (res: Result<JudgeRun, EvalError>)
    ensures
        match (input_str(input.v(), "question"@), input_str(input.v(), "reference"@), input_list(input.v(), "contexts"@), input_str(input.v(), "answer"@)) {
            (Some(_), Some(r), Some(_), Some(a)) => res matches Ok(run) && {
                &&& run.wf() && run.stage == 0 && run.stopped is None
                &&& run.stages_view() == noise_sensitivity_stages(r, a)
                &&& run.scoring == (Scoring::FalseShare { verdicts: 0 })
                &&& run.lists_view() == seq![Seq::<Seq<char>>::empty()]
                &&& run.verdicts_view() == seq![Seq::<bool>::empty()]
            },
            _ => res matches Err(EvalError::InvalidParams(_)),
        },
{
    let _question = read_text(input, "question")?;
    let reference = read_text(input, "reference")?;
    let _contexts = read_texts(input, "contexts")?;
    let answer = read_text(input, "answer")?;
    let ghost (r, a) = (reference@, answer@);
    let v0 = vec![var("response", VarSource::Value(Json::Str(answer)))];
    assert(vars_v(v0@) =~= seq![("response"@, VarSourceV::Value(JsonV::Str(a)))]);
    let s0 = Stage::Extract {
        prompt: owned("noise_sensitivity_extract_claims"),
        vars: v0,
        key: owned("claims"),
        lowercase: false,
        into: 0,
        stop_if_empty: Some(Ratio::zero()),
    };
    let v1 = vec![var("ground_truth", VarSource::Value(Json::Str(reference))), var("claim", VarSource::Item)];
    assert(vars_v(v1@) =~= seq![("ground_truth"@, VarSourceV::Value(JsonV::Str(r))), ("claim"@, VarSourceV::Item)]);
    let f1 = vec!["correct"];
    assert(strs_v(f1@) =~= seq!["correct"@]);
    let s1 = Stage::Verdicts { prompt: owned("noise_sensitivity_verify_claim"), vars: v1, over: 0, fields: strings(f1), into: 0 };
    let stages = vec![s0, s1];
    assert(stages_v(stages@) =~= noise_sensitivity_stages(r, a));
    let run = JudgeRun::start(stages, Scoring::FalseShare { verdicts: 0 }, empty_lists(1), empty_verdicts(1));
    assert(run.lists_view() =~= seq![Seq::<Seq<char>>::empty()]);
    assert(run.verdicts_view() =~= seq![Seq::<bool>::empty()]);
    Ok(run)
}

/// The stages of the summarization score: key phrases of the reference,
/// questions about them, then whether the summary answers each.
pub open spec fn summarization_stages(summary: Seq<char>, reference: Seq<char>) -> Seq<StageV> {
    seq![
        StageV::Extract {
            prompt: "summarization_extract_keyphrases"@,
            vars: seq![("reference"@, VarSourceV::Value(JsonV::Str(reference)))],
            key: "keyphrases"@,
            lowercase: false,
            into: 0,
            stop_if_empty: Some(zero()),
        },
        StageV::Extract {
            prompt: "summarization_generate_questions"@,
            vars: seq![("keyphrases"@, VarSourceV::List(0))],
            key: "questions"@,
            lowercase: false,
            into: 1,
            stop_if_empty: Some(zero()),
        },
        StageV::Verdicts {
            prompt: "summarization_qa"@,
            vars: seq![("summary"@, VarSourceV::Value(JsonV::Str(summary))), ("question"@, VarSourceV::Item)],
            over: 1,
            fields: seq!["correct"@, "verdict"@],
            into: 0,
        },
    ]
}

/// A summarization score run for an input with `reference` and `summary`:
/// questions answered correctly over all questions, zero without any.
pub fn summarization_score_run(input: &Json) -> (res: Result<JudgeRun, EvalError>)
    ensures
        match (input_str(input.v(), "reference"@), input_str(input.v(), "summary"@)) {
            (Some(r), Some(s)) => res matches Ok(run) && {
                &&& run.wf() && run.stage == 0 && run.stopped is None
                &&& run.stages_view() == summarization_stages(s, r)
                &&& run.scoring == (Scoring::Share { verdicts: 0, when_empty: zero() })
                &&& run.lists_view() == seq![Seq::<Seq<char>>::empty(), Seq::<Seq<char>>::empty()]
                &&& run.verdicts_view() == seq![Seq::<bool>::empty()]
            },
            _ => res matches Err(EvalError::InvalidParams(_)),
        },
{
    let reference = read_text(input, "reference")?;
    let summary = read_text(input, "summary")?;
    let ghost (r, sm) = (reference@, summary@);
    let v0 = vec![var("reference", VarSource::Value(Json::Str(reference)))];
    assert(vars_v(v0@) =~= seq![("reference"@, VarSourceV::Value(JsonV::Str(r)))]);
    let s0 = Stage::Extract {
        prompt: owned("summarization_extract_keyphrases"),
        vars: v0,
        key: owned("keyphrases"),
        lowercase: false,
        into: 0,
        stop_if_empty: Some(Ratio::zero()),
    };
    let v1 = vec![var("keyphrases", VarSource::List(0))];
    assert(vars_v(v1@) =~= seq![("keyphrases"@, VarSourceV::List(0))]);
    let s1 = Stage::Extract {
        prompt: owned("summarization_generate_questions"),
        vars: v1,
        key: owned("questions"),
        lowercase: false,
        into: 1,
        stop_if_empty: Some(Ratio::zero()),
    };
    let v2 = vec![var("summary", VarSource::Value(Json::Str(summary))), var("question", VarSource::Item)];
    assert(vars_v(v2@) =~= seq![("summary"@, VarSourceV::Value(JsonV::Str(sm))), ("question"@, VarSourceV::Item)]);
    let f2 = vec!["correct", "verdict"];
    assert(strs_v(f2@) =~= seq!["correct"@, "verdict"@]);
    let s2 = Stage::Verdicts { prompt: owned("summarization_qa"), vars: v2, over: 1, fields: strings(f2), into: 0 };
    let stages = vec![s0, s1, s2];
    assert(stages_v(stages@) =~= summarization_stages(sm, r));
    let run = JudgeRun::start(stages, Scoring::Share { verdicts: 0, when_empty: Ratio::zero() }, empty_lists(2), empty_verdicts(1));
    assert(run.lists_view() =~= seq![Seq::<Seq<char>>::empty(), Seq::<Seq<char>>::empty()]);
    assert(run.verdicts_view() =~= seq![Seq::<bool>::empty()]);
    Ok(run)
}

/// The stages of answer accuracy: claims of the answer (list 0) and of the
/// reference (list 1), then whether each answer claim is in the reference
/// claims, then whether each reference claim is covered by the answer claims.
pub open spec fn answer_accuracy_stages(question: Seq<char>, reference: Seq<char>, answer: Seq<char>) -> Seq<StageV> {
    seq![
        StageV::Extract {
            prompt: "answer_accuracy_extract_claims"@,
            vars: seq![("answer"@, VarSourceV::Value(JsonV::Str(answer)))],
            key: "claims"@,
            lowercase: false,
            into: 0,
            stop_if_empty: None,
        },
        StageV::Extract {
            prompt: "answer_accuracy_extract_reference_claims"@,
            vars: seq![("reference"@, VarSourceV::Value(JsonV::Str(reference)))],
            key: "claims"@,
            lowercase: false,
            into: 1,
            stop_if_empty: None,
        },
        StageV::Verdicts {
            prompt: "answer_accuracy_match_claim"@,
            vars: seq![
                ("reference_claims"@, VarSourceV::Joined(1, "\n"@)),
                ("question"@, VarSourceV::Value(JsonV::Str(question))),
                ("claim"@, VarSourceV::Item),
            ],
            over: 0,
            fields: seq!["match"@, "verdict"@],
            into: 0,
        },
        StageV::Verdicts {
            prompt: "answer_accuracy_match_ref_claim"@,
            vars: seq![("answer_claims"@, VarSourceV::Joined(0, "\n"@)), ("claim"@, VarSourceV::Item)],
            over: 1,
            fields: seq!["covered"@, "verdict"@],
            into: 1,
        },
    ]
}

/// An answer accuracy run for an input with `reference`, `answer` and an
/// optional `question`: F1 of the claim matches.
pub fn answer_accuracy_run(input: &Json) -> (res: Result<JudgeRun, EvalError>)
    ensures
        match (input_str(input.v(), "reference"@), input_str(input.v(), "answer"@)) {
            (Some(r), Some(a)) => res matches Ok(run) && {
                let q = match input_str(input.v(), "question"@) { Some(q) => q, None => Seq::<char>::empty() };
                &&& run.wf() && run.stage == 0 && run.stopped is None
                &&& run.stages_view() == answer_accuracy_stages(q, r, a)
                &&& run.scoring == (Scoring::F1 { matched: 0, covered: 1 })
                &&& run.lists_view() == seq![Seq::<Seq<char>>::empty(), Seq::<Seq<char>>::empty()]
                &&& run.verdicts_view() == seq![Seq::<bool>::empty(), Seq::<bool>::empty()]
            },
            _ => res matches Err(EvalError::InvalidParams(_)),
        },
{
    let question = match read_text(input, "question") {
        Ok(q) => q,
        Err(_) => String::new(),
    };
    let reference = read_text(input, "reference")?;
    let answer = read_text(input, "answer")?;
    let ghost (q, r, a) = (question@, reference@, answer@);
    let v0 = vec![var("answer", VarSource::Value(Json::Str(answer)))];
    assert(vars_v(v0@) =~= seq![("answer"@, VarSourceV::Value(JsonV::Str(a)))]);
    let s0 = Stage::Extract {
        prompt: owned("answer_accuracy_extract_claims"),
        vars: v0,
        key: owned("claims"),
        lowercase: false,
        into: 0,
        stop_if_empty: None,
    };
    let v1 = vec![var("reference", VarSource::Value(Json::Str(reference)))];
    assert(vars_v(v1@) =~= seq![("reference"@, VarSourceV::Value(JsonV::Str(r)))]);
    let s1 = Stage::Extract {
        prompt: owned("answer_accuracy_extract_reference_claims"),
        vars: v1,
        key: owned("claims"),
        lowercase: false,
        into: 1,
        stop_if_empty: None,
    };
    let v2 = vec![
        var("reference_claims", VarSource::Joined(1, owned("\n"))),
        var("question", VarSource::Value(Json::Str(question))),
        var("claim", VarSource::Item),
    ];
    assert(vars_v(v2@) =~= seq![
        ("reference_claims"@, VarSourceV::Joined(1, "\n"@)),
        ("question"@, VarSourceV::Value(JsonV::Str(q))),
        ("claim"@, VarSourceV::Item),
    ]);
    let f2 = vec!["match", "verdict"];
    assert(strs_v(f2@) =~= seq!["match"@, "verdict"@]);
    let s2 = Stage::Verdicts { prompt: owned("answer_accuracy_match_claim"), vars: v2, over: 0, fields: strings(f2), into: 0 };
    let v3 = vec![var("answer_claims", VarSource::Joined(0, owned("\n"))), var("claim", VarSource::Item)];
    assert(vars_v(v3@) =~= seq![("answer_claims"@, VarSourceV::Joined(0, "\n"@)), ("claim"@, VarSourceV::Item)]);
    let f3 = vec!["covered", "verdict"];
    assert(strs_v(f3@) =~= seq!["covered"@, "verdict"@]);
    let s3 = Stage::Verdicts { prompt: owned("answer_accuracy_match_ref_claim"), vars: v3, over: 1, fields: strings(f3), into: 1 };
    let stages = vec![s0, s1, s2, s3];
    assert(stages_v(stages@) =~= answer_accuracy_stages(q, r, a));
    let run = JudgeRun::start(stages, Scoring::F1 { matched: 0, covered: 1 }, empty_lists(2), empty_verdicts(2));
    assert(run.lists_view() =~= seq![Seq::<Seq<char>>::empty(), Seq::<Seq<char>>::empty()]);
    assert(run.verdicts_view() =~= seq![Seq::<bool>::empty(), Seq::<bool>::empty()]);
    Ok(run)
}

/// The score of a run lies in `[0, 1]`, whatever the replies (given a score
/// in `[0, 1]` for a run without verdicts).
pub proof fn law_final_score_in_unit(scoring: Scoring, lists: Seq<Seq<Seq<char>>>, verdicts: Seq<Seq<bool>>)
    requires
        scoring_ok(scoring, lists.len() as int, verdicts.len() as int),
        scoring matches Scoring::Share { when_empty, .. } ==> when_empty.in_unit(),
        forall|i: int| 0 <= i < verdicts.len() ==> verdicts[i].len() <= u64::MAX,
        forall|i: int| 0 <= i < lists.len() ==> lists[i].len() <= u64::MAX,
    ensures
        final_score(scoring, lists, verdicts).in_unit(),
{
    match scoring {
        Scoring::Share { verdicts: v, when_empty } => {
            crate::judge::lemma_count_true_bounded(verdicts[v as int]);
        },
        Scoring::FalseShare { verdicts: v } => {
            crate::judge::lemma_count_true_bounded(verdicts[v as int]);
        },
        Scoring::F1 { matched, covered } => {
            crate::judge::lemma_count_true_bounded(verdicts[matched as int]);
            crate::judge::lemma_count_true_bounded(verdicts[covered as int]);
        },
        Scoring::Entities { reference, contexts } => {
            let l = crate::judge::distinct_of(lists[reference as int]);
            crate::judge::lemma_distinct_of(lists[reference as int]);
            l.lemma_filter_len(|e: Seq<char>| lists[contexts as int].contains(e));
        },
    }
}

/// Each judge run scores its finished lists and verdicts by its metric's
/// formula: faithfulness and context recall share the scoring of their
/// claim verdicts (one without claims); answer relevancy, context relevancy
/// and summarization the scoring with zero for no items; noise sensitivity
/// counts false verdicts; answer accuracy takes the F1 of both verdict lists;
/// entities recall compares the entity sets of lists 1 and 2.
pub proof fn law_run_scores_follow_formulas(lists: Seq<Seq<Seq<char>>>, verdicts: Seq<Seq<bool>>)
    requires
        lists.len() >= 3,
        verdicts.len() >= 2,
    ensures
        final_score(Scoring::Share { verdicts: 0, when_empty: one() }, lists, verdicts) == crate::judge::faithfulness_of(verdicts[0]),
        final_score(Scoring::Share { verdicts: 0, when_empty: one() }, lists, verdicts) == crate::judge::context_recall_of(verdicts[0]),
        final_score(Scoring::Share { verdicts: 0, when_empty: zero() }, lists, verdicts) == crate::judge::answer_relevancy_of(verdicts[0]),
        final_score(Scoring::Share { verdicts: 0, when_empty: zero() }, lists, verdicts) == crate::judge::context_relevancy_of(verdicts[0]),
        final_score(Scoring::Share { verdicts: 0, when_empty: zero() }, lists, verdicts) == crate::judge::summarization_of(verdicts[0]),
        final_score(Scoring::FalseShare { verdicts: 0 }, lists, verdicts) == crate::judge::noise_sensitivity_of(verdicts[0]),
        final_score(Scoring::F1 { matched: 0, covered: 1 }, lists, verdicts) == crate::judge::answer_accuracy_of(verdicts[0], verdicts[1]),
        final_score(Scoring::Entities { reference: 1, contexts: 2 }, lists, verdicts) == crate::judge::entities_recall_of(lists[1], lists[2]),
{
}

} // verus!
