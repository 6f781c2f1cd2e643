//! SQL text and parameter order of the result queries: filtered listing and
//! per-metric aggregation.

use vstd::prelude::*;
use vstd::string::*;

use crate::error::owned;

verus! {

/// Filters of a result listing. Score bounds are given by presence only: their
/// values are bound where [`BindSlot::MinScore`] and [`BindSlot::MaxScore`] stand.
#[derive(Debug, Clone)]
pub struct QueryFilter {
    pub metric: Option<String>,
    pub request_id: Option<String>,
    pub has_min_score: bool,
    pub has_max_score: bool,
    pub start_time: Option<String>,
    pub end_time: Option<String>,
    pub provider: Option<String>,
    pub model: Option<String>,
    /// Rows to skip.
    pub offset: u64,
    /// Rows to return (clamped to `1..=100`).
    pub limit: u64,
}

impl Default for QueryFilter {
    /// No filter, first page of the default size.
    fn default() -> (res: Self)
        ensures
            res.metric is None && res.request_id is None && res.start_time is None && res.end_time is None,
            res.provider is None && res.model is None,
            !res.has_min_score && !res.has_max_score,
            res.offset == 0,
            res.limit == 20,
    {
        QueryFilter {
            metric: None,
            request_id: None,
            has_min_score: false,
            has_max_score: false,
            start_time: None,
            end_time: None,
            provider: None,
            model: None,
            offset: 0,
            limit: default_limit(),
        }
    }
}

/// The default page size of a listing.
pub fn default_limit() -> (res: u64)
    ensures
        res == 20,
{
    20
}

/// A value bound to a `?` placeholder, in placeholder order.
#[derive(Debug, Clone, Copy, PartialEq, Eq)]
pub enum BindSlot {
    Metric,
    RequestId,
    MinScore,
    MaxScore,
    StartTime,
    EndTime,
    Provider,
    Model,
    Limit(i64),
    Offset(i64),
}

/// A statement and what its placeholders take.
#[derive(Debug)]
pub struct SqlPlan {
    pub sql: String,
    pub binds: Vec<BindSlot>,
}

/// The fixed head of the listing statement.
pub open spec fn list_head() -> Seq<char> {
    "SELECT id, request_id, metric, score, details, provider, model, input, params, created_at FROM eval_results WHERE 1=1"@
}

/// `text` when `cond` holds, else nothing.
#[verifier::opaque]
pub open spec fn when(cond: bool, text: Seq<char>) -> Seq<char> {
    if cond { text } else { Seq::empty() }
}

/// `slot` when `cond` holds, else nothing.
#[verifier::opaque]
pub open spec fn bind_when(cond: bool, slot: BindSlot) -> Seq<BindSlot> {
    if cond { seq![slot] } else { Seq::empty() }
}

/// The page size actually used: `limit` clamped to `1..=100`.
pub open spec fn clamped_limit(limit: u64) -> u64 {
    if limit < 1 { 1 } else if limit > 100 { 100 } else { limit }
}

/// The listing statement: one condition per filter that is set, newest first.
pub open spec fn list_sql(f: QueryFilter) -> Seq<char> {
    list_head()
        + when(f.metric is Some, " AND metric = ?"@)
        + when(f.request_id is Some, " AND request_id = ?"@)
        + when(f.has_min_score, " AND score >= ?"@)
        + when(f.has_max_score, " AND score <= ?"@)
        + when(f.start_time is Some, " AND created_at >= ?"@)
        + when(f.end_time is Some, " AND created_at <= ?"@)
        + when(f.provider is Some, " AND provider = ?"@)
        + when(f.model is Some, " AND model = ?"@)
        + " ORDER BY created_at DESC LIMIT ? OFFSET ?;"@
}

/// The values of the listing statement's placeholders, in order.
pub open spec fn list_binds(f: QueryFilter) -> Seq<BindSlot> {
    bind_when(f.metric is Some, BindSlot::Metric)
        + bind_when(f.request_id is Some, BindSlot::RequestId)
        + bind_when(f.has_min_score, BindSlot::MinScore)
        + bind_when(f.has_max_score, BindSlot::MaxScore)
        + bind_when(f.start_time is Some, BindSlot::StartTime)
        + bind_when(f.end_time is Some, BindSlot::EndTime)
        + bind_when(f.provider is Some, BindSlot::Provider)
        + bind_when(f.model is Some, BindSlot::Model)
        + seq![BindSlot::Limit(clamped_limit(f.limit) as i64), BindSlot::Offset(f.offset as i64)]
}

fn add_if(sql: &mut String, binds: &mut Vec<BindSlot>, cond: bool, text: &str, slot: BindSlot)
    ensures
        final(sql)@ == old(sql)@ + when(cond, text@),
        final(binds)@ == old(binds)@ + bind_when(cond, slot),
{
    reveal(when);
    reveal(bind_when);
    if cond {
        sql.append(text);
        binds.push(slot);
    } else {
        assert(old(sql)@ + Seq::<char>::empty() =~= old(sql)@);
        assert(old(binds)@ + Seq::<BindSlot>::empty() =~= old(binds)@);
    }
    proof {
        if cond {
            assert(old(binds)@.push(slot) =~= old(binds)@ + seq![slot]);
        }
    }
}

/// The listing statement for a filter and its placeholder values.
#[verifier::rlimit(100)]
pub fn query_plan(f: &QueryFilter) -> (res: SqlPlan)
    ensures
        res.sql@ == list_sql(*f),
        res.binds@ == list_binds(*f),
{
    let mut sql = owned(
        "SELECT id, request_id, metric, score, details, provider, model, input, params, created_at FROM eval_results WHERE 1=1",
    );
    let mut binds: Vec<BindSlot> = Vec::new();
    assert(binds@ =~= Seq::<BindSlot>::empty());
    let ghost s0 = sql@;
    let ghost b0 = binds@;
    add_if(&mut sql, &mut binds, f.metric.is_some(), " AND metric = ?", BindSlot::Metric);
    let ghost s1 = sql@;
    let ghost b1 = binds@;
    add_if(&mut sql, &mut binds, f.request_id.is_some(), " AND request_id = ?", BindSlot::RequestId);
    let ghost s2 = sql@;
    let ghost b2 = binds@;
    add_if(&mut sql, &mut binds, f.has_min_score, " AND score >= ?", BindSlot::MinScore);
    let ghost s3 = sql@;
    let ghost b3 = binds@;
    add_if(&mut sql, &mut binds, f.has_max_score, " AND score <= ?", BindSlot::MaxScore);
    let ghost s4 = sql@;
    let ghost b4 = binds@;
    add_if(&mut sql, &mut binds, f.start_time.is_some(), " AND created_at >= ?", BindSlot::StartTime);
    let ghost s5 = sql@;
    let ghost b5 = binds@;
    add_if(&mut sql, &mut binds, f.end_time.is_some(), " AND created_at <= ?", BindSlot::EndTime);
    let ghost s6 = sql@;
    let ghost b6 = binds@;
    add_if(&mut sql, &mut binds, f.provider.is_some(), " AND provider = ?", BindSlot::Provider);
    let ghost s7 = sql@;
    let ghost b7 = binds@;
    add_if(&mut sql, &mut binds, f.model.is_some(), " AND model = ?", BindSlot::Model);
    let ghost s8 = sql@;
    let ghost b8 = binds@;
    sql.append(" ORDER BY created_at DESC LIMIT ? OFFSET ?;");
    let limit: u64 = if f.limit < 1 { 1 } else if f.limit > 100 { 100 } else { f.limit };
    binds.push(BindSlot::Limit(limit as i64));
    binds.push(BindSlot::Offset(f.offset as i64));
    proof {
        assert(s0 == list_head());
        assert(b0 =~= Seq::<BindSlot>::empty());
        assert(sql@ == s8 + " ORDER BY created_at DESC LIMIT ? OFFSET ?;"@);
        assert(binds@ =~= b8 + seq![BindSlot::Limit(clamped_limit(f.limit) as i64), BindSlot::Offset(f.offset as i64)]);
    }
    SqlPlan { sql, binds }
}

/// The conditions of an aggregation: the metric, then the time bounds that are set.
pub open spec fn agg_cond(has_start: bool, has_end: bool) -> Seq<char> {
    "metric = ?"@ + when(has_start, " AND created_at >= ?"@) + when(has_end, " AND created_at <= ?"@)
}

/// The placeholder values of one copy of [`agg_cond`].
pub open spec fn agg_binds(has_start: bool, has_end: bool) -> Seq<BindSlot> {
    seq![BindSlot::Metric] + bind_when(has_start, BindSlot::StartTime) + bind_when(has_end, BindSlot::EndTime)
}

/// Count, mean, maximum and minimum of a metric's scores.
pub open spec fn stats_sql(has_start: bool, has_end: bool) -> Seq<char> {
    "SELECT COUNT(*) AS count, AVG(score) AS avg_score, MAX(score) AS max_score, MIN(score) AS min_score FROM eval_results WHERE "@
        + agg_cond(has_start, has_end) + ";"@
}

/// The population variance of a metric's scores, the mean taken by the same
/// conditions in both subqueries.
pub open spec fn variance_sql(has_start: bool, has_end: bool) -> Seq<char> {
    let c = agg_cond(has_start, has_end);
    "SELECT AVG((score - (SELECT AVG(score) FROM eval_results WHERE "@ + c
        + ")) * (score - (SELECT AVG(score) FROM eval_results WHERE "@ + c
        + "))) AS variance FROM eval_results WHERE "@ + c
}

/// The statements of an aggregation and their placeholder values.
#[derive(Debug)]
pub struct AggregatePlan {
    /// Count, mean, maximum, minimum.
    pub stats: SqlPlan,
    /// Variance; run only when the count is positive.
    pub variance: SqlPlan,
}

fn agg_cond_text(has_start: bool, has_end: bool) -> (res: (String, Vec<BindSlot>))
    ensures
        res.0@ == agg_cond(has_start, has_end),
        res.1@ == agg_binds(has_start, has_end),
{
    let mut c = owned("metric = ?");
    let mut b: Vec<BindSlot> = Vec::new();
    b.push(BindSlot::Metric);
    assert(b@ =~= seq![BindSlot::Metric]);
    add_if(&mut c, &mut b, has_start, " AND created_at >= ?", BindSlot::StartTime);
    add_if(&mut c, &mut b, has_end, " AND created_at <= ?", BindSlot::EndTime);
    (c, b)
}

/// The aggregation statements for a metric within optional time bounds.
pub fn aggregate_plan(has_start: bool, has_end: bool) -> (res: AggregatePlan)
    ensures
        res.stats.sql@ == stats_sql(has_start, has_end),
        res.stats.binds@ == agg_binds(has_start, has_end),
        res.variance.sql@ == variance_sql(has_start, has_end),
        res.variance.binds@ == agg_binds(has_start, has_end) + agg_binds(has_start, has_end) + agg_binds(has_start, has_end),
        selects(res.stats.sql@, "COUNT(*)"@, "count"@),
        selects(res.stats.sql@, "AVG(score)"@, "avg_score"@),
        selects(res.stats.sql@, "MAX(score)"@, "max_score"@),
        selects(res.stats.sql@, "MIN(score)"@, "min_score"@),
{
    proof {
        law_stats_columns(has_start, has_end);
    }
    let (c, b) = agg_cond_text(has_start, has_end);
    let mut stats = owned(
        "SELECT COUNT(*) AS count, AVG(score) AS avg_score, MAX(score) AS max_score, MIN(score) AS min_score FROM eval_results WHERE ",
    );
    stats.append(c.as_str());
    stats.append(";");
    let mut var = owned("SELECT AVG((score - (SELECT AVG(score) FROM eval_results WHERE ");
    var.append(c.as_str());
    var.append(")) * (score - (SELECT AVG(score) FROM eval_results WHERE ");
    var.append(c.as_str());
    var.append("))) AS variance FROM eval_results WHERE ");
    var.append(c.as_str());
    let mut vb: Vec<BindSlot> = Vec::new();
    let mut r: usize = 0;
    while r < 3
        invariant
            r <= 3,
            b@ == agg_binds(has_start, has_end),
            vb@ == (if r == 0 { Seq::<BindSlot>::empty() } else if r == 1 { b@ } else if r == 2 { b@ + b@ } else { b@ + b@ + b@ }),
        decreases 3 - r,
    {
        let ghost before = vb@;
        let mut k: usize = 0;
        while k < b.len()
            invariant
                k <= b@.len(),
                vb@ == before + b@.take(k as int),
            decreases b@.len() - k,
        {
            vb.push(b[k]);
            assert(b@.take(k + 1) =~= b@.take(k as int).push(b@[k as int]));
            k = k + 1;
        }
        assert(b@.take(k as int) =~= b@);
        assert(before + b@ == (if r == 0 { b@ } else if r == 1 { b@ + b@ } else { b@ + b@ + b@ })) by {
            assert(Seq::<BindSlot>::empty() + b@ =~= b@);
        }
        r = r + 1;
    }
    assert(stats@ =~= stats_sql(has_start, has_end));
    assert(var@ =~= variance_sql(has_start, has_end));
    AggregatePlan { stats: SqlPlan { sql: stats, binds: b }, variance: SqlPlan { sql: var, binds: vb } }
}

/// Parameters of an aggregation request.
#[derive(Debug, Clone)]
pub struct AggregateQuery {
    /// Metric name (required).
    pub metric: String,
    /// Lower time bound (ISO 8601), if any.
    pub start_time: Option<String>,
    /// Upper time bound (ISO 8601), if any.
    pub end_time: Option<String>,
}

impl AggregateQuery {
    /// The statements that answer this request.
    pub fn plan(&self) -> (res: AggregatePlan)
        ensures
            res.stats.sql@ == stats_sql(self.start_time is Some, self.end_time is Some),
            res.stats.binds@ == agg_binds(self.start_time is Some, self.end_time is Some),
            res.variance.sql@ == variance_sql(self.start_time is Some, self.end_time is Some),
            res.variance.binds@ == agg_binds(self.start_time is Some, self.end_time is Some) + agg_binds(
                self.start_time is Some,
                self.end_time is Some,
            ) + agg_binds(self.start_time is Some, self.end_time is Some),
            selects(res.stats.sql@, "MAX(score)"@, "max_score"@),
            selects(res.stats.sql@, "MIN(score)"@, "min_score"@),
    {
        aggregate_plan(self.start_time.is_some(), self.end_time.is_some())
    }
}

/// The number of `?` placeholders in a statement.
pub open spec fn placeholders(s: Seq<char>) -> nat
    decreases s.len(),
{
    if s.len() == 0 {
        0
    } else {
        placeholders(s.drop_last()) + if s.last() == '?' { 1nat } else { 0nat }
    }
}

proof fn lemma_placeholders_concat(a: Seq<char>, b: Seq<char>)
    ensures
        placeholders(a + b) == placeholders(a) + placeholders(b),
    decreases b.len(),
{
    if b.len() > 0 {
        lemma_placeholders_concat(a, b.drop_last());
        assert((a + b).drop_last() =~= a + b.drop_last());
    } else {
        assert(a + b =~= a);
    }
}

proof fn lemma_no_placeholders(s: Seq<char>)
    requires
        forall|i: int| 0 <= i < s.len() ==> s[i] != '?',
    ensures
        placeholders(s) == 0,
    decreases s.len(),
{
    if s.len() > 0 {
        lemma_no_placeholders(s.drop_last());
    }
}

proof fn lemma_one_placeholder(s: Seq<char>)
    requires
        s.len() > 0,
        s.last() == '?',
        forall|i: int| 0 <= i < s.len() - 1 ==> s[i] != '?',
    ensures
        placeholders(s) == 1,
{
    lemma_no_placeholders(s.drop_last());
}

proof fn lemma_condition(cond: bool, text: Seq<char>, slot: BindSlot)
    requires
        placeholders(text) == 1,
    ensures
        placeholders(when(cond, text)) == bind_when(cond, slot).len(),
{
    reveal(when);
    reveal(bind_when);
    if !cond {
        assert(when(cond, text) =~= Seq::<char>::empty());
    }
}

proof fn lemma_head_count()
    ensures
        placeholders(list_head()) == 0,
{
    reveal_strlit("SELECT id, request_id, metric, score, details, provider, model, input, params, created_at FROM eval_results WHERE 1=1");
    lemma_no_placeholders(list_head());
}

proof fn lemma_tail_count()
    ensures
        placeholders(" ORDER BY created_at DESC LIMIT ? OFFSET ?;"@) == 2,
{
    let tail = " ORDER BY created_at DESC LIMIT ? OFFSET ?;"@;
    let a = " ORDER BY created_at DESC LIMIT ?"@;
    let b = " OFFSET ?"@;
    reveal_strlit(" ORDER BY created_at DESC LIMIT ? OFFSET ?;");
    reveal_strlit(" ORDER BY created_at DESC LIMIT ?");
    reveal_strlit(" OFFSET ?");
    assert(tail =~= a + b + seq![';']);
    lemma_one_placeholder(a);
    lemma_one_placeholder(b);
    lemma_no_placeholders(seq![';']);
    lemma_placeholders_concat(a, b);
    lemma_placeholders_concat(a + b, seq![';']);
}

proof fn lemma_condition_counts()
    ensures
        placeholders(" AND metric = ?"@) == 1,
        placeholders(" AND request_id = ?"@) == 1,
        placeholders(" AND score >= ?"@) == 1,
        placeholders(" AND score <= ?"@) == 1,
        placeholders(" AND created_at >= ?"@) == 1,
        placeholders(" AND created_at <= ?"@) == 1,
        placeholders(" AND provider = ?"@) == 1,
        placeholders(" AND model = ?"@) == 1,
{
    reveal_strlit(" AND metric = ?");
    lemma_one_placeholder(" AND metric = ?"@);
    reveal_strlit(" AND request_id = ?");
    lemma_one_placeholder(" AND request_id = ?"@);
    reveal_strlit(" AND score >= ?");
    lemma_one_placeholder(" AND score >= ?"@);
    reveal_strlit(" AND score <= ?");
    lemma_one_placeholder(" AND score <= ?"@);
    reveal_strlit(" AND created_at >= ?");
    lemma_one_placeholder(" AND created_at >= ?"@);
    reveal_strlit(" AND created_at <= ?");
    lemma_one_placeholder(" AND created_at <= ?"@);
    reveal_strlit(" AND provider = ?");
    lemma_one_placeholder(" AND provider = ?"@);
    reveal_strlit(" AND model = ?");
    lemma_one_placeholder(" AND model = ?"@);
}

/// The listing statement has one placeholder per bound value.
pub proof fn law_list_placeholders(f: QueryFilter)
    ensures
        placeholders(list_sql(f)) == list_binds(f).len(),
{
    lemma_head_count();
    lemma_tail_count();
    lemma_condition_counts();
    let c1 = when(f.metric is Some, " AND metric = ?"@);
    let c2 = when(f.request_id is Some, " AND request_id = ?"@);
    let c3 = when(f.has_min_score, " AND score >= ?"@);
    let c4 = when(f.has_max_score, " AND score <= ?"@);
    let c5 = when(f.start_time is Some, " AND created_at >= ?"@);
    let c6 = when(f.end_time is Some, " AND created_at <= ?"@);
    let c7 = when(f.provider is Some, " AND provider = ?"@);
    let c8 = when(f.model is Some, " AND model = ?"@);
    lemma_condition(f.metric is Some, " AND metric = ?"@, BindSlot::Metric);
    lemma_condition(f.request_id is Some, " AND request_id = ?"@, BindSlot::RequestId);
    lemma_condition(f.has_min_score, " AND score >= ?"@, BindSlot::MinScore);
    lemma_condition(f.has_max_score, " AND score <= ?"@, BindSlot::MaxScore);
    lemma_condition(f.start_time is Some, " AND created_at >= ?"@, BindSlot::StartTime);
    lemma_condition(f.end_time is Some, " AND created_at <= ?"@, BindSlot::EndTime);
    lemma_condition(f.provider is Some, " AND provider = ?"@, BindSlot::Provider);
    lemma_condition(f.model is Some, " AND model = ?"@, BindSlot::Model);
    let h = list_head();
    let tail = " ORDER BY created_at DESC LIMIT ? OFFSET ?;"@;
    lemma_placeholders_concat(h, c1);
    lemma_placeholders_concat(h + c1, c2);
    lemma_placeholders_concat(h + c1 + c2, c3);
    lemma_placeholders_concat(h + c1 + c2 + c3, c4);
    lemma_placeholders_concat(h + c1 + c2 + c3 + c4, c5);
    lemma_placeholders_concat(h + c1 + c2 + c3 + c4 + c5, c6);
    lemma_placeholders_concat(h + c1 + c2 + c3 + c4 + c5 + c6, c7);
    lemma_placeholders_concat(h + c1 + c2 + c3 + c4 + c5 + c6 + c7, c8);
    lemma_placeholders_concat(h + c1 + c2 + c3 + c4 + c5 + c6 + c7 + c8, tail);
}

proof fn lemma_cond_count(has_start: bool, has_end: bool)
    ensures
        placeholders(agg_cond(has_start, has_end)) == agg_binds(has_start, has_end).len(),
{
    lemma_condition_counts();
    reveal_strlit("metric = ?");
    lemma_one_placeholder("metric = ?"@);
    let s1 = when(has_start, " AND created_at >= ?"@);
    let s2 = when(has_end, " AND created_at <= ?"@);
    lemma_condition(has_start, " AND created_at >= ?"@, BindSlot::StartTime);
    lemma_condition(has_end, " AND created_at <= ?"@, BindSlot::EndTime);
    lemma_placeholders_concat("metric = ?"@, s1);
    lemma_placeholders_concat("metric = ?"@ + s1, s2);
}

/// The aggregation statements have one placeholder per bound value: once
/// the conditions for the statistics, three times for the variance.
pub proof fn law_aggregate_placeholders(has_start: bool, has_end: bool)
    ensures
        placeholders(stats_sql(has_start, has_end)) == agg_binds(has_start, has_end).len(),
        placeholders(variance_sql(has_start, has_end)) == 3 * agg_binds(has_start, has_end).len(),
{
    lemma_cond_count(has_start, has_end);
    let c = agg_cond(has_start, has_end);
    let h = "SELECT COUNT(*) AS count, AVG(score) AS avg_score, MAX(score) AS max_score, MIN(score) AS min_score FROM eval_results WHERE "@;
    reveal_strlit("SELECT COUNT(*) AS count, AVG(score) AS avg_score, MAX(score) AS max_score, MIN(score) AS min_score FROM eval_results WHERE ");
    lemma_no_placeholders(h);
    reveal_strlit(";");
    lemma_no_placeholders(";"@);
    lemma_placeholders_concat(h, c);
    lemma_placeholders_concat(h + c, ";"@);
    let v1 = "SELECT AVG((score - (SELECT AVG(score) FROM eval_results WHERE "@;
    let v2 = ")) * (score - (SELECT AVG(score) FROM eval_results WHERE "@;
    let v3 = "))) AS variance FROM eval_results WHERE "@;
    reveal_strlit("SELECT AVG((score - (SELECT AVG(score) FROM eval_results WHERE ");
    reveal_strlit(")) * (score - (SELECT AVG(score) FROM eval_results WHERE ");
    reveal_strlit("))) AS variance FROM eval_results WHERE ");
    lemma_no_placeholders(v1);
    lemma_no_placeholders(v2);
    lemma_no_placeholders(v3);
    lemma_placeholders_concat(v1, c);
    lemma_placeholders_concat(v1 + c, v2);
    lemma_placeholders_concat(v1 + c + v2, c);
    lemma_placeholders_concat(v1 + c + v2 + c, v3);
    lemma_placeholders_concat(v1 + c + v2 + c + v3, c);
}

/// The statement selects the column `alias` computed by `expr`: the text
/// `expr AS alias` stands in it after a space and before a comma, a space or
/// the end.
pub open spec fn selects(sql: Seq<char>, expr: Seq<char>, alias: Seq<char>) -> bool {
    let item = expr + " AS "@ + alias;
    exists|i: int| {
        &&& 1 <= i
        &&& i + item.len() <= sql.len()
        &&& sql[i - 1] == ' '
        &&& #[trigger] sql.subrange(i, i + item.len()) == item
        &&& (i + item.len() < sql.len() ==> (sql[i + item.len()] == ',' || sql[i + item.len()] == ' '))
    }
}

/// The statistics statement names each column by the aggregate that defines
/// it: `count` is `COUNT(*)`, `avg_score` is `AVG(score)`, `max_score` is
/// `MAX(score)` and `min_score` is `MIN(score)`, whatever the time bounds.
pub proof fn law_stats_columns(has_start: bool, has_end: bool)
    ensures
        selects(stats_sql(has_start, has_end), "COUNT(*)"@, "count"@),
        selects(stats_sql(has_start, has_end), "AVG(score)"@, "avg_score"@),
        selects(stats_sql(has_start, has_end), "MAX(score)"@, "max_score"@),
        selects(stats_sql(has_start, has_end), "MIN(score)"@, "min_score"@),
{
    let c = agg_cond(has_start, has_end);
    let h = "SELECT COUNT(*) AS count, AVG(score) AS avg_score, MAX(score) AS max_score, MIN(score) AS min_score FROM eval_results WHERE "@;
    reveal_strlit("SELECT COUNT(*) AS count, AVG(score) AS avg_score, MAX(score) AS max_score, MIN(score) AS min_score FROM eval_results WHERE ");
    reveal_strlit(";");
    reveal_strlit(" AS ");
    reveal_strlit("COUNT(*)");
    reveal_strlit("count");
    reveal_strlit("AVG(score)");
    reveal_strlit("avg_score");
    reveal_strlit("MAX(score)");
    reveal_strlit("max_score");
    reveal_strlit("MIN(score)");
    reveal_strlit("min_score");
    let sql = stats_sql(has_start, has_end);
    assert(sql == h + c + ";"@);
    assert(h.len() == 124);
    assert forall|k: int| 0 <= k < 124 implies sql[k] == h[k] by {
        assert((h + c + ";"@)[k] == (h + c)[k]);
    }
    let i1 = "COUNT(*)"@ + " AS "@ + "count"@;
    assert(sql.subrange(7, 7 + i1.len() as int) =~= i1);
    let i2 = "AVG(score)"@ + " AS "@ + "avg_score"@;
    assert(sql.subrange(26, 26 + i2.len() as int) =~= i2);
    let i3 = "MAX(score)"@ + " AS "@ + "max_score"@;
    assert(sql.subrange(51, 51 + i3.len() as int) =~= i3);
    let i4 = "MIN(score)"@ + " AS "@ + "min_score"@;
    assert(sql.subrange(76, 76 + i4.len() as int) =~= i4);
}

} // verus!
