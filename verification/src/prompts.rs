//! Prompt templates and their registry, keyed by name and version.

use vstd::prelude::*;

use vstd::string::*;

use crate::error::{owned, EvalError};
use crate::json::{Json, JsonV};
use crate::judge::chars_of_string;
use crate::text::chars_eq;

verus! {

/// A prompt template: template text plus a schema of its variables.
#[derive(Debug, Clone)]
pub struct PromptTemplate {
    /// Name, unique per version.
    pub name: String,
    /// Version, such as `"1.0"`.
    pub version: String,
    /// Description.
    pub description: String,
    /// Template text (tera syntax).
    pub template: String,
    /// Schema of each variable.
    pub variables: Vec<(String, VariableSchema)>,
}

/// Type and requirement of a template variable.
#[derive(Debug, Clone)]
pub struct VariableSchema {
    /// `"string"` (default), `"number"` or `"boolean"`.
    pub var_type: String,
    /// Description.
    pub description: String,
    /// Whether the variable must be supplied (true by default).
    pub required: bool,
}

/// Default variable type.
pub fn default_var_type() -> (res: String)
    ensures
        res@ == "string"@,
{
    "string".to_string()
}

/// Variables are required by default.
pub fn default_required() -> (res: bool)
    ensures
        res,
{
    true
}

/// Lexicographic order of character sequences by code point (the order of
/// their UTF-8 bytes, which is how strings compare).
pub open spec fn lex_le(a: Seq<char>, b: Seq<char>) -> bool
    decreases a.len(),
{
    if a.len() == 0 {
        true
    } else if b.len() == 0 {
        false
    } else if a[0] != b[0] {
        (a[0] as int) < (b[0] as int)
    } else {
        lex_le(a.drop_first(), b.drop_first())
    }
}

/// Lexicographic order is total.
pub proof fn lemma_lex_total(a: Seq<char>, b: Seq<char>)
    ensures
        lex_le(a, b) || lex_le(b, a),
    decreases a.len(),
{
    if a.len() > 0 && b.len() > 0 && a[0] == b[0] {
        lemma_lex_total(a.drop_first(), b.drop_first());
    }
}

/// Lexicographic order is transitive.
pub proof fn lemma_lex_trans(a: Seq<char>, b: Seq<char>, c: Seq<char>)
    requires
        lex_le(a, b),
        lex_le(b, c),
    ensures
        lex_le(a, c),
    decreases a.len(),
{
    if a.len() > 0 && b.len() > 0 && c.len() > 0 && a[0] == b[0] && b[0] == c[0] {
        lemma_lex_trans(a.drop_first(), b.drop_first(), c.drop_first());
    }
}

/// In a well-formed registry at most one template is selected.
pub proof fn lemma_selected_unique(reg: PromptRegistry, t: PromptTemplate, name: Seq<char>, version: Option<Seq<char>>)
    requires
        reg.wf(),
        reg.selects(t, name, version),
    ensures
        reg.selected(name, version) == Some(t),
{
    let u = choose|u: PromptTemplate| reg.selects(u, name, version);
    assert(reg.selects(u, name, version));
    let ts = reg.templates();
    let i = choose|i: int| 0 <= i < ts.len() && ts[i] == t;
    let j = choose|j: int| 0 <= j < ts.len() && ts[j] == u;
    if version is None {
        assert(lex_le(ts[i].version@, u.version@));
        assert(lex_le(ts[j].version@, t.version@));
        lemma_lex_antisym(t.version@, u.version@);
    }
    if i < j {
        assert(!has_key(ts[i], ts[j].name@, ts[j].version@));
    } else if j < i {
        assert(!has_key(ts[j], ts[i].name@, ts[i].version@));
    }
}

/// Lexicographic order is antisymmetric.
pub proof fn lemma_lex_antisym(a: Seq<char>, b: Seq<char>)
    requires
        lex_le(a, b),
        lex_le(b, a),
    ensures
        a == b,
    decreases a.len(),
{
    if a.len() > 0 && b.len() > 0 {
        lemma_lex_antisym(a.drop_first(), b.drop_first());
        assert(a =~= seq![a[0]] + a.drop_first());
        assert(b =~= seq![b[0]] + b.drop_first());
    } else {
        assert(a =~= b);
    }
}

/// Compares two character sequences lexicographically.
pub fn lex_le_chars(a: &[char], b: &[char]) -> (res: bool)
    ensures
        res == lex_le(a@, b@),
{
    let mut i: usize = 0;
    assert(a@.skip(0) =~= a@);
    assert(b@.skip(0) =~= b@);
    while i < a.len() && i < b.len()
        invariant
            i <= a@.len(),
            i <= b@.len(),
            lex_le(a@, b@) == lex_le(a@.skip(i as int), b@.skip(i as int)),
        decreases a@.len() - i,
    {
        if a[i] != b[i] {
            return a[i] < b[i];
        }
        assert(a@.skip(i as int).drop_first() =~= a@.skip(i + 1));
        assert(b@.skip(i as int).drop_first() =~= b@.skip(i + 1));
        i = i + 1;
    }
    i == a.len()
}

/// Registry of prompt templates, one per (name, version).
pub struct PromptRegistry {
    entries: Vec<PromptTemplate>,
}

/// Whether the template is registered under `name` and `version`.
pub open spec fn has_key(t: PromptTemplate, name: Seq<char>, version: Seq<char>) -> bool {
    t.name@ == name && t.version@ == version
}

/// Some template of `ts` has this name and version.
pub open spec fn loads_key(ts: Seq<PromptTemplate>, name: Seq<char>, version: Seq<char>) -> bool {
    exists|q: int| 0 <= q < ts.len() && has_key(#[trigger] ts[q], name, version)
}

impl PromptRegistry {
    /// The registered templates.
    pub closed spec fn templates(&self) -> Seq<PromptTemplate> {
        self.entries@
    }

    /// No two templates share a name and a version.
    pub open spec fn wf(&self) -> bool {
        forall|i: int, j: int|
            0 <= i < j < self.templates().len() ==> !has_key(
                #[trigger] self.templates()[i],
                #[trigger] self.templates()[j].name@,
                self.templates()[j].version@,
            )
    }

    /// Whether a template is registered under `name` and `version`.
    pub open spec fn contains_key(&self, name: Seq<char>, version: Seq<char>) -> bool {
        exists|i: int| 0 <= i < self.templates().len() && has_key(#[trigger] self.templates()[i], name, version)
    }

    /// Whether some template has this name.
    pub open spec fn has_name(&self, name: Seq<char>) -> bool {
        exists|i: int| 0 <= i < self.templates().len() && (#[trigger] self.templates()[i]).name@ == name
    }

    /// `t` is the template that `get(name, version)` names: the one of this
    /// name and version, or without a version the one of this name with the
    /// greatest version.
    pub open spec fn selects(&self, t: PromptTemplate, name: Seq<char>, version: Option<Seq<char>>) -> bool {
        &&& self.templates().contains(t)
        &&& t.name@ == name
        &&& match version {
            Some(v) => t.version@ == v,
            None => forall|i: int| 0 <= i < self.templates().len() && (#[trigger] self.templates()[i]).name@ == name
                ==> lex_le(self.templates()[i].version@, t.version@),
        }
    }

    /// The template that `get(name, version)` returns, if any.
    pub open spec fn selected(&self, name: Seq<char>, version: Option<Seq<char>>) -> Option<PromptTemplate> {
        if exists|t: PromptTemplate| self.selects(t, name, version) {
            Some(choose|t: PromptTemplate| self.selects(t, name, version))
        } else {
            None
        }
    }

    /// An empty registry.
    pub fn new() -> (res: Self)
        ensures
            res.wf(),
            res.templates().len() == 0,
    {
        PromptRegistry { entries: Vec::new() }
    }

    fn find(&self, name: &String, version: &String) -> (res: Option<usize>)
        ensures
            match res {
                Some(i) => i < self.templates().len() && has_key(self.templates()[i as int], name@, version@),
                None => !self.contains_key(name@, version@),
            },
    {
        let nc = chars_of_string(name);
        let vc = chars_of_string(version);
        let mut i: usize = 0;
        while i < self.entries.len()
            invariant
                i <= self.entries@.len(),
                nc@ == name@,
                vc@ == version@,
                forall|k: int| 0 <= k < i ==> !has_key(#[trigger] self.entries@[k], name@, version@),
            decreases self.entries@.len() - i,
        {
            let en = chars_of_string(&self.entries[i].name);
            let ev = chars_of_string(&self.entries[i].version);
            if chars_eq(en.as_slice(), nc.as_slice()) && chars_eq(ev.as_slice(), vc.as_slice()) {
                return Some(i);
            }
            i = i + 1;
        }
        None
    }

    /// Registers a template; one with the same name and version is replaced.
    pub fn register(&mut self, template: PromptTemplate)
        requires
            old(self).wf(),
        ensures
            final(self).wf(),
            final(self).contains_key(template.name@, template.version@),
            forall|i: int|
                0 <= i < final(self).templates().len() && has_key(
                    #[trigger] final(self).templates()[i],
                    template.name@,
                    template.version@,
                ) ==> final(self).templates()[i] == template,
            forall|n: Seq<char>, v: Seq<char>|
                !(n == template.name@ && v == template.version@) ==> (final(self).contains_key(n, v)
                    == old(self).contains_key(n, v)),
            forall|t: PromptTemplate|
                !has_key(t, template.name@, template.version@) ==> (final(self).templates().contains(t)
                    == old(self).templates().contains(t)),
    {
        let ghost tn = template.name@;
        let ghost tv = template.version@;
        let ghost old_t = self.entries@;
        assert(old(self).templates() =~= old_t);
        match self.find(&template.name, &template.version) {
            Some(i) => {
                self.entries.set(i, template);
                assert forall|a: int, b: int| 0 <= a < b < self.templates().len() implies !has_key(
                    #[trigger] self.templates()[a],
                    #[trigger] self.templates()[b].name@,
                    self.templates()[b].version@,
                ) by {
                    if a != i && b != i {
                        assert(!has_key(old_t[a], old_t[b].name@, old_t[b].version@));
                    } else if a == i {
                        assert(!has_key(old_t[b], old_t[a].name@, old_t[a].version@));
                    } else {
                        assert(!has_key(old_t[a], old_t[b].name@, old_t[b].version@));
                    }
                }
                assert forall|k: int| 0 <= k < self.templates().len() && has_key(
                    #[trigger] self.templates()[k], tn, tv) implies self.templates()[k] == template by {
                    if k != i {
                        if k < i {
                            assert(!has_key(old_t[k], old_t[i as int].name@, old_t[i as int].version@));
                        } else {
                            assert(!has_key(old_t[i as int], old_t[k].name@, old_t[k].version@));
                        }
                    }
                }
                assert forall|t: PromptTemplate| !has_key(t, tn, tv) implies self.templates().contains(t)
                    == old_t.contains(t) by {
                    if self.templates().contains(t) {
                        let k = choose|k: int| 0 <= k < self.templates().len() && self.templates()[k] == t;
                        assert(old_t[k] == t);
                    }
                    if old_t.contains(t) {
                        let k = choose|k: int| 0 <= k < old_t.len() && old_t[k] == t;
                        assert(self.templates()[k] == t);
                    }
                }
                assert forall|n: Seq<char>, v: Seq<char>| !(n == tn && v == tv) implies (self.contains_key(n, v)
                    == (exists|k: int| 0 <= k < old_t.len() && has_key(#[trigger] old_t[k], n, v))) by {
                    if self.contains_key(n, v) {
                        let k = choose|k: int| 0 <= k < self.templates().len() && has_key(#[trigger] self.templates()[k], n, v);
                        assert(has_key(old_t[k], n, v));
                    }
                    if exists|k: int| 0 <= k < old_t.len() && has_key(#[trigger] old_t[k], n, v) {
                        let k = choose|k: int| 0 <= k < old_t.len() && has_key(#[trigger] old_t[k], n, v);
                        assert(has_key(self.templates()[k], n, v));
                    }
                }
                assert(has_key(self.templates()[i as int], tn, tv));
            },
            None => {
                assert(forall|k: int| 0 <= k < old_t.len() ==> !has_key(#[trigger] old_t[k], tn, tv)) by {
                    assert forall|k: int| 0 <= k < old_t.len() implies !has_key(#[trigger] old_t[k], tn, tv) by {
                        assert(self.templates()[k] == old_t[k]);
                    }
                }
                assert(forall|a: int, b: int| 0 <= a < b < old_t.len() ==> !has_key(#[trigger] old_t[a], #[trigger] old_t[b].name@, old_t[b].version@)) by {
                    assert forall|a: int, b: int| 0 <= a < b < old_t.len() implies !has_key(#[trigger] old_t[a], #[trigger] old_t[b].name@, old_t[b].version@) by {
                        assert(self.templates()[a] == old_t[a]);
                        assert(self.templates()[b] == old_t[b]);
                    }
                }
                self.entries.push(template);
                assert forall|a: int, b: int| 0 <= a < b < self.templates().len() implies !has_key(
                    #[trigger] self.templates()[a],
                    #[trigger] self.templates()[b].name@,
                    self.templates()[b].version@,
                ) by {
                    if b < old_t.len() {
                        assert(!has_key(old_t[a], old_t[b].name@, old_t[b].version@));
                    } else {
                        assert(!has_key(old_t[a], tn, tv));
                    }
                }
                assert forall|k: int| 0 <= k < self.templates().len() && has_key(
                    #[trigger] self.templates()[k], tn, tv) implies self.templates()[k] == template by {
                    if k < old_t.len() {
                        assert(!has_key(old_t[k], tn, tv));
                    }
                }
                assert forall|t: PromptTemplate| !has_key(t, tn, tv) implies self.templates().contains(t)
                    == old_t.contains(t) by {
                    if self.templates().contains(t) {
                        let k = choose|k: int| 0 <= k < self.templates().len() && self.templates()[k] == t;
                        assert(old_t[k] == t);
                    }
                    if old_t.contains(t) {
                        let k = choose|k: int| 0 <= k < old_t.len() && old_t[k] == t;
                        assert(self.templates()[k] == t);
                    }
                }
                assert forall|n: Seq<char>, v: Seq<char>| !(n == tn && v == tv) implies (self.contains_key(n, v)
                    == (exists|k: int| 0 <= k < old_t.len() && has_key(#[trigger] old_t[k], n, v))) by {
                    if self.contains_key(n, v) {
                        let k = choose|k: int| 0 <= k < self.templates().len() && has_key(#[trigger] self.templates()[k], n, v);
                        assert(has_key(old_t[k], n, v));
                    }
                    if exists|k: int| 0 <= k < old_t.len() && has_key(#[trigger] old_t[k], n, v) {
                        let k = choose|k: int| 0 <= k < old_t.len() && has_key(#[trigger] old_t[k], n, v);
                        assert(has_key(self.templates()[k], n, v));
                    }
                }
                assert(has_key(self.templates()[old_t.len() as int], tn, tv));
            },
        }
    }

    /// Registers each loaded template in order, or passes on the loading error
    /// as it came, with nothing registered. Templates under other names and
    /// versions stay as they were.
    pub fn load_from_dir(&mut self, loaded: Result<Vec<PromptTemplate>, EvalError>) -> (res: Result<(), EvalError>)
        requires
            old(self).wf(),
        ensures
            final(self).wf(),
            loaded matches Err(e) ==> res == Err::<(), EvalError>(e) && final(self).templates() == old(self).templates(),
            loaded matches Ok(ts) ==> res is Ok && forall|k: int|
                0 <= k < ts@.len() ==> #[trigger] final(self).contains_key(ts@[k].name@, ts@[k].version@),
            loaded matches Ok(ts) ==> forall|n: Seq<char>, v: Seq<char>|
                !loads_key(ts@, n, v) ==> (final(self).contains_key(n, v) == old(self).contains_key(n, v)),
            loaded matches Ok(ts) ==> forall|t: PromptTemplate|
                !loads_key(ts@, t.name@, t.version@) ==> (final(self).templates().contains(t) == old(self).templates().contains(t)),
    {
        match loaded {
            Err(e) => Err(e),
            Ok(ts) => {
                let ghost tsv = ts@;
                let ghost r0 = *self;
                let mut rest = ts;
                let mut k: usize = 0;
                let n = rest.len();
                while rest.len() > 0
                    invariant
                        self.wf(),
                        n == tsv.len(),
                        rest@.len() + k == n,
                        forall|q: int| 0 <= q < rest@.len() ==> rest@[q] == tsv[k + q],
                        forall|q: int| 0 <= q < k ==> #[trigger] self.contains_key(tsv[q].name@, tsv[q].version@),
                        forall|nn: Seq<char>, v: Seq<char>|
                            !loads_key(tsv.take(k as int), nn, v) ==> (self.contains_key(nn, v) == r0.contains_key(nn, v)),
                        forall|t: PromptTemplate|
                            !loads_key(tsv.take(k as int), t.name@, t.version@) ==> (self.templates().contains(t) == r0.templates().contains(t)),
                    decreases rest@.len(),
                {
                    let t = rest.remove(0);
                    let ghost tk = tsv[k as int];
                    let ghost before = *self;
                    assert(t == tk);
                    self.register(t);
                    assert forall|q: int| 0 <= q < k + 1 implies #[trigger] self.contains_key(tsv[q].name@, tsv[q].version@) by {
                        if q < k && !(tsv[q].name@ == tk.name@ && tsv[q].version@ == tk.version@) {
                        }
                    }
                    assert forall|nn: Seq<char>, v: Seq<char>| !loads_key(tsv.take(k + 1), nn, v) implies
                        (self.contains_key(nn, v) == r0.contains_key(nn, v)) by {
                        assert(tsv.take(k + 1)[k as int] == tk);
                        assert(!(nn == tk.name@ && v == tk.version@));
                        if loads_key(tsv.take(k as int), nn, v) {
                            let q = choose|q: int| 0 <= q < tsv.take(k as int).len() && has_key(#[trigger] tsv.take(k as int)[q], nn, v);
                            assert(tsv.take(k + 1)[q] == tsv.take(k as int)[q]);
                        }
                    }
                    assert forall|t: PromptTemplate| !loads_key(tsv.take(k + 1), t.name@, t.version@) implies
                        (self.templates().contains(t) == r0.templates().contains(t)) by {
                        assert(tsv.take(k + 1)[k as int] == tk);
                        assert(!has_key(t, tk.name@, tk.version@));
                        if loads_key(tsv.take(k as int), t.name@, t.version@) {
                            let q = choose|q: int| 0 <= q < tsv.take(k as int).len() && has_key(#[trigger] tsv.take(k as int)[q], t.name@, t.version@);
                            assert(tsv.take(k + 1)[q] == tsv.take(k as int)[q]);
                        }
                    }
                    k = k + 1;
                }
                assert(tsv.take(k as int) =~= tsv);
                Ok(())
            },
        }
    }

    /// The template registered under `name` and `version`; without a version,
    /// the template of that name whose version is greatest in string order.
    pub fn get(&self, name: &str, version: Option<&str>) -> (res: Result<&PromptTemplate, EvalError>)
        requires
            self.wf(),
        ensures
            version is Some && res is Ok ==> self.templates().contains(*res->Ok_0),
            version is Some && res is Ok ==> has_key(*res->Ok_0, name@, version->Some_0@),
            version is Some && res is Err ==> !self.contains_key(name@, version->Some_0@),
            version is None && res is Ok ==> self.templates().contains(*res->Ok_0) && res->Ok_0.name@ == name@,
            version is None && res is Ok ==> forall|i: int|
                0 <= i < self.templates().len() && (#[trigger] self.templates()[i]).name@ == name@
                    ==> lex_le(self.templates()[i].version@, res->Ok_0.version@),
            version is None && res is Err ==> !self.has_name(name@),
            res matches Err(e) ==> e is PromptNotFound,
    {
        let nc = crate::text::chars_of(name);
        match version {
            Some(v) => {
                assert(version is Some);
                assert(version->Some_0@ == v@);
                let vc = crate::text::chars_of(v);
                let mut i: usize = 0;
                while i < self.entries.len()
                    invariant
                        i <= self.entries@.len(),
                        nc@ == name@,
                        vc@ == v@,
                        version is Some,
                        version->Some_0@ == v@,
                        forall|k: int| 0 <= k < i ==> !has_key(#[trigger] self.entries@[k], name@, v@),
                    decreases self.entries@.len() - i,
                {
                    let en = chars_of_string(&self.entries[i].name);
                    let ev = chars_of_string(&self.entries[i].version);
                    if chars_eq(en.as_slice(), nc.as_slice()) && chars_eq(ev.as_slice(), vc.as_slice()) {
                        assert(self.templates()[i as int] == self.entries@[i as int]);
                        assert(self.templates().contains(self.entries@[i as int]));
                        assert(has_key(self.entries@[i as int], name@, v@));
                        return Ok(&self.entries[i]);
                    }
                    i = i + 1;
                }
                Err(EvalError::PromptNotFound(owned(name)))
            },
            None => {
                let mut best: Option<usize> = None;
                let mut i: usize = 0;
                while i < self.entries.len()
                    invariant
                        i <= self.entries@.len(),
                        nc@ == name@,
                        best is None ==> forall|k: int| 0 <= k < i ==> (#[trigger] self.entries@[k]).name@ != name@,
                        best matches Some(b) ==> b < i && self.entries@[b as int].name@ == name@ && forall|k: int|
                            0 <= k < i && (#[trigger] self.entries@[k]).name@ == name@ ==> lex_le(
                                self.entries@[k].version@,
                                self.entries@[b as int].version@,
                            ),
                    decreases self.entries@.len() - i,
                {
                    let en = chars_of_string(&self.entries[i].name);
                    if chars_eq(en.as_slice(), nc.as_slice()) {
                        match best {
                            None => {
                                proof {
                                    crate::prompts::lemma_lex_refl(self.entries@[i as int].version@);
                                }
                                best = Some(i);
                            },
                            Some(b) => {
                                let bv = chars_of_string(&self.entries[b].version);
                                let iv = chars_of_string(&self.entries[i].version);
                                if !lex_le_chars(iv.as_slice(), bv.as_slice()) {
                                    proof {
                                        lemma_lex_total(iv@, bv@);
                                        crate::prompts::lemma_lex_refl(iv@);
                                        assert forall|k: int| 0 <= k < i && (#[trigger] self.entries@[k]).name@ == name@
                                            implies lex_le(self.entries@[k].version@, iv@) by {
                                            lemma_lex_trans(self.entries@[k].version@, bv@, iv@);
                                        }
                                    }
                                    best = Some(i);
                                } else {
                                    proof {
                                        crate::prompts::lemma_lex_refl(bv@);
                                    }
                                }
                            },
                        }
                    }
                    i = i + 1;
                }
                match best {
                    Some(b) => {
                        assert(self.templates()[b as int] == self.entries@[b as int]);
                        assert(self.templates().contains(self.entries@[b as int]));
                        Ok(&self.entries[b])
                    },
                    None => Err(EvalError::PromptNotFound(owned(name))),
                }
            },
        }
    }

    /// The distinct names of the registered templates.
    pub fn list_names(&self) -> (res: Vec<String>)
        ensures
            crate::judge::sv(res@).no_duplicates(),
            forall|n: Seq<char>| crate::judge::sv(res@).contains(n) <==> self.has_name(n),
    {
        let mut names: Vec<String> = Vec::new();
        let mut i: usize = 0;
        while i < self.entries.len()
            invariant
                i <= self.entries@.len(),
                crate::judge::sv(names@).no_duplicates(),
                forall|n: Seq<char>| crate::judge::sv(names@).contains(n) <==> exists|k: int| 0 <= k < i && (#[trigger] self.entries@[k]).name@ == n,
            decreases self.entries@.len() - i,
        {
            let ghost before = crate::judge::sv(names@);
            let nm = self.entries[i].name.clone();
            if !crate::judge::contains_str(names.as_slice(), &nm) {
                names.push(nm);
                assert(crate::judge::sv(names@) =~= before.push(self.entries@[i as int].name@));
            }
            let ghost after = crate::judge::sv(names@);
            assert forall|n: Seq<char>| after.contains(n) <==> exists|k: int| 0 <= k < i + 1 && (#[trigger] self.entries@[k]).name@ == n by {
                if after.contains(n) && !before.contains(n) {
                    assert(after[after.len() - 1] == n);
                    assert(self.entries@[i as int].name@ == n);
                }
                if before.contains(n) {
                    let q = choose|q: int| 0 <= q < before.len() && before[q] == n;
                    assert(after[q] == n);
                }
                if exists|k: int| 0 <= k < i + 1 && (#[trigger] self.entries@[k]).name@ == n {
                    let k = choose|k: int| 0 <= k < i + 1 && (#[trigger] self.entries@[k]).name@ == n;
                    if k == i && !before.contains(n) {
                        assert(after[after.len() - 1] == n);
                    }
                }
            }
            i = i + 1;
        }
        assert forall|n: Seq<char>| crate::judge::sv(names@).contains(n) <==> self.has_name(n) by {
            if crate::judge::sv(names@).contains(n) {
                let k = choose|k: int| 0 <= k < i && (#[trigger] self.entries@[k]).name@ == n;
                assert(self.templates()[k].name@ == n);
            }
            if self.has_name(n) {
                let k = choose|k: int| 0 <= k < self.templates().len() && (#[trigger] self.templates()[k]).name@ == n;
                assert(self.entries@[k].name@ == n);
            }
        }
        names
    }
}

/// Lexicographic order is reflexive.
pub proof fn lemma_lex_refl(a: Seq<char>)
    ensures
        lex_le(a, a),
    decreases a.len(),
{
    if a.len() > 0 {
        lemma_lex_refl(a.drop_first());
    }
}


/// The views of template variables.
pub open spec fn context_v(ctx: Seq<(String, Json)>) -> Seq<(Seq<char>, JsonV)> {
    ctx.map_values(|e: (String, Json)| (e.0@, e.1.v()))
}

/// A character of a variable name: an ASCII letter or digit, or `_`.
pub open spec fn name_char(c: char) -> bool {
    ('a' <= c && c <= 'z') || ('A' <= c && c <= 'Z') || ('0' <= c && c <= '9') || c == '_'
}

/// The length of the run of name characters that begins `t`.
pub open spec fn name_len(t: Seq<char>) -> nat
    decreases t.len(),
{
    if t.len() > 0 && name_char(t[0]) {
        1 + name_len(t.drop_first())
    } else {
        0
    }
}

/// The length of the run of spaces that begins `t`.
pub open spec fn space_len(t: Seq<char>) -> nat
    decreases t.len(),
{
    if t.len() > 0 && t[0] == ' ' {
        1 + space_len(t.drop_first())
    } else {
        0
    }
}

/// A variable name that tera's expression grammar reads as nothing but a
/// variable: it begins with an ASCII letter, does not begin with a boolean
/// literal (`true`, `false`, `True`, `False`), and is none of the words
/// `not`, `and`, `or`, `in` and `is`.
pub open spec fn plain_name(n: Seq<char>) -> bool {
    &&& n.len() > 0
    &&& (('a' <= n[0] && n[0] <= 'z') || ('A' <= n[0] && n[0] <= 'Z'))
    &&& !("true"@.is_prefix_of(n) || "false"@.is_prefix_of(n) || "True"@.is_prefix_of(n) || "False"@.is_prefix_of(n))
    &&& n != "not"@ && n != "and"@ && n != "or"@ && n != "in"@ && n != "is"@
}

/// The value last bound to `name` among the variables.
pub open spec fn last_binding(ctx: Seq<(Seq<char>, JsonV)>, name: Seq<char>) -> Option<JsonV>
    decreases ctx.len(),
{
    if ctx.len() == 0 {
        None
    } else if ctx.last().0 == name {
        Some(ctx.last().1)
    } else {
        last_binding(ctx.drop_last(), name)
    }
}

/// What a template made of plain text and variable tags renders to: each
/// tag `{{ name }}` (spaces allowed inside the braces, `name` a
/// [`plain_name`]) is replaced by the string last bound to `name`, and the
/// text between tags is kept as it is. `None` for any other template: one
/// with a block tag `{%` or a comment `{#`, another form of `{{ .. }}`, or a
/// variable that is missing or not bound to a string.
pub open spec fn subst(t: Seq<char>, ctx: Seq<(Seq<char>, JsonV)>) -> Option<Seq<char>>
    decreases t.len(),
{
    if t.len() == 0 {
        Some(Seq::empty())
    } else if t.len() >= 2 && t[0] == '{' && (t[1] == '%' || t[1] == '#') {
        None
    } else if t.len() >= 2 && t[0] == '{' && t[1] == '{' {
        let a: int = 2 + space_len(t.skip(2)) as int;
        let n: int = name_len(t.skip(a)) as int;
        let b: int = a + n + space_len(t.skip(a + n)) as int;
        let name = t.subrange(a, a + n);
        if a + n <= t.len() && b + 2 <= t.len() && t[b] == '}' && t[b + 1] == '}' && plain_name(name) {
            match last_binding(ctx, name) {
                Some(JsonV::Str(v)) => match subst(t.skip(b + 2), ctx) {
                    Some(r) => Some(v + r),
                    None => None,
                },
                _ => None,
            }
        } else {
            None
        }
    } else {
        match subst(t.drop_first(), ctx) {
            Some(r) => Some(seq![t[0]] + r),
            None => None,
        }
    }
}

/// A JSON value as `serde_json` holds it, variant by variant.
#[verifier::external_body]
fn value_of_json(j: &Json) -> serde_json::Value {
    match j {
        Json::Null => serde_json::Value::Null,
        Json::Bool(b) => serde_json::Value::Bool(*b),
        Json::Number(t) => serde_json::from_str::<serde_json::Value>(t).unwrap_or(serde_json::Value::Null),
        Json::Str(s) => serde_json::Value::String(s.clone()),
        Json::Array(a) => serde_json::Value::Array(a.iter().map(value_of_json).collect()),
        Json::Object(m) => serde_json::Value::Object(m.iter().map(|(k, x)| (k.clone(), value_of_json(x))).collect()),
    }
}

/// Renders a template text with `tera::Tera::one_off` (autoescape off) and a
/// `tera::Context` holding the given variables; `Err` carries tera's message.
/// A template made of plain text and `{{ name }}` tags whose variables are
/// strings parses, in tera's grammar, as text nodes and variable nodes; the
/// renderer writes text as it is and a string variable as its text (context
/// insertion keeps the last value of a name, and nothing is escaped with
/// autoescape off), so it renders to [`subst`]. Nothing more is stated of
/// the text rendered or of when tera fails: the renderer that `one_off`
/// builds registers the global function `get_env`, so what other templates
/// render may depend on the process environment.
#[verifier::external_body]
fn tera_one_off(template: &str, context: &Vec<(String, Json)>) -> (res: Result<String, String>)
    ensures
        res is Ok || subst(template@, context_v(context@)) is None,
        res matches Ok(r) ==> (subst(template@, context_v(context@)) matches Some(t) ==> r@ == t),
{
    let mut ctx = tera::Context::new();
    for (k, v) in context.iter() {
        ctx.insert(k.as_str(), &value_of_json(v));
    }
    tera::Tera::one_off(template, &ctx, false).map_err(|e| e.to_string())
}

/// The template variables of an input: the members of an object, or the
/// whole value as `input`.
pub open spec fn context_of(value: JsonV) -> Seq<(Seq<char>, JsonV)> {
    match value {
        JsonV::Object(m) => m,
        _ => seq![("input"@, value)],
    }
}

/// Template variables from a JSON input (see [`context_of`]).
pub fn context_from_json(value: &Json) -> (res: Result<Vec<(String, Json)>, EvalError>)
    ensures
        res matches Ok(ctx) && context_v(ctx@) == context_of(value.v()),
{
    match value {
        Json::Object(members) => {
            let mut out: Vec<(String, Json)> = Vec::new();
            let mut i: usize = 0;
            while i < members.len()
                invariant
                    i <= members@.len(),
                    out@.len() == i,
                    forall|k: int| 0 <= k < i ==> (#[trigger] out@[k]).0@ == members@[k].0@ && out@[k].1.v() == members@[k].1.v(),
                decreases members@.len() - i,
            {
                out.push((members[i].0.clone(), members[i].1.copy()));
                i = i + 1;
            }
            assert(context_v(out@) =~= context_of(value.v()));
            Ok(out)
        },
        _ => {
            let mut out: Vec<(String, Json)> = Vec::new();
            out.push((owned("input"), value.copy()));
            assert(context_v(out@) =~= context_of(value.v()));
            Ok(out)
        },
    }
}

/// The context supplies a variable of this name.
pub open spec fn supplies(ctx: Seq<(Seq<char>, JsonV)>, name: Seq<char>) -> bool {
    exists|k: int| 0 <= k < ctx.len() && (#[trigger] ctx[k]).0 == name
}

fn context_has(ctx: &Vec<(String, Json)>, name: &String) -> (res: bool)
    ensures
        res == supplies(context_v(ctx@), name@),
{
    let mut i: usize = 0;
    while i < ctx.len()
        invariant
            i <= ctx@.len(),
            forall|k: int| 0 <= k < i ==> (#[trigger] ctx@[k]).0@ != name@,
        decreases ctx@.len() - i,
    {
        if ctx[i].0 == *name {
            assert(context_v(ctx@)[i as int].0 == name@);
            return true;
        }
        i = i + 1;
    }
    assert(!supplies(context_v(ctx@), name@)) by {
        if supplies(context_v(ctx@), name@) {
            let k = choose|k: int| 0 <= k < context_v(ctx@).len() && (#[trigger] context_v(ctx@)[k]).0 == name@;
            assert(ctx@[k].0@ == name@);
        }
    }
    false
}

/// Every required variable of the template is supplied.
pub open spec fn required_supplied(t: PromptTemplate, ctx: Seq<(Seq<char>, JsonV)>) -> bool {
    forall|i: int| 0 <= i < t.variables@.len() && (#[trigger] t.variables@[i]).1.required
        ==> supplies(ctx, t.variables@[i].0@)
}

/// Renders a template: every required variable must be supplied, then tera
/// renders the text.
pub fn render(template: &PromptTemplate, context: &Vec<(String, Json)>) -> (res: Result<String, EvalError>)
    ensures
        !required_supplied(*template, context_v(context@)) ==> res matches Err(EvalError::InvalidPromptVariables(_)),
        required_supplied(*template, context_v(context@)) ==> res is Ok || res matches Err(EvalError::PromptRenderError(_)),
        required_supplied(*template, context_v(context@)) ==> (subst(template.template@, context_v(context@)) matches Some(t) ==> (res matches Ok(r) && r@ == t)),
{
    let mut i: usize = 0;
    while i < template.variables.len()
        invariant
            i <= template.variables@.len(),
            forall|k: int| 0 <= k < i && (#[trigger] template.variables@[k]).1.required
                ==> supplies(context_v(context@), template.variables@[k].0@),
        decreases template.variables@.len() - i,
    {
        if template.variables[i].1.required && !context_has(context, &template.variables[i].0) {
            return Err(EvalError::InvalidPromptVariables(owned("缺少必填变量: ").concat(template.variables[i].0.as_str())));
        }
        i = i + 1;
    }
    match tera_one_off(template.template.as_str(), context) {
        Ok(t) => Ok(t),
        Err(e) => Err(EvalError::PromptRenderError(e)),
    }
}

impl PromptRegistry {
    /// Renders a template of this registry (see [`render`]).
    pub fn render(&self, template: &PromptTemplate, context: &Vec<(String, Json)>) -> (res: Result<String, EvalError>)
        ensures
            !required_supplied(*template, context_v(context@)) ==> res matches Err(EvalError::InvalidPromptVariables(_)),
            required_supplied(*template, context_v(context@)) ==> res is Ok || res matches Err(EvalError::PromptRenderError(_)),
            required_supplied(*template, context_v(context@)) ==> (subst(template.template@, context_v(context@)) matches Some(t) ==> (res matches Ok(r) && r@ == t)),
    {
        render(template, context)
    }
}

} // verus!
