//! The result cache of the expression language. A result is stored under the
//! expression and the bindings of exactly the variables that occur in it, so
//! a stored result is the value of the expression wherever those variables
//! are bound alike.

use crate::environment::Bindings;
use crate::minielixir::{eval_model, ExprModel, MiniElixirExpr};
use crate::minielixir_terms::{
    agree_on, collect_variable_references, duplicate_expr, identical_exprs,
    lemma_eval_reads_own_variables, listed, occurs,
};
use crate::values::{EllexValue, ValueModel};
use vstd::prelude::*;

verus! {

/// The variables that occur in `e`.
pub open spec fn variables_of(e: ExprModel) -> Set<Seq<char>> {
    Set::new(|name: Seq<char>| occurs(e, name))
}

/// The bindings of the variables of `e`, and of no other.
pub open spec fn relevant(e: ExprModel, env: Map<Seq<char>, ValueModel>) -> Map<
    Seq<char>,
    ValueModel,
> {
    env.restrict(variables_of(e))
}

/// An expression has the same value under its relevant bindings as under all
/// of them.
pub proof fn lemma_relevant_is_enough(e: ExprModel, env: Map<Seq<char>, ValueModel>)
    ensures
        eval_model(e, relevant(e, env)) == eval_model(e, env),
        relevant(e, relevant(e, env)) == relevant(e, env),
{
    assert(agree_on(e, relevant(e, env), env));
    lemma_eval_reads_own_variables(e, relevant(e, env), env);
    assert(relevant(e, relevant(e, env)) =~= relevant(e, env));
}

/// The model of a stored result.
pub struct ResultModel {
    pub expr: ExprModel,
    pub bindings: Map<Seq<char>, ValueModel>,
    pub value: ValueModel,
}

impl ResultModel {
    /// The result binds variables of its expression only, and its value is
    /// the value of the expression under these bindings.
    pub open spec fn sound(self) -> bool {
        &&& self.bindings == relevant(self.expr, self.bindings)
        &&& eval_model(self.expr, self.bindings) == Ok::<ValueModel, crate::ErrorModel>(self.value)
    }

    /// The result is stored under `e` and the bindings `key`.
    pub open spec fn keyed(self, e: ExprModel, key: Map<Seq<char>, ValueModel>) -> bool {
        self.expr == e && self.bindings == key
    }
}

/// The index of the first result stored under `e` and `key`, or the number
/// of results if there is none.
pub open spec fn position(
    results: Seq<ResultModel>,
    e: ExprModel,
    key: Map<Seq<char>, ValueModel>,
) -> int
    decreases results.len(),
{
    if results.len() == 0 {
        0
    } else if results[0].keyed(e, key) {
        0
    } else {
        1 + position(results.drop_first(), e, key)
    }
}

pub proof fn lemma_position(results: Seq<ResultModel>, e: ExprModel, key: Map<Seq<char>, ValueModel>)
    ensures
        0 <= position(results, e, key) <= results.len(),
        position(results, e, key) < results.len() ==> results[position(results, e, key)].keyed(
            e,
            key,
        ),
        forall|j: int| 0 <= j < position(results, e, key) ==> !results[j].keyed(e, key),
    decreases results.len(),
{
    if results.len() > 0 && !results[0].keyed(e, key) {
        let rest = results.drop_first();
        lemma_position(rest, e, key);
        assert forall|j: int| 0 <= j < position(results, e, key) implies !results[j].keyed(
            e,
            key,
        ) by {
            if j > 0 {
                assert(rest[j - 1] == results[j]);
            }
        }
    }
}

pub proof fn lemma_position_is(
    results: Seq<ResultModel>,
    e: ExprModel,
    key: Map<Seq<char>, ValueModel>,
    i: int,
)
    requires
        0 <= i <= results.len(),
        i < results.len() ==> results[i].keyed(e, key),
        forall|j: int| 0 <= j < i ==> !results[j].keyed(e, key),
    ensures
        position(results, e, key) == i,
{
    lemma_position(results, e, key);
    let f = position(results, e, key);
    if f < i {
        assert(!results[f].keyed(e, key));
    }
}

/// A result is stored for `e` under the bindings `env`.
pub open spec fn holds(results: Seq<ResultModel>, e: ExprModel, env: Map<Seq<char>, ValueModel>) -> bool {
    position(results, e, relevant(e, env)) < results.len()
}

/// The model of a result cache.
pub struct ResultCacheModel {
    pub results: Seq<ResultModel>,
    pub capacity: usize,
}

impl ResultCacheModel {
    /// Every stored result is sound.
    pub open spec fn well_formed(self) -> bool {
        forall|i: int| 0 <= i < self.results.len() ==> (#[trigger] self.results[i]).sound()
    }

    /// The cache after it was asked to store `value` for `e` under `env`:
    /// nothing changes if a result is stored already or the cache is full;
    /// otherwise the result is added at the end.
    pub open spec fn stored(
        self,
        e: ExprModel,
        env: Map<Seq<char>, ValueModel>,
        value: ValueModel,
    ) -> ResultCacheModel {
        if holds(self.results, e, env) || self.results.len() >= self.capacity {
            self
        } else {
            ResultCacheModel {
                results: self.results.push(
                    ResultModel { expr: e, bindings: relevant(e, env), value },
                ),
                ..self
            }
        }
    }
}

/// Storing a result makes it held, if there was room.
pub proof fn lemma_stored_holds(
    cache: ResultCacheModel,
    e: ExprModel,
    env: Map<Seq<char>, ValueModel>,
    value: ValueModel,
)
    requires
        holds(cache.results, e, env) || cache.results.len() < cache.capacity,
    ensures
        holds(cache.stored(e, env, value).results, e, env),
{
    if !holds(cache.results, e, env) {
        let key = relevant(e, env);
        lemma_position(cache.results, e, key);
        let grown = cache.stored(e, env, value).results;
        assert forall|j: int| 0 <= j < cache.results.len() implies !grown[j].keyed(e, key) by {
            assert(grown[j] == cache.results[j]);
        }
        lemma_position_is(grown, e, key, cache.results.len() as int);
    }
}

/// One stored result.
#[derive(Debug)]
pub struct CachedResult {
    expr: MiniElixirExpr,
    bindings: Bindings,
    value: EllexValue,
}

impl View for CachedResult {
    type V = ResultModel;

    closed spec fn view(&self) -> ResultModel {
        ResultModel { expr: self.expr@, bindings: self.bindings@, value: self.value@ }
    }
}

pub open spec fn results_model(entries: Seq<CachedResult>) -> Seq<ResultModel> {
    Seq::new(entries.len(), |i: int| entries[i]@)
}

/// The names in `names`, as a set.
pub open spec fn listed_set(names: Seq<String>) -> Set<Seq<char>> {
    Set::new(|name: Seq<char>| listed(names, name))
}

/// The names of the variables that occur in `expr`.
pub fn variable_names(expr: &MiniElixirExpr) -> (names: Vec<String>)
    ensures
        listed_set(names@) == variables_of(expr@),
{
    let mut names: Vec<String> = Vec::new();
    collect_variable_references(expr, &mut names);
    assert(listed_set(names@) =~= variables_of(expr@)) by {
        assert forall|n: Seq<char>| listed_set(names@).contains(n) == variables_of(
            expr@,
        ).contains(n) by {
            if listed(names@, n) {
                assert(!listed(Seq::<String>::empty(), n));
            }
        }
    }
    names
}

/// The bindings of `env` for the variables named in `names`.
pub fn restricted_bindings(names: &Vec<String>, env: &Bindings) -> (b: Bindings)
    ensures
        b@ == env@.restrict(listed_set(names@)),
{
    let mut b = Bindings::new();
    let mut i: usize = 0;
    assert(b@ =~= env@.restrict(listed_set(names@.subrange(0, 0))));
    while i < names.len()
        invariant
            0 <= i <= names.len(),
            b@ == env@.restrict(listed_set(names@.subrange(0, i as int))),
        decreases names.len() - i,
    {
        let ghost seen = names@.subrange(0, i as int);
        let ghost next = names@.subrange(0, i + 1);
        let name = &names[i];
        assert(next =~= seen.push(names@[i as int]));
        assert forall|n: Seq<char>| listed(next, n) == (listed(seen, n) || n == name@) by {
            if listed(next, n) {
                let k = choose|k: int| 0 <= k < next.len() && (#[trigger] next[k])@ == n;
                if k < i {
                    assert(seen[k]@ == n);
                }
            }
            if listed(seen, n) {
                let k = choose|k: int| 0 <= k < seen.len() && (#[trigger] seen[k])@ == n;
                assert(next[k]@ == n);
            }
            if n == name@ {
                assert(next[i as int]@ == n);
            }
        }
        match env.get(name.as_str()) {
            Some(v) => {
                b.insert(name.clone(), v.duplicate());
            },
            None => {},
        }
        assert(b@ =~= env@.restrict(listed_set(next)));
        i += 1;
    }
    assert(names@.subrange(0, names.len() as int) =~= names@);
    b
}

impl CachedResult {
    /// Whether this result is stored under `expr` and the relevant bindings
    /// of `env`; `names` are the variables of `expr`.
    fn matches(&self, expr: &MiniElixirExpr, names: &Vec<String>, env: &Bindings) -> (r: bool)
        requires
            listed_set(names@) == variables_of(expr@),
            self@.sound(),
        ensures
            r == self@.keyed(expr@, relevant(expr@, env@)),
    {
        if !identical_exprs(&self.expr, expr) {
            return false;
        }
        let ghost key = relevant(expr@, env@);
        let mut i: usize = 0;
        while i < names.len()
            invariant
                0 <= i <= names.len(),
                self.expr@ == expr@,
                key == relevant(expr@, env@),
                listed_set(names@) == variables_of(expr@),
                forall|j: int|
                    0 <= j < i ==> crate::minielixir_terms::bound_alike(
                        self.bindings@,
                        key,
                        (#[trigger] names[j])@,
                    ),
            decreases names.len() - i,
        {
            let name = &names[i];
            assert(listed(names@, name@));
            assert(variables_of(expr@).contains(name@));
            let alike = match (env.get(name.as_str()), self.bindings.get(name.as_str())) {
                (Some(a), Some(b)) => a.identical_to(b),
                (None, None) => true,
                _ => false,
            };
            if !alike {
                assert(self.bindings@ != key) by {
                    if self.bindings@ == key {
                        assert(self.bindings@.contains_key(name@) == key.contains_key(name@));
                    }
                }
                return false;
            }
            i += 1;
        }
        assert(self.bindings@ =~= key) by {
            assert forall|n: Seq<char>| self.bindings@.contains_key(n) == key.contains_key(n) && (
            self.bindings@.contains_key(n) ==> self.bindings@[n] == key[n]) by {
                if variables_of(expr@).contains(n) {
                    assert(listed(names@, n));
                    let k = choose|k: int| 0 <= k < names@.len() && (#[trigger] names@[k])@ == n;
                    assert(crate::minielixir_terms::bound_alike(self.bindings@, key, names[k]@));
                } else {
                    assert(!relevant(self.expr@, self.bindings@).contains_key(n));
                }
            }
        }
        true
    }
}

/// The stored results of an interpreter, at most `capacity` of them.
#[derive(Debug)]
pub struct ResultCache {
    entries: Vec<CachedResult>,
    capacity: usize,
}

impl View for ResultCache {
    type V = ResultCacheModel;

    closed spec fn view(&self) -> ResultCacheModel {
        ResultCacheModel { results: results_model(self.entries@), capacity: self.capacity }
    }
}

impl ResultCache {
    #[verifier::type_invariant]
    spec fn entries_are_sound(&self) -> bool {
        forall|i: int| 0 <= i < self.entries.len() ==> (#[trigger] self.entries[i])@.sound()
    }

    /// An empty cache for at most `capacity` results.
    pub fn new(capacity: usize) -> (c: Self)
        ensures
            c@ == (ResultCacheModel { results: Seq::empty(), capacity }),
            c@.well_formed(),
    {
        let c = ResultCache { entries: Vec::new(), capacity };
        assert(c@.results =~= Seq::<ResultModel>::empty());
        c
    }

    /// The number of stored results.
    pub fn len(&self) -> (n: usize)
        ensures
            n == self@.results.len(),
    {
        self.entries.len()
    }

    /// The most results the cache stores.
    pub fn capacity(&self) -> (n: usize)
        ensures
            n == self@.capacity,
    {
        self.capacity
    }

    fn find(&self, expr: &MiniElixirExpr, env: &Bindings) -> (i: usize)
        ensures
            i == position(self@.results, expr@, relevant(expr@, env@)),
            i <= self.entries.len(),
    {
        proof {
            use_type_invariant(self);
        }
        let names = variable_names(expr);
        let ghost key = relevant(expr@, env@);
        let mut i: usize = 0;
        while i < self.entries.len()
            invariant
                0 <= i <= self.entries.len(),
                key == relevant(expr@, env@),
                listed_set(names@) == variables_of(expr@),
                forall|j: int| 0 <= j < self.entries.len() ==> (#[trigger] self.entries[j])@.sound(),
                forall|j: int| 0 <= j < i ==> !self@.results[j].keyed(expr@, key),
            decreases self.entries.len() - i,
        {
            if self.entries[i].matches(expr, &names, env) {
                proof {
                    lemma_position_is(self@.results, expr@, key, i as int);
                }
                return i;
            }
            i += 1;
        }
        proof {
            lemma_position_is(self@.results, expr@, key, i as int);
        }
        i
    }

    /// The stored result for `expr` under `env`, if there is one. A stored
    /// result is the value of the expression.
    pub fn lookup(&self, expr: &MiniElixirExpr, env: &Bindings) -> (r: Option<EllexValue>)
        ensures
            r is Some <==> holds(self@.results, expr@, env@),
            r is Some ==> eval_model(expr@, env@) == Ok::<ValueModel, crate::ErrorModel>(
                r.unwrap()@,
            ),
    {
        proof {
            use_type_invariant(self);
        }
        let i = self.find(expr, env);
        if i < self.entries.len() {
            proof {
                lemma_position(self@.results, expr@, relevant(expr@, env@));
                assert(self.entries[i as int]@.sound());
                lemma_relevant_is_enough(expr@, env@);
            }
            Some(self.entries[i].value.duplicate())
        } else {
            None
        }
    }

    /// Stores `value` as the result of `expr` under `env`, unless a result
    /// is stored already or the cache is full.
    pub(crate) fn store(&mut self, expr: &MiniElixirExpr, env: &Bindings, value: &EllexValue)
        requires
            eval_model(expr@, env@) == Ok::<ValueModel, crate::ErrorModel>(value@),
        ensures
            final(self)@ == old(self)@.stored(expr@, env@, value@),
    {
        proof {
            use_type_invariant(&*self);
        }
        let i = self.find(expr, env);
        if i < self.entries.len() || self.entries.len() >= self.capacity {
            return ;
        }
        let names = variable_names(expr);
        let bindings = restricted_bindings(&names, env);
        let entry = CachedResult {
            expr: duplicate_expr(expr),
            bindings,
            value: value.duplicate(),
        };
        proof {
            lemma_relevant_is_enough(expr@, env@);
            assert(entry@.sound());
        }
        let mut entries: Vec<CachedResult> = Vec::new();
        std::mem::swap(&mut entries, &mut self.entries);
        entries.push(entry);
        std::mem::swap(&mut entries, &mut self.entries);
        assert(self@.results =~= old(self)@.stored(expr@, env@, value@).results);
    }

    /// Forgets every stored result.
    pub fn clear(&mut self)
        ensures
            final(self)@ == (ResultCacheModel { results: Seq::empty(), ..old(self)@ }),
    {
        let mut entries: Vec<CachedResult> = Vec::new();
        std::mem::swap(&mut entries, &mut self.entries);
        assert(self@.results =~= Seq::<ResultModel>::empty());
    }
}

} // verus!
