//! The interpreter of the expression language behind its result cache.
//!
//! The cache never changes what an evaluation gives: every result is the
//! value of the expression under the bindings at hand, whether it was
//! computed or served. What the cache changes is the bookkeeping, and that
//! is the spec function [`RuntimeModel::after_eval`].

use crate::cached_statement::CacheStats;
use crate::minielixir::{
    advance, eval_model, evaluated, visits, EvaluationContext, Evaluated, ExprModel,
    InterpreterStats,
    MiniElixirExpr, MiniElixirInterpreter,
};
use crate::minielixir_terms::{duplicate_expr, identical_exprs};
use crate::minielixir_validator::{
    all_deterministic, clamp, deterministic, expr_is_deterministic, expr_weight, is_builtin,
    takes_one, weight, MiniElixirValidator, ValidatorModel, MIN_CACHED_WEIGHT,
};
use crate::result_cache::{holds, lemma_stored_holds, ResultCache, ResultCacheModel};
use crate::values::{EllexValue, ValueModel};
use crate::{EllexResult, ErrorModel};
use vstd::prelude::*;

verus! {

/// The most results that a runtime stores.
pub const MAX_CACHED_RESULTS: usize = 1000;

/// The number of executions above which an expression counts as hot.
pub const HOT_EXECUTIONS: u64 = 10;

/// What the runtime knows of one expression it has evaluated.
#[derive(Debug)]
pub struct CachedMiniElixirExpr {
    pub expr: MiniElixirExpr,
    /// How often the expression was evaluated with success, served or not.
    pub execution_count: u64,
    /// How often its value was served from the result cache.
    pub cache_hits: u64,
    pub is_deterministic: bool,
    pub complexity_score: usize,
}

/// The model of what the runtime knows of one expression.
pub struct MetaModel {
    pub expr: ExprModel,
    pub execution_count: u64,
    pub cache_hits: u64,
    pub is_deterministic: bool,
    pub complexity_score: usize,
}

impl View for CachedMiniElixirExpr {
    type V = MetaModel;

    open spec fn view(&self) -> MetaModel {
        MetaModel {
            expr: self.expr@,
            execution_count: self.execution_count,
            cache_hits: self.cache_hits,
            is_deterministic: self.is_deterministic,
            complexity_score: self.complexity_score,
        }
    }
}

impl MetaModel {
    /// What is known of `e` before its first execution.
    pub open spec fn fresh(e: ExprModel) -> MetaModel {
        MetaModel {
            expr: e,
            execution_count: 0,
            cache_hits: 0,
            is_deterministic: deterministic(e),
            complexity_score: clamp(weight(e)),
        }
    }

    /// One more execution; a served one is one more hit as well.
    pub open spec fn executed(self, served: bool) -> MetaModel {
        MetaModel {
            execution_count: self.execution_count.saturating_add(1),
            cache_hits: if served {
                self.cache_hits.saturating_add(1)
            } else {
                self.cache_hits
            },
            ..self
        }
    }
}

impl CachedMiniElixirExpr {
    /// What is known of `expr` before its first execution.
    pub fn new(expr: MiniElixirExpr, validator: &MiniElixirValidator) -> (m: Self)
        ensures
            m@ == MetaModel::fresh(expr@),
    {
        let is_deterministic = validator.is_deterministic(&expr);
        let complexity_score = validator.complexity_score(&expr);
        CachedMiniElixirExpr {
            expr,
            execution_count: 0,
            cache_hits: 0,
            is_deterministic,
            complexity_score,
        }
    }
}

pub open spec fn metas_model(metas: Seq<CachedMiniElixirExpr>) -> Seq<MetaModel> {
    Seq::new(metas.len(), |i: int| metas[i]@)
}

/// The index of the first record of `e`, or the number of records if there
/// is none.
pub open spec fn record_of(metas: Seq<MetaModel>, e: ExprModel) -> int
    decreases metas.len(),
{
    if metas.len() == 0 {
        0
    } else if metas[0].expr == e {
        0
    } else {
        1 + record_of(metas.drop_first(), e)
    }
}

pub proof fn lemma_record_of(metas: Seq<MetaModel>, e: ExprModel)
    ensures
        0 <= record_of(metas, e) <= metas.len(),
        record_of(metas, e) < metas.len() ==> metas[record_of(metas, e)].expr == e,
        forall|j: int| 0 <= j < record_of(metas, e) ==> metas[j].expr != e,
    decreases metas.len(),
{
    if metas.len() > 0 && metas[0].expr != e {
        let rest = metas.drop_first();
        lemma_record_of(rest, e);
        assert forall|j: int| 0 <= j < record_of(metas, e) implies metas[j].expr != e by {
            if j > 0 {
                assert(rest[j - 1] == metas[j]);
            }
        }
    }
}

pub proof fn lemma_record_is(metas: Seq<MetaModel>, e: ExprModel, i: int)
    requires
        0 <= i <= metas.len(),
        i < metas.len() ==> metas[i].expr == e,
        forall|j: int| 0 <= j < i ==> metas[j].expr != e,
    ensures
        record_of(metas, e) == i,
{
    lemma_record_of(metas, e);
    let f = record_of(metas, e);
    if f < i {
        assert(metas[f].expr != e);
    }
}

/// The records after one more execution of `e`: its record counts one more,
/// or a new record with one execution is added at the end.
pub open spec fn recorded(metas: Seq<MetaModel>, e: ExprModel, served: bool) -> Seq<MetaModel> {
    let i = record_of(metas, e);
    if i < metas.len() {
        metas.update(i, metas[i].executed(served))
    } else {
        metas.push(MetaModel::fresh(e).executed(served))
    }
}

/// A deterministic expression of weight three or more: its result is worth
/// storing.
pub open spec fn worth_caching(e: ExprModel) -> bool {
    deterministic(e) && clamp(weight(e)) >= MIN_CACHED_WEIGHT
}

/// The model of a cached runtime.
pub struct RuntimeModel {
    pub validator: ValidatorModel,
    pub results: ResultCacheModel,
    pub expressions: Seq<MetaModel>,
    pub stats: CacheStats,
    /// The evaluations asked of the runtime.
    pub total_evaluations: u64,
    /// The evaluations that reached the interpreter.
    pub interpreter_evaluations: u64,
    pub cache_enabled: bool,
}

impl RuntimeModel {
    /// A runtime that has evaluated nothing.
    pub open spec fn fresh(validator: ValidatorModel) -> RuntimeModel {
        RuntimeModel {
            validator,
            results: ResultCacheModel { results: Seq::empty(), capacity: MAX_CACHED_RESULTS },
            expressions: Seq::empty(),
            stats: CacheStats::zero(),
            total_evaluations: 0,
            interpreter_evaluations: 0,
            cache_enabled: true,
        }
    }

    /// The next evaluation of `e` under `env` is served from the result
    /// cache.
    pub open spec fn serves(self, e: ExprModel, env: Map<Seq<char>, ValueModel>) -> bool {
        self.cache_enabled && worth_caching(e) && holds(self.results.results, e, env)
    }

    /// The runtime after it evaluated `e` under `env`. Every evaluation is
    /// counted. A served one counts a hit and is recorded as an execution of
    /// the expression. Any other reaches the interpreter; if it gives a
    /// value, it counts a miss, and with caching enabled the expression is
    /// recorded as executed and a result worth caching is stored if there is
    /// room.
    pub open spec fn after_eval(self, e: ExprModel, env: Map<Seq<char>, ValueModel>) -> RuntimeModel {
        let counted = RuntimeModel {
            total_evaluations: self.total_evaluations.saturating_add(1),
            ..self
        };
        if self.serves(e, env) {
            RuntimeModel {
                expressions: recorded(self.expressions, e, true),
                stats: CacheStats {
                    total_hits: self.stats.total_hits.saturating_add(1),
                    ..self.stats
                },
                ..counted
            }
        } else {
            let evaluated = RuntimeModel {
                interpreter_evaluations: advance(self.interpreter_evaluations, visits(e, env)),
                ..counted
            };
            match eval_model(e, env) {
                Err(_) => evaluated,
                Ok(value) => RuntimeModel {
                    expressions: if self.cache_enabled {
                        recorded(self.expressions, e, false)
                    } else {
                        self.expressions
                    },
                    results: if self.cache_enabled && worth_caching(e) {
                        self.results.stored(e, env, value)
                    } else {
                        self.results
                    },
                    stats: CacheStats {
                        total_misses: self.stats.total_misses.saturating_add(1),
                        ..self.stats
                    },
                    ..evaluated
                },
            }
        }
    }

    /// The runtime after it was asked to evaluate the text `code`: a text
    /// that cannot be read or that the validator refuses leaves it as it
    /// is; any other is evaluated as its expression.
    pub open spec fn after_code(self, code: Seq<char>, env: Map<Seq<char>, ValueModel>) -> RuntimeModel {
        match crate::minielixir_parser::read(code) {
            Err(_) => self,
            Ok(e) => if self.validator.check(e, 0) is Some {
                self
            } else {
                self.after_eval(e, env)
            },
        }
    }

    /// The runtime after it evaluated the first `n` expressions of `exprs`
    /// in order, stopping at the first error.
    pub open spec fn after_block(
        self,
        exprs: Seq<ExprModel>,
        n: int,
        env: Map<Seq<char>, ValueModel>,
    ) -> RuntimeModel
        decreases n,
    {
        if n <= 0 || n > exprs.len() {
            self
        } else if block_value(exprs, n - 1, env) is Err {
            self.after_block(exprs, n - 1, env)
        } else {
            self.after_block(exprs, n - 1, env).after_eval(exprs[n - 1], env)
        }
    }
}

/// What evaluating the text `code` gives: the error of reading it, or the
/// first finding of the validator, or the value of its expression.
pub open spec fn code_value(
    validator: ValidatorModel,
    code: Seq<char>,
    env: Map<Seq<char>, ValueModel>,
) -> Evaluated {
    match crate::minielixir_parser::read(code) {
        Err(error) => Err(error),
        Ok(e) => match validator.check(e, 0) {
            Some(error) => Err(error),
            None => eval_model(e, env),
        },
    }
}

/// The value of a block of the first `n` expressions of `exprs`: the value
/// of the last one, nil for an empty block, or the first error.
pub open spec fn block_value(exprs: Seq<ExprModel>, n: int, env: Map<Seq<char>, ValueModel>) -> Evaluated
    decreases n,
{
    if n <= 0 || n > exprs.len() {
        Ok(ValueModel::Nil)
    } else {
        match block_value(exprs, n - 1, env) {
            Err(error) => Err(error),
            Ok(_) => eval_model(exprs[n - 1], env),
        }
    }
}

/// The interpreter of the expression language with its validator and its
/// result cache.
#[derive(Debug)]
pub struct CachedMiniElixirRuntime {
    interpreter: MiniElixirInterpreter,
    validator: MiniElixirValidator,
    expression_cache: Vec<CachedMiniElixirExpr>,
    result_cache: ResultCache,
    global_stats: CacheStats,
    total_evaluations: u64,
    cache_enabled: bool,
}

impl View for CachedMiniElixirRuntime {
    type V = RuntimeModel;

    closed spec fn view(&self) -> RuntimeModel {
        RuntimeModel {
            validator: self.validator@,
            results: self.result_cache@,
            expressions: metas_model(self.expression_cache@),
            stats: self.global_stats,
            total_evaluations: self.total_evaluations,
            interpreter_evaluations: self.interpreter.evaluations(),
            cache_enabled: self.cache_enabled,
        }
    }
}

impl CachedMiniElixirRuntime {
    /// A runtime with the standard validator, caching enabled.
    pub fn new() -> (rt: Self)
        ensures
            rt@ == RuntimeModel::fresh(ValidatorModel::standard()),
    {
        Self::with_validator(MiniElixirValidator::new())
    }

    /// A runtime whose validator also allows the functions named in
    /// `functions`.
    pub fn with_custom_functions(functions: Vec<String>) -> (rt: Self)
        ensures
            rt@ == RuntimeModel::fresh(
                ValidatorModel {
                    allowed: ValidatorModel::standard().allowed.union(
                        crate::minielixir_validator::names_set(functions@),
                    ),
                    ..ValidatorModel::standard()
                },
            ),
    {
        Self::with_validator(MiniElixirValidator::new().with_custom_functions(functions))
    }

    /// A runtime with the given validator.
    pub fn with_validator(validator: MiniElixirValidator) -> (rt: Self)
        ensures
            rt@ == RuntimeModel::fresh(validator@),
    {
        let rt = CachedMiniElixirRuntime {
            interpreter: MiniElixirInterpreter::new(),
            validator,
            expression_cache: Vec::new(),
            result_cache: ResultCache::new(MAX_CACHED_RESULTS),
            global_stats: CacheStats::new(),
            total_evaluations: 0,
            cache_enabled: true,
        };
        assert(rt@.expressions =~= Seq::<MetaModel>::empty());
        rt
    }

    /// Stops serving and storing results.
    pub fn disable_caching(&mut self)
        ensures
            final(self)@ == (RuntimeModel { cache_enabled: false, ..old(self)@ }),
    {
        self.cache_enabled = false;
    }

    /// Serves and stores results again.
    pub fn enable_caching(&mut self)
        ensures
            final(self)@ == (RuntimeModel { cache_enabled: true, ..old(self)@ }),
    {
        self.cache_enabled = true;
    }

    fn update_expression_cache(&mut self, expr: &MiniElixirExpr, served: bool)
        ensures
            final(self)@ == (RuntimeModel {
                expressions: recorded(old(self)@.expressions, expr@, served),
                ..old(self)@
            }),
    {
        let ghost metas = self@.expressions;
        let mut i: usize = 0;
        while i < self.expression_cache.len()
            invariant
                0 <= i <= self.expression_cache.len(),
                *self == *old(self),
                metas == self@.expressions,
                forall|j: int| 0 <= j < i ==> metas[j].expr != expr@,
            decreases self.expression_cache.len() - i,
        {
            if identical_exprs(&self.expression_cache[i].expr, expr) {
                proof {
                    lemma_record_is(metas, expr@, i as int);
                }
                let count = self.expression_cache[i].execution_count;
                self.expression_cache[i].execution_count = count.saturating_add(1);
                if served {
                    let hits = self.expression_cache[i].cache_hits;
                    self.expression_cache[i].cache_hits = hits.saturating_add(1);
                }
                assert(self@.expressions =~= recorded(metas, expr@, served));
                return ;
            }
            i += 1;
        }
        proof {
            lemma_record_is(metas, expr@, i as int);
        }
        let mut meta = CachedMiniElixirExpr::new(duplicate_expr(expr), &self.validator);
        meta.execution_count = 1;
        if served {
            meta.cache_hits = 1;
        }
        self.expression_cache.push(meta);
        assert(self@.expressions =~= recorded(metas, expr@, served));
    }

    /// Reads `code`, checks its expression and evaluates it against the
    /// bindings of `ctx`.
    pub fn eval_code(&mut self, code: &str, ctx: &EvaluationContext) -> (r: EllexResult<EllexValue>)
        ensures
            evaluated(r) == code_value(old(self)@.validator, code@, ctx@.bindings),
            final(self)@ == old(self)@.after_code(code@, ctx@.bindings),
    {
        let expr = match self.interpreter.parse(code) {
            Ok(expr) => expr,
            Err(error) => {
                return Err(error);
            },
        };
        match self.validator.validate(&expr) {
            Ok(()) => {},
            Err(error) => {
                return Err(error);
            },
        }
        self.eval_expr(&expr, ctx)
    }

    /// Evaluates `expr` against the bindings of `ctx`. The result is the
    /// value of the expression, whatever the cache holds.
    pub fn eval_expr(&mut self, expr: &MiniElixirExpr, ctx: &EvaluationContext) -> (r: EllexResult<
        EllexValue,
    >)
        ensures
            evaluated(r) == eval_model(expr@, ctx@.bindings),
            final(self)@ == old(self)@.after_eval(expr@, ctx@.bindings),
    {
        self.total_evaluations = self.total_evaluations.saturating_add(1);
        let worth = expr_is_deterministic(expr) && expr_weight(expr) >= MIN_CACHED_WEIGHT;
        if self.cache_enabled && worth {
            match self.result_cache.lookup(expr, ctx.bindings()) {
                Some(value) => {
                    self.global_stats.total_hits = self.global_stats.total_hits.saturating_add(1);
                    self.update_expression_cache(expr, true);
                    return Ok(value);
                },
                None => {},
            }
        }
        let value = match self.interpreter.eval(expr, ctx) {
            Ok(value) => value,
            Err(error) => {
                return Err(error);
            },
        };
        if self.cache_enabled {
            self.update_expression_cache(expr, false);
            if worth {
                self.result_cache.store(expr, ctx.bindings(), &value);
            }
        }
        self.global_stats.total_misses = self.global_stats.total_misses.saturating_add(1);
        Ok(value)
    }

    /// Evaluates the expressions of `exprs` in order against the bindings of
    /// `ctx`, each through the result cache, and gives the value of the last
    /// one; an empty block gives nil. The first error ends the block.
    pub fn eval_block(&mut self, exprs: &Vec<MiniElixirExpr>, ctx: &EvaluationContext) -> (r:
        EllexResult<EllexValue>)
        ensures
            evaluated(r) == block_value(
                crate::minielixir::exprs_model(*exprs),
                exprs.len() as int,
                ctx@.bindings,
            ),
            final(self)@ == old(self)@.after_block(
                crate::minielixir::exprs_model(*exprs),
                exprs.len() as int,
                ctx@.bindings,
            ),
    {
        let ghost model = crate::minielixir::exprs_model(*exprs);
        let ghost env = ctx@.bindings;
        let mut result = EllexValue::Nil;
        let mut i: usize = 0;
        while i < exprs.len()
            invariant
                0 <= i <= exprs.len(),
                model == crate::minielixir::exprs_model(*exprs),
                model.len() == exprs.len(),
                env == ctx@.bindings,
                block_value(model, i as int, env) == Ok::<ValueModel, ErrorModel>(result@),
                self@ == old(self)@.after_block(model, i as int, env),
            decreases exprs.len() - i,
        {
            assert(model[i as int] == exprs[i as int]@);
            match self.eval_expr(&exprs[i], ctx) {
                Ok(value) => {
                    result = value;
                },
                Err(error) => {
                    proof {
                        lemma_block_error_stays(old(self)@, model, i as int + 1, exprs.len() as int, env);
                    }
                    return Err(error);
                },
            }
            i += 1;
        }
        Ok(result)
    }

    /// Forgets every stored result, every record and the counters of hits
    /// and misses.
    pub fn clear_caches(&mut self)
        ensures
            final(self)@ == (RuntimeModel {
                results: ResultCacheModel { results: Seq::empty(), ..old(self)@.results },
                expressions: Seq::empty(),
                stats: CacheStats::zero(),
                ..old(self)@
            }),
    {
        self.expression_cache.clear();
        self.result_cache.clear();
        self.global_stats = CacheStats::new();
        assert(self@.expressions =~= Seq::<MetaModel>::empty());
    }

    /// Whether caching is enabled.
    pub fn caching_enabled(&self) -> (r: bool)
        ensures
            r == self@.cache_enabled,
    {
        self.cache_enabled
    }

    /// The validator of this runtime.
    pub fn validator(&self) -> (v: &MiniElixirValidator)
        ensures
            v@ == self@.validator,
    {
        &self.validator
    }
}

/// Once a block has met an error, more expressions change neither its value
/// nor the runtime.
pub proof fn lemma_block_error_stays(
    m: RuntimeModel,
    exprs: Seq<ExprModel>,
    n: int,
    k: int,
    env: Map<Seq<char>, ValueModel>,
)
    requires
        0 <= n <= k <= exprs.len(),
        block_value(exprs, n, env) is Err,
    ensures
        block_value(exprs, k, env) == block_value(exprs, n, env),
        m.after_block(exprs, k, env) == m.after_block(exprs, n, env),
    decreases k - n,
{
    if n < k {
        lemma_block_error_stays(m, exprs, n, k - 1, env);
    }
}

/// A second evaluation is served. Let caching be enabled and `e` be worth
/// caching with a value under `env`; let the cache hold a result for it or
/// have room for one. Then after one evaluation of `e` under `env` the next
/// one is served from the cache: it counts one hit, no miss, does not reach
/// the interpreter, and leaves the stored results as they are. Both give the
/// value of `e` under `env`, as every evaluation does.
pub proof fn lemma_second_evaluation_is_served(
    m: RuntimeModel,
    e: ExprModel,
    env: Map<Seq<char>, ValueModel>,
)
    requires
        m.cache_enabled,
        worth_caching(e),
        eval_model(e, env) is Ok,
        holds(m.results.results, e, env) || m.results.results.len() < m.results.capacity,
    ensures
        m.after_eval(e, env).serves(e, env),
        m.after_eval(e, env).after_eval(e, env).stats.total_hits == m.after_eval(
            e,
            env,
        ).stats.total_hits.saturating_add(1),
        m.after_eval(e, env).after_eval(e, env).stats.total_misses == m.after_eval(
            e,
            env,
        ).stats.total_misses,
        m.after_eval(e, env).after_eval(e, env).results == m.after_eval(e, env).results,
        m.after_eval(e, env).after_eval(e, env).interpreter_evaluations == m.after_eval(
            e,
            env,
        ).interpreter_evaluations,
{
    if !m.serves(e, env) {
        lemma_stored_holds(m.results, e, env, eval_model(e, env)->Ok_0);
    }
}

/// The figures of a cached runtime.
#[derive(Debug, Clone, Copy, PartialEq, Eq, Structural)]
pub struct CachedRuntimeStats {
    pub total_evaluations: u64,
    /// The number of expressions on record.
    pub cached_expressions: usize,
    /// The number of stored results.
    pub cached_results: usize,
    pub interpreter_stats: InterpreterStats,
    pub global_cache_stats: CacheStats,
}

/// What the analysis tells of one expression on record.
#[derive(Debug, Clone, Copy, PartialEq, Eq, Structural)]
pub struct CacheAnalysisEntry {
    /// The index of the expression among the records.
    pub record: usize,
    pub execution_count: u64,
    pub cache_hits: u64,
    pub complexity_score: usize,
    pub is_deterministic: bool,
}

/// The expressions on record, the hot ones apart from the cold ones.
#[derive(Debug, Clone)]
pub struct CacheAnalysis {
    /// The expressions executed more than ten times, most executed first.
    pub hot_expressions: Vec<CacheAnalysisEntry>,
    /// The other expressions, most executed first.
    pub cold_expressions: Vec<CacheAnalysisEntry>,
    /// An estimate of the bytes that the caches take.
    pub total_memory_usage: usize,
}

/// What the analysis tells of record `i`.
pub open spec fn analysis_entry(metas: Seq<MetaModel>, i: int) -> CacheAnalysisEntry {
    CacheAnalysisEntry {
        record: i as usize,
        execution_count: metas[i].execution_count,
        cache_hits: metas[i].cache_hits,
        complexity_score: metas[i].complexity_score,
        is_deterministic: metas[i].is_deterministic,
    }
}

/// The list is ordered by execution count, largest first.
pub open spec fn descending(entries: Seq<CacheAnalysisEntry>) -> bool {
    forall|i: int, j: int|
        0 <= i < j < entries.len() ==> entries[i].execution_count >= entries[j].execution_count
}

/// Where `entry` goes into a descending list: behind every entry that was
/// executed at least as often.
pub open spec fn place_of(entries: Seq<CacheAnalysisEntry>, entry: CacheAnalysisEntry) -> int
    decreases entries.len(),
{
    if entries.len() == 0 {
        0
    } else if entries[0].execution_count < entry.execution_count {
        0
    } else {
        1 + place_of(entries.drop_first(), entry)
    }
}

pub proof fn lemma_place_of(entries: Seq<CacheAnalysisEntry>, entry: CacheAnalysisEntry)
    ensures
        0 <= place_of(entries, entry) <= entries.len(),
        forall|j: int|
            0 <= j < place_of(entries, entry) ==> entries[j].execution_count
                >= entry.execution_count,
        place_of(entries, entry) < entries.len() ==> entries[place_of(
            entries,
            entry,
        )].execution_count < entry.execution_count,
    decreases entries.len(),
{
    if entries.len() > 0 && entries[0].execution_count >= entry.execution_count {
        let rest = entries.drop_first();
        lemma_place_of(rest, entry);
        assert forall|j: int| 0 <= j < place_of(entries, entry) implies entries[j].execution_count
            >= entry.execution_count by {
            if j > 0 {
                assert(rest[j - 1] == entries[j]);
            }
        }
        if place_of(entries, entry) < entries.len() {
            assert(rest[place_of(rest, entry)] == entries[place_of(entries, entry)]);
        }
    }
}

pub proof fn lemma_place_is(entries: Seq<CacheAnalysisEntry>, entry: CacheAnalysisEntry, i: int)
    requires
        0 <= i <= entries.len(),
        forall|j: int| 0 <= j < i ==> entries[j].execution_count >= entry.execution_count,
        i < entries.len() ==> entries[i].execution_count < entry.execution_count,
    ensures
        place_of(entries, entry) == i,
{
    lemma_place_of(entries, entry);
    let p = place_of(entries, entry);
    if p < i {
        assert(entries[p].execution_count >= entry.execution_count);
    } else if p > i {
        assert(entries[i].execution_count >= entry.execution_count);
    }
}

/// The list with `entry` put at its place.
pub open spec fn placed(entries: Seq<CacheAnalysisEntry>, entry: CacheAnalysisEntry) -> Seq<
    CacheAnalysisEntry,
> {
    entries.insert(place_of(entries, entry), entry)
}

/// Putting an entry at its place keeps a descending list descending.
pub proof fn lemma_placed_descending(entries: Seq<CacheAnalysisEntry>, entry: CacheAnalysisEntry)
    requires
        descending(entries),
    ensures
        descending(placed(entries, entry)),
{
    lemma_place_of(entries, entry);
    let p = place_of(entries, entry);
    let out = placed(entries, entry);
    assert forall|i: int, j: int| 0 <= i < j < out.len() implies out[i].execution_count
        >= out[j].execution_count by {
        if j == p {
            assert(out[i] == entries[i]);
        } else if i == p {
            assert(out[j] == entries[j - 1]);
            if p < entries.len() {
                assert(entries[p].execution_count >= entries[j - 1].execution_count || p == j - 1);
            }
        } else {
            let a = if i < p {
                i
            } else {
                i - 1
            };
            let b = if j < p {
                j
            } else {
                j - 1
            };
            assert(out[i] == entries[a]);
            assert(out[j] == entries[b]);
        }
    }
}

/// The hot (or, for `hot == false`, the cold) ones among the first `n`
/// records, each put at its place among those before it.
pub open spec fn ranked(metas: Seq<MetaModel>, n: int, hot: bool) -> Seq<CacheAnalysisEntry>
    decreases n,
{
    if n <= 0 || n > metas.len() {
        Seq::empty()
    } else if (metas[n - 1].execution_count > HOT_EXECUTIONS) == hot {
        placed(ranked(metas, n - 1, hot), analysis_entry(metas, n - 1))
    } else {
        ranked(metas, n - 1, hot)
    }
}

/// The ranking is descending.
pub proof fn lemma_ranked_descending(metas: Seq<MetaModel>, n: int, hot: bool)
    ensures
        descending(ranked(metas, n, hot)),
    decreases n,
{
    if 0 < n <= metas.len() {
        lemma_ranked_descending(metas, n - 1, hot);
        if (metas[n - 1].execution_count > HOT_EXECUTIONS) == hot {
            lemma_placed_descending(ranked(metas, n - 1, hot), analysis_entry(metas, n - 1));
        }
    }
}

/// The estimate of the bytes that the caches take: two hundred for each
/// record and one hundred for each stored result, capped at the largest
/// `usize`.
pub open spec fn memory_estimate(records: nat, results: nat) -> usize {
    clamp(records * 200 + results * 100)
}

fn place(entries: &mut Vec<CacheAnalysisEntry>, entry: CacheAnalysisEntry)
    ensures
        final(entries)@ == placed(old(entries)@, entry),
{
    let mut i: usize = 0;
    while i < entries.len() && entries[i].execution_count >= entry.execution_count
        invariant
            0 <= i <= entries.len(),
            *entries == *old(entries),
            forall|j: int| 0 <= j < i ==> entries[j].execution_count >= entry.execution_count,
        decreases entries.len() - i,
    {
        i += 1;
    }
    proof {
        lemma_place_is(entries@, entry, i as int);
    }
    entries.insert(i, entry);
}

impl CachedMiniElixirRuntime {
    /// The figures of this runtime.
    pub fn performance_stats(&self) -> (stats: CachedRuntimeStats)
        ensures
            stats == (CachedRuntimeStats {
                total_evaluations: self@.total_evaluations,
                cached_expressions: self@.expressions.len() as usize,
                cached_results: self@.results.results.len() as usize,
                interpreter_stats: InterpreterStats {
                    evaluation_count: self@.interpreter_evaluations,
                    cached_expressions: 0,
                },
                global_cache_stats: self@.stats,
            }),
    {
        CachedRuntimeStats {
            total_evaluations: self.total_evaluations,
            cached_expressions: self.expression_cache.len(),
            cached_results: self.result_cache.len(),
            interpreter_stats: self.interpreter.stats(),
            global_cache_stats: self.global_stats,
        }
    }

    /// The expressions on record, hot and cold, each list with the most
    /// executed first, and the estimate of the memory in use.
    pub fn cache_analysis(&self) -> (analysis: CacheAnalysis)
        ensures
            analysis.hot_expressions@ == ranked(
                self@.expressions,
                self@.expressions.len() as int,
                true,
            ),
            analysis.cold_expressions@ == ranked(
                self@.expressions,
                self@.expressions.len() as int,
                false,
            ),
            descending(analysis.hot_expressions@),
            descending(analysis.cold_expressions@),
            analysis.total_memory_usage == memory_estimate(
                self@.expressions.len(),
                self@.results.results.len(),
            ),
    {
        let ghost metas = self@.expressions;
        let mut hot: Vec<CacheAnalysisEntry> = Vec::new();
        let mut cold: Vec<CacheAnalysisEntry> = Vec::new();
        let mut i: usize = 0;
        while i < self.expression_cache.len()
            invariant
                0 <= i <= self.expression_cache.len(),
                metas == self@.expressions,
                metas.len() == self.expression_cache.len(),
                hot@ == ranked(metas, i as int, true),
                cold@ == ranked(metas, i as int, false),
            decreases self.expression_cache.len() - i,
        {
            let meta = &self.expression_cache[i];
            assert(metas[i as int] == meta@);
            let entry = CacheAnalysisEntry {
                record: i,
                execution_count: meta.execution_count,
                cache_hits: meta.cache_hits,
                complexity_score: meta.complexity_score,
                is_deterministic: meta.is_deterministic,
            };
            if meta.execution_count > HOT_EXECUTIONS {
                place(&mut hot, entry);
            } else {
                place(&mut cold, entry);
            }
            i += 1;
        }
        proof {
            lemma_ranked_descending(metas, metas.len() as int, true);
            lemma_ranked_descending(metas, metas.len() as int, false);
        }
        let records = self.expression_cache.len() as u128;
        let results = self.result_cache.len() as u128;
        let estimate: u128 = records * 200 + results * 100;
        let total_memory_usage: usize = if estimate > usize::MAX as u128 {
            usize::MAX
        } else {
            estimate as usize
        };
        CacheAnalysis { hot_expressions: hot, cold_expressions: cold, total_memory_usage }
    }

    /// The expression of record `i`.
    pub fn recorded_expression(&self, i: usize) -> (r: Option<&CachedMiniElixirExpr>)
        ensures
            r is Some <==> i < self@.expressions.len(),
            r is Some ==> r.unwrap()@ == self@.expressions[i as int],
    {
        if i < self.expression_cache.len() {
            Some(&self.expression_cache[i])
        } else {
            None
        }
    }
}

impl Default for CachedMiniElixirRuntime {
    fn default() -> (rt: Self)
        ensures
            rt@ == RuntimeModel::fresh(ValidatorModel::standard()),
    {
        Self::new()
    }
}

/// The call of `length` with the list of one, two and three.
pub open spec fn length_of_three() -> ExprModel {
    ExprModel::Call {
        function: "length"@,
        args: seq![
            ExprModel::List(seq![ExprModel::Integer(1), ExprModel::Integer(2), ExprModel::Integer(3)]),
        ],
    }
}

/// The text `length([1,2,3])` reads as that call; the standard validator
/// lets it through; it is deterministic and weighs at least five; and on a
/// runtime that has evaluated nothing, under any bindings, its second
/// evaluation is served from the result cache with the value of the first:
/// one more hit, no more miss, and the interpreter is not asked again.
#[verifier::rlimit(100)]
pub proof fn lemma_length_text_is_served_the_second_time(env: Map<Seq<char>, ValueModel>)
    ensures
        ({
            let code = "length([1,2,3])"@;
            let e = length_of_three();
            let validator = ValidatorModel::standard();
            let first = RuntimeModel::fresh(validator).after_code(code, env);
            let second = first.after_code(code, env);
            &&& crate::minielixir_parser::read(code) == Ok::<ExprModel, ErrorModel>(e)
            &&& validator.check(e, 0) is None
            &&& deterministic(e)
            &&& weight(e) >= 5
            &&& code_value(validator, code, env) is Ok
            &&& first.serves(e, env)
            &&& second.stats.total_hits == first.stats.total_hits.saturating_add(1)
            &&& second.stats.total_misses == first.stats.total_misses
            &&& second.interpreter_evaluations == first.interpreter_evaluations
        }),
{
    crate::minielixir_parser::lemma_length_of_a_list_reads();
    reveal_strlit("length");
    reveal_strlit("elem");
    let code = "length([1,2,3])"@;
    let e = length_of_three();
    let validator = ValidatorModel::standard();
    let list = ExprModel::List(seq![ExprModel::Integer(1), ExprModel::Integer(2), ExprModel::Integer(3)]);
    let items = seq![ExprModel::Integer(1), ExprModel::Integer(2), ExprModel::Integer(3)];
    let args = seq![list];
    assert(list == ExprModel::List(items));
    assert(e == ExprModel::Call { function: "length"@, args });
    assert(items[0] == ExprModel::Integer(1) && items[1] == ExprModel::Integer(2) && items[2]
        == ExprModel::Integer(3));
    assert(args[0] == list);
    assert(takes_one("length"@) && is_builtin("length"@));
    assert(validator.allowed.contains("length"@));
    assert(validator.check_call("length"@, 1) is None);
    assert(validator.check(list, 1) is None) by {
        reveal_with_fuel(ValidatorModel::check, 2);
        reveal_with_fuel(ValidatorModel::check_all, 5);
        assert(validator.check(items[0], 2) is None);
        assert(validator.check(items[1], 2) is None);
        assert(validator.check(items[2], 2) is None);
        assert(validator.check_all(items, 3, 2) is None);
        assert(validator.check_all(items, 2, 2) is None);
        assert(validator.check_all(items, 1, 2) is None);
        assert(validator.check_all(items, 0, 2) is None);
    }
    assert(validator.check(e, 0) is None) by {
        reveal_with_fuel(ValidatorModel::check_all, 3);
        assert(validator.check_all(args, 1, 1) is None);
        assert(validator.check_all(args, 0, 1) is None);
    }
    assert(deterministic(list)) by {
        reveal_with_fuel(deterministic, 2);
        assert forall|k: int| 0 <= k < items.len() implies deterministic(#[trigger] items[k]) by {
            assert(k == 0 || k == 1 || k == 2);
        }
        assert(all_deterministic(items));
    }
    assert(deterministic(e)) by {
        assert forall|k: int| 0 <= k < args.len() implies deterministic(#[trigger] args[k]) by {
            assert(k == 0);
        }
        assert(all_deterministic(args));
    }
    assert(weight(e) >= 5);
    assert(eval_model(list, env) is Ok) by {
        reveal_with_fuel(eval_model, 2);
        reveal_with_fuel(crate::minielixir::eval_all, 5);
        assert(eval_model(items[0], env) is Ok);
        assert(eval_model(items[1], env) is Ok);
        assert(eval_model(items[2], env) is Ok);
        assert(crate::minielixir::eval_all(items, 0, env) is Ok);
        assert(crate::minielixir::eval_all(items, 1, env) is Ok);
        assert(crate::minielixir::eval_all(items, 2, env) is Ok);
        assert(crate::minielixir::eval_all(items, 3, env) is Ok);
    }
    assert(eval_model(list, env)->Ok_0 is List) by {
        reveal_with_fuel(eval_model, 2);
    }
    assert(eval_model(e, env) is Ok) by {
        reveal_with_fuel(crate::minielixir::eval_all, 3);
        let got = crate::minielixir::eval_all(args, 1, env);
        assert(crate::minielixir::eval_all(args, 0, env) is Ok);
        assert(got is Ok);
        assert(got->Ok_0.len() == 1);
        assert(got->Ok_0[0] == eval_model(list, env)->Ok_0);
    }
    lemma_second_evaluation_is_served(RuntimeModel::fresh(validator), e, env);
}

} // verus!
