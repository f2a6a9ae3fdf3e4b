//! The statement tree with a cache at every cacheable node.
//!
//! A cached tree is derived once from a statement tree and then executed many
//! times; execution writes to the cache fields only. [`bare`] is the tree
//! without what its caches hold: the program itself.

use crate::cached_ast::{
    shape_of, CacheEntry, CachedType, CallCacheModel, EntryModel, FunctionCallCache, SiteModel,
    VariableCache,
};
use crate::environment::Bindings;
use crate::text::push_text;
use crate::values::{
    values_model, EllexValue, Statement, StatementModel, ValueModel,
};
use vstd::prelude::*;

verus! {

/// A statement with its inline caches.
#[derive(Debug)]
#[allow(inconsistent_fields)]
pub enum CachedStatement {
    /// Output a value that is a list or a function.
    Tell { value: EllexValue, cache: Option<CacheEntry> },
    /// Prompt for input into a variable.
    Ask { prompt: String, variable: String, type_hint: Option<String>, cache: Option<VariableCache> },
    /// Run the body `times` times; the cache records the shape of the loop
    /// counter, for statistics.
    Repeat { times: u32, body: Vec<CachedStatement>, iteration_cache: Option<CacheEntry> },
    /// Compare a variable with a value and run one of two bodies.
    When {
        variable: String,
        condition: EllexValue,
        then_body: Vec<CachedStatement>,
        else_body: Option<Vec<CachedStatement>>,
        condition_cache: Option<VariableCache>,
    },
    /// Call a function by name.
    Call { function_name: String, args: Vec<EllexValue>, call_cache: Option<FunctionCallCache> },
    /// Output a text, a number or nil: constant when the tree is built, so
    /// it needs no cache.
    TellConstant { value: EllexValue },
    /// Read a variable.
    VariableAccess { variable_name: String, cache: VariableCache },
    /// Bind a variable to a value.
    Assign { variable: String, value: EllexValue },
}

/// The model of a cached statement.
#[allow(inconsistent_fields)]
pub enum CachedModel {
    Tell { value: ValueModel, cache: Option<EntryModel> },
    Ask {
        prompt: Seq<char>,
        variable: Seq<char>,
        type_hint: Option<Seq<char>>,
        cache: Option<SiteModel>,
    },
    Repeat { times: u32, body: Seq<CachedModel>, iteration_cache: Option<EntryModel> },
    When {
        variable: Seq<char>,
        condition: ValueModel,
        then_body: Seq<CachedModel>,
        else_body: Option<Seq<CachedModel>>,
        condition_cache: Option<SiteModel>,
    },
    Call { function_name: Seq<char>, args: Seq<ValueModel>, call_cache: Option<CallCacheModel> },
    TellConstant { value: ValueModel },
    VariableAccess { variable_name: Seq<char>, cache: SiteModel },
    Assign { variable: Seq<char>, value: ValueModel },
}

pub open spec fn entry_option_model(cache: Option<CacheEntry>) -> Option<EntryModel> {
    match cache {
        Some(e) => Some(e@),
        None => None,
    }
}

pub open spec fn site_option_model(cache: Option<VariableCache>) -> Option<SiteModel> {
    match cache {
        Some(c) => Some(c@),
        None => None,
    }
}

pub open spec fn call_option_model(cache: Option<FunctionCallCache>) -> Option<CallCacheModel> {
    match cache {
        Some(c) => Some(c@),
        None => None,
    }
}

pub open spec fn text_option_model(text: Option<String>) -> Option<Seq<char>> {
    match text {
        Some(t) => Some(t@),
        None => None,
    }
}

pub open spec fn cached_model(s: CachedStatement) -> CachedModel
    decreases s,
{
    match s {
        CachedStatement::Tell { value, cache } => CachedModel::Tell {
            value: value@,
            cache: entry_option_model(cache),
        },
        CachedStatement::Ask { prompt, variable, type_hint, cache } => CachedModel::Ask {
            prompt: prompt@,
            variable: variable@,
            type_hint: text_option_model(type_hint),
            cache: site_option_model(cache),
        },
        CachedStatement::Repeat { times, body, iteration_cache } => CachedModel::Repeat {
            times,
            body: cached_models(body),
            iteration_cache: entry_option_model(iteration_cache),
        },
        CachedStatement::When {
            variable,
            condition,
            then_body,
            else_body,
            condition_cache,
        } => CachedModel::When {
            variable: variable@,
            condition: condition@,
            then_body: cached_models(then_body),
            else_body: match else_body {
                Some(b) => Some(cached_models(b)),
                None => None,
            },
            condition_cache: site_option_model(condition_cache),
        },
        CachedStatement::Call { function_name, args, call_cache } => CachedModel::Call {
            function_name: function_name@,
            args: values_model(args),
            call_cache: call_option_model(call_cache),
        },
        CachedStatement::TellConstant { value } => CachedModel::TellConstant { value: value@ },
        CachedStatement::VariableAccess { variable_name, cache } => CachedModel::VariableAccess {
            variable_name: variable_name@,
            cache: cache@,
        },
        CachedStatement::Assign { variable, value } => CachedModel::Assign {
            variable: variable@,
            value: value@,
        },
    }
}

pub open spec fn cached_models(body: Vec<CachedStatement>) -> Seq<CachedModel>
    decreases body,
{
    Seq::new(
        body.len() as nat,
        |i: int|
            if 0 <= i < body.len() {
                cached_model(body[i])
            } else {
                CachedModel::TellConstant { value: ValueModel::Nil }
            },
    )
}

impl View for CachedStatement {
    type V = CachedModel;

    open spec fn view(&self) -> CachedModel {
        cached_model(*self)
    }
}

/// The statement without what its caches hold: optional caches are absent,
/// the cache of a variable access is fresh.
pub open spec fn bare(m: CachedModel) -> CachedModel
    decreases m,
{
    match m {
        CachedModel::Tell { value, cache } => CachedModel::Tell { value, cache: None },
        CachedModel::Ask { prompt, variable, type_hint, cache } => CachedModel::Ask {
            prompt,
            variable,
            type_hint,
            cache: None,
        },
        CachedModel::Repeat { times, body, iteration_cache } => CachedModel::Repeat {
            times,
            body: bare_all(body),
            iteration_cache: None,
        },
        CachedModel::When {
            variable,
            condition,
            then_body,
            else_body,
            condition_cache,
        } => CachedModel::When {
            variable,
            condition,
            then_body: bare_all(then_body),
            else_body: match else_body {
                Some(b) => Some(bare_all(b)),
                None => None,
            },
            condition_cache: None,
        },
        CachedModel::Call { function_name, args, call_cache } => CachedModel::Call {
            function_name,
            args,
            call_cache: None,
        },
        CachedModel::TellConstant { value } => CachedModel::TellConstant { value },
        CachedModel::VariableAccess { variable_name, cache } => CachedModel::VariableAccess {
            variable_name,
            cache: SiteModel::fresh(variable_name),
        },
        CachedModel::Assign { variable, value } => CachedModel::Assign { variable, value },
    }
}

pub open spec fn bare_all(body: Seq<CachedModel>) -> Seq<CachedModel>
    decreases body,
{
    Seq::new(
        body.len(),
        |i: int|
            if 0 <= i < body.len() {
                bare(body[i])
            } else {
                CachedModel::TellConstant { value: ValueModel::Nil }
            },
    )
}

/// A text, a number or nil: a value that is output without a cache.
pub open spec fn is_constant(v: ValueModel) -> bool {
    v is Text || v is Number || v is Nil
}

/// The prompt of a variable: "Enter value for " and its name.
pub open spec fn prompt_for(variable: Seq<char>) -> Seq<char> {
    "Enter value for "@ + variable
}

/// The cached statement that stands for `s`: the same statement with every
/// cache empty; a constant output becomes `TellConstant`, and a call carries
/// no arguments.
pub open spec fn cached_from(s: StatementModel) -> CachedModel
    decreases s,
{
    match s {
        StatementModel::Tell(value) => if is_constant(value) {
            CachedModel::TellConstant { value }
        } else {
            CachedModel::Tell { value, cache: None }
        },
        StatementModel::Ask(variable, type_hint) => CachedModel::Ask {
            prompt: prompt_for(variable),
            variable,
            type_hint,
            cache: None,
        },
        StatementModel::Repeat(times, body) => CachedModel::Repeat {
            times,
            body: cached_from_all(body),
            iteration_cache: None,
        },
        StatementModel::When(variable, condition, then_body, else_body) => CachedModel::When {
            variable,
            condition,
            then_body: cached_from_all(then_body),
            else_body: match else_body {
                Some(b) => Some(cached_from_all(b)),
                None => None,
            },
            condition_cache: None,
        },
        StatementModel::Call(function_name) => CachedModel::Call {
            function_name,
            args: Seq::empty(),
            call_cache: None,
        },
        StatementModel::Assignment(variable, value) => CachedModel::Assign { variable, value },
    }
}

pub open spec fn cached_from_all(body: Seq<StatementModel>) -> Seq<CachedModel>
    decreases body,
{
    Seq::new(
        body.len(),
        |i: int|
            if 0 <= i < body.len() {
                cached_from(body[i])
            } else {
                CachedModel::TellConstant { value: ValueModel::Nil }
            },
    )
}

/// A statement fresh from `cached_from` holds nothing in its caches.
pub proof fn lemma_cached_from_is_bare(s: StatementModel)
    ensures
        bare(cached_from(s)) == cached_from(s),
    decreases s,
{
    match s {
        StatementModel::Repeat(times, body) => {
            lemma_cached_from_all_is_bare(body);
        },
        StatementModel::When(variable, condition, then_body, else_body) => {
            lemma_cached_from_all_is_bare(then_body);
            match else_body {
                Some(b) => {
                    lemma_cached_from_all_is_bare(b);
                },
                None => {},
            }
        },
        _ => {},
    }
}

pub proof fn lemma_cached_from_all_is_bare(body: Seq<StatementModel>)
    ensures
        bare_all(cached_from_all(body)) == cached_from_all(body),
    decreases body,
{
    assert forall|i: int| 0 <= i < body.len() implies bare(cached_from_all(body)[i])
        == cached_from_all(body)[i] by {
        lemma_cached_from_is_bare(body[i]);
    }
    assert(bare_all(cached_from_all(body)) =~= cached_from_all(body));
}

/// The site after warm-up with the variable's value: untouched if the
/// variable is unbound.
pub open spec fn warmed_site(
    site: SiteModel,
    variable: Seq<char>,
    variables: Map<Seq<char>, ValueModel>,
) -> SiteModel {
    if variables.contains_key(variable) {
        site.observe(shape_of(variables[variable]))
    } else {
        site
    }
}

/// The statement after warm-up against `variables`: an output gets the entry
/// of its value's shape if it has none, a variable access and a conditional
/// look their variable up once, a loop warms its body. Bodies of
/// conditionals, and every other statement, stay as they are.
pub open spec fn warmed(m: CachedModel, variables: Map<Seq<char>, ValueModel>) -> CachedModel
    decreases m,
{
    match m {
        CachedModel::Tell { value, cache } => CachedModel::Tell {
            value,
            cache: match cache {
                Some(e) => Some(e),
                None => Some(EntryModel::fresh(shape_of(value))),
            },
        },
        CachedModel::VariableAccess { variable_name, cache } => CachedModel::VariableAccess {
            variable_name,
            cache: warmed_site(cache, variable_name, variables),
        },
        CachedModel::When {
            variable,
            condition,
            then_body,
            else_body,
            condition_cache,
        } => CachedModel::When {
            variable,
            condition,
            then_body,
            else_body,
            condition_cache: Some(
                warmed_site(
                    match condition_cache {
                        Some(c) => c,
                        None => SiteModel::fresh(variable),
                    },
                    variable,
                    variables,
                ),
            ),
        },
        CachedModel::Repeat { times, body, iteration_cache } => CachedModel::Repeat {
            times,
            body: warmed_all(body, variables),
            iteration_cache,
        },
        _ => m,
    }
}

pub open spec fn warmed_all(body: Seq<CachedModel>, variables: Map<Seq<char>, ValueModel>) -> Seq<
    CachedModel,
>
    decreases body,
{
    Seq::new(
        body.len(),
        |i: int|
            if 0 <= i < body.len() {
                warmed(body[i], variables)
            } else {
                CachedModel::TellConstant { value: ValueModel::Nil }
            },
    )
}

/// Warm-up writes to caches only.
pub proof fn lemma_warmed_keeps_program(m: CachedModel, variables: Map<Seq<char>, ValueModel>)
    ensures
        bare(warmed(m, variables)) == bare(m),
    decreases m,
{
    match m {
        CachedModel::Repeat { times, body, iteration_cache } => {
            lemma_warmed_all_keeps_program(body, variables);
        },
        _ => {},
    }
}

pub proof fn lemma_warmed_all_keeps_program(
    body: Seq<CachedModel>,
    variables: Map<Seq<char>, ValueModel>,
)
    ensures
        bare_all(warmed_all(body, variables)) == bare_all(body),
    decreases body,
{
    assert forall|i: int| 0 <= i < body.len() implies bare(warmed_all(body, variables)[i]) == bare(
        body[i],
    ) by {
        lemma_warmed_keeps_program(body[i], variables);
    }
    assert(bare_all(warmed_all(body, variables)) =~= bare_all(body));
}

/// Counters over the caches of a tree. Every counter stops at the largest
/// `u64`.
#[derive(Debug, Clone, Copy, PartialEq, Eq, Structural)]
pub struct CacheStats {
    pub total_caches: u64,
    pub total_hits: u64,
    pub total_misses: u64,
    pub monomorphic_sites: u64,
    pub megamorphic_sites: u64,
}

impl CacheStats {
    /// All counters zero.
    pub open spec fn zero() -> CacheStats {
        CacheStats {
            total_caches: 0,
            total_hits: 0,
            total_misses: 0,
            monomorphic_sites: 0,
            megamorphic_sites: 0,
        }
    }

    /// All counters zero.
    pub fn new() -> (s: Self)
        ensures
            s == Self::zero(),
    {
        CacheStats {
            total_caches: 0,
            total_hits: 0,
            total_misses: 0,
            monomorphic_sites: 0,
            megamorphic_sites: 0,
        }
    }

    /// The counters of `self` and `other` added up.
    pub open spec fn plus(self, other: CacheStats) -> CacheStats {
        CacheStats {
            total_caches: self.total_caches.saturating_add(other.total_caches),
            total_hits: self.total_hits.saturating_add(other.total_hits),
            total_misses: self.total_misses.saturating_add(other.total_misses),
            monomorphic_sites: self.monomorphic_sites.saturating_add(other.monomorphic_sites),
            megamorphic_sites: self.megamorphic_sites.saturating_add(other.megamorphic_sites),
        }
    }

    /// Adds the counters of `other` to `self`.
    pub fn add(&mut self, other: &CacheStats)
        ensures
            *final(self) == old(self).plus(*other),
    {
        self.total_caches = self.total_caches.saturating_add(other.total_caches);
        self.total_hits = self.total_hits.saturating_add(other.total_hits);
        self.total_misses = self.total_misses.saturating_add(other.total_misses);
        self.monomorphic_sites = self.monomorphic_sites.saturating_add(other.monomorphic_sites);
        self.megamorphic_sites = self.megamorphic_sites.saturating_add(other.megamorphic_sites);
    }
}

impl Default for CacheStats {
    fn default() -> (s: Self)
        ensures
            s == Self::zero(),
    {
        Self::new()
    }
}

/// The hits of the first `n` entries added to `base`.
pub open spec fn hits_through(entries: Seq<EntryModel>, n: int, base: u64) -> u64
    decreases n,
{
    if n <= 0 {
        base
    } else {
        hits_through(entries, n - 1, base).saturating_add(entries[n - 1].hit_count)
    }
}

/// The counters after one entry cache was counted.
pub open spec fn count_entry(stats: CacheStats, entry: EntryModel) -> CacheStats {
    CacheStats {
        total_caches: stats.total_caches.saturating_add(1),
        total_hits: stats.total_hits.saturating_add(entry.hit_count),
        ..stats
    }
}

/// The counters after the site of a conditional was counted: one cache, its
/// hits and its misses.
pub open spec fn count_site(stats: CacheStats, site: SiteModel) -> CacheStats {
    CacheStats {
        total_caches: stats.total_caches.saturating_add(1),
        total_hits: hits_through(site.entries, site.entries.len() as int, stats.total_hits),
        total_misses: stats.total_misses.saturating_add(site.miss_count),
        ..stats
    }
}

/// The counters after the site of a variable access was counted: as for a
/// conditional, and the site counts as monomorphic or, failing that, as
/// megamorphic if it is.
pub open spec fn count_access(stats: CacheStats, site: SiteModel) -> CacheStats {
    let counted = count_site(stats, site);
    if site.is_monomorphic() {
        CacheStats { monomorphic_sites: counted.monomorphic_sites.saturating_add(1), ..counted }
    } else if site.is_megamorphic() {
        CacheStats { megamorphic_sites: counted.megamorphic_sites.saturating_add(1), ..counted }
    } else {
        counted
    }
}

/// The counters after the caches of `m` were counted on top of `stats`. The
/// counter cache of a loop and the cache of a prompt are not counted.
pub open spec fn tallied(m: CachedModel, stats: CacheStats) -> CacheStats
    decreases m, 0nat,
{
    match m {
        CachedModel::Tell { value, cache } => match cache {
            Some(e) => count_entry(stats, e),
            None => stats,
        },
        CachedModel::VariableAccess { variable_name, cache } => count_access(stats, cache),
        CachedModel::Call { function_name, args, call_cache } => match call_cache {
            Some(c) => CacheStats {
                total_caches: stats.total_caches.saturating_add(1),
                total_hits: stats.total_hits.saturating_add(c.hit_count),
                ..stats
            },
            None => stats,
        },
        CachedModel::Repeat { times, body, iteration_cache } => tallied_through(
            body,
            body.len() as int,
            stats,
        ),
        CachedModel::When { variable, condition, then_body, else_body, condition_cache } => {
            let own = match condition_cache {
                Some(c) => count_site(stats, c),
                None => stats,
            };
            let after_then = tallied_through(then_body, then_body.len() as int, own);
            match else_body {
                Some(b) => tallied_through(b, b.len() as int, after_then),
                None => after_then,
            }
        },
        _ => stats,
    }
}

/// The counters after the first `n` statements of `body` were counted on top
/// of `stats`.
pub open spec fn tallied_through(body: Seq<CachedModel>, n: int, stats: CacheStats) -> CacheStats
    decreases body, n,
{
    if n <= 0 || n > body.len() {
        stats
    } else {
        tallied(body[n - 1], tallied_through(body, n - 1, stats))
    }
}

fn count_hits(cache: &VariableCache, base: u64) -> (total: u64)
    ensures
        total == hits_through(cache@.entries, cache@.entries.len() as int, base),
{
    let mut total = base;
    let mut i: usize = 0;
    while i < cache.cache_entries.len()
        invariant
            0 <= i <= cache.cache_entries.len(),
            total == hits_through(cache@.entries, i as int, base),
        decreases cache.cache_entries.len() - i,
    {
        total = total.saturating_add(cache.cache_entries[i].hit_count);
        i += 1;
    }
    total
}

fn copy_hint(hint: &Option<String>) -> (r: Option<String>)
    ensures
        text_option_model(r) == text_option_model(*hint),
{
    match hint {
        Some(h) => Some(h.clone()),
        None => None,
    }
}

impl CachedStatement {
    /// The cached statement that stands for `stmt`, with every cache empty.
    pub fn from_statement(stmt: Statement) -> (r: Self)
        ensures
            r@ == cached_from(stmt@),
            bare(r@) == r@,
    {
        let r = Self::from_statement_ref(&stmt);
        proof {
            lemma_cached_from_is_bare(stmt@);
        }
        r
    }

    /// As `from_statement`, leaving `stmt` with its owner.
    pub fn from_statement_ref(stmt: &Statement) -> (r: Self)
        ensures
            r@ == cached_from(stmt@),
        decreases stmt,
    {
        match stmt {
            Statement::Tell(value) => {
                match value {
                    EllexValue::String(_) | EllexValue::Number(_) | EllexValue::Nil => {
                        CachedStatement::TellConstant { value: value.duplicate() }
                    },
                    _ => CachedStatement::Tell { value: value.duplicate(), cache: None },
                }
            },
            Statement::Ask(variable, type_hint) => {
                let mut prompt = String::from_str("Enter value for ");
                push_text(&mut prompt, variable.as_str());
                CachedStatement::Ask {
                    prompt,
                    variable: variable.clone(),
                    type_hint: copy_hint(type_hint),
                    cache: None,
                }
            },
            Statement::Repeat(times, body) => CachedStatement::Repeat {
                times: *times,
                body: Self::from_statements(body),
                iteration_cache: None,
            },
            Statement::When(variable, condition, then_body, else_body) => CachedStatement::When {
                variable: variable.clone(),
                condition: condition.duplicate(),
                then_body: Self::from_statements(then_body),
                else_body: match else_body {
                    Some(b) => Some(Self::from_statements(b)),
                    None => None,
                },
                condition_cache: None,
            },
            Statement::Call(function_name) => {
                let args: Vec<EllexValue> = Vec::new();
                assert(values_model(args) =~= Seq::<ValueModel>::empty());
                CachedStatement::Call { function_name: function_name.clone(), args, call_cache: None }
            },
            Statement::Assignment(variable, value) => CachedStatement::Assign {
                variable: variable.clone(),
                value: value.duplicate(),
            },
        }
    }

    /// The cached statements that stand for `body`, in order.
    pub fn from_statements(body: &Vec<Statement>) -> (r: Vec<CachedStatement>)
        ensures
            cached_models(r) == cached_from_all(crate::values::statements_model(*body)),
        decreases body,
    {
        let mut out: Vec<CachedStatement> = Vec::new();
        let mut i: usize = 0;
        while i < body.len()
            invariant
                0 <= i <= body.len(),
                out.len() == i,
                forall|j: int| 0 <= j < i ==> out[j]@ == cached_from(body[j]@),
            decreases body.len() - i,
        {
            out.push(Self::from_statement_ref(&body[i]));
            i += 1;
        }
        assert(cached_models(out) =~= cached_from_all(crate::values::statements_model(*body)));
        out
    }

    /// Warms the caches of this statement against the current variables.
    pub fn warm_cache(&mut self, variables: &Bindings)
        ensures
            final(self)@ == warmed(old(self)@, variables@),
            bare(final(self)@) == bare(old(self)@),
        decreases *old(self), 0nat,
    {
        proof {
            lemma_warmed_keeps_program(self@, variables@);
        }
        match self {
            CachedStatement::Tell { value, cache } => {
                if cache.is_none() {
                    *cache = Some(CacheEntry::new(CachedType::of(value)));
                }
            },
            CachedStatement::VariableAccess { variable_name, cache } => {
                if let Some(v) = variables.get(variable_name.as_str()) {
                    cache.observe(CachedType::of(v));
                }
            },
            CachedStatement::When { variable, condition, then_body, else_body, condition_cache } => {
                if condition_cache.is_none() {
                    *condition_cache = Some(VariableCache::new(variable.clone()));
                }
                if let Some(v) = variables.get(variable.as_str()) {
                    match condition_cache {
                        Some(c) => {
                            c.observe(CachedType::of(v));
                        },
                        None => {},
                    }
                }
            },
            CachedStatement::Repeat { times, body, iteration_cache } => {
                warm_all(body, variables);
            },
            _ => {},
        }
    }

    /// Counts the caches of this statement into fresh counters.
    pub fn cache_stats(&self) -> (stats: CacheStats)
        ensures
            stats == tallied(self@, CacheStats::zero()),
    {
        let mut stats = CacheStats::new();
        self.collect_cache_stats(&mut stats);
        stats
    }

    /// Counts the caches of this statement on top of `stats`.
    pub fn collect_cache_stats(&self, stats: &mut CacheStats)
        ensures
            *final(stats) == tallied(self@, *old(stats)),
        decreases self, 0nat,
    {
        match self {
            CachedStatement::Tell { value, cache } => {
                if let Some(entry) = cache {
                    stats.total_caches = stats.total_caches.saturating_add(1);
                    stats.total_hits = stats.total_hits.saturating_add(entry.hit_count);
                }
            },
            CachedStatement::VariableAccess { variable_name, cache } => {
                stats.total_caches = stats.total_caches.saturating_add(1);
                stats.total_hits = count_hits(cache, stats.total_hits);
                stats.total_misses = stats.total_misses.saturating_add(cache.miss_count);
                if cache.is_monomorphic() {
                    stats.monomorphic_sites = stats.monomorphic_sites.saturating_add(1);
                } else if cache.is_megamorphic() {
                    stats.megamorphic_sites = stats.megamorphic_sites.saturating_add(1);
                }
            },
            CachedStatement::Call { function_name, args, call_cache } => {
                if let Some(cache) = call_cache {
                    stats.total_caches = stats.total_caches.saturating_add(1);
                    stats.total_hits = stats.total_hits.saturating_add(cache.hit_count);
                }
            },
            CachedStatement::Repeat { times, body, iteration_cache } => {
                collect_all(body, stats);
            },
            CachedStatement::When { variable, condition, then_body, else_body, condition_cache } => {
                if let Some(cache) = condition_cache {
                    stats.total_caches = stats.total_caches.saturating_add(1);
                    stats.total_hits = count_hits(cache, stats.total_hits);
                    stats.total_misses = stats.total_misses.saturating_add(cache.miss_count);
                }
                collect_all(then_body, stats);
                if let Some(else_stmts) = else_body {
                    collect_all(else_stmts, stats);
                }
            },
            _ => {},
        }
    }
}

/// Warms the caches of every statement of `body` against the current
/// variables.
pub fn warm_all(body: &mut Vec<CachedStatement>, variables: &Bindings)
    ensures
        cached_models(*final(body)) == warmed_all(cached_models(*old(body)), variables@),
    decreases *old(body), 1nat,
{
    let mut i: usize = 0;
    while i < body.len()
        invariant
            0 <= i <= body.len(),
            body.len() == old(body).len(),
            forall|j: int| 0 <= j < i ==> body[j]@ == warmed(old(body)[j]@, variables@),
            forall|j: int| i <= j < body.len() ==> body[j] == old(body)[j],
        decreases body.len() - i,
    {
        body[i].warm_cache(variables);
        i += 1;
    }
    assert(cached_models(*body) =~= warmed_all(cached_models(*old(body)), variables@));
}

/// Counts the caches of every statement of `body` on top of `stats`.
pub fn collect_all(body: &Vec<CachedStatement>, stats: &mut CacheStats)
    ensures
        *final(stats) == tallied_through(cached_models(*body), body.len() as int, *old(stats)),
    decreases body, 1nat,
{
    let mut i: usize = 0;
    while i < body.len()
        invariant
            0 <= i <= body.len(),
            *stats == tallied_through(cached_models(*body), i as int, *old(stats)),
        decreases body.len() - i,
    {
        body[i].collect_cache_stats(stats);
        i += 1;
    }
}

/// The models of the statements of a slice.
pub open spec fn models_of(items: Seq<CachedStatement>) -> Seq<CachedModel> {
    Seq::new(items.len(), |i: int| items[i]@)
}

/// The statements of a vector have the models of its slice.
pub proof fn lemma_models_of_vec(v: Vec<CachedStatement>)
    ensures
        models_of(v@) == cached_models(v),
{
    assert(models_of(v@) =~= cached_models(v));
}

/// Warms the caches of the statements of a slice.
pub fn warm_each(body: &mut [CachedStatement], variables: &Bindings)
    ensures
        models_of(final(body)@) == warmed_all(models_of(old(body)@), variables@),
        bare_all(models_of(final(body)@)) == bare_all(models_of(old(body)@)),
{
    let mut i: usize = 0;
    while i < body.len()
        invariant
            0 <= i <= body.len(),
            body.len() == old(body).len(),
            forall|j: int| 0 <= j < i ==> body@[j]@ == warmed(old(body)@[j]@, variables@),
            forall|j: int| i <= j < body.len() ==> body@[j] == old(body)@[j],
        decreases body.len() - i,
    {
        body[i].warm_cache(variables);
        i += 1;
    }
    assert(models_of(body@) =~= warmed_all(models_of(old(body)@), variables@));
    proof {
        lemma_warmed_all_keeps_program(models_of(old(body)@), variables@);
    }
}

/// Adds the counters of the statements of a slice to `stats`.
pub fn collect_each(body: &[CachedStatement], stats: &mut CacheStats)
    ensures
        *final(stats) == tallied_through(models_of(body@), body.len() as int, *old(stats)),
{
    let mut i: usize = 0;
    while i < body.len()
        invariant
            0 <= i <= body.len(),
            *stats == tallied_through(models_of(body@), i as int, *old(stats)),
        decreases body.len() - i,
    {
        body[i].collect_cache_stats(stats);
        i += 1;
    }
}

} // verus!
