//! Inline caches: per-site records of the value shapes seen so far.
//!
//! A site starts fresh, becomes monomorphic with its first shape, polymorphic
//! with a second, and megamorphic once three shapes are recorded or more than
//! ten lookups have missed. A site never evicts a shape; only a change of the
//! cache version empties it.

pub use crate::cached_statement::{CacheStats, CachedStatement};
use crate::values::{EllexFunction, EllexValue, FunctionModel, ValueModel};
use vstd::prelude::*;

verus! {

/// The shape of a value: the cache key in place of the value itself.
#[derive(Debug, Clone, Copy, PartialEq, Eq, Hash, Structural)]
pub enum CachedType {
    String,
    Number,
    List,
    Function,
    Nil,
}

/// The shape of a value model.
pub open spec fn shape_of(v: ValueModel) -> CachedType {
    match v {
        ValueModel::Text(_) => CachedType::String,
        ValueModel::Number(_) => CachedType::Number,
        ValueModel::List(_) => CachedType::List,
        ValueModel::Function(_) => CachedType::Function,
        ValueModel::Nil => CachedType::Nil,
    }
}

/// The shapes of a list of values, in order.
pub open spec fn shapes_of(args: Seq<EllexValue>) -> Seq<CachedType> {
    Seq::new(args.len(), |i: int| shape_of(args[i]@))
}

impl CachedType {
    /// The shape of `value`.
    pub fn of(value: &EllexValue) -> (t: CachedType)
        ensures
            t == shape_of(value@),
    {
        match value {
            EllexValue::String(_) => CachedType::String,
            EllexValue::Number(_) => CachedType::Number,
            EllexValue::List(_) => CachedType::List,
            EllexValue::Function(_) => CachedType::Function,
            EllexValue::Nil => CachedType::Nil,
        }
    }
}

impl<'a> From<&'a EllexValue> for CachedType {
    fn from(value: &'a EllexValue) -> (t: Self) {
        CachedType::of(value)
    }
}

impl<'a> vstd::std_specs::convert::FromSpecImpl<&'a EllexValue> for CachedType {
    open spec fn obeys_from_spec() -> bool {
        true
    }

    open spec fn from_spec(value: &'a EllexValue) -> Self {
        shape_of(value@)
    }
}

/// The number of distinct shapes one site records.
pub const MAX_SHAPES: usize = 3;

/// The number of misses above which a site counts as megamorphic.
pub const MISS_TOLERANCE: u64 = 10;

/// One recorded shape with the number of times it was seen.
#[derive(Debug, Clone)]
pub struct CacheEntry {
    pub expected_type: CachedType,
    pub hit_count: u64,
    /// A remembered value, for constant folding.
    pub last_value: Option<EllexValue>,
    /// The cache version under which the entry was made.
    pub version: u64,
}

/// The model of a cache entry.
pub struct EntryModel {
    pub expected_type: CachedType,
    pub hit_count: u64,
    pub last_value: Option<ValueModel>,
    pub version: u64,
}

impl EntryModel {
    /// An entry for `expected_type` that was never hit, made under the
    /// cache version 0.
    pub open spec fn fresh(expected_type: CachedType) -> EntryModel {
        EntryModel { expected_type, hit_count: 0, last_value: None, version: 0 }
    }

    /// An entry for `expected_type` that was never hit, made under the cache
    /// version `version`.
    pub open spec fn fresh_under(expected_type: CachedType, version: u64) -> EntryModel {
        EntryModel { expected_type, hit_count: 0, last_value: None, version }
    }

    /// One more hit. The counter stops at the largest `u64`.
    pub open spec fn after_hit(self) -> EntryModel {
        EntryModel { hit_count: self.hit_count.saturating_add(1), ..self }
    }
}

impl View for CacheEntry {
    type V = EntryModel;

    open spec fn view(&self) -> EntryModel {
        EntryModel {
            expected_type: self.expected_type,
            hit_count: self.hit_count,
            last_value: match self.last_value {
                Some(v) => Some(v@),
                None => None,
            },
            version: self.version,
        }
    }
}

impl CacheEntry {
    pub fn new(expected_type: CachedType) -> (e: Self)
        ensures
            e@ == EntryModel::fresh(expected_type),
    {
        CacheEntry { expected_type, hit_count: 0, last_value: None, version: 0 }
    }

    /// An entry made under the cache version `version`.
    pub fn new_under(expected_type: CachedType, version: u64) -> (e: Self)
        ensures
            e@ == EntryModel::fresh_under(expected_type, version),
    {
        CacheEntry { expected_type, hit_count: 0, last_value: None, version }
    }

    /// Counts one hit. The count never goes down.
    pub fn hit(&mut self)
        ensures
            final(self)@ == old(self)@.after_hit(),
            final(self).hit_count >= old(self).hit_count,
            final(self).last_value == old(self).last_value,
    {
        self.hit_count = self.hit_count.saturating_add(1);
    }

    /// Whether `value` has the shape this entry expects.
    pub fn matches(&self, value: &EllexValue) -> (r: bool)
        ensures
            r == (shape_of(value@) == self.expected_type),
    {
        CachedType::of(value) == self.expected_type
    }

    /// A copy of `self`.
    pub fn duplicate(&self) -> (e: Self)
        ensures
            e@ == self@,
    {
        CacheEntry {
            expected_type: self.expected_type,
            hit_count: self.hit_count,
            last_value: match &self.last_value {
                Some(v) => Some(v.duplicate()),
                None => None,
            },
            version: self.version,
        }
    }
}

/// How a site is classified.
#[derive(Debug, Clone, Copy, PartialEq, Eq, Structural)]
pub enum SiteClass {
    /// No shape recorded.
    Fresh,
    /// Exactly one shape recorded.
    Monomorphic,
    /// Two shapes recorded.
    Polymorphic,
    /// Three shapes recorded, or more than ten misses.
    Megamorphic,
}

/// The models of a list of entries, in order.
pub open spec fn entries_model(entries: Seq<CacheEntry>) -> Seq<EntryModel> {
    Seq::new(entries.len(), |i: int| entries[i]@)
}

/// The index of the first entry that expects `t`, or the length if none does.
pub open spec fn slot_of(entries: Seq<EntryModel>, t: CachedType) -> int
    decreases entries.len(),
{
    if entries.len() == 0 {
        0
    } else if entries[0].expected_type == t {
        0
    } else {
        1 + slot_of(entries.drop_first(), t)
    }
}

/// `slot_of` is the least index whose entry expects `t`.
pub proof fn lemma_slot_of(entries: Seq<EntryModel>, t: CachedType)
    ensures
        0 <= slot_of(entries, t) <= entries.len(),
        slot_of(entries, t) < entries.len() ==> entries[slot_of(entries, t)].expected_type == t,
        forall|j: int| 0 <= j < slot_of(entries, t) ==> entries[j].expected_type != t,
    decreases entries.len(),
{
    if entries.len() > 0 && entries[0].expected_type != t {
        let rest = entries.drop_first();
        lemma_slot_of(rest, t);
        assert forall|j: int| 0 <= j < slot_of(entries, t) implies entries[j].expected_type
            != t by {
            if j > 0 {
                assert(rest[j - 1] == entries[j]);
            }
        }
    }
}

/// An index whose entry expects `t`, with no earlier such entry, is the slot.
pub proof fn lemma_slot_is(entries: Seq<EntryModel>, t: CachedType, i: int)
    requires
        0 <= i <= entries.len(),
        i < entries.len() ==> entries[i].expected_type == t,
        forall|j: int| 0 <= j < i ==> entries[j].expected_type != t,
    ensures
        slot_of(entries, t) == i,
{
    lemma_slot_of(entries, t);
    let f = slot_of(entries, t);
    if f < i {
        assert(entries[f].expected_type != t);
    }
}

/// The model of a variable-access site.
pub struct SiteModel {
    pub variable_name: Seq<char>,
    pub entries: Seq<EntryModel>,
    pub miss_count: u64,
    pub version: u64,
}

impl SiteModel {
    /// A site that has seen nothing.
    pub open spec fn fresh(variable_name: Seq<char>) -> SiteModel {
        SiteModel { variable_name, entries: Seq::empty(), miss_count: 0, version: 0 }
    }

    /// At most three shapes are recorded, each once.
    pub open spec fn well_formed(self) -> bool {
        &&& self.entries.len() <= MAX_SHAPES
        &&& forall|i: int, j: int|
            0 <= i < j < self.entries.len() ==> self.entries[i].expected_type
                != self.entries[j].expected_type
    }

    /// The shape `t` is recorded.
    pub open spec fn knows(self, t: CachedType) -> bool {
        slot_of(self.entries, t) < self.entries.len()
    }

    /// A lookup of `t` finds or makes an entry: the shape is recorded, or
    /// there is room for it.
    pub open spec fn admits(self, t: CachedType) -> bool {
        self.knows(t) || self.entries.len() < MAX_SHAPES
    }

    /// The site after one lookup of a value of shape `t`: a recorded shape is
    /// hit; a new shape is recorded with one hit while fewer than three are;
    /// otherwise the lookup is a miss and only the miss counter moves.
    pub open spec fn observe(self, t: CachedType) -> SiteModel {
        let slot = slot_of(self.entries, t);
        if slot < self.entries.len() {
            SiteModel { entries: self.entries.update(slot, self.entries[slot].after_hit()), ..self }
        } else if self.entries.len() < MAX_SHAPES {
            SiteModel { entries: self.entries.push(EntryModel::fresh(t).after_hit()), ..self }
        } else {
            SiteModel { miss_count: self.miss_count.saturating_add(1), ..self }
        }
    }

    /// The site after lookups of the shapes `ts`, in order.
    pub open spec fn observe_all(self, ts: Seq<CachedType>) -> SiteModel
        decreases ts.len(),
    {
        if ts.len() == 0 {
            self
        } else {
            self.observe_all(ts.drop_last()).observe(ts.last())
        }
    }

    pub open spec fn is_monomorphic(self) -> bool {
        self.entries.len() == 1
    }

    pub open spec fn is_megamorphic(self) -> bool {
        self.miss_count > MISS_TOLERANCE || self.entries.len() >= MAX_SHAPES
    }

    /// The class of the site.
    pub open spec fn class(self) -> SiteClass {
        if self.is_megamorphic() {
            SiteClass::Megamorphic
        } else if self.entries.len() == 0 {
            SiteClass::Fresh
        } else if self.is_monomorphic() {
            SiteClass::Monomorphic
        } else {
            SiteClass::Polymorphic
        }
    }

    /// The site emptied for the cache version `version`.
    pub open spec fn invalidated(self, version: u64) -> SiteModel {
        SiteModel { entries: Seq::empty(), miss_count: 0, version, ..self }
    }

    /// The site as a lookup under the cache version `version` finds it:
    /// emptied if it last saw another version.
    pub open spec fn synced(self, version: u64) -> SiteModel {
        if self.version == version {
            self
        } else {
            self.invalidated(version)
        }
    }
}

/// The inline cache of one variable-access site.
#[derive(Debug, Clone)]
pub struct VariableCache {
    pub variable_name: String,
    pub cache_entries: Vec<CacheEntry>,
    pub miss_count: u64,
    /// The cache version this site last saw.
    pub version: u64,
}

impl View for VariableCache {
    type V = SiteModel;

    open spec fn view(&self) -> SiteModel {
        SiteModel {
            variable_name: self.variable_name@,
            entries: entries_model(self.cache_entries@),
            miss_count: self.miss_count,
            version: self.version,
        }
    }
}

impl VariableCache {
    pub fn new(variable_name: String) -> (c: Self)
        ensures
            c@ == SiteModel::fresh(variable_name@),
            c@.well_formed(),
    {
        let c = VariableCache { variable_name, cache_entries: Vec::new(), miss_count: 0, version: 0 };
        assert(c@.entries =~= Seq::<EntryModel>::empty());
        c
    }

    fn slot(&self, t: CachedType) -> (i: usize)
        ensures
            i == slot_of(self@.entries, t),
            i <= self.cache_entries.len(),
    {
        let mut i: usize = 0;
        while i < self.cache_entries.len()
            invariant
                0 <= i <= self.cache_entries.len(),
                forall|j: int| 0 <= j < i ==> self@.entries[j].expected_type != t,
            decreases self.cache_entries.len() - i,
        {
            if self.cache_entries[i].expected_type == t {
                proof {
                    lemma_slot_is(self@.entries, t, i as int);
                }
                return i;
            }
            i += 1;
        }
        proof {
            lemma_slot_is(self@.entries, t, i as int);
        }
        i
    }

    /// Records one access with a value of shape `t`, and tells whether the
    /// site could cache it: `false` is a miss on a full site.
    pub fn observe(&mut self, t: CachedType) -> (cached: bool)
        ensures
            final(self)@ == old(self)@.observe(t),
            cached == old(self)@.admits(t),
            old(self)@.well_formed() ==> final(self)@.well_formed(),
    {
        let i = self.slot(t);
        proof {
            lemma_slot_of(self@.entries, t);
        }
        if i < self.cache_entries.len() {
            self.cache_entries[i].hit();
            assert(self@.entries =~= old(self)@.observe(t).entries);
            true
        } else if self.cache_entries.len() < MAX_SHAPES {
            let mut entry = CacheEntry::new(t);
            entry.hit();
            self.cache_entries.push(entry);
            assert(self@.entries =~= old(self)@.observe(t).entries);
            true
        } else {
            self.miss_count = self.miss_count.saturating_add(1);
            assert(self@.entries =~= old(self)@.observe(t).entries);
            false
        }
    }

    /// Looks `value` up under the cache version `version`. A site that last
    /// saw another version is emptied first. Then the lookup hits the entry
    /// of the shape of `value`, or records the shape while the site has
    /// room, and hands the entry out; on a full site that does not know the
    /// shape the lookup is a miss and gives `None`.
    pub fn lookup(&mut self, value: &EllexValue, version: &CacheVersion) -> (r: Option<
        &mut CacheEntry,
    >)
        ensures
            r is Some <==> old(self)@.synced(version.value).admits(shape_of(value@)),
            r is None ==> final(self)@ == old(self)@.synced(version.value).observe(
                shape_of(value@),
            ),
            r is Some ==> ({
                let site = old(self)@.synced(version.value);
                let seen = site.observe(shape_of(value@));
                let slot = slot_of(site.entries, shape_of(value@));
                &&& r.unwrap()@ == seen.entries[slot]
                &&& r.unwrap().expected_type == shape_of(value@)
                &&& final(self)@ == (SiteModel {
                    entries: seen.entries.update(slot, final(r.unwrap())@),
                    ..seen
                })
            }),
    {
        self.sync(version.value);
        self.lookup_synced(value)
    }

    /// The lookup on a site that is at the version in force.
    fn lookup_synced(&mut self, value: &EllexValue) -> (r: Option<&mut CacheEntry>)
        ensures
            r is Some <==> old(self)@.admits(shape_of(value@)),
            r is None ==> final(self)@ == old(self)@.observe(shape_of(value@)),
            r is Some ==> ({
                let seen = old(self)@.observe(shape_of(value@));
                let slot = slot_of(old(self)@.entries, shape_of(value@));
                &&& r.unwrap()@ == seen.entries[slot]
                &&& r.unwrap().expected_type == shape_of(value@)
                &&& final(self)@ == (SiteModel {
                    entries: seen.entries.update(slot, final(r.unwrap())@),
                    ..seen
                })
            }),
    {
        let t = CachedType::of(value);
        let i = self.slot(t);
        proof {
            lemma_slot_of(self@.entries, t);
        }
        if i < self.cache_entries.len() {
            self.cache_entries[i].hit();
            assert(self@.entries =~= old(self)@.observe(t).entries);
        } else if self.cache_entries.len() < MAX_SHAPES {
            let mut entry = CacheEntry::new(t);
            entry.hit();
            self.cache_entries.push(entry);
            assert(self@.entries =~= old(self)@.observe(t).entries);
        } else {
            self.miss_count = self.miss_count.saturating_add(1);
            assert(self@.entries =~= old(self)@.observe(t).entries);
            return None;
        }
        proof {
            let current = self.cache_entries@;
            assert forall|e: CacheEntry| #[trigger]
                entries_model(current.update(i as int, e)) == entries_model(current).update(
                    i as int,
                    e@,
                ) by {
                assert(entries_model(current.update(i as int, e)) =~= entries_model(current).update(
                    i as int,
                    e@,
                ));
            }
        }
        Some(&mut self.cache_entries[i])
    }

    /// Exactly one shape is recorded.
    pub fn is_monomorphic(&self) -> (r: bool)
        ensures
            r == self@.is_monomorphic(),
    {
        self.cache_entries.len() == 1
    }

    /// Three shapes are recorded, or more than ten lookups have missed.
    pub fn is_megamorphic(&self) -> (r: bool)
        ensures
            r == self@.is_megamorphic(),
    {
        self.miss_count > MISS_TOLERANCE || self.cache_entries.len() >= MAX_SHAPES
    }

    /// The class of the site.
    pub fn classify(&self) -> (c: SiteClass)
        ensures
            c == self@.class(),
    {
        if self.is_megamorphic() {
            SiteClass::Megamorphic
        } else if self.cache_entries.len() == 0 {
            SiteClass::Fresh
        } else if self.is_monomorphic() {
            SiteClass::Monomorphic
        } else {
            SiteClass::Polymorphic
        }
    }

    /// Brings the site to the cache version `version`: a site that last saw
    /// another version is emptied.
    pub fn sync(&mut self, version: u64)
        ensures
            final(self)@ == old(self)@.synced(version),
    {
        if self.version != version {
            self.cache_entries.clear();
            self.miss_count = 0;
            self.version = version;
            assert(self@.entries =~= Seq::<EntryModel>::empty());
        }
    }

    /// A copy of `self`.
    pub fn duplicate(&self) -> (c: Self)
        ensures
            c@ == self@,
    {
        let mut entries: Vec<CacheEntry> = Vec::new();
        let mut i: usize = 0;
        while i < self.cache_entries.len()
            invariant
                0 <= i <= self.cache_entries.len(),
                entries.len() == i,
                forall|j: int| 0 <= j < i ==> entries[j]@ == self.cache_entries[j]@,
            decreases self.cache_entries.len() - i,
        {
            entries.push(self.cache_entries[i].duplicate());
            i += 1;
        }
        let c = VariableCache {
            variable_name: self.variable_name.clone(),
            cache_entries: entries,
            miss_count: self.miss_count,
            version: self.version,
        };
        assert(c@.entries =~= self@.entries);
        c
    }
}

/// The model of a call site's cache.
pub struct CallCacheModel {
    pub function_name: Seq<char>,
    pub cached_function: Option<FunctionModel>,
    pub argument_types: Seq<CachedType>,
    pub hit_count: u64,
    pub version: u64,
    pub cache_version: u64,
}

impl CallCacheModel {
    /// A call cache that holds nothing.
    pub open spec fn fresh(function_name: Seq<char>) -> CallCacheModel {
        CallCacheModel {
            function_name,
            cached_function: None,
            argument_types: Seq::empty(),
            hit_count: 0,
            version: 0,
            cache_version: 0,
        }
    }

    /// A call cache that holds nothing, made under the cache version
    /// `version`.
    pub open spec fn fresh_under(function_name: Seq<char>, version: u64) -> CallCacheModel {
        CallCacheModel { cache_version: version, ..CallCacheModel::fresh(function_name) }
    }

    /// A call with arguments of the shapes `ts` matches the cache: the same
    /// number of arguments, the same shape at each position.
    pub open spec fn matches(self, ts: Seq<CachedType>) -> bool {
        self.argument_types == ts
    }

    /// The cache after it recorded a call of `function` with arguments of
    /// the shapes `ts`.
    pub open spec fn after_call(self, function: FunctionModel, ts: Seq<CachedType>) -> CallCacheModel {
        CallCacheModel {
            cached_function: Some(function),
            argument_types: ts,
            hit_count: self.hit_count.saturating_add(1),
            version: self.version.saturating_add(1),
            ..self
        }
    }

    /// One more hit on the cached function.
    pub open spec fn after_hit(self) -> CallCacheModel {
        CallCacheModel { hit_count: self.hit_count.saturating_add(1), ..self }
    }
}

/// The inline cache of one call site.
#[derive(Debug, Clone)]
pub struct FunctionCallCache {
    pub function_name: String,
    pub cached_function: Option<EllexFunction>,
    pub argument_type_cache: Vec<CachedType>,
    pub hit_count: u64,
    /// Counts the calls recorded at this site.
    pub version: u64,
    /// The cache version under which the site was made.
    pub cache_version: u64,
}

impl View for FunctionCallCache {
    type V = CallCacheModel;

    open spec fn view(&self) -> CallCacheModel {
        CallCacheModel {
            function_name: self.function_name@,
            cached_function: match self.cached_function {
                Some(f) => Some(f@),
                None => None,
            },
            argument_types: self.argument_type_cache@,
            hit_count: self.hit_count,
            version: self.version,
            cache_version: self.cache_version,
        }
    }
}

impl FunctionCallCache {
    pub fn new(function_name: String) -> (c: Self)
        ensures
            c@ == CallCacheModel::fresh(function_name@),
    {
        FunctionCallCache {
            function_name,
            cached_function: None,
            argument_type_cache: Vec::new(),
            hit_count: 0,
            version: 0,
            cache_version: 0,
        }
    }

    /// A call cache made under the cache version `version`.
    pub fn new_under(function_name: String, version: u64) -> (c: Self)
        ensures
            c@ == CallCacheModel::fresh_under(function_name@, version),
    {
        FunctionCallCache {
            function_name,
            cached_function: None,
            argument_type_cache: Vec::new(),
            hit_count: 0,
            version: 0,
            cache_version: version,
        }
    }

    /// Whether a call with `args` matches the recorded signature.
    pub fn matches_signature(&self, args: &[EllexValue]) -> (r: bool)
        ensures
            r == self@.matches(shapes_of(args@)),
    {
        if args.len() != self.argument_type_cache.len() {
            assert(shapes_of(args@).len() != self@.argument_types.len());
            return false;
        }
        let mut i: usize = 0;
        while i < args.len()
            invariant
                0 <= i <= args.len(),
                args.len() == self.argument_type_cache.len(),
                forall|j: int| 0 <= j < i ==> shape_of(args[j]@) == self.argument_type_cache[j],
            decreases args.len() - i,
        {
            if CachedType::of(&args[i]) != self.argument_type_cache[i] {
                assert(shapes_of(args@)[i as int] != self@.argument_types[i as int]);
                return false;
            }
            i += 1;
        }
        assert(shapes_of(args@) =~= self@.argument_types);
        true
    }

    /// Records a call of `function` with `args` as the cached call.
    pub fn cache_call(&mut self, function: EllexFunction, args: &[EllexValue])
        ensures
            final(self)@ == old(self)@.after_call(function@, shapes_of(args@)),
    {
        let mut types: Vec<CachedType> = Vec::new();
        let mut i: usize = 0;
        while i < args.len()
            invariant
                0 <= i <= args.len(),
                types.len() == i,
                forall|j: int| 0 <= j < i ==> types[j] == shape_of(args[j]@),
            decreases args.len() - i,
        {
            types.push(CachedType::of(&args[i]));
            i += 1;
        }
        assert(types@ =~= shapes_of(args@));
        self.cached_function = Some(function);
        self.argument_type_cache = types;
        self.hit_count = self.hit_count.saturating_add(1);
        self.version = self.version.saturating_add(1);
    }

    /// Counts one use of the cached function.
    pub fn hit(&mut self)
        ensures
            final(self)@ == old(self)@.after_hit(),
    {
        self.hit_count = self.hit_count.saturating_add(1);
    }
}

/// The version of all caches of one runtime. A site that last saw another
/// version is empty again at its next use.
#[derive(Debug, Clone, Copy, PartialEq, Eq, Structural)]
pub struct CacheVersion {
    pub value: u64,
}

impl CacheVersion {
    pub fn new() -> (v: Self)
        ensures
            v.value == 0,
    {
        CacheVersion { value: 0 }
    }
}

/// The version that follows `value`; after the largest comes zero.
pub open spec fn next_version(value: u64) -> u64 {
    if value == u64::MAX {
        0
    } else {
        (value + 1) as u64
    }
}

/// Issues a new cache version: every site is stale from now on.
pub fn invalidate_all_caches(version: &mut CacheVersion)
    ensures
        final(version).value == next_version(old(version).value),
        final(version).value != old(version).value,
{
    if version.value == u64::MAX {
        version.value = 0;
    } else {
        version.value = version.value + 1;
    }
}

/// The cache version in force.
pub fn current_cache_version(version: &CacheVersion) -> (v: u64)
    ensures
        v == version.value,
{
    version.value
}

/// A lookup keeps a site well formed: never more than three entries, no
/// shape twice.
pub proof fn lemma_observe_keeps_well_formed(site: SiteModel, t: CachedType)
    requires
        site.well_formed(),
    ensures
        site.observe(t).well_formed(),
        site.observe(t).entries.len() <= MAX_SHAPES,
{
    lemma_slot_of(site.entries, t);
}

/// However many lookups a well-formed site serves, it stays well formed.
pub proof fn lemma_observe_all_keeps_well_formed(site: SiteModel, ts: Seq<CachedType>)
    requires
        site.well_formed(),
    ensures
        site.observe_all(ts).well_formed(),
        site.observe_all(ts).entries.len() <= MAX_SHAPES,
    decreases ts.len(),
{
    if ts.len() > 0 {
        lemma_observe_all_keeps_well_formed(site, ts.drop_last());
        lemma_observe_keeps_well_formed(site.observe_all(ts.drop_last()), ts.last());
    }
}

/// The first shape makes a fresh site monomorphic.
pub proof fn lemma_first_shape_is_monomorphic(name: Seq<char>, t: CachedType)
    ensures
        SiteModel::fresh(name).observe(t).is_monomorphic(),
        SiteModel::fresh(name).observe(t).class() == SiteClass::Monomorphic,
{
}

/// Four distinct shapes in a row make a fresh site megamorphic, and it holds
/// three entries, not four.
pub proof fn lemma_four_shapes_are_megamorphic(
    name: Seq<char>,
    a: CachedType,
    b: CachedType,
    c: CachedType,
    d: CachedType,
)
    requires
        a != b,
        a != c,
        a != d,
        b != c,
        b != d,
        c != d,
    ensures
        SiteModel::fresh(name).observe_all(seq![a, b, c, d]).is_megamorphic(),
        SiteModel::fresh(name).observe_all(seq![a, b, c, d]).entries.len() == MAX_SHAPES,
        SiteModel::fresh(name).observe_all(seq![a, b, c, d]).miss_count == 1,
{
    let s0 = SiteModel::fresh(name);
    let ts = seq![a, b, c, d];
    let s1 = s0.observe(a);
    let s2 = s1.observe(b);
    let s3 = s2.observe(c);
    let s4 = s3.observe(d);
    lemma_observe_all_unfolds(s0, ts, 0);
    lemma_observe_all_unfolds(s0, ts, 1);
    lemma_observe_all_unfolds(s0, ts, 2);
    lemma_observe_all_unfolds(s0, ts, 3);
    assert(ts.take(4) =~= ts);
    assert(s0.observe_all(ts.take(0)) == s0);
    lemma_slot_is(s0.entries, a, 0);
    assert(s1.entries =~= seq![EntryModel::fresh(a).after_hit()]);
    lemma_slot_is(s1.entries, b, 1);
    assert(s2.entries =~= seq![EntryModel::fresh(a).after_hit(), EntryModel::fresh(b).after_hit()]);
    lemma_slot_is(s2.entries, c, 2);
    assert(s3.entries =~= seq![
        EntryModel::fresh(a).after_hit(),
        EntryModel::fresh(b).after_hit(),
        EntryModel::fresh(c).after_hit(),
    ]);
    lemma_slot_is(s3.entries, d, 3);
}

/// The lookups of `ts` one at a time: the first `k + 1` are the first `k`
/// followed by the lookup of `ts[k]`.
pub proof fn lemma_observe_all_unfolds(site: SiteModel, ts: Seq<CachedType>, k: int)
    requires
        0 <= k < ts.len(),
    ensures
        site.observe_all(ts.take(k + 1)) == site.observe_all(ts.take(k)).observe(ts[k]),
{
    assert(ts.take(k + 1).drop_last() =~= ts.take(k));
}

/// One shape seen five times and a second shape seen once leave a fresh site
/// polymorphic with two entries: megamorphic takes a third shape or more than
/// ten misses.
pub proof fn lemma_two_shapes_are_polymorphic(name: Seq<char>, a: CachedType, b: CachedType)
    requires
        a != b,
    ensures
        SiteModel::fresh(name).observe_all(seq![a, a, a, a, a, b]).class()
            == SiteClass::Polymorphic,
        SiteModel::fresh(name).observe_all(seq![a, a, a, a, a, b]).entries.len() == 2,
        SiteModel::fresh(name).observe_all(seq![a, a, a, a, a, b]).entries[0].hit_count == 5,
        SiteModel::fresh(name).observe_all(seq![a, a, a, a, a, b]).entries[1].hit_count == 1,
        !SiteModel::fresh(name).observe_all(seq![a, a, a, a, a, b]).is_megamorphic(),
{
    let s0 = SiteModel::fresh(name);
    let ts = seq![a, a, a, a, a, b];
    let s1 = s0.observe(a);
    let s2 = s1.observe(a);
    let s3 = s2.observe(a);
    let s4 = s3.observe(a);
    let s5 = s4.observe(a);
    let s6 = s5.observe(b);
    lemma_observe_all_unfolds(s0, ts, 0);
    lemma_observe_all_unfolds(s0, ts, 1);
    lemma_observe_all_unfolds(s0, ts, 2);
    lemma_observe_all_unfolds(s0, ts, 3);
    lemma_observe_all_unfolds(s0, ts, 4);
    lemma_observe_all_unfolds(s0, ts, 5);
    assert(ts.take(6) =~= ts);
    assert(s0.observe_all(ts.take(0)) == s0);
    lemma_slot_is(s0.entries, a, 0);
    lemma_slot_is(s1.entries, a, 0);
    lemma_slot_is(s2.entries, a, 0);
    lemma_slot_is(s3.entries, a, 0);
    lemma_slot_is(s4.entries, a, 0);
    lemma_slot_is(s5.entries, b, 1);
}

/// What a site records depends on the shapes it sees, not on its name or on
/// the version it carries.
pub proof fn lemma_observe_all_ignores_labels(x: SiteModel, y: SiteModel, ts: Seq<CachedType>)
    requires
        x.entries == y.entries,
        x.miss_count == y.miss_count,
    ensures
        x.observe_all(ts).entries == y.observe_all(ts).entries,
        x.observe_all(ts).miss_count == y.observe_all(ts).miss_count,
        x.observe_all(ts).class() == y.observe_all(ts).class(),
        x.observe_all(ts).variable_name == x.variable_name,
        x.observe_all(ts).version == x.version,
    decreases ts.len(),
{
    if ts.len() > 0 {
        lemma_observe_all_ignores_labels(x, y, ts.drop_last());
    }
}

/// Invalidation restores a site. Whatever a site has recorded, once the
/// cache version changes and the site is brought to the new version, feeding
/// it a sequence of shapes gives the entries, the miss count and the class
/// that a fresh site gets from the same sequence.
pub proof fn lemma_invalidation_restores(site: SiteModel, version: u64, ts: Seq<CachedType>)
    requires
        site.version != version,
    ensures
        site.synced(version).observe_all(ts).entries == SiteModel::fresh(
            site.variable_name,
        ).observe_all(ts).entries,
        site.synced(version).observe_all(ts).miss_count == SiteModel::fresh(
            site.variable_name,
        ).observe_all(ts).miss_count,
        site.synced(version).observe_all(ts).class() == SiteModel::fresh(
            site.variable_name,
        ).observe_all(ts).class(),
{
    lemma_observe_all_ignores_labels(
        site.synced(version),
        SiteModel::fresh(site.variable_name),
        ts,
    );
}

} // verus!
