//! The cache-augmented executor.
//!
//! What a program does is the spec function [`run_block`] on the model of a
//! machine: variables, functions, the monitor's counters, the effects sent to
//! the sink, the pending input, and the clock with its readings. It never
//! reads a cache. The executor follows it step by step and keeps the caches
//! as bookkeeping. The clock is read at the check-points of the monitor and
//! nowhere else, and every reading is kept, so that the machine and the
//! result of an execution are exactly what the model says for the readings
//! that were taken; an execution can also be run on readings that are given.
//!
//! Accounting: every statement is one check-point of the monitor, every round
//! of a loop is one more, and every call of a function is one level of
//! recursion.

use crate::cached_ast::{
    shape_of, CacheEntry, CacheVersion, CachedType, CallCacheModel, EntryModel,
    FunctionCallCache, SiteModel, VariableCache,
};
use crate::cached_statement::{
    bare, bare_all, cached_from_all, cached_models, call_option_model, collect_each,
    entry_option_model, lemma_cached_from_all_is_bare, models_of, site_option_model,
    tallied_through, warm_each, warmed_all, CacheStats, CachedModel, CachedStatement,
};
use crate::environment::Bindings;
use crate::number::{bits_of_nat, number_from_u64};
use crate::safety::{ExecutionLimits, MonitorView, SafetyMonitor};
use crate::text::{trim_text, trimmed};
use crate::values::{
    values_equal, values_model, EllexFunction, EllexValue, FunctionModel, ValueModel,
};
use crate::{error_of, EllexConfig, EllexError, ErrorModel};
use vstd::prelude::*;

verus! {

/// A graphics primitive that a program can call by name.
#[derive(Debug, Clone, Copy, PartialEq, Eq, Structural)]
pub enum TurtleCommand {
    Forward,
    TurnRight,
    TurnLeft,
    PenUp,
    PenDown,
}

/// Something a program sends to the outside.
#[derive(Debug, Clone)]
pub enum Effect {
    /// A value to show.
    Output(EllexValue),
    /// A prompt to show before input is read.
    Prompt(String),
    /// A variable was read; its name and value.
    Accessed(String, EllexValue),
    /// A graphics primitive to perform.
    Graphics(TurtleCommand),
}

/// The model of an effect.
pub enum EffectModel {
    Output(ValueModel),
    Prompt(Seq<char>),
    Accessed(Seq<char>, ValueModel),
    Graphics(TurtleCommand),
}

impl View for Effect {
    type V = EffectModel;

    open spec fn view(&self) -> EffectModel {
        match *self {
            Effect::Output(v) => EffectModel::Output(v@),
            Effect::Prompt(p) => EffectModel::Prompt(p@),
            Effect::Accessed(n, v) => EffectModel::Accessed(n@, v@),
            Effect::Graphics(c) => EffectModel::Graphics(c),
        }
    }
}

pub open spec fn effects_model(effects: Seq<Effect>) -> Seq<EffectModel> {
    Seq::new(effects.len(), |i: int| effects[i]@)
}

pub open spec fn lines_model(lines: Seq<String>) -> Seq<Seq<char>> {
    Seq::new(lines.len(), |i: int| lines[i]@)
}

/// The graphics primitive that `name` calls, if it calls one.
pub open spec fn turtle_command(name: Seq<char>) -> Option<TurtleCommand> {
    if name == "move_forward"@ || name == "forward"@ {
        Some(TurtleCommand::Forward)
    } else if name == "turn_right"@ || name == "right"@ {
        Some(TurtleCommand::TurnRight)
    } else if name == "turn_left"@ || name == "left"@ {
        Some(TurtleCommand::TurnLeft)
    } else if name == "pen_up"@ {
        Some(TurtleCommand::PenUp)
    } else if name == "pen_down"@ {
        Some(TurtleCommand::PenDown)
    } else {
        None
    }
}

/// The name of the variable that holds the number of the current round.
pub open spec fn counter_name() -> Seq<char> {
    "count"@
}

/// A `LogicError` whose message is `before`, `name`, `after`.
pub open spec fn logic_error(before: Seq<char>, name: Seq<char>, after: Seq<char>) -> ErrorModel {
    ErrorModel::LogicError { message: before + name + after }
}

/// The state of an execution.
pub struct Machine {
    pub variables: Map<Seq<char>, ValueModel>,
    pub functions: Map<Seq<char>, ValueModel>,
    pub monitor: MonitorView,
    /// What was sent to the sink so far, oldest first.
    pub effects: Seq<EffectModel>,
    /// The input lines not read yet, next first.
    pub inputs: Seq<Seq<char>>,
    /// Whether graphics primitives are recognized.
    pub graphics: bool,
    /// What the clock reads at the check-points of the monitor.
    pub clock: Clock,
}

/// The readings of the clock at the check-points of one execution, in
/// milliseconds since its start, and the number of those that were taken.
/// Behind the last reading the clock reads zero.
pub struct Clock {
    pub readings: Seq<u64>,
    pub taken: nat,
}

impl Clock {
    /// A clock without readings.
    pub open spec fn idle() -> Clock {
        Clock { readings: Seq::empty(), taken: 0 }
    }

    /// A clock that will give `readings`.
    pub open spec fn of(readings: Seq<u64>) -> Clock {
        Clock { readings, taken: 0 }
    }

    /// What the clock reads next.
    pub open spec fn reading(self) -> u64 {
        if self.taken < self.readings.len() {
            self.readings[self.taken as int]
        } else {
            0
        }
    }

    /// The clock after it was read.
    pub open spec fn ticked(self) -> Clock {
        if self.taken < self.readings.len() {
            Clock { taken: self.taken + 1, ..self }
        } else {
            self
        }
    }
}

/// A machine and the error that stopped it, if one did.
pub struct Outcome {
    pub machine: Machine,
    pub error: Option<ErrorModel>,
}

pub open spec fn done(machine: Machine) -> Outcome {
    Outcome { machine, error: None }
}

pub open spec fn failed(machine: Machine, error: ErrorModel) -> Outcome {
    Outcome { machine, error: Some(error) }
}

impl Machine {
    pub open spec fn emit(self, effect: EffectModel) -> Machine {
        Machine { effects: self.effects.push(effect), ..self }
    }

    pub open spec fn bind(self, name: Seq<char>, value: ValueModel) -> Machine {
        Machine { variables: self.variables.insert(name, value), ..self }
    }

    pub open spec fn with_monitor(self, monitor: MonitorView) -> Machine {
        Machine { monitor, ..self }
    }

    /// The levels of recursion still allowed.
    pub open spec fn budget(self) -> nat {
        if self.monitor.recursion_depth <= self.monitor.limits.max_recursion_depth {
            (self.monitor.limits.max_recursion_depth - self.monitor.recursion_depth) as nat
        } else {
            0
        }
    }

    /// The machine with another clock.
    pub open spec fn with_clock(self, clock: Clock) -> Machine {
        Machine { clock, ..self }
    }

    /// The machine after its clock was read.
    pub open spec fn ticked(self) -> Machine {
        self.with_clock(self.clock.ticked())
    }

    /// The machine with a clock that gives `readings`, as many of them
    /// taken as before.
    pub open spec fn retimed(self, readings: Seq<u64>) -> Machine {
        self.with_clock(Clock { readings, taken: self.clock.taken })
    }

    /// The check-point before a statement: the clock is read, the
    /// instruction is counted, and the monitor gives its verdict.
    pub open spec fn checkpoint(self) -> Outcome {
        let after = self.with_monitor(self.monitor.after_continue()).ticked();
        match self.monitor.continue_verdict(self.clock.reading()) {
            Ok(_) => done(after),
            Err(e) => failed(after, ErrorModel::of_safety(e)),
        }
    }

    /// The start of a top-level execution: the monitor's counters at zero.
    pub open spec fn started(self) -> Machine {
        self.with_monitor(self.monitor.after_reset())
    }

    /// The function that `name` is defined as, if it is.
    pub open spec fn function(self, name: Seq<char>) -> Option<crate::values::FunctionModel> {
        if self.functions.contains_key(name) {
            match self.functions[name] {
                ValueModel::Function(f) => Some(f),
                _ => None,
            }
        } else {
            None
        }
    }
}

/// What executing one statement does to a machine. `budget` is the number
/// of levels of recursion still allowed.
pub open spec fn run_statement(s: CachedModel, m: Machine, budget: nat) -> Outcome
    decreases budget, s, 0nat,
{
    match s {
        CachedModel::TellConstant { value } => done(m.emit(EffectModel::Output(value))),
        CachedModel::Tell { value, cache } => done(m.emit(EffectModel::Output(value))),
        CachedModel::VariableAccess { variable_name, cache } => {
            if m.variables.contains_key(variable_name) {
                done(m.emit(EffectModel::Accessed(variable_name, m.variables[variable_name])))
            } else {
                failed(m, logic_error("Variable '"@, variable_name, "' not found"@))
            }
        },
        CachedModel::Ask { prompt, variable, type_hint, cache } => {
            let prompted = m.emit(EffectModel::Prompt(prompt));
            if prompted.inputs.len() == 0 {
                failed(prompted, ErrorModel::LogicError { message: "Failed to read input"@ })
            } else {
                done(
                    Machine {
                        variables: prompted.variables.insert(
                            variable,
                            ValueModel::Text(trimmed(prompted.inputs[0])),
                        ),
                        inputs: prompted.inputs.drop_first(),
                        ..prompted
                    },
                )
            }
        },
        CachedModel::Assign { variable, value } => done(m.bind(variable, value)),
        CachedModel::Repeat { times, body, iteration_cache } => {
            match m.monitor.loop_start_verdict(times as usize) {
                Err(e) => failed(m, ErrorModel::of_safety(e)),
                Ok(_) => run_rounds(body, 0, times, m, budget),
            }
        },
        CachedModel::When { variable, condition, then_body, else_body, condition_cache } => {
            if !m.variables.contains_key(variable) {
                failed(m, logic_error("Variable '"@, variable, "' not found"@))
            } else if values_equal(m.variables[variable], condition) {
                run_block(then_body, 0, m, budget)
            } else {
                match else_body {
                    Some(b) => run_block(b, 0, m, budget),
                    None => done(m),
                }
            }
        },
        CachedModel::Call { function_name, args, call_cache } => {
            match m.function(function_name) {
                Some(f) => {
                    let entered = m.with_monitor(m.monitor.after_enter());
                    match m.monitor.enter_verdict() {
                        Err(e) => failed(entered, ErrorModel::of_safety(e)),
                        Ok(_) => {
                            if budget == 0 {
                                failed(
                                    entered,
                                    ErrorModel::RecursionDepthExceeded {
                                        current: entered.monitor.recursion_depth,
                                        limit: entered.monitor.limits.max_recursion_depth,
                                    },
                                )
                            } else {
                                let inner = run_block(
                                    cached_from_all(f.body),
                                    0,
                                    entered,
                                    (budget - 1) as nat,
                                );
                                if inner.error is Some {
                                    inner
                                } else {
                                    done(
                                        inner.machine.with_monitor(
                                            inner.machine.monitor.after_exit(),
                                        ),
                                    )
                                }
                            }
                        },
                    }
                },
                None => {
                    if m.graphics {
                        match turtle_command(function_name) {
                            Some(c) => done(m.emit(EffectModel::Graphics(c))),
                            None => failed(
                                m,
                                logic_error("Unknown turtle command: "@, function_name, ""@),
                            ),
                        }
                    } else {
                        failed(m, logic_error("Function '"@, function_name, "' not found"@))
                    }
                },
            }
        },
    }
}

/// What executing the statements `body[from..]` does: before each statement a
/// check-point, then the statement; the first error stops the block.
pub open spec fn run_block(body: Seq<CachedModel>, from: int, m: Machine, budget: nat) -> Outcome
    decreases budget, body, body.len() - from,
{
    if from < 0 || from >= body.len() {
        done(m)
    } else {
        let checked = m.checkpoint();
        if checked.error is Some {
            checked
        } else {
            let ran = run_statement(body[from], checked.machine, budget);
            if ran.error is Some {
                ran
            } else {
                run_block(body, from + 1, ran.machine, budget)
            }
        }
    }
}

/// What the rounds `round..times` of a loop do: each round is checked by the
/// monitor, binds the round's number to the counter variable and runs the
/// body.
pub open spec fn run_rounds(
    body: Seq<CachedModel>,
    round: int,
    times: u32,
    m: Machine,
    budget: nat,
) -> Outcome
    decreases budget, body, body.len() + 1 + times - round,
{
    if round < 0 || round >= times {
        done(m)
    } else {
        let checked = m.with_monitor(m.monitor.after_iteration(round as usize)).ticked();
        match m.monitor.iteration_verdict(round as usize, m.clock.reading()) {
            Err(e) => failed(checked, ErrorModel::of_safety(e)),
            Ok(_) => {
                let bound = checked.bind(
                    counter_name(),
                    ValueModel::Number(bits_of_nat(round as nat)),
                );
                let ran = run_block(body, 0, bound, budget);
                if ran.error is Some {
                    ran
                } else {
                    run_rounds(body, round + 1, times, ran.machine, budget)
                }
            },
        }
    }
}

/// What a top-level execution of `program` does: the monitor restarts, then
/// the block runs with the whole recursion allowance.
pub open spec fn run_program(program: Seq<CachedModel>, m: Machine) -> Outcome {
    run_block(program, 0, m.started(), m.started().budget())
}

/// What a top-level execution of `program` does when the clock reads
/// `readings` at its check-points, one after the other.
pub open spec fn run_program_at(program: Seq<CachedModel>, m: Machine, readings: Seq<u64>) -> Outcome {
    run_program(program, m.with_clock(Clock::of(readings)))
}

/// `long` starts with the readings of `short`.
pub open spec fn starts_with(long: Seq<u64>, short: Seq<u64>) -> bool {
    short.len() <= long.len() && long.subrange(0, short.len() as int) =~= short
}

/// The readings `c` can be those of an execution that has read `readings`
/// so far: on a live clock any that start with them, else these alone.
pub open spec fn admits_at(live: bool, readings: Seq<u64>, c: Seq<u64>) -> bool {
    if live {
        starts_with(c, readings)
    } else {
        c == readings
    }
}

/// The cache of an output after a value of the shape `shape` went out
/// under the cache version `version`: a first value makes the entry, the
/// same shape again is a hit, another shape replaces the entry, and so does
/// an entry made under another version.
pub open spec fn told(cache: Option<EntryModel>, shape: CachedType, version: u64) -> Option<
    EntryModel,
> {
    match cache {
        Some(entry) => if entry.version == version && entry.expected_type == shape {
            Some(entry.after_hit())
        } else {
            Some(EntryModel::fresh_under(shape, version))
        },
        None => Some(EntryModel::fresh_under(shape, version)),
    }
}

/// The cache of the site of `variable` after a value of the shape `shape`
/// was seen there under the cache version `version`.
pub open spec fn visited(
    cache: Option<SiteModel>,
    variable: Seq<char>,
    shape: CachedType,
    version: u64,
) -> Option<SiteModel> {
    match cache {
        Some(site) => Some(site.synced(version).observe(shape)),
        None => Some(SiteModel::fresh(variable).synced(version).observe(shape)),
    }
}

/// The cache of a loop after one more round under the cache version
/// `version`: the counter is a number, so a first round makes the entry and
/// every later one is a hit; an entry made under another version is made
/// anew.
pub open spec fn counted(cache: Option<EntryModel>, version: u64) -> Option<EntryModel> {
    match cache {
        Some(entry) => if entry.version != version {
            Some(EntryModel::fresh_under(CachedType::Number, version))
        } else if entry.expected_type == CachedType::Number {
            Some(entry.after_hit())
        } else {
            Some(entry)
        },
        None => Some(EntryModel::fresh_under(CachedType::Number, version)),
    }
}

/// The shapes of the values `args`.
pub open spec fn shapes(args: Seq<ValueModel>) -> Seq<CachedType> {
    Seq::new(args.len(), |i: int| shape_of(args[i]))
}

/// The cache of a call site after a call of `function` with `args` under
/// the cache version `version`: a call that matches the recorded one is a
/// hit, any other is recorded; a site made under another version starts
/// anew.
pub open spec fn called(
    cache: Option<CallCacheModel>,
    name: Seq<char>,
    function: FunctionModel,
    args: Seq<ValueModel>,
    version: u64,
) -> Option<CallCacheModel> {
    match cache {
        Some(site) => if site.cache_version != version {
            Some(CallCacheModel::fresh_under(name, version).after_call(function, shapes(args)))
        } else if site.cached_function is Some && site.matches(shapes(args)) {
            Some(site.after_hit())
        } else {
            Some(site.after_call(function, shapes(args)))
        },
        None => Some(CallCacheModel::fresh_under(name, version).after_call(function, shapes(args))),
    }
}

/// The statement `s` after it was executed on the machine `m`: the same
/// program with its caches brought up to date. `program` is the program of
/// `s`, which never changes.
pub open spec fn taught_statement(
    program: CachedModel,
    s: CachedModel,
    m: Machine,
    budget: nat,
    version: u64,
) -> CachedModel
    decreases program, 0nat,
{
    match s {
        CachedModel::TellConstant { value } => s,
        CachedModel::Assign { variable, value } => s,
        CachedModel::Tell { value, cache } => CachedModel::Tell {
            value,
            cache: told(cache, shape_of(value), version),
        },
        CachedModel::VariableAccess { variable_name, cache } => {
            if m.variables.contains_key(variable_name) {
                CachedModel::VariableAccess {
                    variable_name,
                    cache: cache.synced(version).observe(shape_of(m.variables[variable_name])),
                }
            } else {
                s
            }
        },
        CachedModel::Ask { prompt, variable, type_hint, cache } => {
            if m.inputs.len() == 0 {
                s
            } else {
                CachedModel::Ask {
                    prompt,
                    variable,
                    type_hint,
                    cache: visited(cache, variable, CachedType::String, version),
                }
            }
        },
        CachedModel::Repeat { times, body, iteration_cache } => {
            if m.monitor.loop_start_verdict(times as usize) is Err || !(program is Repeat) {
                s
            } else {
                let rounds = taught_rounds(
                    program->Repeat_body,
                    body,
                    iteration_cache,
                    0,
                    times,
                    m,
                    budget,
                    version,
                );
                CachedModel::Repeat { times, body: rounds.0, iteration_cache: rounds.1 }
            }
        },
        CachedModel::When { variable, condition, then_body, else_body, condition_cache } => {
            if !m.variables.contains_key(variable) || !(program is When) {
                s
            } else {
                let seen = visited(
                    condition_cache,
                    variable,
                    shape_of(m.variables[variable]),
                    version,
                );
                if values_equal(m.variables[variable], condition) {
                    CachedModel::When {
                        variable,
                        condition,
                        then_body: taught_block(
                            program->When_then_body,
                            then_body,
                            0,
                            m,
                            budget,
                            version,
                        ),
                        else_body,
                        condition_cache: seen,
                    }
                } else {
                    CachedModel::When {
                        variable,
                        condition,
                        then_body,
                        else_body: match (program->When_else_body, else_body) {
                            (Some(p), Some(b)) => Some(taught_block(p, b, 0, m, budget, version)),
                            _ => else_body,
                        },
                        condition_cache: seen,
                    }
                }
            }
        },
        CachedModel::Call { function_name, args, call_cache } => {
            match m.function(function_name) {
                Some(f) => CachedModel::Call {
                    function_name,
                    args,
                    call_cache: called(call_cache, function_name, f, args, version),
                },
                None => s,
            }
        },
    }
}

/// The statements `body` after `body[from..]` was executed on `m`; their
/// program is `program`. A statement that was not reached stays as it is.
pub open spec fn taught_block(
    program: Seq<CachedModel>,
    body: Seq<CachedModel>,
    from: int,
    m: Machine,
    budget: nat,
    version: u64,
) -> Seq<CachedModel>
    decreases program, program.len() - from,
{
    if from < 0 || from >= program.len() || body.len() != program.len() {
        body
    } else {
        let checked = m.checkpoint();
        if checked.error is Some {
            body
        } else {
            let ran = run_statement(program[from], checked.machine, budget);
            let next = body.update(
                from,
                taught_statement(program[from], body[from], checked.machine, budget, version),
            );
            if ran.error is Some {
                next
            } else {
                taught_block(program, next, from + 1, ran.machine, budget, version)
            }
        }
    }
}

/// The body of a loop and the loop's own cache after the rounds
/// `round..times` were executed on `m`.
pub open spec fn taught_rounds(
    program: Seq<CachedModel>,
    body: Seq<CachedModel>,
    cache: Option<EntryModel>,
    round: int,
    times: u32,
    m: Machine,
    budget: nat,
    version: u64,
) -> (Seq<CachedModel>, Option<EntryModel>)
    decreases program, program.len() + 1 + times - round,
{
    if round < 0 || round >= times {
        (body, cache)
    } else if m.monitor.iteration_verdict(round as usize, m.clock.reading()) is Err {
        (body, cache)
    } else {
        let bound = m.with_monitor(m.monitor.after_iteration(round as usize)).ticked().bind(
            counter_name(),
            ValueModel::Number(bits_of_nat(round as nat)),
        );
        let ran = run_block(program, 0, bound, budget);
        let next = taught_block(program, body, 0, bound, budget, version);
        if ran.error is Some {
            (next, counted(cache, version))
        } else {
            taught_rounds(
                program,
                next,
                counted(cache, version),
                round + 1,
                times,
                ran.machine,
                budget,
                version,
            )
        }
    }
}

/// `later` starts with the effects of `earlier`.
pub open spec fn keeps_effects(earlier: Seq<EffectModel>, later: Seq<EffectModel>) -> bool {
    earlier.len() <= later.len() && later.subrange(0, earlier.len() as int) =~= earlier
}

/// What is kept over one stretch and over the next is kept over both.
pub proof fn lemma_frame_chain(a: Machine, b: Machine, c: Machine)
    requires
        same_frame(a, b),
        same_frame(b, c),
    ensures
        same_frame(a, c),
{
    assert(c.effects.subrange(0, a.effects.len() as int) =~= a.effects) by {
        assert forall|i: int| 0 <= i < a.effects.len() implies c.effects[i] == a.effects[i] by {
            assert(b.effects.subrange(0, a.effects.len() as int)[i] == b.effects[i]);
            assert(c.effects.subrange(0, b.effects.len() as int)[i] == c.effects[i]);
        }
    }
}

/// What every execution keeps, also one that fails or runs out of time: the
/// limits, the functions, whether graphics are recognized, and the effects
/// that were sent to the sink before; new ones come after them.
pub open spec fn same_frame(before: Machine, after: Machine) -> bool {
    &&& after.monitor.limits == before.monitor.limits
    &&& after.functions == before.functions
    &&& after.graphics == before.graphics
    &&& keeps_effects(before.effects, after.effects)
}

/// The machine is within its recursion ceiling and `budget` is what is left.
pub open spec fn has_budget(m: Machine, budget: nat) -> bool {
    &&& m.monitor.recursion_depth <= m.monitor.limits.max_recursion_depth
    &&& budget == m.budget()
}

/// The graphics primitive that `name` calls, if it calls one.
pub fn turtle_command_of(name: &str) -> (r: Option<TurtleCommand>)
    ensures
        r == turtle_command(name@),
{
    if crate::text::same_text(name, "move_forward") || crate::text::same_text(name, "forward") {
        Some(TurtleCommand::Forward)
    } else if crate::text::same_text(name, "turn_right") || crate::text::same_text(name, "right") {
        Some(TurtleCommand::TurnRight)
    } else if crate::text::same_text(name, "turn_left") || crate::text::same_text(name, "left") {
        Some(TurtleCommand::TurnLeft)
    } else if crate::text::same_text(name, "pen_up") {
        Some(TurtleCommand::PenUp)
    } else if crate::text::same_text(name, "pen_down") {
        Some(TurtleCommand::PenDown)
    } else {
        None
    }
}

/// A runtime that executes cached statement trees.
#[derive(Debug)]
pub struct OptimizedEllexRuntime {
    variables: Bindings,
    functions: Bindings,
    safety: SafetyMonitor,
    global_cache_stats: CacheStats,
    execution_count: u64,
    effects: Vec<Effect>,
    inputs: Vec<String>,
    cache_version: CacheVersion,
    graphics: bool,
    /// The readings of the clock in the execution under way or last made.
    readings: Vec<u64>,
    /// How many of them were taken.
    taken: usize,
    /// Whether the clock is read when the readings are used up.
    live: bool,
}

impl OptimizedEllexRuntime {
    /// The machine that this runtime is.
    pub closed spec fn machine(&self) -> Machine {
        Machine {
            variables: self.variables@,
            functions: self.functions@,
            monitor: self.safety@,
            effects: effects_model(self.effects@),
            inputs: lines_model(self.inputs@),
            graphics: self.graphics,
            clock: Clock { readings: self.readings@, taken: self.taken as nat },
        }
    }

    /// Whether the clock is read when the readings are used up.
    pub closed spec fn live(&self) -> bool {
        self.live
    }

    /// No more readings are taken than there are, and on a live clock all
    /// of them are taken.
    pub open spec fn timely(&self) -> bool {
        &&& self.machine().clock.taken <= self.machine().clock.readings.len()
        &&& self.live() ==> self.machine().clock.taken == self.machine().clock.readings.len()
    }

    /// The number of top-level executions so far.
    pub closed spec fn executions(&self) -> u64 {
        self.execution_count
    }

    /// The cache counters of the last successful execution.
    pub closed spec fn stats(&self) -> CacheStats {
        self.global_cache_stats
    }

    /// The cache version in force.
    pub closed spec fn version(&self) -> u64 {
        self.cache_version.value
    }

    /// What an execution leaves alone besides the frame of the machine.
    pub closed spec fn records(&self) -> (CacheStats, u64, u64, bool) {
        (self.global_cache_stats, self.execution_count, self.cache_version.value, self.live)
    }

    /// A runtime with the standard limits, no variable, no function, no
    /// pending input, and graphics recognized.
    pub fn new() -> (rt: Self)
        ensures
            rt.machine() == (Machine {
                variables: Map::empty(),
                functions: Map::empty(),
                monitor: MonitorView::fresh(ExecutionLimits::standard()),
                effects: Seq::empty(),
                inputs: Seq::empty(),
                graphics: true,
                clock: Clock::idle(),
            }),
            rt.executions() == 0,
            rt.stats() == CacheStats::zero(),
            rt.version() == 0,
    {
        Self::with_limits(ExecutionLimits::new(), true)
    }

    /// A runtime with the limits that `config` asks for; graphics are
    /// recognized if `config` enables them.
    pub fn with_config(config: EllexConfig) -> (rt: Self)
        ensures
            rt.machine() == (Machine {
                variables: Map::empty(),
                functions: Map::empty(),
                monitor: MonitorView::fresh(config.limits()),
                effects: Seq::empty(),
                inputs: Seq::empty(),
                graphics: config.enable_turtle,
                clock: Clock::idle(),
            }),
            rt.executions() == 0,
            rt.stats() == CacheStats::zero(),
            rt.version() == 0,
    {
        Self::with_limits(config.to_limits(), config.enable_turtle)
    }

    /// A runtime with the given limits.
    pub fn with_limits(limits: ExecutionLimits, graphics: bool) -> (rt: Self)
        ensures
            rt.machine() == (Machine {
                variables: Map::empty(),
                functions: Map::empty(),
                monitor: MonitorView::fresh(limits),
                effects: Seq::empty(),
                inputs: Seq::empty(),
                graphics,
                clock: Clock::idle(),
            }),
            rt.executions() == 0,
            rt.stats() == CacheStats::zero(),
            rt.version() == 0,
    {
        let rt = OptimizedEllexRuntime {
            variables: Bindings::new(),
            functions: Bindings::new(),
            safety: SafetyMonitor::new(limits),
            global_cache_stats: CacheStats::new(),
            execution_count: 0,
            effects: Vec::new(),
            inputs: Vec::new(),
            cache_version: CacheVersion::new(),
            graphics,
            readings: Vec::new(),
            taken: 0,
            live: true,
        };
        assert(rt.machine().clock.readings =~= Seq::<u64>::empty());
        assert(rt.machine().effects =~= Seq::<EffectModel>::empty());
        assert(rt.machine().inputs =~= Seq::<Seq<char>>::empty());
        rt
    }

    fn emit(&mut self, effect: Effect)
        ensures
            final(self).machine() == old(self).machine().emit(effect@),
            final(self).records() == old(self).records(),
    {
        self.effects.push(effect);
        assert(self.machine().effects =~= old(self).machine().effects.push(effect@));
    }

    fn bind(&mut self, name: String, value: EllexValue)
        ensures
            final(self).machine() == old(self).machine().bind(name@, value@),
            final(self).records() == old(self).records(),
    {
        self.variables.insert(name, value);
    }

    /// Takes the next reading of the clock: the next of those given, or on
    /// a live clock one of the clock itself; behind the readings of a clock
    /// that is not live, zero.
    fn tick(&mut self) -> (e: u64)
        requires
            old(self).timely(),
        ensures
            final(self).timely(),
            final(self).records() == old(self).records(),
            final(self).machine() == old(self).machine().with_clock(final(self).machine().clock),
            forall|c: Seq<u64>| #[trigger]
                admits_at(final(self).live(), final(self).machine().clock.readings, c) ==> {
                    &&& admits_at(old(self).live(), old(self).machine().clock.readings, c)
                    &&& e == old(self).machine().retimed(c).clock.reading()
                    &&& final(self).machine().retimed(c) == old(self).machine().retimed(c).ticked()
                },
    {
        if self.taken < self.readings.len() {
            let e = self.readings[self.taken];
            self.taken = self.taken + 1;
            e
        } else if self.live {
            let e = self.safety.elapsed_ms();
            self.readings.push(e);
            assert(self.taken < self.readings.len());
            self.taken = self.taken + 1;
            assert forall|c: Seq<u64>| #[trigger] admits_at(self.live(), self.machine().clock.readings, c) implies {
                &&& admits_at(old(self).live(), old(self).machine().clock.readings, c)
                &&& e == old(self).machine().retimed(c).clock.reading()
                &&& self.machine().retimed(c) == old(self).machine().retimed(c).ticked()
            } by {
                let before = old(self).readings@;
                assert(c.subrange(0, self.readings@.len() as int)[before.len() as int] == e);
                assert(c.subrange(0, before.len() as int) =~= before) by {
                    assert forall|k: int| 0 <= k < before.len() implies c[k] == before[k] by {
                        assert(c.subrange(0, self.readings@.len() as int)[k] == self.readings@[k]);
                    }
                }
            }
            e
        } else {
            0
        }
    }

    /// The check-point before a statement.
    fn checkpoint(&mut self) -> (r: Result<(), EllexError>)
        requires
            old(self).timely(),
        ensures
            final(self).timely(),
            final(self).records() == old(self).records(),
            same_frame(old(self).machine(), final(self).machine()),
            final(self).machine().monitor == old(self).machine().monitor.after_continue(),
            forall|c: Seq<u64>| #[trigger]
                admits_at(final(self).live(), final(self).machine().clock.readings, c) ==> {
                    &&& admits_at(old(self).live(), old(self).machine().clock.readings, c)
                    &&& old(self).machine().retimed(c).checkpoint() == (Outcome {
                        machine: final(self).machine().retimed(c),
                        error: error_of(r),
                    })
                },
    {
        let e = self.tick();
        let ghost read = self.machine();
        let ghost live = self.live();
        let r = match self.safety.check_execution_continue_at(e) {
            Ok(()) => Ok(()),
            Err(error) => Err(EllexError::from_safety(error)),
        };
        proof {
            assert(self.machine() == read.with_monitor(read.monitor.after_continue()));
            assert forall|c: Seq<u64>| #[trigger] admits_at(self.live(), self.machine().clock.readings, c) implies {
                &&& admits_at(old(self).live(), old(self).machine().clock.readings, c)
                &&& old(self).machine().retimed(c).checkpoint() == (Outcome {
                    machine: self.machine().retimed(c),
                    error: error_of(r),
                })
            } by {
                let before = old(self).machine().retimed(c);
                assert(admits_at(live, read.clock.readings, c));
                assert(read.retimed(c) == before.ticked());
                assert(self.machine().retimed(c) == before.with_monitor(
                    before.monitor.after_continue(),
                ).ticked());
            }
        }
        r
    }
}

/// Brings the cache of an output up to date after `value` went out.
pub fn touch_entry(cache: &mut Option<CacheEntry>, value: &EllexValue, version: u64)
    ensures
        entry_option_model(*final(cache)) == told(
            entry_option_model(*old(cache)),
            shape_of(value@),
            version,
        ),
{
    let shape = CachedType::of(value);
    match cache {
        Some(entry) => {
            if entry.version == version && entry.matches(value) {
                entry.hit();
            } else {
                *entry = CacheEntry::new_under(shape, version);
            }
        },
        None => {
            *cache = Some(CacheEntry::new_under(shape, version));
        },
    }
}

/// Brings the cache of the site of `variable` up to date after a value of
/// the shape `shape` was seen there.
pub fn touch_site(
    cache: &mut Option<VariableCache>,
    variable: &String,
    shape: CachedType,
    version: u64,
)
    ensures
        site_option_model(*final(cache)) == visited(
            site_option_model(*old(cache)),
            variable@,
            shape,
            version,
        ),
{
    match cache {
        Some(site) => {
            site.sync(version);
            site.observe(shape);
        },
        None => {
            let mut site = VariableCache::new(variable.clone());
            site.sync(version);
            site.observe(shape);
            *cache = Some(site);
        },
    }
}

/// Brings the cache of a loop up to date after one more round.
pub fn touch_counter(cache: &mut Option<CacheEntry>, version: u64)
    ensures
        entry_option_model(*final(cache)) == counted(entry_option_model(*old(cache)), version),
{
    match cache {
        Some(entry) => {
            if entry.version != version {
                *entry = CacheEntry::new_under(CachedType::Number, version);
            } else if entry.expected_type == CachedType::Number {
                entry.hit();
            }
        },
        None => {
            *cache = Some(CacheEntry::new_under(CachedType::Number, version));
        },
    }
}

/// Brings the cache of a call site up to date after a call of `function`
/// with `args`.
pub fn touch_call(
    cache: &mut Option<FunctionCallCache>,
    name: &String,
    function: &EllexFunction,
    args: &Vec<EllexValue>,
    version: u64,
)
    ensures
        call_option_model(*final(cache)) == called(
            call_option_model(*old(cache)),
            name@,
            function@,
            values_model(*args),
            version,
        ),
{
    assert(crate::cached_ast::shapes_of(args@) =~= shapes(values_model(*args)));
    match cache {
        Some(site) => {
            if site.cache_version != version {
                let mut fresh = FunctionCallCache::new_under(name.clone(), version);
                fresh.cache_call(function.duplicate(), args.as_slice());
                *site = fresh;
            } else if site.cached_function.is_some() && site.matches_signature(args.as_slice()) {
                site.hit();
            } else {
                site.cache_call(function.duplicate(), args.as_slice());
            }
        },
        None => {
            let mut site = FunctionCallCache::new_under(name.clone(), version);
            site.cache_call(function.duplicate(), args.as_slice());
            *cache = Some(site);
        },
    }
}

impl OptimizedEllexRuntime {
    /// Executes one statement.
    #[verifier::rlimit(60)]
    fn execute_cached_statement(
        &mut self,
        stmt: &mut CachedStatement,
        Ghost(budget): Ghost<nat>,
    ) -> (r: Result<(), EllexError>)
        requires
            has_budget(old(self).machine(), budget),
            old(self).timely(),
        ensures
            bare(final(stmt)@) == bare(old(stmt)@),
            final(self).timely(),
            forall|c: Seq<u64>| #[trigger]
                admits_at(final(self).live(), final(self).machine().clock.readings, c) ==> {
                    &&& admits_at(old(self).live(), old(self).machine().clock.readings, c)
                    &&& run_statement(bare(old(stmt)@), old(self).machine().retimed(c), budget)
                        == (Outcome {
                        machine: final(self).machine().retimed(c),
                        error: error_of(r),
                    })
                    &&& final(stmt)@ == taught_statement(
                        bare(old(stmt)@),
                        old(stmt)@,
                        old(self).machine().retimed(c),
                        budget,
                        old(self).version(),
                    )
                },
            same_frame(old(self).machine(), final(self).machine()),
            final(self).records() == old(self).records(),
            r is Ok ==> final(self).machine().monitor.recursion_depth == old(
                self,
            ).machine().monitor.recursion_depth,
        decreases budget, bare(old(stmt)@), 0nat,
    {
        let ghost before = self.machine();
        let ghost program = bare(stmt@);
        let version = self.cache_version.value;
        match stmt {
            CachedStatement::TellConstant { value } => {
                self.emit(Effect::Output(value.duplicate()));
                return Ok(());
            },
            CachedStatement::Tell { value, cache } => {
                touch_entry(cache, value, version);
                self.emit(Effect::Output(value.duplicate()));
                return Ok(());
            },
            CachedStatement::VariableAccess { variable_name, cache } => {
                let found = match self.variables.get(variable_name.as_str()) {
                    Some(v) => Some(v.duplicate()),
                    None => None,
                };
                match found {
                    Some(value) => {
                        cache.sync(version);
                        cache.observe(CachedType::of(&value));
                        self.emit(Effect::Accessed(variable_name.clone(), value));
                        return Ok(());
                    },
                    None => {
                        return Err(
                            EllexError::logic("Variable '", variable_name.as_str(), "' not found"),
                        );
                    },
                }
            },
            CachedStatement::Ask { prompt, variable, type_hint, cache } => {
                self.emit(Effect::Prompt(prompt.clone()));
                if self.inputs.len() == 0 {
                    return Err(
                        EllexError::LogicError { message: String::from_str("Failed to read input") },
                    );
                }
                let line = self.inputs.remove(0);
                assert(self.machine().inputs =~= before.inputs.drop_first());
                let value = EllexValue::String(trim_text(line.as_str()));
                touch_site(cache, variable, CachedType::String, version);
                self.bind(variable.clone(), value);
                return Ok(());
            },
            CachedStatement::Assign { variable, value } => {
                self.bind(variable.clone(), value.duplicate());
                return Ok(());
            },
            CachedStatement::Repeat { times, body, iteration_cache } => {
                match self.safety.check_loop_start(*times as usize) {
                    Err(error) => {
                        return Err(EllexError::from_safety(error));
                    },
                    Ok(()) => {},
                }
                assert(program->Repeat_body == bare_all(cached_models(*body)));
                return self.execute_rounds(body, *times, iteration_cache, Ghost(budget));
            },
            CachedStatement::When { variable, condition, then_body, else_body, condition_cache } => {
                let matched = match self.variables.get(variable.as_str()) {
                    Some(v) => {
                        touch_site(condition_cache, variable, CachedType::of(v), version);
                        Some(v.same_as(condition))
                    },
                    None => None,
                };
                match matched {
                    None => {
                        return Err(EllexError::logic("Variable '", variable.as_str(), "' not found"));
                    },
                    Some(true) => {
                        assert(program->When_then_body == bare_all(cached_models(*then_body)));
                        return self.execute_block(then_body, Ghost(budget));
                    },
                    Some(false) => {
                        match else_body {
                            Some(b) => {
                                assert(program->When_else_body == Some(bare_all(cached_models(*b))));
                                return self.execute_block(b, Ghost(budget));
                            },
                            None => {
                                return Ok(());
                            },
                        }
                    },
                }
            },
            CachedStatement::Call { function_name, args, call_cache } => {
                let found: Option<EllexFunction> = match self.functions.get(function_name.as_str()) {
                    Some(EllexValue::Function(f)) => Some(f.duplicate()),
                    _ => None,
                };
                match found {
                    Some(function) => {
                        touch_call(call_cache, function_name, &function, args, version);
                        let depth = self.safety.recursion_depth();
                        let limit = self.safety.get_limits().max_recursion_depth;
                        match self.safety.check_recursion_depth() {
                            Err(error) => {
                                return Err(EllexError::from_safety(error));
                            },
                            Ok(()) => {},
                        }
                        if depth >= limit {
                            return Err(
                                EllexError::RecursionDepthExceeded {
                                    current: self.safety.recursion_depth(),
                                    limit,
                                },
                            );
                        }
                        let mut inner = CachedStatement::from_statements(&function.body);
                        proof {
                            lemma_cached_from_all_is_bare(function@.body);
                        }
                        let ghost entered = self.machine();
                        let r = self.execute_block(&mut inner, Ghost((budget - 1) as nat));
                        let ghost ran = self.machine();
                        let ghost running = self.live();
                        if r.is_ok() {
                            self.safety.exit_recursion();
                        }
                        proof {
                            assert forall|c: Seq<u64>| #[trigger]
                                admits_at(self.live(), self.machine().clock.readings, c) implies {
                                &&& admits_at(old(self).live(), old(self).machine().clock.readings, c)
                                &&& run_statement(program, old(self).machine().retimed(c), budget)
                                    == (Outcome {
                                    machine: self.machine().retimed(c),
                                    error: error_of(r),
                                })
                            } by {
                                assert(admits_at(running, ran.clock.readings, c));
                                let m = old(self).machine().retimed(c);
                                assert(m.function(function_name@) == Some(function@));
                                assert(entered.retimed(c) == m.with_monitor(m.monitor.after_enter()));
                                assert(run_block(
                                    cached_from_all(function@.body),
                                    0,
                                    entered.retimed(c),
                                    (budget - 1) as nat,
                                ) == (Outcome { machine: ran.retimed(c), error: error_of(r) }));
                            }
                        }
                        return r;
                    },
                    None => {
                        if self.graphics {
                            match turtle_command_of(function_name.as_str()) {
                                Some(command) => {
                                    self.emit(Effect::Graphics(command));
                                    return Ok(());
                                },
                                None => {
                                    return Err(
                                        EllexError::logic(
                                            "Unknown turtle command: ",
                                            function_name.as_str(),
                                            "",
                                        ),
                                    );
                                },
                            }
                        } else {
                            return Err(
                                EllexError::logic(
                                    "Function '",
                                    function_name.as_str(),
                                    "' not found",
                                ),
                            );
                        }
                    },
                }
            },
        }
    }

    /// Executes the statements of `body` in order, a check-point before
    /// each.
    fn execute_block(&mut self, body: &mut Vec<CachedStatement>, Ghost(budget): Ghost<nat>) -> (r:
        Result<(), EllexError>)
        requires
            has_budget(old(self).machine(), budget),
            old(self).timely(),
        ensures
            bare_all(cached_models(*final(body))) == bare_all(cached_models(*old(body))),
            final(self).timely(),
            forall|c: Seq<u64>| #[trigger]
                admits_at(final(self).live(), final(self).machine().clock.readings, c) ==> {
                    &&& admits_at(old(self).live(), old(self).machine().clock.readings, c)
                    &&& run_block(
                        bare_all(cached_models(*old(body))),
                        0,
                        old(self).machine().retimed(c),
                        budget,
                    ) == (Outcome { machine: final(self).machine().retimed(c), error: error_of(r) })
                    &&& cached_models(*final(body)) == taught_block(
                        bare_all(cached_models(*old(body))),
                        cached_models(*old(body)),
                        0,
                        old(self).machine().retimed(c),
                        budget,
                        old(self).version(),
                    )
                },
            same_frame(old(self).machine(), final(self).machine()),
            final(self).records() == old(self).records(),
            r is Ok ==> final(self).machine().monitor.recursion_depth == old(
                self,
            ).machine().monitor.recursion_depth,
        decreases budget, bare_all(cached_models(*old(body))), 0nat,
    {
        let ghost start = self.machine();
        let ghost live = self.live();
        let ghost program = bare_all(cached_models(*body));
        let ghost version = self.version();
        let mut i: usize = 0;
        while i < body.len()
            invariant
                0 <= i <= body.len(),
                body.len() == old(body).len(),
                program == bare_all(cached_models(*old(body))),
                bare_all(cached_models(*body)) == program,
                has_budget(start, budget),
                has_budget(self.machine(), budget),
                same_frame(start, self.machine()),
                start == old(self).machine(),
                live == old(self).live(),
                version == old(self).version(),
                self.timely(),
                self.records() == old(self).records(),
                self.machine().monitor.recursion_depth == start.monitor.recursion_depth,
                forall|c: Seq<u64>| #[trigger]
                    admits_at(self.live(), self.machine().clock.readings, c) ==> {
                        &&& admits_at(live, start.clock.readings, c)
                        &&& run_block(program, 0, start.retimed(c), budget) == run_block(
                            program,
                            i as int,
                            self.machine().retimed(c),
                            budget,
                        )
                        &&& taught_block(
                            program,
                            cached_models(*old(body)),
                            0,
                            start.retimed(c),
                            budget,
                            version,
                        ) == taught_block(
                            program,
                            cached_models(*body),
                            i as int,
                            self.machine().retimed(c),
                            budget,
                            version,
                        )
                    },
            decreases body.len() - i,
        {
            let ghost here = self.machine();
            match self.checkpoint() {
                Err(error) => {
                    proof {
                        lemma_frame_chain(start, here, self.machine());
                    }
                    return Err(error);
                },
                Ok(()) => {},
            }
            let ghost checked = self.machine();
            let ghost models = cached_models(*body);
            assert(program[i as int] == bare(body[i as int]@)) by {
                assert(bare_all(models)[i as int] == bare(models[i as int]));
            }
            let r = self.execute_cached_statement(&mut body[i], Ghost(budget));
            assert(cached_models(*body) =~= models.update(i as int, body[i as int]@));
            assert(bare_all(cached_models(*body)) =~= program) by {
                assert forall|j: int| 0 <= j < body.len() implies bare(cached_models(*body)[j])
                    == program[j] by {
                    if j != i {
                        assert(cached_models(*body)[j] == models[j]);
                        assert(bare_all(models)[j] == bare(models[j]));
                    }
                }
            }
            proof {
                lemma_frame_chain(here, checked, self.machine());
                lemma_frame_chain(start, here, self.machine());
            }
            match r {
                Err(error) => {
                    return Err(error);
                },
                Ok(()) => {},
            }
            i += 1;
        }
        Ok(())
    }

    /// Executes the statements of a slice in order, a check-point before
    /// each.
    fn execute_each(&mut self, body: &mut [CachedStatement], Ghost(budget): Ghost<nat>) -> (r:
        Result<(), EllexError>)
        requires
            has_budget(old(self).machine(), budget),
            old(self).timely(),
        ensures
            bare_all(models_of(final(body)@)) == bare_all(models_of(old(body)@)),
            final(self).timely(),
            forall|c: Seq<u64>| #[trigger]
                admits_at(final(self).live(), final(self).machine().clock.readings, c) ==> {
                    &&& admits_at(old(self).live(), old(self).machine().clock.readings, c)
                    &&& run_block(
                        bare_all(models_of(old(body)@)),
                        0,
                        old(self).machine().retimed(c),
                        budget,
                    ) == (Outcome { machine: final(self).machine().retimed(c), error: error_of(r) })
                    &&& models_of(final(body)@) == taught_block(
                        bare_all(models_of(old(body)@)),
                        models_of(old(body)@),
                        0,
                        old(self).machine().retimed(c),
                        budget,
                        old(self).version(),
                    )
                },
            same_frame(old(self).machine(), final(self).machine()),
            final(self).records() == old(self).records(),
            r is Ok ==> final(self).machine().monitor.recursion_depth == old(
                self,
            ).machine().monitor.recursion_depth,
        decreases budget, bare_all(models_of(old(body)@)), 0nat,
    {
        let ghost start = self.machine();
        let ghost live = self.live();
        let ghost program = bare_all(models_of(body@));
        let ghost version = self.version();
        let mut i: usize = 0;
        while i < body.len()
            invariant
                0 <= i <= body.len(),
                body.len() == old(body).len(),
                program == bare_all(models_of(old(body)@)),
                bare_all(models_of(body@)) == program,
                has_budget(start, budget),
                has_budget(self.machine(), budget),
                same_frame(start, self.machine()),
                start == old(self).machine(),
                live == old(self).live(),
                version == old(self).version(),
                self.timely(),
                self.records() == old(self).records(),
                self.machine().monitor.recursion_depth == start.monitor.recursion_depth,
                forall|c: Seq<u64>| #[trigger]
                    admits_at(self.live(), self.machine().clock.readings, c) ==> {
                        &&& admits_at(live, start.clock.readings, c)
                        &&& run_block(program, 0, start.retimed(c), budget) == run_block(
                            program,
                            i as int,
                            self.machine().retimed(c),
                            budget,
                        )
                        &&& taught_block(
                            program,
                            models_of(old(body)@),
                            0,
                            start.retimed(c),
                            budget,
                            version,
                        ) == taught_block(
                            program,
                            models_of(body@),
                            i as int,
                            self.machine().retimed(c),
                            budget,
                            version,
                        )
                    },
            decreases body.len() - i,
        {
            let ghost here = self.machine();
            match self.checkpoint() {
                Err(error) => {
                    proof {
                        lemma_frame_chain(start, here, self.machine());
                    }
                    return Err(error);
                },
                Ok(()) => {},
            }
            let ghost checked = self.machine();
            let ghost models = models_of(body@);
            assert(program[i as int] == bare(body@[i as int]@)) by {
                assert(bare_all(models)[i as int] == bare(models[i as int]));
            }
            let r = self.execute_cached_statement(&mut body[i], Ghost(budget));
            assert(models_of(body@) =~= models.update(i as int, body@[i as int]@));
            assert(bare_all(models_of(body@)) =~= program) by {
                assert forall|j: int| 0 <= j < body.len() implies bare(models_of(body@)[j])
                    == program[j] by {
                    if j != i {
                        assert(models_of(body@)[j] == models[j]);
                        assert(bare_all(models)[j] == bare(models[j]));
                    }
                }
            }
            proof {
                lemma_frame_chain(here, checked, self.machine());
                lemma_frame_chain(start, here, self.machine());
            }
            match r {
                Err(error) => {
                    return Err(error);
                },
                Ok(()) => {},
            }
            i += 1;
        }
        Ok(())
    }

    /// Executes the rounds of a loop.
    fn execute_rounds(
        &mut self,
        body: &mut Vec<CachedStatement>,
        times: u32,
        iteration_cache: &mut Option<CacheEntry>,
        Ghost(budget): Ghost<nat>,
    ) -> (r: Result<(), EllexError>)
        requires
            has_budget(old(self).machine(), budget),
            old(self).timely(),
        ensures
            bare_all(cached_models(*final(body))) == bare_all(cached_models(*old(body))),
            final(self).timely(),
            forall|c: Seq<u64>| #[trigger]
                admits_at(final(self).live(), final(self).machine().clock.readings, c) ==> {
                    &&& admits_at(old(self).live(), old(self).machine().clock.readings, c)
                    &&& run_rounds(
                        bare_all(cached_models(*old(body))),
                        0,
                        times,
                        old(self).machine().retimed(c),
                        budget,
                    ) == (Outcome { machine: final(self).machine().retimed(c), error: error_of(r) })
                    &&& (cached_models(*final(body)), entry_option_model(*final(iteration_cache)))
                        == taught_rounds(
                        bare_all(cached_models(*old(body))),
                        cached_models(*old(body)),
                        entry_option_model(*old(iteration_cache)),
                        0,
                        times,
                        old(self).machine().retimed(c),
                        budget,
                        old(self).version(),
                    )
                },
            same_frame(old(self).machine(), final(self).machine()),
            final(self).records() == old(self).records(),
            r is Ok ==> final(self).machine().monitor.recursion_depth == old(
                self,
            ).machine().monitor.recursion_depth,
        decreases budget, bare_all(cached_models(*old(body))), 1nat,
    {
        let ghost start = self.machine();
        let ghost live = self.live();
        let ghost program = bare_all(cached_models(*body));
        let ghost version = self.version();
        let mut round: u32 = 0;
        while round < times
            invariant
                0 <= round <= times,
                program == bare_all(cached_models(*old(body))),
                bare_all(cached_models(*body)) == program,
                has_budget(start, budget),
                has_budget(self.machine(), budget),
                same_frame(start, self.machine()),
                start == old(self).machine(),
                live == old(self).live(),
                version == old(self).version(),
                self.timely(),
                self.records() == old(self).records(),
                self.machine().monitor.recursion_depth == start.monitor.recursion_depth,
                forall|c: Seq<u64>| #[trigger]
                    admits_at(self.live(), self.machine().clock.readings, c) ==> {
                        &&& admits_at(live, start.clock.readings, c)
                        &&& run_rounds(program, 0, times, start.retimed(c), budget) == run_rounds(
                            program,
                            round as int,
                            times,
                            self.machine().retimed(c),
                            budget,
                        )
                        &&& taught_rounds(
                            program,
                            cached_models(*old(body)),
                            entry_option_model(*old(iteration_cache)),
                            0,
                            times,
                            start.retimed(c),
                            budget,
                            version,
                        ) == taught_rounds(
                            program,
                            cached_models(*body),
                            entry_option_model(*iteration_cache),
                            round as int,
                            times,
                            self.machine().retimed(c),
                            budget,
                            version,
                        )
                    },
            decreases times - round,
        {
            let ghost here = self.machine();
            let e = self.tick();
            let ghost read = self.machine();
            let ghost ticking = self.live();
            let verdict = self.safety.check_loop_iteration_at(round as usize, e);
            proof {
                assert(self.machine() == read.with_monitor(
                    read.monitor.after_iteration(round as usize),
                ));
                assert forall|c: Seq<u64>| #[trigger] admits_at(self.live(), self.machine().clock.readings, c) implies self.machine().retimed(c)
                    == here.retimed(c).with_monitor(
                    here.monitor.after_iteration(round as usize),
                ).ticked() && verdict == here.monitor.iteration_verdict(
                    round as usize,
                    here.retimed(c).clock.reading(),
                ) by {
                    assert(admits_at(ticking, read.clock.readings, c));
                    assert(read.retimed(c) == here.retimed(c).ticked());
                }
                lemma_frame_chain(start, here, self.machine());
            }
            match verdict {
                Err(error) => {
                    return Err(EllexError::from_safety(error));
                },
                Ok(()) => {},
            }
            touch_counter(iteration_cache, self.cache_version.value);
            self.bind(String::from_str("count"), EllexValue::Number(number_from_u64(round as u64)));
            let ghost bound = self.machine();
            let r = self.execute_block(body, Ghost(budget));
            proof {
                lemma_frame_chain(here, bound, self.machine());
                lemma_frame_chain(start, here, self.machine());
            }
            match r {
                Err(error) => {
                    return Err(error);
                },
                Ok(()) => {},
            }
            round += 1;
        }
        Ok(())
    }
}

impl OptimizedEllexRuntime {
    /// The common part of a top-level execution, the clock set before.
    fn execute_timed(&mut self, statements: &mut [CachedStatement]) -> (r: Result<(), EllexError>)
        requires
            old(self).machine().clock.taken == 0,
            old(self).timely(),
        ensures
            bare_all(models_of(final(statements)@)) == bare_all(models_of(old(statements)@)),
            final(self).timely(),
            final(self).live() == old(self).live(),
            forall|c: Seq<u64>| #[trigger]
                admits_at(final(self).live(), final(self).machine().clock.readings, c) ==> {
                    &&& admits_at(old(self).live(), old(self).machine().clock.readings, c)
                    &&& run_program(
                        bare_all(models_of(old(statements)@)),
                        old(self).machine().retimed(c),
                    ) == (Outcome { machine: final(self).machine().retimed(c), error: error_of(r) })
                    &&& models_of(final(statements)@) == taught_block(
                        bare_all(models_of(old(statements)@)),
                        warmed_all(models_of(old(statements)@), old(self).machine().variables),
                        0,
                        old(self).machine().retimed(c).started(),
                        old(self).machine().started().budget(),
                        old(self).version(),
                    )
                },
            same_frame(old(self).machine(), final(self).machine()),
            final(self).executions() == old(self).executions().saturating_add(1),
            final(self).version() == old(self).version(),
            r is Ok ==> final(self).stats() == tallied_through(
                models_of(final(statements)@),
                final(statements).len() as int,
                CacheStats::zero(),
            ),
            r is Err ==> final(self).stats() == old(self).stats(),
    {
        self.safety.reset();
        self.execution_count = self.execution_count.saturating_add(1);
        warm_each(statements, &self.variables);
        let ghost begun = self.machine();
        let ghost budget = self.machine().budget();
        assert(begun == old(self).machine().started());
        assert forall|c: Seq<u64>| begun.retimed(c) == #[trigger] old(self).machine().retimed(
            c,
        ).started() by {}
        let ghost warm = models_of(statements@);
        let r = self.execute_each(statements, Ghost(budget));
        let ghost ended = self.machine();
        let ghost ending = self.live();
        proof {
            lemma_frame_chain(old(self).machine(), begun, self.machine());
            assert forall|c: Seq<u64>| #[trigger]
                admits_at(ending, ended.clock.readings, c) implies {
                &&& admits_at(old(self).live(), old(self).machine().clock.readings, c)
                &&& run_program(
                    bare_all(models_of(old(statements)@)),
                    old(self).machine().retimed(c),
                ) == (Outcome { machine: ended.retimed(c), error: error_of(r) })
                &&& models_of(statements@) == taught_block(
                    bare_all(models_of(old(statements)@)),
                    warmed_all(models_of(old(statements)@), old(self).machine().variables),
                    0,
                    old(self).machine().retimed(c).started(),
                    old(self).machine().started().budget(),
                    old(self).version(),
                )
            } by {
                assert(begun.retimed(c) == old(self).machine().retimed(c).started());
                assert(old(self).machine().retimed(c).started().budget() == budget);
            }
        }
        if r.is_ok() {
            let mut stats = CacheStats::new();
            collect_each(statements, &mut stats);
            self.global_cache_stats = stats;
        }
        r
    }

    /// Runs `statements` as one top-level execution on the clock of the
    /// machine: the monitor restarts, the caches are warmed against the
    /// current variables, and the statements run in order, the clock read
    /// at every check-point. The readings are kept; with them, the machine
    /// and the result are those of `run_program_at`, and the caches of the
    /// statements those of `taught_block`. The statements keep their
    /// program whatever happens, only caches are written. After a success
    /// the cache counters are those of the statements; after an error they
    /// stay.
    pub fn execute_cached(&mut self, statements: &mut [CachedStatement]) -> (r: Result<
        (),
        EllexError,
    >)
        ensures
            bare_all(models_of(final(statements)@)) == bare_all(models_of(old(statements)@)),
            final(self).live(),
            final(self).machine().clock.taken == final(self).machine().clock.readings.len(),
            run_program_at(
                bare_all(models_of(old(statements)@)),
                old(self).machine(),
                final(self).machine().clock.readings,
            ) == (Outcome { machine: final(self).machine(), error: error_of(r) }),
            models_of(final(statements)@) == taught_block(
                bare_all(models_of(old(statements)@)),
                warmed_all(models_of(old(statements)@), old(self).machine().variables),
                0,
                old(self).machine().with_clock(
                    Clock::of(final(self).machine().clock.readings),
                ).started(),
                old(self).machine().started().budget(),
                old(self).version(),
            ),
            same_frame(old(self).machine(), final(self).machine()),
            final(self).executions() == old(self).executions().saturating_add(1),
            final(self).version() == old(self).version(),
            r is Ok ==> final(self).stats() == tallied_through(
                models_of(final(statements)@),
                final(statements).len() as int,
                CacheStats::zero(),
            ),
            r is Err ==> final(self).stats() == old(self).stats(),
    {
        self.readings = Vec::new();
        self.taken = 0;
        self.live = true;
        let ghost set = self.machine();
        assert(set.clock.readings =~= Seq::<u64>::empty());
        let r = self.execute_timed(statements);
        proof {
            let c = self.machine().clock.readings;
            assert(c.subrange(0, c.len() as int) =~= c);
            assert(admits_at(self.live(), self.machine().clock.readings, c));
            assert(set.retimed(c) == old(self).machine().with_clock(Clock::of(c)));
            assert(self.machine().retimed(c) == self.machine());
        }
        r
    }

    /// Runs `statements` as one top-level execution as `execute_cached`
    /// does, but on a clock that reads `readings` at the check-points, one
    /// after the other, and zero behind them. The machine, the result and
    /// the caches are exactly those of `run_program_at` and `taught_block`.
    pub fn execute_cached_at(
        &mut self,
        statements: &mut [CachedStatement],
        readings: &Vec<u64>,
    ) -> (r: Result<(), EllexError>)
        ensures
            bare_all(models_of(final(statements)@)) == bare_all(models_of(old(statements)@)),
            !final(self).live(),
            final(self).machine().clock.readings == readings@,
            run_program_at(
                bare_all(models_of(old(statements)@)),
                old(self).machine(),
                readings@,
            ) == (Outcome { machine: final(self).machine(), error: error_of(r) }),
            models_of(final(statements)@) == taught_block(
                bare_all(models_of(old(statements)@)),
                warmed_all(models_of(old(statements)@), old(self).machine().variables),
                0,
                old(self).machine().with_clock(Clock::of(readings@)).started(),
                old(self).machine().started().budget(),
                old(self).version(),
            ),
            same_frame(old(self).machine(), final(self).machine()),
            final(self).executions() == old(self).executions().saturating_add(1),
            final(self).version() == old(self).version(),
            r is Ok ==> final(self).stats() == tallied_through(
                models_of(final(statements)@),
                final(statements).len() as int,
                CacheStats::zero(),
            ),
            r is Err ==> final(self).stats() == old(self).stats(),
    {
        let mut given: Vec<u64> = Vec::new();
        let mut k: usize = 0;
        while k < readings.len()
            invariant
                0 <= k <= readings.len(),
                given@ == readings@.subrange(0, k as int),
            decreases readings.len() - k,
        {
            given.push(readings[k]);
            k += 1;
            assert(given@ =~= readings@.subrange(0, k as int));
        }
        assert(given@ =~= readings@);
        self.readings = given;
        self.taken = 0;
        self.live = false;
        let ghost set = self.machine();
        let r = self.execute_timed(statements);
        proof {
            let c = self.machine().clock.readings;
            assert(admits_at(self.live(), self.machine().clock.readings, c));
            assert(c == readings@);
            assert(set.retimed(c) == old(self).machine().with_clock(Clock::of(c)));
            assert(self.machine().retimed(c) == self.machine());
        }
        r
    }

    /// The readings of the clock in the last execution, one for each
    /// check-point that was reached.
    pub fn readings(&self) -> (r: &Vec<u64>)
        ensures
            r@ == self.machine().clock.readings,
    {
        &self.readings
    }

    /// Defines the function `name`.
    pub fn add_function(&mut self, name: String, function: EllexFunction)
        ensures
            final(self).machine() == (Machine {
                functions: old(self).machine().functions.insert(
                    name@,
                    ValueModel::Function(function@),
                ),
                ..old(self).machine()
            }),
            final(self).records() == old(self).records(),
    {
        self.functions.insert(name, EllexValue::Function(function));
    }

    /// The value of the variable `name`, if it is bound.
    pub fn get_variable(&self, name: &str) -> (r: Option<&EllexValue>)
        ensures
            r is Some <==> self.machine().variables.contains_key(name@),
            r is Some ==> r.unwrap()@ == self.machine().variables[name@],
    {
        self.variables.get(name)
    }

    /// Binds the variable `name` to `value`.
    pub fn set_variable(&mut self, name: String, value: EllexValue)
        ensures
            final(self).machine() == old(self).machine().bind(name@, value@),
            final(self).records() == old(self).records(),
    {
        self.bind(name, value);
    }

    /// Queues one line of input for the next prompt.
    pub fn provide_input(&mut self, line: String)
        ensures
            final(self).machine() == (Machine {
                inputs: old(self).machine().inputs.push(line@),
                ..old(self).machine()
            }),
            final(self).records() == old(self).records(),
    {
        self.inputs.push(line);
        assert(self.machine().inputs =~= old(self).machine().inputs.push(line@));
    }

    /// What was sent to the sink and not taken yet, oldest first.
    pub fn effects(&self) -> (r: &Vec<Effect>)
        ensures
            effects_model(r@) == self.machine().effects,
    {
        &self.effects
    }

    /// Hands the pending effects to the caller and empties the sink.
    pub fn take_effects(&mut self) -> (r: Vec<Effect>)
        ensures
            effects_model(r@) == old(self).machine().effects,
            final(self).machine() == (Machine { effects: Seq::empty(), ..old(self).machine() }),
            final(self).records() == old(self).records(),
    {
        let mut taken: Vec<Effect> = Vec::new();
        std::mem::swap(&mut taken, &mut self.effects);
        assert(self.machine().effects =~= Seq::<EffectModel>::empty());
        taken
    }

    /// Records the host's estimate of the memory in use.
    pub fn update_memory_usage(&mut self, mb: usize)
        ensures
            final(self).machine() == old(self).machine().with_monitor(
                MonitorView { memory_usage_mb: mb, ..old(self).machine().monitor },
            ),
            final(self).records() == old(self).records(),
    {
        self.safety.update_memory_usage(mb);
    }

    /// Turns the recognition of graphics primitives on or off.
    pub fn set_graphics(&mut self, graphics: bool)
        ensures
            final(self).machine() == (Machine { graphics, ..old(self).machine() }),
            final(self).records() == old(self).records(),
    {
        self.graphics = graphics;
    }

    /// The monitor of this runtime.
    pub fn monitor(&self) -> (m: &SafetyMonitor)
        ensures
            m@ == self.machine().monitor,
    {
        &self.safety
    }

    /// The cache counters of the last successful execution.
    pub fn cache_stats(&self) -> (stats: &CacheStats)
        ensures
            *stats == self.stats(),
    {
        &self.global_cache_stats
    }

    /// The number of top-level executions so far.
    pub fn execution_count(&self) -> (n: u64)
        ensures
            n == self.executions(),
    {
        self.execution_count
    }

    /// The cache version in force.
    pub fn cache_version(&self) -> (v: u64)
        ensures
            v == self.version(),
    {
        crate::cached_ast::current_cache_version(&self.cache_version)
    }

    /// Forgets the cache counters and issues a new cache version, so that
    /// every site is empty again at its next use. The machine stays as it
    /// is.
    pub fn clear_caches(&mut self)
        ensures
            final(self).machine() == old(self).machine(),
            final(self).stats() == CacheStats::zero(),
            final(self).version() == crate::cached_ast::next_version(old(self).version()),
            final(self).version() != old(self).version(),
            final(self).executions() == old(self).executions(),
    {
        self.global_cache_stats = CacheStats::new();
        crate::cached_ast::invalidate_all_caches(&mut self.cache_version);
    }
}

/// A loop longer than the ceiling fails before any round runs: the machine
/// is untouched and the error names the length and the ceiling.
pub proof fn lemma_long_loop_never_starts(
    times: u32,
    body: Seq<CachedModel>,
    iteration_cache: Option<crate::cached_ast::EntryModel>,
    m: Machine,
    budget: nat,
)
    requires
        times as usize > m.monitor.limits.max_loop_iterations,
    ensures
        run_statement(CachedModel::Repeat { times, body, iteration_cache }, m, budget) == failed(
            m,
            ErrorModel::LoopLimitExceeded {
                current: times as usize,
                limit: m.monitor.limits.max_loop_iterations,
            },
        ),
{
}

/// A loop within the ceiling starts: it is what its rounds are.
pub proof fn lemma_short_loop_runs(
    times: u32,
    body: Seq<CachedModel>,
    iteration_cache: Option<crate::cached_ast::EntryModel>,
    m: Machine,
    budget: nat,
)
    requires
        times as usize <= m.monitor.limits.max_loop_iterations,
    ensures
        run_statement(CachedModel::Repeat { times, body, iteration_cache }, m, budget) == run_rounds(
            body,
            0,
            times,
            m,
            budget,
        ),
{
}

/// No reading of the clock is above `timeout_ms`.
pub open spec fn calm(clock: Clock, timeout_ms: u64) -> bool {
    forall|k: int| 0 <= k < clock.readings.len() ==> #[trigger] clock.readings[k] <= timeout_ms
}

/// `n` outputs of `value`.
pub open spec fn outputs_of(value: ValueModel, n: nat) -> Seq<EffectModel> {
    Seq::new(n, |i: int| EffectModel::Output(value))
}

/// A program that is one loop longer than the ceiling fails with the loop
/// error before any round runs, whatever its body: nothing is sent to the
/// sink and no variable is bound. This holds on every clock whose first
/// reading is within the timeout, under limits that admit one instruction.
pub proof fn lemma_long_loop_fails_before_any_round(
    times: u32,
    body: Seq<CachedModel>,
    iteration_cache: Option<crate::cached_ast::EntryModel>,
    m: Machine,
    readings: Seq<u64>,
)
    requires
        times as usize > m.monitor.limits.max_loop_iterations,
        m.monitor.limits.max_instructions >= 1,
        readings.len() == 0 || readings[0] <= m.monitor.limits.timeout_ms,
    ensures
        ({
            let out = run_program_at(
                seq![CachedModel::Repeat { times, body, iteration_cache }],
                m,
                readings,
            );
            &&& out.error == Some(
                ErrorModel::LoopLimitExceeded {
                    current: times as usize,
                    limit: m.monitor.limits.max_loop_iterations,
                },
            )
            &&& out.machine.effects == m.effects
            &&& out.machine.variables == m.variables
        }),
{
    let program = seq![CachedModel::Repeat { times, body, iteration_cache }];
    let begun = m.with_clock(Clock::of(readings)).started();
    let checked = begun.checkpoint();
    assert(begun.monitor.continue_verdict(begun.clock.reading()) is Ok);
    assert(checked.error is None);
    lemma_long_loop_never_starts(times, body, iteration_cache, checked.machine, begun.budget());
    assert(program[0] == CachedModel::Repeat { times, body, iteration_cache });
}

/// The rounds of a loop that holds one output all run, and each sends its
/// output to the sink, on a calm clock and with two instructions left for
/// every round.
pub proof fn lemma_rounds_of_outputs(
    round: int,
    times: u32,
    value: ValueModel,
    m: Machine,
    budget: nat,
)
    requires
        0 <= round <= times,
        times as usize <= m.monitor.limits.max_loop_iterations,
        m.monitor.instruction_count + 2 * (times - round) <= m.monitor.limits.max_instructions,
        m.monitor.memory_usage_mb <= m.monitor.limits.memory_limit_mb,
        calm(m.clock, m.monitor.limits.timeout_ms),
    ensures
        ({
            let out = run_rounds(seq![CachedModel::TellConstant { value }], round, times, m, budget);
            &&& out.error is None
            &&& out.machine.effects == m.effects + outputs_of(value, (times - round) as nat)
        }),
    decreases times - round,
{
    let body = seq![CachedModel::TellConstant { value }];
    if round >= times {
        assert(m.effects + outputs_of(value, 0) =~= m.effects);
    } else {
        let timeout = m.monitor.limits.timeout_ms;
        assert(m.clock.reading() <= timeout);
        let checked = m.with_monitor(m.monitor.after_iteration(round as usize)).ticked();
        assert(m.monitor.iteration_verdict(round as usize, m.clock.reading()) is Ok);
        let bound = checked.bind(counter_name(), ValueModel::Number(bits_of_nat(round as nat)));
        assert(bound.clock.reading() <= timeout);
        let told = bound.checkpoint();
        assert(told.error is None);
        let sent = run_statement(body[0], told.machine, budget);
        assert(sent == done(told.machine.emit(EffectModel::Output(value))));
        let ran = run_block(body, 0, bound, budget);
        assert(run_block(body, 1, sent.machine, budget) == done(sent.machine));
        assert(ran == done(sent.machine));
        lemma_rounds_of_outputs(round + 1, times, value, ran.machine, budget);
        let rest = run_rounds(body, round + 1, times, ran.machine, budget);
        assert(m.effects.push(EffectModel::Output(value)) + outputs_of(
            value,
            (times - round - 1) as nat,
        ) =~= m.effects + outputs_of(value, (times - round) as nat));
    }
}

/// A program that is one loop of `times` rounds around one output, the
/// loop within the ceiling, succeeds and sends the output `times` times to
/// the sink. This holds on every calm clock, under limits that admit the
/// instructions of the loop: one for the loop and two for every round.
pub proof fn lemma_loop_of_outputs_runs(
    times: u32,
    value: ValueModel,
    iteration_cache: Option<crate::cached_ast::EntryModel>,
    m: Machine,
    readings: Seq<u64>,
)
    requires
        times as usize <= m.monitor.limits.max_loop_iterations,
        1 + 2 * times <= m.monitor.limits.max_instructions,
        calm(Clock::of(readings), m.monitor.limits.timeout_ms),
    ensures
        ({
            let out = run_program_at(
                seq![
                    CachedModel::Repeat {
                        times,
                        body: seq![CachedModel::TellConstant { value }],
                        iteration_cache,
                    },
                ],
                m,
                readings,
            );
            &&& out.error is None
            &&& out.machine.effects == m.effects + outputs_of(value, times as nat)
        }),
{
    let body = seq![CachedModel::TellConstant { value }];
    let program = seq![CachedModel::Repeat { times, body, iteration_cache }];
    let begun = m.with_clock(Clock::of(readings)).started();
    assert(begun.clock.reading() <= m.monitor.limits.timeout_ms);
    let checked = begun.checkpoint();
    assert(checked.error is None);
    lemma_short_loop_runs(times, body, iteration_cache, checked.machine, begun.budget());
    lemma_rounds_of_outputs(0, times, value, checked.machine, begun.budget());
    let ran = run_statement(program[0], checked.machine, begun.budget());
    assert(run_block(program, 1, ran.machine, begun.budget()) == done(ran.machine));
}

} // verus!
