//! The direct executor: it walks a statement tree as it is, without caches,
//! and hands back the value of the last statement.
//!
//! What a program does is the spec function [`exec_block`] on the model of a
//! world: a machine and the turtle. The clock is read at the check-points of
//! the monitor and nowhere else, and every reading is kept, so that the world
//! and the result of an execution are exactly what the model says for the
//! readings that were taken; an execution can also be run on readings that
//! are given.
//!
//! Accounting: every statement is one check-point of the monitor, every round
//! of a loop is one more, and every call of a function is one level of
//! recursion.

use crate::ellex_minielixir_bridge::ElixirMiniElixirBridge;
use crate::environment::Bindings;
use crate::reading::{number_read, read_number};
use crate::optimized_runtime::{
    admits_at, calm, effects_model, has_budget, lemma_frame_chain, lines_model, logic_error,
    outputs_of, same_frame,
    turtle_command, turtle_command_of, Clock, Effect, EffectModel, Machine, Outcome,
};
use crate::render::{fill_text, interpolated};
use crate::safety::{MonitorView, SafetyMonitor};
use crate::text::{
    chars_of, contains, has_substring, matches_at, occurs_at, push_text, string_of_range,
    trim_text, trimmed,
};
use crate::turtle::{reply, reply_of, TurtleGraphics, TurtleModel};
use crate::values::{
    statements_model, values_equal, EllexFunction, EllexValue, Statement, StatementModel,
    ValueModel,
};
use crate::{error_of, EllexConfig, EllexError, EllexResult, ErrorModel};
use vstd::prelude::*;

verus! {

/// The state of a direct execution: a machine, and the turtle if graphics
/// are enabled.
pub struct World {
    pub machine: Machine,
    pub turtle: Option<TurtleModel>,
}

/// A world, the error that stopped it if one did, and the value of the last
/// statement if none did.
pub struct Step {
    pub world: World,
    pub error: Option<ErrorModel>,
    pub value: ValueModel,
}

pub open spec fn went(world: World, value: ValueModel) -> Step {
    Step { world, error: None, value }
}

pub open spec fn stopped(world: World, error: ErrorModel) -> Step {
    Step { world, error: Some(error), value: ValueModel::Nil }
}

impl World {
    /// The world with another machine.
    pub open spec fn on(self, machine: Machine) -> World {
        World { machine, ..self }
    }

    /// The start of a top-level execution: the monitor's counters at zero.
    pub open spec fn started(self) -> World {
        self.on(self.machine.started())
    }

    /// The world with a clock that gives `readings`, as many of them taken
    /// as before.
    pub open spec fn retimed(self, readings: Seq<u64>) -> World {
        self.on(self.machine.retimed(readings))
    }
}

/// The value that a line of input stands for: the number it writes, or the
/// line as text, white space around it dropped either way.
pub open spec fn answer(line: Seq<char>) -> ValueModel {
    match number_read(trimmed(line)) {
        Some(bits) => ValueModel::Number(bits),
        None => ValueModel::Text(trimmed(line)),
    }
}

/// What is shown before input is read.
pub open spec fn prompt() -> Seq<char> {
    "? "@
}

/// What executing one statement does to a world. `budget` is the number of
/// levels of recursion still allowed.
pub open spec fn exec_statement(s: StatementModel, w: World, budget: nat) -> Step
    decreases budget, s, 0nat,
{
    let m = w.machine;
    match s {
        StatementModel::Tell(value) => {
            let out = interpolated(value, m.variables, true);
            went(w.on(m.emit(EffectModel::Output(out))), out)
        },
        StatementModel::Ask(variable, hint) => {
            let prompted = m.emit(EffectModel::Prompt(prompt()));
            if prompted.inputs.len() == 0 {
                stopped(
                    w.on(prompted),
                    ErrorModel::LogicError { message: "Failed to read input"@ },
                )
            } else {
                let value = answer(prompted.inputs[0]);
                went(
                    w.on(
                        Machine {
                            variables: prompted.variables.insert(variable, value),
                            inputs: prompted.inputs.drop_first(),
                            ..prompted
                        },
                    ),
                    value,
                )
            }
        },
        StatementModel::Assignment(variable, value) => {
            let out = interpolated(value, m.variables, true);
            went(w.on(m.bind(variable, out)), out)
        },
        StatementModel::Repeat(times, body) => {
            match m.monitor.loop_start_verdict(times as usize) {
                Err(e) => stopped(w, ErrorModel::of_safety(e)),
                Ok(_) => exec_rounds(body, 0, times, w, budget, ValueModel::Nil),
            }
        },
        StatementModel::When(variable, condition, then_body, else_body) => {
            if !m.variables.contains_key(variable) {
                stopped(w, logic_error("Variable '"@, variable, "' not found"@))
            } else if values_equal(
                m.variables[variable],
                interpolated(condition, m.variables, true),
            ) {
                exec_block(then_body, 0, w, budget, ValueModel::Nil)
            } else {
                match else_body {
                    Some(b) => exec_block(b, 0, w, budget, ValueModel::Nil),
                    None => went(w, ValueModel::Nil),
                }
            }
        },
        StatementModel::Call(name) => {
            match m.function(name) {
                Some(f) => {
                    let entered = w.on(m.with_monitor(m.monitor.after_enter()));
                    match m.monitor.enter_verdict() {
                        Err(e) => stopped(entered, ErrorModel::of_safety(e)),
                        Ok(_) => {
                            if budget == 0 {
                                stopped(
                                    entered,
                                    ErrorModel::RecursionDepthExceeded {
                                        current: entered.machine.monitor.recursion_depth,
                                        limit: entered.machine.monitor.limits.max_recursion_depth,
                                    },
                                )
                            } else {
                                let inner = exec_block(
                                    f.body,
                                    0,
                                    entered,
                                    (budget - 1) as nat,
                                    ValueModel::Nil,
                                );
                                if inner.error is Some {
                                    inner
                                } else {
                                    went(
                                        inner.world.on(
                                            inner.world.machine.with_monitor(
                                                inner.world.machine.monitor.after_exit(),
                                            ),
                                        ),
                                        inner.value,
                                    )
                                }
                            }
                        },
                    }
                },
                None => match w.turtle {
                    Some(turtle) => match turtle_command(name) {
                        Some(c) => match turtle.performed(c) {
                            Some(t) => went(
                                World {
                                    machine: m.emit(EffectModel::Graphics(c)),
                                    turtle: Some(t),
                                },
                                ValueModel::Text(reply(c)),
                            ),
                            None => stopped(
                                w,
                                ErrorModel::LogicError { message: "Turtle left the canvas"@ },
                            ),
                        },
                        None => stopped(w, logic_error("Unknown turtle command: "@, name, ""@)),
                    },
                    None => stopped(w, logic_error("Function '"@, name, "' not found"@)),
                },
            }
        },
    }
}

/// What executing the statements `body[from..]` does: before each statement a
/// check-point, then the statement; the first error stops the block. The
/// value is that of the last statement, and `last` if there is none.
pub open spec fn exec_block(
    body: Seq<StatementModel>,
    from: int,
    w: World,
    budget: nat,
    last: ValueModel,
) -> Step
    decreases budget, body, body.len() - from,
{
    if from < 0 || from >= body.len() {
        went(w, last)
    } else {
        let checked = w.machine.checkpoint();
        if checked.error is Some {
            stopped(w.on(checked.machine), checked.error.unwrap())
        } else {
            let ran = exec_statement(body[from], w.on(checked.machine), budget);
            if ran.error is Some {
                ran
            } else {
                exec_block(body, from + 1, ran.world, budget, ran.value)
            }
        }
    }
}

/// What the rounds `round..times` of a loop do: each round is checked by the
/// monitor and runs the body. The value is that of the last round, and
/// `last` if there is none.
pub open spec fn exec_rounds(
    body: Seq<StatementModel>,
    round: int,
    times: u32,
    w: World,
    budget: nat,
    last: ValueModel,
) -> Step
    decreases budget, body, body.len() + 1 + times - round,
{
    if round < 0 || round >= times {
        went(w, last)
    } else {
        let m = w.machine;
        let checked = w.on(m.with_monitor(m.monitor.after_iteration(round as usize)).ticked());
        match m.monitor.iteration_verdict(round as usize, m.clock.reading()) {
            Err(e) => stopped(checked, ErrorModel::of_safety(e)),
            Ok(_) => {
                let ran = exec_block(body, 0, checked, budget, ValueModel::Nil);
                if ran.error is Some {
                    ran
                } else {
                    exec_rounds(body, round + 1, times, ran.world, budget, ran.value)
                }
            },
        }
    }
}

/// What a top-level execution of `program` does: the monitor restarts, then
/// the block runs with the whole recursion allowance.
pub open spec fn exec_program(program: Seq<StatementModel>, w: World) -> Step {
    exec_block(program, 0, w.started(), w.started().machine.budget(), ValueModel::Nil)
}

/// What a top-level execution of `program` does when the clock reads
/// `readings` at its check-points, one after the other.
pub open spec fn exec_program_at(program: Seq<StatementModel>, w: World, readings: Seq<u64>) -> Step {
    exec_program(program, w.on(w.machine.with_clock(Clock::of(readings))))
}

/// The world `after` and the result `r` are those of `expected`.
pub open spec fn exact(after: World, r: Result<EllexValue, EllexError>, expected: Step) -> bool {
    after == expected.world && gives(r, expected)
}

/// The result is the one of `expected`.
pub open spec fn gives(r: Result<EllexValue, EllexError>, expected: Step) -> bool {
    match r {
        Ok(value) => expected.error is None && value@ == expected.value,
        Err(error) => expected.error == Some(error@),
    }
}

/// The value that a line of input stands for.
pub fn read_answer(line: &str) -> (v: EllexValue)
    ensures
        v@ == answer(line@),
{
    let text = trim_text(line);
    let chars = chars_of(text.as_str());
    match read_number(&chars) {
        Some(bits) => EllexValue::Number(bits),
        None => EllexValue::String(text),
    }
}

/// The value with the variables of `vars` filled in; braces around anything
/// else become "undefined:" and what they hold.
pub fn evaluate_value(value: &EllexValue, vars: &Bindings) -> (r: EllexValue)
    ensures
        r@ == interpolated(value@, vars@, true),
{
    match value {
        EllexValue::String(s) => EllexValue::String(fill_text(s.as_str(), vars, true)),
        _ => value.duplicate(),
    }
}

/// The text `s` without the prefix `p`, as often as it stands there.
pub open spec fn without_prefix(s: Seq<char>, p: Seq<char>) -> Seq<char>
    decreases s.len(),
{
    if p.len() > 0 && occurs_at(s, p, 0) {
        without_prefix(s.subrange(p.len() as int, s.len() as int), p)
    } else {
        s
    }
}

/// The text between the quotes, if the text stands between two; the text
/// itself if not.
pub open spec fn unquoted(m: Seq<char>) -> Seq<char> {
    if m.len() >= 2 && m[0] == '"' && m[m.len() - 1] == '"' {
        m.subrange(1, m.len() - 1)
    } else {
        m
    }
}

/// What a line of everyday language is understood as; white space around
/// the line and around what follows the first word does not count.
///
/// - "tell" and a message: the message, without quotes around it;
/// - "ask" and a question: "Asked: " and the question;
/// - a line that holds "move forward": "Turtle moved forward";
/// - a line that holds "turn": "Turtle turned";
/// - anything else is not understood.
pub open spec fn understood(code: Seq<char>) -> Result<ValueModel, ErrorModel> {
    let c = trimmed(code);
    if occurs_at(c, "tell "@, 0) {
        Ok(ValueModel::Text(unquoted(trimmed(without_prefix(c, "tell "@)))))
    } else if occurs_at(c, "ask "@, 0) {
        Ok(ValueModel::Text("Asked: "@ + trimmed(without_prefix(c, "ask "@))))
    } else if contains(c, "move forward"@) {
        Ok(ValueModel::Text("Turtle moved forward"@))
    } else if contains(c, "turn"@) {
        Ok(ValueModel::Text("Turtle turned"@))
    } else {
        Err(
            ErrorModel::ParseError {
                line: 0,
                column: 0,
                message: "Don't understand: '"@ + c + "'"@,
            },
        )
    }
}

/// Whether `s` starts with `p`.
fn starts_with(s: &Vec<char>, p: &Vec<char>) -> (r: bool)
    ensures
        r == occurs_at(s@, p@, 0),
{
    p.len() <= s.len() && matches_at(s, p, 0)
}

/// The text `s` without the prefix `p`, as often as it stands there, white
/// space around the rest dropped.
fn rest_after(s: &Vec<char>, p: &Vec<char>) -> (r: String)
    requires
        p.len() > 0,
    ensures
        r@ == trimmed(without_prefix(s@, p@)),
{
    let mut start: usize = 0;
    assert(s@.subrange(0, s.len() as int) =~= s@);
    while p.len() <= s.len() - start && matches_at(s, p, start)
        invariant
            0 <= start <= s.len(),
            p.len() > 0,
            without_prefix(s@, p@) == without_prefix(s@.subrange(start as int, s.len() as int), p@),
        decreases s.len() - start,
    {
        let ghost rest = s@.subrange(start as int, s.len() as int);
        assert(rest.subrange(0, p.len() as int) =~= s@.subrange(
            start as int,
            start + p.len(),
        ));
        assert(rest.subrange(p.len() as int, rest.len() as int) =~= s@.subrange(
            start + p.len(),
            s.len() as int,
        ));
        start += p.len();
    }
    proof {
        let rest = s@.subrange(start as int, s.len() as int);
        if p.len() <= rest.len() {
            assert(rest.subrange(0, p.len() as int) =~= s@.subrange(
                start as int,
                start + p.len(),
            ));
        }
        assert(!occurs_at(rest, p@, 0));
    }
    let rest = string_of_range(s, start, s.len());
    trim_text(rest.as_str())
}

/// What a line of everyday language is understood as.
pub fn understand(code: &str) -> (r: Result<EllexValue, EllexError>)
    ensures
        match r {
            Ok(v) => understood(code@) == Ok::<ValueModel, ErrorModel>(v@),
            Err(e) => understood(code@) == Err::<ValueModel, ErrorModel>(e@),
        },
{
    let line = trim_text(code);
    let c = chars_of(line.as_str());
    let tell = chars_of("tell ");
    let ask = chars_of("ask ");
    proof {
        reveal_strlit("tell ");
        reveal_strlit("ask ");
    }
    if starts_with(&c, &tell) {
        let message = rest_after(&c, &tell);
        let m = chars_of(message.as_str());
        if m.len() >= 2 && m[0] == '"' && m[m.len() - 1] == '"' {
            Ok(EllexValue::String(string_of_range(&m, 1, m.len() - 1)))
        } else {
            Ok(EllexValue::String(message))
        }
    } else if starts_with(&c, &ask) {
        let question = rest_after(&c, &ask);
        let mut text = String::from_str("Asked: ");
        push_text(&mut text, question.as_str());
        Ok(EllexValue::String(text))
    } else if has_substring(&c, &chars_of("move forward")) {
        Ok(EllexValue::String(String::from_str("Turtle moved forward")))
    } else if has_substring(&c, &chars_of("turn")) {
        Ok(EllexValue::String(String::from_str("Turtle turned")))
    } else {
        let mut message = String::from_str("Don't understand: '");
        push_text(&mut message, line.as_str());
        push_text(&mut message, "'");
        Err(EllexError::ParseError { line: 0, column: 0, message })
    }
}

/// A runtime that executes statement trees directly.
#[derive(Debug)]
pub struct EllexRuntime {
    variables: Bindings,
    functions: Bindings,
    safety: SafetyMonitor,
    elixir_bridge: ElixirMiniElixirBridge,
    prefer_elixir: bool,
    config: EllexConfig,
    turtle: Option<TurtleGraphics>,
    effects: Vec<Effect>,
    inputs: Vec<String>,
    /// The readings of the clock in the execution under way or last made.
    readings: Vec<u64>,
    /// How many of them were taken.
    taken: usize,
    /// Whether the clock is read when the readings are used up.
    live: bool,
}

/// The world of a runtime that was just made with the limits of `config`.
pub open spec fn new_world(config: EllexConfig) -> World {
    World {
        machine: Machine {
            variables: Map::empty(),
            functions: Map::empty(),
            monitor: MonitorView::fresh(config.limits()),
            effects: Seq::empty(),
            inputs: Seq::empty(),
            graphics: config.enable_turtle,
            clock: Clock::idle(),
        },
        turtle: if config.enable_turtle {
            Some(TurtleModel::fresh())
        } else {
            None
        },
    }
}

impl EllexRuntime {
    /// The machine that this runtime is.
    pub closed spec fn machine(&self) -> Machine {
        Machine {
            variables: self.variables@,
            functions: self.functions@,
            monitor: self.safety@,
            effects: effects_model(self.effects@),
            inputs: lines_model(self.inputs@),
            graphics: self.turtle is Some,
            clock: Clock { readings: self.readings@, taken: self.taken as nat },
        }
    }

    /// Whether the clock is read when the readings are used up.
    pub closed spec fn live(&self) -> bool {
        self.live
    }

    /// No more readings are taken than there are, and on a live clock all
    /// of them are taken.
    pub open spec fn timely(&self) -> bool {
        &&& self.machine().clock.taken <= self.machine().clock.readings.len()
        &&& self.live() ==> self.machine().clock.taken == self.machine().clock.readings.len()
    }

    /// The world that this runtime is.
    pub closed spec fn world(&self) -> World {
        World {
            machine: self.machine(),
            turtle: match self.turtle {
                Some(t) => Some(t@),
                None => None,
            },
        }
    }

    /// The options in force.
    pub closed spec fn options(&self) -> EllexConfig {
        self.config
    }

    /// The world of a runtime holds its machine.
    pub proof fn lemma_world_machine(&self)
        ensures
            self.world().machine == self.machine(),
            self.machine().graphics == (self.world().turtle is Some),
    {
    }

    /// A runtime with the standard options.
    pub fn new() -> (rt: Self)
        ensures
            rt.world() == new_world(EllexConfig::standard()),
            rt.options() == EllexConfig::standard(),
    {
        Self::with_config(EllexConfig::default())
    }

    /// A runtime with the limits that `config` asks for, no variable, no
    /// function, no pending input, and a fresh turtle if `config` enables
    /// graphics.
    pub fn with_config(config: EllexConfig) -> (rt: Self)
        ensures
            rt.world() == new_world(config),
            rt.options() == config,
    {
        let elixir_bridge = ElixirMiniElixirBridge::new();
        let prefer_elixir = elixir_bridge.is_available();
        let turtle = if config.enable_turtle {
            Some(TurtleGraphics::new())
        } else {
            None
        };
        let rt = EllexRuntime {
            variables: Bindings::new(),
            functions: Bindings::new(),
            safety: SafetyMonitor::new(config.to_limits()),
            elixir_bridge,
            prefer_elixir,
            config,
            turtle,
            effects: Vec::new(),
            inputs: Vec::new(),
            readings: Vec::new(),
            taken: 0,
            live: true,
        };
        assert(rt.machine().clock.readings =~= Seq::<u64>::empty());
        assert(rt.machine().effects =~= Seq::<EffectModel>::empty());
        assert(rt.machine().inputs =~= Seq::<Seq<char>>::empty());
        rt
    }

    fn emit(&mut self, effect: Effect)
        ensures
            final(self).world() == old(self).world().on(old(self).machine().emit(effect@)),
            final(self).options() == old(self).options(),
            final(self).live() == old(self).live(),
    {
        self.effects.push(effect);
        assert(self.machine().effects =~= old(self).machine().effects.push(effect@));
    }

    fn bind(&mut self, name: String, value: EllexValue)
        ensures
            final(self).world() == old(self).world().on(old(self).machine().bind(name@, value@)),
            final(self).options() == old(self).options(),
            final(self).live() == old(self).live(),
    {
        self.variables.insert(name, value);
    }

    /// Takes the next reading of the clock: the next of those given, or on
    /// a live clock one of the clock itself; behind the readings of a clock
    /// that is not live, zero.
    fn tick(&mut self) -> (e: u64)
        requires
            old(self).timely(),
        ensures
            final(self).timely(),
            final(self).live() == old(self).live(),
            final(self).options() == old(self).options(),
            final(self).world() == old(self).world().on(
                old(self).machine().with_clock(final(self).machine().clock),
            ),
            forall|c: Seq<u64>| #[trigger]
                admits_at(final(self).live(), final(self).machine().clock.readings, c) ==> {
                    &&& admits_at(old(self).live(), old(self).machine().clock.readings, c)
                    &&& e == old(self).machine().retimed(c).clock.reading()
                    &&& final(self).machine().retimed(c) == old(self).machine().retimed(c).ticked()
                },
    {
        if self.taken < self.readings.len() {
            let e = self.readings[self.taken];
            self.taken = self.taken + 1;
            e
        } else if self.live {
            let e = self.safety.elapsed_ms();
            self.readings.push(e);
            assert(self.taken < self.readings.len());
            self.taken = self.taken + 1;
            assert forall|c: Seq<u64>| #[trigger] admits_at(self.live(), self.machine().clock.readings, c) implies {
                &&& admits_at(old(self).live(), old(self).machine().clock.readings, c)
                &&& e == old(self).machine().retimed(c).clock.reading()
                &&& self.machine().retimed(c) == old(self).machine().retimed(c).ticked()
            } by {
                let before = old(self).readings@;
                assert(c.subrange(0, self.readings@.len() as int)[before.len() as int] == e);
                assert(c.subrange(0, before.len() as int) =~= before) by {
                    assert forall|k: int| 0 <= k < before.len() implies c[k] == before[k] by {
                        assert(c.subrange(0, self.readings@.len() as int)[k] == self.readings@[k]);
                    }
                }
            }
            e
        } else {
            0
        }
    }

    /// The check-point before a statement.
    fn checkpoint(&mut self) -> (r: Result<(), EllexError>)
        requires
            old(self).timely(),
        ensures
            final(self).timely(),
            final(self).live() == old(self).live(),
            final(self).options() == old(self).options(),
            same_frame(old(self).machine(), final(self).machine()),
            final(self).machine().monitor == old(self).machine().monitor.after_continue(),
            final(self).world().turtle == old(self).world().turtle,
            forall|c: Seq<u64>| #[trigger]
                admits_at(final(self).live(), final(self).machine().clock.readings, c) ==> {
                    &&& admits_at(old(self).live(), old(self).machine().clock.readings, c)
                    &&& old(self).machine().retimed(c).checkpoint() == (Outcome {
                        machine: final(self).machine().retimed(c),
                        error: error_of(r),
                    })
                },
    {
        let e = self.tick();
        let ghost read = self.machine();
        let ghost live = self.live();
        let r = match self.safety.check_execution_continue_at(e) {
            Ok(()) => Ok(()),
            Err(error) => Err(EllexError::from_safety(error)),
        };
        proof {
            assert(self.machine() == read.with_monitor(read.monitor.after_continue()));
            assert forall|c: Seq<u64>| #[trigger] admits_at(self.live(), self.machine().clock.readings, c) implies {
                &&& admits_at(old(self).live(), old(self).machine().clock.readings, c)
                &&& old(self).machine().retimed(c).checkpoint() == (Outcome {
                    machine: self.machine().retimed(c),
                    error: error_of(r),
                })
            } by {
                let before = old(self).machine().retimed(c);
                assert(admits_at(live, read.clock.readings, c));
                assert(read.retimed(c) == before.ticked());
                assert(self.machine().retimed(c) == before.with_monitor(
                    before.monitor.after_continue(),
                ).ticked());
            }
        }
        r
    }

    /// Executes one statement.
    #[verifier::rlimit(60)]
    fn execute_single_statement(&mut self, stmt: &Statement, Ghost(budget): Ghost<nat>) -> (r:
        Result<EllexValue, EllexError>)
        requires
            has_budget(old(self).machine(), budget),
            old(self).timely(),
        ensures
            final(self).timely(),
            final(self).live() == old(self).live(),
            forall|c: Seq<u64>| #[trigger]
                admits_at(final(self).live(), final(self).machine().clock.readings, c) ==> {
                    &&& admits_at(old(self).live(), old(self).machine().clock.readings, c)
                    &&& exact(
                        final(self).world().retimed(c),
                        r,
                        exec_statement(stmt@, old(self).world().retimed(c), budget),
                    )
                },
            same_frame(old(self).machine(), final(self).machine()),
            final(self).options() == old(self).options(),
            r is Ok ==> final(self).machine().monitor.recursion_depth == old(
                self,
            ).machine().monitor.recursion_depth,
        decreases budget, stmt@, 0nat,
    {
        let ghost before = self.world();
        match stmt {
            Statement::Tell(value) => {
                let out = evaluate_value(value, &self.variables);
                self.emit(Effect::Output(out.duplicate()));
                return Ok(out);
            },
            Statement::Ask(variable, hint) => {
                self.emit(Effect::Prompt(String::from_str("? ")));
                if self.inputs.len() == 0 {
                    return Err(
                        EllexError::LogicError { message: String::from_str("Failed to read input") },
                    );
                }
                let line = self.inputs.remove(0);
                assert(self.machine().inputs =~= before.machine.inputs.drop_first());
                let value = read_answer(line.as_str());
                self.bind(variable.clone(), value.duplicate());
                return Ok(value);
            },
            Statement::Assignment(variable, value) => {
                let out = evaluate_value(value, &self.variables);
                self.bind(variable.clone(), out.duplicate());
                return Ok(out);
            },
            Statement::Repeat(times, body) => {
                match self.safety.check_loop_start(*times as usize) {
                    Err(error) => {
                        return Err(EllexError::from_safety(error));
                    },
                    Ok(()) => {},
                }
                return self.execute_rounds(body, *times, Ghost(budget));
            },
            Statement::When(variable, condition, then_body, else_body) => {
                let matched = match self.variables.get(variable.as_str()) {
                    Some(v) => Some(v.same_as(&evaluate_value(condition, &self.variables))),
                    None => None,
                };
                match matched {
                    None => {
                        return Err(EllexError::logic("Variable '", variable.as_str(), "' not found"));
                    },
                    Some(true) => {
                        return self.execute_statements_directly(then_body, Ghost(budget));
                    },
                    Some(false) => {
                        match else_body {
                            Some(b) => {
                                return self.execute_statements_directly(b, Ghost(budget));
                            },
                            None => {
                                return Ok(EllexValue::Nil);
                            },
                        }
                    },
                }
            },
            Statement::Call(name) => {
                let found: Option<EllexFunction> = match self.functions.get(name.as_str()) {
                    Some(EllexValue::Function(f)) => Some(f.duplicate()),
                    _ => None,
                };
                match found {
                    Some(function) => {
                        let depth = self.safety.recursion_depth();
                        let limit = self.safety.get_limits().max_recursion_depth;
                        match self.safety.check_recursion_depth() {
                            Err(error) => {
                                return Err(EllexError::from_safety(error));
                            },
                            Ok(()) => {},
                        }
                        if depth >= limit {
                            return Err(
                                EllexError::RecursionDepthExceeded {
                                    current: self.safety.recursion_depth(),
                                    limit,
                                },
                            );
                        }
                        let ghost entered = self.world();
                        let r = self.execute_statements_directly(
                            &function.body,
                            Ghost((budget - 1) as nat),
                        );
                        let ghost ran = self.world();
                        let ghost running = self.live();
                        if r.is_ok() {
                            self.safety.exit_recursion();
                        }
                        proof {
                            assert forall|c: Seq<u64>| #[trigger] admits_at(self.live(), self.machine().clock.readings, c) implies {
                                &&& admits_at(old(self).live(), old(self).machine().clock.readings, c)
                                &&& exact(
                                    self.world().retimed(c),
                                    r,
                                    exec_statement(stmt@, old(self).world().retimed(c), budget),
                                )
                            } by {
                                assert(admits_at(running, ran.machine.clock.readings, c));
                                let w = old(self).world().retimed(c);
                                assert(w.machine.function(name@) == Some(function@));
                                assert(entered.retimed(c) == w.on(
                                    w.machine.with_monitor(w.machine.monitor.after_enter()),
                                ));
                                assert(exact(
                                    ran.retimed(c),
                                    r,
                                    exec_block(
                                        function@.body,
                                        0,
                                        entered.retimed(c),
                                        (budget - 1) as nat,
                                        ValueModel::Nil,
                                    ),
                                ));
                            }
                        }
                        return r;
                    },
                    None => {
                        return self.execute_turtle_command(name.as_str());
                    },
                }
            },
        }
    }

    /// Performs the graphics primitive that `command` names.
    fn execute_turtle_command(&mut self, command: &str) -> (r: Result<EllexValue, EllexError>)
        requires
            old(self).machine().function(command@) is None,
        ensures
            gives(r, exec_statement(StatementModel::Call(command@), old(self).world(), 0)),
            final(self).world() == exec_statement(
                StatementModel::Call(command@),
                old(self).world(),
                0,
            ).world,
            same_frame(old(self).machine(), final(self).machine()),
            final(self).options() == old(self).options(),
            final(self).live() == old(self).live(),
            final(self).machine().monitor == old(self).machine().monitor,
            final(self).machine().clock == old(self).machine().clock,
    {
        match &mut self.turtle {
            Some(turtle) => {
                match turtle_command_of(command) {
                    Some(c) => {
                        if turtle.perform(c) {
                            self.effects.push(Effect::Graphics(c));
                            assert(self.machine().effects =~= old(self).machine().effects.push(
                                EffectModel::Graphics(c),
                            ));
                            Ok(EllexValue::String(reply_of(c)))
                        } else {
                            Err(
                                EllexError::LogicError {
                                    message: String::from_str("Turtle left the canvas"),
                                },
                            )
                        }
                    },
                    None => Err(EllexError::logic("Unknown turtle command: ", command, "")),
                }
            },
            None => Err(EllexError::logic("Function '", command, "' not found")),
        }
    }

    /// Executes the statements of `body` in order, a check-point before
    /// each.
    fn execute_statements_directly(&mut self, body: &Vec<Statement>, Ghost(budget): Ghost<nat>) -> (r:
        Result<EllexValue, EllexError>)
        requires
            has_budget(old(self).machine(), budget),
            old(self).timely(),
        ensures
            final(self).timely(),
            final(self).live() == old(self).live(),
            forall|c: Seq<u64>| #[trigger]
                admits_at(final(self).live(), final(self).machine().clock.readings, c) ==> {
                    &&& admits_at(old(self).live(), old(self).machine().clock.readings, c)
                    &&& exact(
                        final(self).world().retimed(c),
                        r,
                        exec_block(
                            statements_model(*body),
                            0,
                            old(self).world().retimed(c),
                            budget,
                            ValueModel::Nil,
                        ),
                    )
                },
            same_frame(old(self).machine(), final(self).machine()),
            final(self).options() == old(self).options(),
            r is Ok ==> final(self).machine().monitor.recursion_depth == old(
                self,
            ).machine().monitor.recursion_depth,
        decreases budget, statements_model(*body), 0nat,
    {
        let ghost start = self.world();
        let ghost live = self.live();
        let ghost program = statements_model(*body);
        let mut last = EllexValue::Nil;
        let mut i: usize = 0;
        while i < body.len()
            invariant
                0 <= i <= body.len(),
                program == statements_model(*body),
                program.len() == body.len(),
                has_budget(start.machine, budget),
                has_budget(self.machine(), budget),
                same_frame(start.machine, self.machine()),
                start == old(self).world(),
                live == old(self).live(),
                self.live() == live,
                self.timely(),
                self.options() == old(self).options(),
                self.machine().monitor.recursion_depth == start.machine.monitor.recursion_depth,
                forall|c: Seq<u64>| #[trigger]
                    admits_at(self.live(), self.machine().clock.readings, c) ==> {
                        &&& admits_at(live, start.machine.clock.readings, c)
                        &&& exec_block(program, 0, start.retimed(c), budget, ValueModel::Nil)
                            == exec_block(program, i as int, self.world().retimed(c), budget, last@)
                    },
            decreases body.len() - i,
        {
            let ghost here = self.world();
            match self.checkpoint() {
                Err(error) => {
                    proof {
                        lemma_frame_chain(start.machine, here.machine, self.machine());
                    }
                    return Err(error);
                },
                Ok(()) => {},
            }
            let ghost checked = self.world();
            assert(program[i as int] == body[i as int]@);
            let r = self.execute_single_statement(&body[i], Ghost(budget));
            proof {
                lemma_frame_chain(here.machine, checked.machine, self.machine());
                lemma_frame_chain(start.machine, here.machine, self.machine());
            }
            match r {
                Err(error) => {
                    return Err(error);
                },
                Ok(value) => {
                    last = value;
                },
            }
            i += 1;
        }
        Ok(last)
    }

    /// Executes the rounds of a loop.
    fn execute_rounds(&mut self, body: &Vec<Statement>, times: u32, Ghost(budget): Ghost<nat>) -> (r:
        Result<EllexValue, EllexError>)
        requires
            has_budget(old(self).machine(), budget),
            old(self).timely(),
        ensures
            final(self).timely(),
            final(self).live() == old(self).live(),
            forall|c: Seq<u64>| #[trigger]
                admits_at(final(self).live(), final(self).machine().clock.readings, c) ==> {
                    &&& admits_at(old(self).live(), old(self).machine().clock.readings, c)
                    &&& exact(
                        final(self).world().retimed(c),
                        r,
                        exec_rounds(
                            statements_model(*body),
                            0,
                            times,
                            old(self).world().retimed(c),
                            budget,
                            ValueModel::Nil,
                        ),
                    )
                },
            same_frame(old(self).machine(), final(self).machine()),
            final(self).options() == old(self).options(),
            r is Ok ==> final(self).machine().monitor.recursion_depth == old(
                self,
            ).machine().monitor.recursion_depth,
        decreases budget, statements_model(*body), 1nat,
    {
        let ghost start = self.world();
        let ghost live = self.live();
        let ghost program = statements_model(*body);
        let mut last = EllexValue::Nil;
        let mut round: u32 = 0;
        while round < times
            invariant
                0 <= round <= times,
                program == statements_model(*body),
                has_budget(start.machine, budget),
                has_budget(self.machine(), budget),
                same_frame(start.machine, self.machine()),
                start == old(self).world(),
                live == old(self).live(),
                self.live() == live,
                self.timely(),
                self.options() == old(self).options(),
                self.machine().monitor.recursion_depth == start.machine.monitor.recursion_depth,
                forall|c: Seq<u64>| #[trigger]
                    admits_at(self.live(), self.machine().clock.readings, c) ==> {
                        &&& admits_at(live, start.machine.clock.readings, c)
                        &&& exec_rounds(program, 0, times, start.retimed(c), budget, ValueModel::Nil)
                            == exec_rounds(
                            program,
                            round as int,
                            times,
                            self.world().retimed(c),
                            budget,
                            last@,
                        )
                    },
            decreases times - round,
        {
            let ghost here = self.world();
            let e = self.tick();
            let ghost read = self.world();
            let ghost ticking = self.live();
            let verdict = self.safety.check_loop_iteration_at(round as usize, e);
            proof {
                assert(self.world() == read.on(
                    read.machine.with_monitor(read.machine.monitor.after_iteration(round as usize)),
                ));
                assert forall|c: Seq<u64>| #[trigger] admits_at(self.live(), self.machine().clock.readings, c) implies self.world().retimed(c) == here.on(
                    here.machine.retimed(c).with_monitor(
                        here.machine.monitor.after_iteration(round as usize),
                    ).ticked(),
                ) && verdict == here.machine.monitor.iteration_verdict(
                    round as usize,
                    here.machine.retimed(c).clock.reading(),
                ) by {
                    assert(admits_at(ticking, read.machine.clock.readings, c));
                    assert(read.machine.retimed(c) == here.machine.retimed(c).ticked());
                }
                lemma_frame_chain(start.machine, here.machine, self.machine());
            }
            match verdict {
                Err(error) => {
                    return Err(EllexError::from_safety(error));
                },
                Ok(()) => {},
            }
            let ghost checked = self.world();
            let r = self.execute_statements_directly(body, Ghost(budget));
            proof {
                lemma_frame_chain(here.machine, checked.machine, self.machine());
                lemma_frame_chain(start.machine, here.machine, self.machine());
            }
            match r {
                Err(error) => {
                    return Err(error);
                },
                Ok(value) => {
                    last = value;
                },
            }
            round += 1;
        }
        Ok(last)
    }
}

impl EllexRuntime {
    /// The common part of a top-level execution, the clock set before.
    fn execute_timed(&mut self, stmts: &Vec<Statement>) -> (r: EllexResult<EllexValue>)
        requires
            old(self).machine().clock.taken == 0,
            old(self).timely(),
        ensures
            final(self).timely(),
            final(self).live() == old(self).live(),
            forall|c: Seq<u64>| #[trigger]
                admits_at(final(self).live(), final(self).machine().clock.readings, c) ==> {
                    &&& admits_at(old(self).live(), old(self).machine().clock.readings, c)
                    &&& exact(
                        final(self).world().retimed(c),
                        r,
                        exec_program(statements_model(*stmts), old(self).world().retimed(c)),
                    )
                },
            same_frame(old(self).machine(), final(self).machine()),
            final(self).options() == old(self).options(),
    {
        self.safety.reset();
        let _ = self.safety.check_execution_start();
        let ghost begun = self.world();
        assert(begun == old(self).world().started());
        let ghost budget = self.machine().budget();
        let r = self.execute_statements_directly(stmts, Ghost(budget));
        let ghost ended = self.world();
        let ghost ending = self.live();
        proof {
            lemma_frame_chain(old(self).machine(), begun.machine, self.machine());
            assert forall|c: Seq<u64>| #[trigger]
                admits_at(ending, ended.machine.clock.readings, c) implies {
                &&& admits_at(old(self).live(), old(self).machine().clock.readings, c)
                &&& exact(
                    ended.retimed(c),
                    r,
                    exec_program(statements_model(*stmts), old(self).world().retimed(c)),
                )
            } by {
                assert(begun.retimed(c) == old(self).world().retimed(c).started());
                assert(old(self).world().retimed(c).started().machine.budget() == budget);
            }
        }
        r
    }

    /// Runs `stmts` as one top-level execution on the clock of the machine:
    /// the monitor restarts and the statements run in order, the clock read
    /// at every check-point. The readings are kept; with them, the world
    /// and the result are those of `exec_program_at`: the value of the last
    /// statement, or the first error.
    pub fn execute(&mut self, stmts: Vec<Statement>) -> (r: EllexResult<EllexValue>)
        ensures
            final(self).live(),
            final(self).machine().clock.taken == final(self).machine().clock.readings.len(),
            exact(
                final(self).world(),
                r,
                exec_program_at(
                    statements_model(stmts),
                    old(self).world(),
                    final(self).machine().clock.readings,
                ),
            ),
            same_frame(old(self).machine(), final(self).machine()),
            final(self).options() == old(self).options(),
    {
        self.readings = Vec::new();
        self.taken = 0;
        self.live = true;
        let ghost set = self.world();
        assert(set.machine.clock.readings =~= Seq::<u64>::empty());
        let r = self.execute_timed(&stmts);
        proof {
            let c = self.machine().clock.readings;
            assert(c.subrange(0, c.len() as int) =~= c);
            assert(admits_at(self.live(), self.machine().clock.readings, c));
            assert(set.retimed(c) == old(self).world().on(
                old(self).machine().with_clock(Clock::of(c)),
            ));
            assert(self.world().retimed(c) == self.world());
        }
        r
    }

    /// Runs `stmts` as one top-level execution as `execute` does, but on a
    /// clock that reads `readings` at the check-points, one after the other,
    /// and zero behind them. The world and the result are exactly those of
    /// `exec_program_at`.
    pub fn execute_at(&mut self, stmts: Vec<Statement>, readings: &Vec<u64>) -> (r: EllexResult<
        EllexValue,
    >)
        ensures
            !final(self).live(),
            final(self).machine().clock.readings == readings@,
            exact(
                final(self).world(),
                r,
                exec_program_at(statements_model(stmts), old(self).world(), readings@),
            ),
            same_frame(old(self).machine(), final(self).machine()),
            final(self).options() == old(self).options(),
    {
        let mut given: Vec<u64> = Vec::new();
        let mut k: usize = 0;
        while k < readings.len()
            invariant
                0 <= k <= readings.len(),
                given@ == readings@.subrange(0, k as int),
            decreases readings.len() - k,
        {
            given.push(readings[k]);
            k += 1;
            assert(given@ =~= readings@.subrange(0, k as int));
        }
        assert(given@ =~= readings@);
        self.readings = given;
        self.taken = 0;
        self.live = false;
        let ghost set = self.world();
        let r = self.execute_timed(&stmts);
        proof {
            let c = self.machine().clock.readings;
            assert(admits_at(self.live(), self.machine().clock.readings, c));
            assert(c == readings@);
            assert(set.retimed(c) == old(self).world().on(
                old(self).machine().with_clock(Clock::of(c)),
            ));
            assert(self.world().retimed(c) == self.world());
        }
        r
    }

    /// The readings of the clock in the last execution, one for each
    /// check-point that was reached.
    pub fn readings(&self) -> (r: &Vec<u64>)
        ensures
            r@ == self.machine().clock.readings,
    {
        &self.readings
    }

    /// Restarts the monitor and says what a line of everyday language is
    /// understood as; nothing is executed.
    pub fn execute_natural_language(&mut self, code: &str) -> (r: Result<EllexValue, EllexError>)
        ensures
            final(self).world() == old(self).world().started(),
            final(self).options() == old(self).options(),
            match r {
                Ok(v) => understood(code@) == Ok::<ValueModel, ErrorModel>(v@),
                Err(e) => understood(code@) == Err::<ValueModel, ErrorModel>(e@),
            },
    {
        self.safety.reset();
        understand(code)
    }

    /// The variables.
    pub fn get_variables(&self) -> (vars: &Bindings)
        ensures
            vars@ == self.machine().variables,
    {
        &self.variables
    }

    /// Binds `name` to `value`.
    pub fn set_variable(&mut self, name: String, value: EllexValue)
        ensures
            final(self).world() == old(self).world().on(old(self).machine().bind(name@, value@)),
            final(self).options() == old(self).options(),
    {
        self.bind(name, value);
    }

    /// Defines the function `name`.
    pub fn define_function(&mut self, name: String, function: EllexFunction)
        ensures
            final(self).world() == old(self).world().on(
                Machine {
                    functions: old(self).machine().functions.insert(
                        name@,
                        ValueModel::Function(function@),
                    ),
                    ..old(self).machine()
                },
            ),
            final(self).options() == old(self).options(),
    {
        self.functions.insert(name, EllexValue::Function(function));
    }

    /// Queues a line of input for the next prompt.
    pub fn provide_input(&mut self, line: String)
        ensures
            final(self).world() == old(self).world().on(
                Machine { inputs: old(self).machine().inputs.push(line@), ..old(self).machine() },
            ),
            final(self).options() == old(self).options(),
    {
        self.inputs.push(line);
        assert(self.machine().inputs =~= old(self).machine().inputs.push(line@));
    }

    /// What was sent to the sink so far, oldest first.
    pub fn effects(&self) -> (r: &Vec<Effect>)
        ensures
            effects_model(r@) == self.machine().effects,
    {
        &self.effects
    }

    /// Hands over what was sent to the sink and empties it.
    pub fn take_effects(&mut self) -> (r: Vec<Effect>)
        ensures
            effects_model(r@) == old(self).machine().effects,
            final(self).world() == old(self).world().on(
                Machine { effects: Seq::empty(), ..old(self).machine() },
            ),
            final(self).options() == old(self).options(),
    {
        let mut out: Vec<Effect> = Vec::new();
        std::mem::swap(&mut out, &mut self.effects);
        assert(self.machine().effects =~= Seq::<EffectModel>::empty());
        out
    }

    /// The options in force.
    pub fn get_config(&self) -> (config: &EllexConfig)
        ensures
            *config == self.options(),
    {
        &self.config
    }

    /// Puts other options in force: a fresh monitor with their limits; the
    /// turtle goes if they disable graphics, and a fresh one comes if they
    /// enable graphics and there was none. Variables, functions, effects and
    /// pending input stay.
    pub fn update_config(&mut self, config: EllexConfig)
        ensures
            final(self).options() == config,
            final(self).world() == (World {
                machine: Machine {
                    monitor: MonitorView::fresh(config.limits()),
                    graphics: config.enable_turtle,
                    ..old(self).machine()
                },
                turtle: if !config.enable_turtle {
                    None
                } else if old(self).world().turtle is None {
                    Some(TurtleModel::fresh())
                } else {
                    old(self).world().turtle
                },
            }),
    {
        self.safety = SafetyMonitor::new(config.to_limits());
        if config.enable_turtle && self.turtle.is_none() {
            self.turtle = Some(TurtleGraphics::new());
        } else if !config.enable_turtle {
            self.turtle = None;
        }
        self.config = config;
    }

    /// The turtle, if graphics are enabled.
    pub fn get_turtle(&self) -> (turtle: Option<&TurtleGraphics>)
        ensures
            match turtle {
                Some(t) => self.world().turtle == Some(t@),
                None => self.world().turtle is None,
            },
    {
        self.turtle.as_ref()
    }

    /// The monitor.
    pub fn monitor(&self) -> (m: &SafetyMonitor)
        ensures
            m@ == self.machine().monitor,
    {
        &self.safety
    }

    /// Forgets variables and functions, restarts the monitor and puts the
    /// turtle back to a fresh one. Effects and pending input stay.
    pub fn reset(&mut self)
        ensures
            final(self).options() == old(self).options(),
            final(self).world() == (World {
                machine: Machine {
                    variables: Map::empty(),
                    functions: Map::empty(),
                    monitor: old(self).machine().monitor.after_reset(),
                    ..old(self).machine()
                },
                turtle: if old(self).world().turtle is Some {
                    Some(TurtleModel::fresh())
                } else {
                    None
                },
            }),
    {
        self.variables.clear();
        self.functions.clear();
        self.safety.reset();
        match &mut self.turtle {
            Some(turtle) => {
                turtle.reset();
            },
            None => {},
        }
    }

    /// Whether the outside back end can be reached: it cannot.
    pub fn has_elixir_backend(&self) -> (r: bool)
        ensures
            !r,
    {
        self.elixir_bridge.is_available()
    }

    /// Whether the outside back end is preferred.
    pub closed spec fn prefers_elixir(&self) -> bool {
        self.prefer_elixir
    }

    /// Asks for the outside back end to be preferred; it is preferred only
    /// if it can be reached.
    pub fn set_prefer_elixir(&mut self, prefer: bool)
        ensures
            !final(self).prefers_elixir(),
            final(self).world() == old(self).world(),
            final(self).options() == old(self).options(),
    {
        self.prefer_elixir = prefer && self.elixir_bridge.is_available();
    }
}

impl Default for EllexRuntime {
    fn default() -> (rt: Self)
        ensures
            rt.world() == new_world(EllexConfig::standard()),
            rt.options() == EllexConfig::standard(),
    {
        Self::new()
    }
}

/// A program that is one loop longer than the ceiling fails with the loop
/// error before any round runs, whatever its body: nothing is sent to the
/// sink, no variable is bound and the turtle stays. This holds on every
/// clock whose first reading is within the timeout, under limits that
/// admit one instruction.
pub proof fn lemma_long_loop_fails_before_any_round(
    times: u32,
    body: Seq<StatementModel>,
    w: World,
    readings: Seq<u64>,
)
    requires
        times as usize > w.machine.monitor.limits.max_loop_iterations,
        w.machine.monitor.limits.max_instructions >= 1,
        readings.len() == 0 || readings[0] <= w.machine.monitor.limits.timeout_ms,
    ensures
        ({
            let out = exec_program_at(seq![StatementModel::Repeat(times, body)], w, readings);
            &&& out.error == Some(
                ErrorModel::LoopLimitExceeded {
                    current: times as usize,
                    limit: w.machine.monitor.limits.max_loop_iterations,
                },
            )
            &&& out.world.machine.effects == w.machine.effects
            &&& out.world.machine.variables == w.machine.variables
            &&& out.world.turtle == w.turtle
        }),
{
    let program = seq![StatementModel::Repeat(times, body)];
    let begun = w.on(w.machine.with_clock(Clock::of(readings))).started();
    let checked = begun.machine.checkpoint();
    assert(begun.machine.monitor.continue_verdict(begun.machine.clock.reading()) is Ok);
    assert(checked.error is None);
    assert(program[0] == StatementModel::Repeat(times, body));
    let at = begun.on(checked.machine);
    let budget = begun.machine.budget();
    let ran = exec_statement(program[0], at, budget);
    assert(ran == stopped(
        at,
        ErrorModel::LoopLimitExceeded {
            current: times as usize,
            limit: w.machine.monitor.limits.max_loop_iterations,
        },
    ));
    assert(exec_block(program, 0, begun, budget, ValueModel::Nil) == ran);
}

/// The rounds of a loop that holds one output of a value in which nothing
/// is to fill in all run, and each sends the value to the sink, on a calm
/// clock and with two instructions left for every round.
pub proof fn lemma_rounds_of_outputs(
    round: int,
    times: u32,
    value: ValueModel,
    w: World,
    budget: nat,
    last: ValueModel,
)
    requires
        0 <= round <= times,
        interpolated(value, w.machine.variables, true) == value,
        times as usize <= w.machine.monitor.limits.max_loop_iterations,
        w.machine.monitor.instruction_count + 2 * (times - round)
            <= w.machine.monitor.limits.max_instructions,
        w.machine.monitor.memory_usage_mb <= w.machine.monitor.limits.memory_limit_mb,
        calm(w.machine.clock, w.machine.monitor.limits.timeout_ms),
    ensures
        ({
            let out = exec_rounds(seq![StatementModel::Tell(value)], round, times, w, budget, last);
            &&& out.error is None
            &&& out.world.machine.effects == w.machine.effects + outputs_of(
                value,
                (times - round) as nat,
            )
        }),
    decreases times - round,
{
    let body = seq![StatementModel::Tell(value)];
    let m = w.machine;
    if round >= times {
        assert(m.effects + outputs_of(value, 0) =~= m.effects);
    } else {
        let timeout = m.monitor.limits.timeout_ms;
        assert(m.clock.reading() <= timeout);
        let checked = w.on(m.with_monitor(m.monitor.after_iteration(round as usize)).ticked());
        assert(m.monitor.iteration_verdict(round as usize, m.clock.reading()) is Ok);
        assert(checked.machine.clock.reading() <= timeout);
        let told = checked.machine.checkpoint();
        assert(told.error is None);
        let sent = exec_statement(body[0], checked.on(told.machine), budget);
        assert(sent == went(
            checked.on(told.machine.emit(EffectModel::Output(value))),
            value,
        ));
        let ran = exec_block(body, 0, checked, budget, ValueModel::Nil);
        assert(exec_block(body, 1, sent.world, budget, sent.value) == went(sent.world, sent.value));
        assert(ran == went(sent.world, sent.value));
        lemma_rounds_of_outputs(round + 1, times, value, ran.world, budget, ran.value);
        assert(m.effects.push(EffectModel::Output(value)) + outputs_of(
            value,
            (times - round - 1) as nat,
        ) =~= m.effects + outputs_of(value, (times - round) as nat));
    }
}

/// A program that is one loop of `times` rounds around one output of a
/// value in which nothing is to fill in, the loop within the ceiling,
/// succeeds and sends the value `times` times to the sink. This holds on
/// every calm clock,
/// under limits that admit the instructions of the loop: one for the loop
/// and two for every round.
pub proof fn lemma_loop_of_outputs_runs(times: u32, value: ValueModel, w: World, readings: Seq<u64>)
    requires
        interpolated(value, w.machine.variables, true) == value,
        times as usize <= w.machine.monitor.limits.max_loop_iterations,
        1 + 2 * times <= w.machine.monitor.limits.max_instructions,
        calm(Clock::of(readings), w.machine.monitor.limits.timeout_ms),
    ensures
        ({
            let out = exec_program_at(
                seq![StatementModel::Repeat(times, seq![StatementModel::Tell(value)])],
                w,
                readings,
            );
            &&& out.error is None
            &&& out.world.machine.effects == w.machine.effects + outputs_of(value, times as nat)
        }),
{
    let body = seq![StatementModel::Tell(value)];
    let program = seq![StatementModel::Repeat(times, body)];
    let begun = w.on(w.machine.with_clock(Clock::of(readings))).started();
    assert(begun.machine.clock.reading() <= w.machine.monitor.limits.timeout_ms);
    let checked = begun.machine.checkpoint();
    assert(checked.error is None);
    let at = begun.on(checked.machine);
    lemma_rounds_of_outputs(0, times, value, at, begun.machine.budget(), ValueModel::Nil);
    let ran = exec_statement(program[0], at, begun.machine.budget());
    assert(exec_block(program, 1, ran.world, begun.machine.budget(), ran.value) == went(
        ran.world,
        ran.value,
    ));
}

} // verus!
