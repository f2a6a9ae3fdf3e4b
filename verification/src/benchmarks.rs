//! The programs that the benchmarks run, and the loop that runs them. The
//! host measures the time around the loop.

use crate::cached_statement::{
    bare_all, cached_from_all, cached_models, lemma_models_of_vec, tallied_through, warmed_all,
    CacheStats, CachedModel, CachedStatement,
};
use crate::number::{bits_of_nat, number_from_u64};
use crate::optimized_runtime::{
    lemma_frame_chain, run_program_at, same_frame, taught_block, Clock, Machine,
    OptimizedEllexRuntime, Outcome,
};
use crate::values::{statements_model, EllexValue, Statement, StatementModel, ValueModel};
use crate::{error_of, ErrorModel};
use vstd::prelude::*;

verus! {

/// A runtime and the program it runs, between two rounds of a benchmark.
pub struct Bench {
    pub machine: Machine,
    /// The program with its caches.
    pub body: Seq<CachedModel>,
    /// The cache counters that the runtime holds.
    pub stats: CacheStats,
}

/// The runtime `runtime` about to run `program`.
pub open spec fn bench_of(runtime: OptimizedEllexRuntime, program: Vec<CachedStatement>) -> Bench {
    Bench { machine: runtime.machine(), body: cached_models(program), stats: runtime.stats() }
}

/// One top-level execution under the cache version `version` took the
/// benchmark from `before` to `after` and ended with `error`, or without an
/// error if `error` is `None`. With the readings that the clock gave in
/// it, the machine, the error and the caches are those of the program run
/// from a restarted monitor on its caches warmed against the variables.
/// The program is kept; the counters are those of the program after a
/// success and stay after an error.
pub open spec fn round_follows(
    before: Bench,
    after: Bench,
    error: Option<ErrorModel>,
    version: u64,
) -> bool {
    let program = bare_all(before.body);
    let readings = after.machine.clock.readings;
    &&& bare_all(after.body) == program
    &&& same_frame(before.machine, after.machine)
    &&& after.stats == if error is None {
        tallied_through(after.body, after.body.len() as int, CacheStats::zero())
    } else {
        before.stats
    }
    &&& run_program_at(program, before.machine, readings) == (Outcome {
        machine: after.machine,
        error,
    })
    &&& after.body == taught_block(
        program,
        warmed_all(before.body, before.machine.variables),
        0,
        before.machine.with_clock(Clock::of(readings)).started(),
        before.machine.started().budget(),
        version,
    )
}

/// How many of the rounds ended without an error.
pub open spec fn successes(errors: Seq<Option<ErrorModel>>) -> nat
    decreases errors.len(),
{
    if errors.len() == 0 {
        0
    } else {
        successes(errors.drop_last()) + if errors.last() is None {
            1nat
        } else {
            0nat
        }
    }
}

/// Every state of `states` but the first is what one execution made of the
/// state before it, and the execution ended with the error at that place in
/// `errors`.
pub open spec fn chained(states: Seq<Bench>, errors: Seq<Option<ErrorModel>>, version: u64) -> bool {
    &&& states.len() == errors.len() + 1
    &&& forall|i: int|
        0 <= i < errors.len() ==> round_follows(states[i], states[i + 1], #[trigger] errors[i], version)
}

/// `rounds` executions, each starting where the one before ended, took the
/// benchmark from `start` to `end`, and `succeeded` of them ended without an
/// error.
pub open spec fn rounds_follow(
    start: Bench,
    end: Bench,
    rounds: nat,
    succeeded: nat,
    version: u64,
) -> bool {
    exists|states: Seq<Bench>, errors: Seq<Option<ErrorModel>>|
        {
            &&& #[trigger] chained(states, errors, version)
            &&& errors.len() == rounds
            &&& states[0] == start
            &&& states.last() == end
            &&& succeeded == successes(errors)
        }
}

/// The number of executions after `rounds` more; the counter stops at the
/// largest `u64`.
pub open spec fn advanced(executions: u64, rounds: u32) -> u64 {
    if executions + rounds > u64::MAX {
        u64::MAX
    } else {
        (executions + rounds) as u64
    }
}

/// How often a benchmark runs its program.
#[derive(Debug, Clone, Copy, PartialEq, Eq, Structural)]
pub struct BenchmarkSuite {
    pub iterations: u32,
    pub warmup_iterations: u32,
}

fn text(s: &str) -> (v: EllexValue)
    ensures
        v@ == ValueModel::Text(s@),
{
    EllexValue::String(String::from_str(s))
}

fn tell_text(s: &str) -> (st: Statement)
    ensures
        st@ == StatementModel::Tell(ValueModel::Text(s@)),
{
    Statement::Tell(text(s))
}

fn tell_number(n: u64) -> (st: Statement)
    ensures
        st@ == StatementModel::Tell(ValueModel::Number(bits_of_nat(n as nat))),
{
    Statement::Tell(EllexValue::Number(number_from_u64(n)))
}

fn three(a: Statement, b: Statement, c: Statement) -> (v: Vec<Statement>)
    ensures
        statements_model(v) == seq![a@, b@, c@],
{
    let mut v: Vec<Statement> = Vec::new();
    v.push(a);
    v.push(b);
    v.push(c);
    assert(statements_model(v) =~= seq![a@, b@, c@]);
    v
}

fn one(a: Statement) -> (v: Vec<Statement>)
    ensures
        statements_model(v) == seq![a@],
{
    let mut v: Vec<Statement> = Vec::new();
    v.push(a);
    assert(statements_model(v) =~= seq![a@]);
    v
}

impl BenchmarkSuite {
    /// Ten thousand measured runs after a thousand warm-up runs.
    pub fn new() -> (s: Self)
        ensures
            s == (BenchmarkSuite { iterations: 10000, warmup_iterations: 1000 }),
    {
        BenchmarkSuite { iterations: 10000, warmup_iterations: 1000 }
    }

    pub fn with_iterations(self, iterations: u32) -> (s: Self)
        ensures
            s == (BenchmarkSuite { iterations, ..self }),
    {
        BenchmarkSuite { iterations, warmup_iterations: self.warmup_iterations }
    }

    pub fn with_warmup(self, warmup: u32) -> (s: Self)
        ensures
            s == (BenchmarkSuite { warmup_iterations: warmup, ..self }),
    {
        BenchmarkSuite { iterations: self.iterations, warmup_iterations: warmup }
    }

    /// Three outputs: "Hello", 42, "World".
    pub fn benchmark_simple_tells(&self) -> (program: Vec<Statement>)
        ensures
            statements_model(program) == seq![
                StatementModel::Tell(ValueModel::Text("Hello"@)),
                StatementModel::Tell(ValueModel::Number(bits_of_nat(42))),
                StatementModel::Tell(ValueModel::Text("World"@)),
            ],
    {
        three(tell_text("Hello"), tell_number(42), tell_text("World"))
    }

    /// Three outputs of the same text.
    pub fn benchmark_variable_access(&self) -> (program: Vec<Statement>)
        ensures
            statements_model(program) == seq![
                StatementModel::Tell(ValueModel::Text("test_var"@)),
                StatementModel::Tell(ValueModel::Text("test_var"@)),
                StatementModel::Tell(ValueModel::Text("test_var"@)),
            ],
    {
        three(tell_text("test_var"), tell_text("test_var"), tell_text("test_var"))
    }

    /// Three calls of the same function.
    pub fn benchmark_function_calls(&self) -> (program: Vec<Statement>)
        ensures
            statements_model(program) == seq![
                StatementModel::Call("test_func"@),
                StatementModel::Call("test_func"@),
                StatementModel::Call("test_func"@),
            ],
    {
        three(
            Statement::Call(String::from_str("test_func")),
            Statement::Call(String::from_str("test_func")),
            Statement::Call(String::from_str("test_func")),
        )
    }

    /// A loop of a hundred rounds over outputs of three shapes.
    pub fn benchmark_megamorphic_loop(&self) -> (program: Vec<Statement>)
        ensures
            statements_model(program) == seq![
                StatementModel::Repeat(
                    100,
                    seq![
                        StatementModel::Tell(ValueModel::Text("string"@)),
                        StatementModel::Tell(ValueModel::Number(bits_of_nat(1))),
                        StatementModel::Tell(ValueModel::Nil),
                    ],
                ),
            ],
    {
        let body = three(tell_text("string"), tell_number(1), Statement::Tell(EllexValue::Nil));
        one(Statement::Repeat(100, body))
    }

    /// One conditional with both branches.
    pub fn benchmark_conditionals(&self) -> (program: Vec<Statement>)
        ensures
            statements_model(program) == seq![
                StatementModel::When(
                    "test_var"@,
                    ValueModel::Text("yes"@),
                    seq![StatementModel::Tell(ValueModel::Text("Match!"@))],
                    Some(seq![StatementModel::Tell(ValueModel::Text("No match"@))]),
                ),
            ],
    {
        let then_body = one(tell_text("Match!"));
        let else_body = one(tell_text("No match"));
        one(
            Statement::When(String::from_str("test_var"), text("yes"), then_body, Some(else_body)),
        )
    }

    /// Runs `program` `rounds` times on `runtime`, whatever each run gives,
    /// and counts the runs that succeeded. Every round is one top-level
    /// execution that starts where the round before ended, so runtime and
    /// program end where `rounds_follow` says. The program stays the same;
    /// only its caches are written.
    pub fn run_cached(
        &self,
        runtime: &mut OptimizedEllexRuntime,
        program: &mut Vec<CachedStatement>,
        rounds: u32,
    ) -> (succeeded: u32)
        ensures
            succeeded <= rounds,
            bare_all(cached_models(*final(program))) == bare_all(cached_models(*old(program))),
            rounds_follow(
                bench_of(*old(runtime), *old(program)),
                bench_of(*final(runtime), *final(program)),
                rounds as nat,
                succeeded as nat,
                old(runtime).version(),
            ),
            same_frame(old(runtime).machine(), final(runtime).machine()),
            final(runtime).version() == old(runtime).version(),
            final(runtime).executions() == advanced(old(runtime).executions(), rounds),
    {
        let ghost start = bench_of(*runtime, *program);
        let ghost version = runtime.version();
        let ghost mut states: Seq<Bench> = seq![start];
        let ghost mut errors: Seq<Option<ErrorModel>> = Seq::empty();
        let mut succeeded: u32 = 0;
        let mut round: u32 = 0;
        while round < rounds
            invariant
                0 <= succeeded <= round <= rounds,
                bare_all(cached_models(*program)) == bare_all(cached_models(*old(program))),
                start == bench_of(*old(runtime), *old(program)),
                version == old(runtime).version(),
                runtime.version() == version,
                runtime.executions() == advanced(old(runtime).executions(), round),
                same_frame(start.machine, runtime.machine()),
                chained(states, errors, version),
                errors.len() == round,
                states[0] == start,
                states.last() == bench_of(*runtime, *program),
                succeeded == successes(errors),
            decreases rounds - round,
        {
            let ghost before = bench_of(*runtime, *program);
            let ghost earlier = states;
            let ghost so_far = errors;
            proof {
                lemma_models_of_vec(*program);
            }
            let r = runtime.execute_cached(program.as_mut_slice());
            proof {
                lemma_models_of_vec(*program);
            }
            let ghost after = bench_of(*runtime, *program);
            let ghost error = error_of(r);
            proof {
                lemma_frame_chain(start.machine, before.machine, after.machine);
                assert(round_follows(before, after, error, version));
                states = earlier.push(after);
                errors = so_far.push(error);
                assert(errors.drop_last() =~= so_far);
                assert forall|i: int| 0 <= i < errors.len() implies round_follows(
                    states[i],
                    states[i + 1],
                    #[trigger] errors[i],
                    version,
                ) by {
                    if i < so_far.len() {
                        assert(round_follows(earlier[i], earlier[i + 1], so_far[i], version));
                    }
                }
            }
            match r {
                Ok(()) => {
                    succeeded += 1;
                },
                Err(_) => {},
            }
            round += 1;
        }
        succeeded
    }
}

impl Default for BenchmarkSuite {
    fn default() -> (s: Self)
        ensures
            s == (BenchmarkSuite { iterations: 10000, warmup_iterations: 1000 }),
    {
        Self::new()
    }
}

/// The program whose sizes with and without caches are compared.
#[derive(Debug, Clone, Copy, PartialEq, Eq, Structural)]
pub struct MemoryBenchmark;

/// One output, one call, and a loop of ten rounds over one output.
pub open spec fn sample_model() -> Seq<StatementModel> {
    seq![
        StatementModel::Tell(ValueModel::Text("test"@)),
        StatementModel::Call("func"@),
        StatementModel::Repeat(
            10,
            seq![StatementModel::Tell(ValueModel::Number(bits_of_nat(42)))],
        ),
    ]
}

impl MemoryBenchmark {
    /// The sample program.
    pub fn sample_program() -> (program: Vec<Statement>)
        ensures
            statements_model(program) == sample_model(),
    {
        three(
            tell_text("test"),
            Statement::Call(String::from_str("func")),
            Statement::Repeat(10, one(tell_number(42))),
        )
    }

    /// The sample program with its caches, all empty.
    pub fn sample_cached_program() -> (program: Vec<CachedStatement>)
        ensures
            cached_models(program) == cached_from_all(sample_model()),
    {
        let plain = Self::sample_program();
        CachedStatement::from_statements(&plain)
    }
}

} // verus!
