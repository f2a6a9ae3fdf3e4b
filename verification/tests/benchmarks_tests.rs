use ellex_core::benchmarks::{BenchmarkSuite, MemoryBenchmark};
use ellex_core::cached_ast::CachedStatement;
use ellex_core::optimized_runtime::OptimizedEllexRuntime;
use ellex_core::{EllexValue, Statement};

#[test]
fn test_benchmark_suite_creation() {
    let suite = BenchmarkSuite::new().with_iterations(100).with_warmup(10);

    assert_eq!(suite.iterations, 100);
    assert_eq!(suite.warmup_iterations, 10);
}

#[test]
fn benchmark_programs_are_as_documented() {
    let suite = BenchmarkSuite::default();
    assert_eq!(suite.iterations, 10000);
    assert_eq!(suite.warmup_iterations, 1000);
    assert_eq!(
        suite.benchmark_simple_tells(),
        vec![
            Statement::Tell(EllexValue::String("Hello".to_string())),
            Statement::Tell(EllexValue::Number(42.0f64.to_bits())),
            Statement::Tell(EllexValue::String("World".to_string())),
        ]
    );
    assert_eq!(suite.benchmark_variable_access().len(), 3);
    assert_eq!(
        suite.benchmark_function_calls()[2],
        Statement::Call("test_func".to_string())
    );
    assert_eq!(
        suite.benchmark_megamorphic_loop(),
        vec![Statement::Repeat(
            100,
            vec![
                Statement::Tell(EllexValue::String("string".to_string())),
                Statement::Tell(EllexValue::Number(1.0f64.to_bits())),
                Statement::Tell(EllexValue::Nil),
            ]
        )]
    );
    assert_eq!(
        suite.benchmark_conditionals(),
        vec![Statement::When(
            "test_var".to_string(),
            EllexValue::String("yes".to_string()),
            vec![Statement::Tell(EllexValue::String("Match!".to_string()))],
            Some(vec![Statement::Tell(EllexValue::String("No match".to_string()))]),
        )]
    );
}

#[test]
fn benchmark_loop_counts_successful_runs() {
    let suite = BenchmarkSuite::new();
    let mut runtime = OptimizedEllexRuntime::new();
    let mut program = CachedStatement::from_statements(&suite.benchmark_simple_tells());
    assert_eq!(suite.run_cached(&mut runtime, &mut program, 7), 7);
    assert_eq!(runtime.execution_count(), 7);
    assert_eq!(runtime.effects().len(), 21);
    let mut failing = CachedStatement::from_statements(&suite.benchmark_conditionals());
    assert_eq!(suite.run_cached(&mut runtime, &mut failing, 3), 0);
    // A failed round is a round all the same, and leaves the sink alone.
    assert_eq!(runtime.execution_count(), 10);
    assert_eq!(runtime.effects().len(), 21);
    assert_eq!(suite.run_cached(&mut runtime, &mut program, 0), 0);
    assert_eq!(runtime.execution_count(), 10);
    assert_eq!(runtime.effects().len(), 21);
}

#[test]
fn memory_benchmark_sample_has_three_statements() {
    let plain = MemoryBenchmark::sample_program();
    let cached = MemoryBenchmark::sample_cached_program();
    assert_eq!(plain.len(), 3);
    assert_eq!(cached.len(), 3);
    assert!(matches!(cached[0], CachedStatement::TellConstant { .. }));
    assert!(matches!(cached[1], CachedStatement::Call { .. }));
    assert!(matches!(cached[2], CachedStatement::Repeat { times: 10, .. }));
}
