use ellex_core::minielixir::{EvaluationContext, MiniElixirExpr, MiniElixirInterpreter};
use ellex_core::minielixir_cached_runtime::{CachedMiniElixirExpr, CachedMiniElixirRuntime};
use ellex_core::minielixir_validator::MiniElixirValidator;
use ellex_core::{EllexError, EllexValue};

fn number(x: f64) -> EllexValue {
    EllexValue::Number(x.to_bits())
}

fn hit_rate(runtime: &CachedMiniElixirRuntime) -> f64 {
    let stats = runtime.performance_stats().global_cache_stats;
    if stats.total_hits + stats.total_misses > 0 {
        stats.total_hits as f64 / (stats.total_hits + stats.total_misses) as f64
    } else {
        0.0
    }
}

#[test]
fn test_cached_runtime_basic() {
    let mut runtime = CachedMiniElixirRuntime::new();
    let mut ctx = EvaluationContext::new();

    let result = runtime.eval_code("42", &mut ctx).unwrap();
    assert_eq!(result, number(42.0));
}

#[test]
fn test_caching_deterministic_expressions() {
    let mut runtime = CachedMiniElixirRuntime::new();
    let mut ctx = EvaluationContext::new();

    // First evaluation
    let result1 = runtime.eval_code("1 + 2", &mut ctx).unwrap();

    // Second evaluation (should hit cache)
    let result2 = runtime.eval_code("1 + 2", &mut ctx).unwrap();

    assert_eq!(result1, result2);
    assert_eq!(result1, number(3.0));

    assert!(hit_rate(&runtime) > 0.0);
}

#[test]
fn test_variable_context_in_caching() {
    let mut runtime = CachedMiniElixirRuntime::new();
    let mut ctx = EvaluationContext::new();

    ctx.bind("x".to_string(), number(5.0));
    let result1 = runtime.eval_code("x + 1", &mut ctx).unwrap();

    ctx.bind("x".to_string(), number(10.0));
    let result2 = runtime.eval_code("x + 1", &mut ctx).unwrap();

    assert_eq!(result1, number(6.0));
    assert_eq!(result2, number(11.0));
}

#[test]
fn test_block_evaluation() {
    let mut runtime = CachedMiniElixirRuntime::new();
    let mut ctx = EvaluationContext::new();
    let interpreter = MiniElixirInterpreter::new();

    let exprs = vec![
        interpreter.parse("1 + 2").unwrap(),
        interpreter.parse("3 * 4").unwrap(),
        interpreter.parse("10").unwrap(),
    ];

    let result = runtime.eval_block(&exprs, &mut ctx).unwrap();
    assert_eq!(result, number(10.0)); // Last expression
}

#[test]
fn test_cache_analysis() {
    let mut runtime = CachedMiniElixirRuntime::new();
    let mut ctx = EvaluationContext::new();

    // Execute some expressions multiple times
    for _ in 0..15 {
        runtime.eval_code("1 + 2", &mut ctx).unwrap();
    }

    for _ in 0..5 {
        runtime.eval_code("3 * 4", &mut ctx).unwrap();
    }

    let analysis = runtime.cache_analysis();
    assert!(analysis.hot_expressions.len() >= 1);
    assert!(analysis.cold_expressions.len() >= 1);
}

#[test]
fn a_second_evaluation_is_served_from_the_cache() {
    let mut runtime = CachedMiniElixirRuntime::new();
    let ctx = EvaluationContext::new();
    let first = runtime.eval_code("length([1,2,3])", &ctx).unwrap();
    let after_first = runtime.performance_stats();
    assert_eq!(after_first.global_cache_stats.total_hits, 0);
    assert_eq!(after_first.global_cache_stats.total_misses, 1);
    assert_eq!(after_first.cached_results, 1);
    // The call, the list and its three numbers.
    assert_eq!(after_first.interpreter_stats.evaluation_count, 5);
    let second = runtime.eval_code("length([1,2,3])", &ctx).unwrap();
    let after_second = runtime.performance_stats();
    assert_eq!(first, number(3.0));
    assert_eq!(second, first);
    assert_eq!(after_second.global_cache_stats.total_hits, 1);
    assert_eq!(after_second.global_cache_stats.total_misses, 1);
    assert_eq!(after_second.cached_results, 1);
    assert_eq!(after_second.interpreter_stats.evaluation_count, 5);
    assert_eq!(after_second.total_evaluations, 2);
    let interpreter = MiniElixirInterpreter::new();
    let expr = interpreter.parse("length([1,2,3])").unwrap();
    let validator = MiniElixirValidator::new();
    assert!(validator.validate(&expr).is_ok());
    assert!(validator.is_deterministic(&expr));
    assert!(validator.complexity_score(&expr) >= 5);
}

#[test]
fn a_denylisted_text_never_reaches_the_interpreter() {
    let mut runtime = CachedMiniElixirRuntime::new();
    let ctx = EvaluationContext::new();
    let result = runtime.eval_code("\"System.cmd(...)\"", &ctx);
    assert!(matches!(
        result,
        Err(EllexError::SafetyViolation { reason }) if reason == "Forbidden pattern 'System' found in string"
    ));
    assert!(matches!(runtime.eval_code("1 +", &ctx), Err(EllexError::ParseError { .. })));
    let stats = runtime.performance_stats();
    assert_eq!(stats.total_evaluations, 0);
    assert_eq!(stats.interpreter_stats.evaluation_count, 0);
}

#[test]
fn the_key_holds_exactly_the_variables_of_the_expression() {
    let mut runtime = CachedMiniElixirRuntime::new();
    let mut ctx = EvaluationContext::new();
    ctx.bind("x".to_string(), number(1.0));
    ctx.bind("other".to_string(), number(1.0));
    assert_eq!(runtime.eval_code("x + 1", &ctx).unwrap(), number(2.0));
    ctx.bind("other".to_string(), number(2.0));
    assert_eq!(runtime.eval_code("x + 1", &ctx).unwrap(), number(2.0));
    assert_eq!(runtime.performance_stats().global_cache_stats.total_hits, 1);
    ctx.bind("x".to_string(), number(-0.0));
    assert_eq!(runtime.eval_code("to_string(x)", &ctx).unwrap(), EllexValue::String("-0".to_string()));
    ctx.bind("x".to_string(), number(0.0));
    assert_eq!(runtime.eval_code("to_string(x)", &ctx).unwrap(), EllexValue::String("0".to_string()));
    assert_eq!(runtime.performance_stats().global_cache_stats.total_hits, 1);
    assert_eq!(runtime.performance_stats().cached_results, 3);
}

#[test]
fn simple_failing_and_uncached_evaluations_store_nothing() {
    let mut runtime = CachedMiniElixirRuntime::new();
    let ctx = EvaluationContext::new();
    runtime.eval_code("42", &ctx).unwrap();
    runtime.eval_code("42", &ctx).unwrap();
    assert!(runtime.eval_code("1 / 0", &ctx).is_err());
    let stats = runtime.performance_stats();
    assert_eq!(stats.cached_results, 0);
    assert_eq!(stats.cached_expressions, 1);
    assert_eq!(stats.global_cache_stats.total_hits, 0);
    assert_eq!(stats.global_cache_stats.total_misses, 2);
    assert_eq!(stats.total_evaluations, 3);
    assert_eq!(runtime.recorded_expression(0).unwrap().execution_count, 2);
    assert_eq!(runtime.recorded_expression(0).unwrap().cache_hits, 0);
    runtime.disable_caching();
    assert!(!runtime.caching_enabled());
    runtime.eval_code("1 + 2", &ctx).unwrap();
    runtime.eval_code("1 + 2", &ctx).unwrap();
    let stats = runtime.performance_stats();
    assert_eq!(stats.cached_results, 0);
    assert_eq!(stats.cached_expressions, 1);
    assert_eq!(stats.global_cache_stats.total_misses, 4);
    runtime.enable_caching();
    runtime.eval_code("1 + 2", &ctx).unwrap();
    assert_eq!(runtime.performance_stats().cached_results, 1);
    runtime.clear_caches();
    let stats = runtime.performance_stats();
    assert_eq!(stats.cached_results, 0);
    assert_eq!(stats.cached_expressions, 0);
    assert_eq!(stats.global_cache_stats.total_misses, 0);
    assert_eq!(stats.total_evaluations, 6);
}

#[test]
fn the_cache_stops_storing_at_its_ceiling() {
    let mut runtime = CachedMiniElixirRuntime::new();
    let mut ctx = EvaluationContext::new();
    for i in 0..1005 {
        ctx.bind("i".to_string(), number(i as f64));
        assert_eq!(runtime.eval_code("i + 1", &ctx).unwrap(), number(i as f64 + 1.0));
    }
    assert_eq!(runtime.performance_stats().cached_results, 1000);
    ctx.bind("i".to_string(), number(1004.0));
    assert_eq!(runtime.eval_code("i + 1", &ctx).unwrap(), number(1005.0));
    assert_eq!(runtime.performance_stats().global_cache_stats.total_hits, 0);
    ctx.bind("i".to_string(), number(3.0));
    assert_eq!(runtime.eval_code("i + 1", &ctx).unwrap(), number(4.0));
    assert_eq!(runtime.performance_stats().global_cache_stats.total_hits, 1);
}

#[test]
fn a_block_stops_at_its_first_error() {
    let mut runtime = CachedMiniElixirRuntime::with_custom_functions(vec!["extra".to_string()]);
    let ctx = EvaluationContext::new();
    let interpreter = MiniElixirInterpreter::new();
    let exprs = vec![
        interpreter.parse("1 + 2").unwrap(),
        interpreter.parse("missing").unwrap(),
        interpreter.parse("3 + 4").unwrap(),
    ];
    assert!(matches!(
        runtime.eval_block(&exprs, &ctx),
        Err(EllexError::LogicError { message }) if message == "Variable 'missing' is undefined"
    ));
    assert_eq!(runtime.performance_stats().total_evaluations, 2);
    assert_eq!(runtime.eval_block(&vec![], &ctx).unwrap(), EllexValue::Nil);
    assert!(runtime.validator().allows("extra"));
}

#[test]
fn the_analysis_ranks_by_executions() {
    let mut runtime = CachedMiniElixirRuntime::new();
    let mut ctx = EvaluationContext::new();
    for (code, times) in [("a + 1", 3), ("a + 2", 12), ("a + 3", 20), ("a + 4", 10), ("a + 5", 11)] {
        for i in 0..times {
            ctx.bind("a".to_string(), number(i as f64));
            runtime.eval_code(code, &ctx).unwrap();
        }
    }
    let analysis = runtime.cache_analysis();
    let hot: Vec<(usize, u64)> =
        analysis.hot_expressions.iter().map(|e| (e.record, e.execution_count)).collect();
    let cold: Vec<(usize, u64)> =
        analysis.cold_expressions.iter().map(|e| (e.record, e.execution_count)).collect();
    assert_eq!(hot, vec![(2, 20), (1, 12), (4, 11)]);
    assert_eq!(cold, vec![(3, 10), (0, 3)]);
    assert_eq!(analysis.total_memory_usage, 5 * 200 + 56 * 100);
    assert!(analysis.hot_expressions.iter().all(|e| e.is_deterministic && e.complexity_score == 4));
    ctx.bind("a".to_string(), number(0.0));
    runtime.eval_code("a + 1", &ctx).unwrap();
    assert_eq!(runtime.recorded_expression(0).unwrap().execution_count, 4);
    assert_eq!(runtime.recorded_expression(0).unwrap().cache_hits, 1);
    let record = runtime.recorded_expression(2).unwrap();
    assert_eq!(record.execution_count, 20);
    assert_eq!(record.expr, MiniElixirInterpreter::new().parse("a + 3").unwrap());
    assert!(runtime.recorded_expression(5).is_none());
    let meta = CachedMiniElixirExpr::new(MiniElixirExpr::Nil, &MiniElixirValidator::new());
    assert_eq!(
        (meta.execution_count, meta.cache_hits, meta.is_deterministic, meta.complexity_score),
        (0, 0, true, 1)
    );
}
