use ellex_core::cached_ast::{CachedStatement, SiteClass, VariableCache};
use ellex_core::optimized_runtime::{Effect, OptimizedEllexRuntime, TurtleCommand};
use ellex_core::{EllexConfig, EllexError, EllexFunction, EllexValue, ExecutionLimits, Statement};

fn number(x: f64) -> EllexValue {
    EllexValue::Number(x.to_bits())
}

fn text(s: &str) -> EllexValue {
    EllexValue::String(s.to_string())
}

fn outputs(runtime: &OptimizedEllexRuntime) -> Vec<EllexValue> {
    runtime
        .effects()
        .iter()
        .filter_map(|e| match e {
            Effect::Output(v) => Some(v.clone()),
            _ => None,
        })
        .collect()
}

fn logic(r: Result<(), EllexError>) -> String {
    match r {
        Err(EllexError::LogicError { message }) => message,
        other => panic!("Expected a logic error, got {:?}", other),
    }
}

#[test]
fn test_optimized_runtime_basic() {
    let mut runtime = OptimizedEllexRuntime::new();
    let mut statements = vec![CachedStatement::TellConstant {
        value: EllexValue::String("Hello, World!".to_string()),
    }];

    assert!(runtime.execute_cached(&mut statements).is_ok());
    assert_eq!(runtime.execution_count(), 1);
}

#[test]
fn test_variable_caching() {
    let mut runtime = OptimizedEllexRuntime::new();
    runtime.set_variable("test".to_string(), EllexValue::String("value".to_string()));

    let mut statements = vec![CachedStatement::VariableAccess {
        variable_name: "test".to_string(),
        cache: VariableCache::new("test".to_string()),
    }];

    assert!(runtime.execute_cached(&mut statements).is_ok());

    let stats = runtime.cache_stats();
    assert!(stats.total_hits > 0);
}

#[test]
fn test_function_call_caching() {
    let mut runtime = OptimizedEllexRuntime::new();

    let test_function = EllexFunction {
        name: "test_func".to_string(),
        body: vec![Statement::Tell(EllexValue::String("Inside function".to_string()))],
        params: vec![],
    };

    runtime.add_function("test_func".to_string(), test_function);

    let mut statements = vec![CachedStatement::Call {
        function_name: "test_func".to_string(),
        args: vec![],
        call_cache: None,
    }];

    assert!(runtime.execute_cached(&mut statements).is_ok());

    // Verify cache was created
    if let CachedStatement::Call { call_cache, .. } = &statements[0] {
        assert!(call_cache.is_some());
    }
}

#[test]
fn a_loop_of_a_hundred_rounds_outputs_a_hundred_times() {
    let mut runtime = OptimizedEllexRuntime::with_limits(ExecutionLimits::for_advanced(), false);
    let mut program = CachedStatement::from_statements(&vec![Statement::Repeat(
        100,
        vec![Statement::Tell(text("x"))],
    )]);
    assert!(runtime.execute_cached(&mut program).is_ok());
    assert_eq!(outputs(&runtime), vec![text("x"); 100]);
    assert_eq!(runtime.get_variable("count"), Some(&number(99.0)));
    assert_eq!(runtime.monitor().instruction_count(), 1 + 100 + 100);
    assert!(matches!(
        &program[0],
        CachedStatement::Repeat { iteration_cache: Some(entry), .. } if entry.hit_count == 99
    ));
}

#[test]
fn a_loop_above_the_ceiling_fails_before_any_round() {
    let mut runtime = OptimizedEllexRuntime::with_limits(ExecutionLimits::for_beginners(), false);
    let mut program = CachedStatement::from_statements(&vec![
        Statement::Tell(text("before")),
        Statement::Repeat(2000, vec![Statement::Tell(text("x"))]),
        Statement::Tell(text("after")),
    ]);
    assert!(matches!(
        runtime.execute_cached(&mut program),
        Err(EllexError::LoopLimitExceeded { current: 2000, limit: 1000 })
    ));
    assert_eq!(outputs(&runtime), vec![text("before")]);
    assert!(runtime.get_variable("count").is_none());
    let mut at_the_ceiling = CachedStatement::from_statements(&vec![Statement::Repeat(1000, vec![])]);
    assert!(runtime.execute_cached(&mut at_the_ceiling).is_ok());
}

#[test]
fn instructions_are_counted_per_statement_and_round() {
    let limits = ExecutionLimits::new();
    let mut runtime = OptimizedEllexRuntime::with_limits(
        ExecutionLimits { max_instructions: 7, ..limits },
        false,
    );
    let mut program = CachedStatement::from_statements(&vec![Statement::Repeat(
        10,
        vec![Statement::Tell(text("x"))],
    )]);
    assert!(matches!(
        runtime.execute_cached(&mut program),
        Err(EllexError::InstructionLimitExceeded { count: 8 })
    ));
    assert_eq!(outputs(&runtime).len(), 3);
    runtime.update_memory_usage(65);
    assert_eq!(runtime.monitor().get_stats().memory_usage_mb, 65);
    assert!(matches!(
        runtime.execute_cached(&mut program),
        Err(EllexError::InstructionLimitExceeded { count: 8 })
    ));
    assert_eq!(runtime.monitor().get_stats().memory_usage_mb, 0);
    assert_eq!(runtime.execution_count(), 2);
}

#[test]
fn conditionals_compare_values() {
    let mut runtime = OptimizedEllexRuntime::new();
    let mut program = CachedStatement::from_statements(&vec![
        Statement::Assignment("answer".to_string(), number(0.0)),
        Statement::When(
            "answer".to_string(),
            number(-0.0),
            vec![Statement::Tell(text("same"))],
            Some(vec![Statement::Tell(text("different"))]),
        ),
        Statement::Assignment("answer".to_string(), text("other")),
        Statement::When(
            "answer".to_string(),
            number(0.0),
            vec![Statement::Tell(text("same"))],
            Some(vec![Statement::Tell(text("different"))]),
        ),
        Statement::When("answer".to_string(), number(0.0), vec![Statement::Tell(text("no"))], None),
    ]);
    for _ in 0..2 {
        assert!(runtime.execute_cached(&mut program).is_ok());
    }
    assert_eq!(
        outputs(&runtime),
        vec![text("same"), text("different"), text("same"), text("different")]
    );
    match &program[1] {
        CachedStatement::When { condition_cache: Some(cache), .. } => {
            assert_eq!(cache.classify(), SiteClass::Polymorphic);
        }
        _ => panic!("Expected a conditional with a cache"),
    }
    let mut unbound = CachedStatement::from_statements(&vec![Statement::When(
        "nobody".to_string(),
        EllexValue::Nil,
        vec![],
        None,
    )]);
    assert_eq!(logic(runtime.execute_cached(&mut unbound)), "Variable 'nobody' not found");
}

#[test]
fn calls_run_the_function_of_the_table() {
    let mut runtime = OptimizedEllexRuntime::with_config(EllexConfig {
        enable_turtle: false,
        ..EllexConfig::default()
    });
    let greet = |word: &str| EllexFunction {
        name: "greet".to_string(),
        body: vec![Statement::Tell(text(word))],
        params: vec![],
    };
    runtime.add_function("greet".to_string(), greet("hello"));
    let mut program = CachedStatement::from_statements(&vec![Statement::Call("greet".to_string())]);
    assert!(runtime.execute_cached(&mut program).is_ok());
    assert!(runtime.execute_cached(&mut program).is_ok());
    runtime.add_function("greet".to_string(), greet("goodbye"));
    assert!(runtime.execute_cached(&mut program).is_ok());
    assert_eq!(outputs(&runtime), vec![text("hello"), text("hello"), text("goodbye")]);
    match &program[0] {
        CachedStatement::Call { call_cache: Some(cache), .. } => assert_eq!(cache.hit_count, 3),
        _ => panic!("Expected a call with a cache"),
    }
    assert_eq!(runtime.monitor().recursion_depth(), 0);
    let mut unknown = CachedStatement::from_statements(&vec![Statement::Call("forward".to_string())]);
    assert_eq!(logic(runtime.execute_cached(&mut unknown)), "Function 'forward' not found");
}

#[test]
fn recursion_stops_at_the_ceiling() {
    let limits = ExecutionLimits::new().with_recursion_limit(5);
    let mut runtime = OptimizedEllexRuntime::with_limits(limits, false);
    runtime.add_function(
        "again".to_string(),
        EllexFunction {
            name: "again".to_string(),
            body: vec![Statement::Tell(text("deeper")), Statement::Call("again".to_string())],
            params: vec![],
        },
    );
    let mut program = CachedStatement::from_statements(&vec![Statement::Call("again".to_string())]);
    assert!(matches!(
        runtime.execute_cached(&mut program),
        Err(EllexError::RecursionDepthExceeded { current: 6, limit: 5 })
    ));
    assert_eq!(outputs(&runtime), vec![text("deeper"); 5]);
}

#[test]
fn graphics_primitives_go_to_the_sink() {
    let mut runtime = OptimizedEllexRuntime::new();
    let names = ["forward", "move_forward", "right", "turn_left", "pen_up", "pen_down"];
    let mut program = CachedStatement::from_statements(
        &names.iter().map(|n| Statement::Call(n.to_string())).collect(),
    );
    assert!(runtime.execute_cached(&mut program).is_ok());
    let commands: Vec<TurtleCommand> = runtime
        .take_effects()
        .iter()
        .filter_map(|e| match e {
            Effect::Graphics(c) => Some(*c),
            _ => None,
        })
        .collect();
    assert_eq!(
        commands,
        vec![
            TurtleCommand::Forward,
            TurtleCommand::Forward,
            TurtleCommand::TurnRight,
            TurtleCommand::TurnLeft,
            TurtleCommand::PenUp,
            TurtleCommand::PenDown,
        ]
    );
    assert!(runtime.effects().is_empty());
    let mut unknown = CachedStatement::from_statements(&vec![Statement::Call("jump".to_string())]);
    assert_eq!(logic(runtime.execute_cached(&mut unknown)), "Unknown turtle command: jump");
    runtime.set_graphics(false);
    assert_eq!(logic(runtime.execute_cached(&mut unknown)), "Function 'jump' not found");
}

#[test]
fn prompts_read_the_queued_input() {
    let mut runtime = OptimizedEllexRuntime::new();
    runtime.provide_input("  Alice \n".to_string());
    let mut program = CachedStatement::from_statements(&vec![
        Statement::Ask("name".to_string(), None),
        Statement::Ask("age".to_string(), None),
    ]);
    assert_eq!(logic(runtime.execute_cached(&mut program)), "Failed to read input");
    assert_eq!(runtime.get_variable("name"), Some(&text("Alice")));
    assert!(runtime.get_variable("age").is_none());
    let prompts: Vec<String> = runtime
        .effects()
        .iter()
        .filter_map(|e| match e {
            Effect::Prompt(p) => Some(p.clone()),
            _ => None,
        })
        .collect();
    assert_eq!(prompts, vec!["Enter value for name", "Enter value for age"]);
}

#[test]
fn variable_access_reports_name_and_value() {
    let mut runtime = OptimizedEllexRuntime::new();
    runtime.set_variable("v".to_string(), number(1.0));
    let mut program = vec![CachedStatement::VariableAccess {
        variable_name: "v".to_string(),
        cache: VariableCache::new("v".to_string()),
    }];
    for value in [text("a"), EllexValue::Nil, EllexValue::List(vec![]), number(2.0)] {
        assert!(runtime.execute_cached(&mut program).is_ok());
        runtime.set_variable("v".to_string(), value);
    }
    assert!(runtime.execute_cached(&mut program).is_ok());
    assert_eq!(runtime.effects().len(), 5);
    assert!(matches!(
        &runtime.effects()[3],
        Effect::Accessed(name, value) if name == "v" && *value == EllexValue::List(vec![])
    ));
    assert_eq!(runtime.cache_stats().megamorphic_sites, 1);
    assert!(runtime.cache_stats().total_misses > 0);
    let version = runtime.cache_version();
    runtime.clear_caches();
    assert_eq!(runtime.cache_version(), version + 1);
    assert_eq!(runtime.cache_stats().total_caches, 0);
    assert!(runtime.execute_cached(&mut program).is_ok());
    assert_eq!(runtime.cache_stats().monomorphic_sites, 1);
    let mut missing = vec![CachedStatement::VariableAccess {
        variable_name: "w".to_string(),
        cache: VariableCache::new("w".to_string()),
    }];
    assert_eq!(logic(runtime.execute_cached(&mut missing)), "Variable 'w' not found");
}

#[test]
fn executions_bring_the_caches_up_to_date() {
    let mut runtime = OptimizedEllexRuntime::new();
    runtime.set_variable("x".to_string(), text("a"));
    let list = EllexValue::List(vec![number(1.0)]);
    let mut program = vec![
        CachedStatement::Tell { value: list.clone(), cache: None },
        CachedStatement::Repeat {
            times: 5,
            body: vec![CachedStatement::VariableAccess {
                variable_name: "x".to_string(),
                cache: VariableCache::new("x".to_string()),
            }],
            iteration_cache: None,
        },
        CachedStatement::When {
            variable: "x".to_string(),
            condition: text("a"),
            then_body: vec![CachedStatement::Tell { value: list.clone(), cache: None }],
            else_body: Some(vec![CachedStatement::Tell { value: list.clone(), cache: None }]),
            condition_cache: None,
        },
    ];
    runtime.execute_cached(&mut program).unwrap();
    match &program[0] {
        CachedStatement::Tell { cache: Some(entry), .. } => {
            // Warm-up makes the entry, the execution hits it.
            assert_eq!(entry.hit_count, 1);
        }
        other => panic!("unexpected statement {:?}", other),
    }
    match &program[1] {
        CachedStatement::Repeat { body, iteration_cache: Some(entry), .. } => {
            // The first round makes the entry, the four others hit it.
            assert_eq!(entry.hit_count, 4);
            match &body[0] {
                CachedStatement::VariableAccess { cache, .. } => {
                    // One lookup at warm-up and one in each round.
                    assert_eq!(cache.cache_entries.len(), 1);
                    assert_eq!(cache.cache_entries[0].hit_count, 6);
                    assert_eq!(cache.miss_count, 0);
                }
                other => panic!("unexpected statement {:?}", other),
            }
        }
        other => panic!("unexpected statement {:?}", other),
    }
    match &program[2] {
        CachedStatement::When { then_body, else_body, condition_cache: Some(site), .. } => {
            assert_eq!(site.cache_entries.len(), 1);
            assert_eq!(site.cache_entries[0].hit_count, 2);
            // The branch taken learned, the other did not; warm-up leaves both alone.
            assert!(matches!(&then_body[0], CachedStatement::Tell { cache: Some(e), .. } if e.hit_count == 0));
            assert!(matches!(&else_body.as_ref().unwrap()[0], CachedStatement::Tell { cache: None, .. }));
        }
        other => panic!("unexpected statement {:?}", other),
    }
    // A second execution with a value of another shape.
    runtime.set_variable("x".to_string(), number(1.0));
    runtime.execute_cached(&mut program).unwrap();
    match &program[1] {
        CachedStatement::Repeat { body, iteration_cache: Some(entry), .. } => {
            assert_eq!(entry.hit_count, 9);
            match &body[0] {
                CachedStatement::VariableAccess { cache, .. } => {
                    assert_eq!(cache.cache_entries.len(), 2);
                    assert_eq!(cache.cache_entries[0].hit_count, 6);
                    assert_eq!(cache.cache_entries[1].hit_count, 6);
                    assert!(!cache.is_monomorphic());
                    assert!(!cache.is_megamorphic());
                }
                other => panic!("unexpected statement {:?}", other),
            }
        }
        other => panic!("unexpected statement {:?}", other),
    }
    match &program[2] {
        CachedStatement::When { else_body, .. } => {
            assert!(matches!(&else_body.as_ref().unwrap()[0], CachedStatement::Tell { cache: Some(e), .. } if e.hit_count == 0));
        }
        other => panic!("unexpected statement {:?}", other),
    }
}

#[test]
fn an_error_leaves_later_caches_alone() {
    let mut runtime = OptimizedEllexRuntime::new();
    let list = EllexValue::List(vec![]);
    let mut program = vec![
        CachedStatement::Call { function_name: "f".to_string(), args: vec![number(1.0)], call_cache: None },
        CachedStatement::Call { function_name: "missing".to_string(), args: vec![], call_cache: None },
        CachedStatement::VariableAccess {
            variable_name: "x".to_string(),
            cache: VariableCache::new("x".to_string()),
        },
    ];
    runtime.set_graphics(false);
    runtime.set_variable("x".to_string(), list);
    let f = EllexFunction { name: "f".to_string(), body: vec![], params: vec![] };
    runtime.add_function("f".to_string(), f);
    assert_eq!(logic(runtime.execute_cached(&mut program)), "Function 'missing' not found");
    match &program[0] {
        CachedStatement::Call { call_cache: Some(site), .. } => {
            assert_eq!(site.hit_count, 1);
            assert_eq!(site.argument_type_cache.len(), 1);
            assert!(site.cached_function.is_some());
        }
        other => panic!("unexpected statement {:?}", other),
    }
    assert!(matches!(&program[1], CachedStatement::Call { call_cache: None, .. }));
    match &program[2] {
        // Warm-up looked the variable up once; the execution never came here.
        CachedStatement::VariableAccess { cache, .. } => {
            assert_eq!(cache.cache_entries[0].hit_count, 1);
        }
        other => panic!("unexpected statement {:?}", other),
    }
    // The same call again is a hit.
    program.truncate(1);
    runtime.execute_cached(&mut program).unwrap();
    match &program[0] {
        CachedStatement::Call { call_cache: Some(site), .. } => assert_eq!(site.hit_count, 2),
        other => panic!("unexpected statement {:?}", other),
    }
}

#[test]
fn a_new_cache_version_empties_every_site() {
    let mut runtime = OptimizedEllexRuntime::new();
    runtime.set_variable("x".to_string(), text("a"));
    let f = EllexFunction { name: "f".to_string(), body: vec![], params: vec![] };
    runtime.add_function("f".to_string(), f);
    let list = EllexValue::List(vec![number(1.0)]);
    let mut program = vec![
        CachedStatement::Tell { value: list, cache: None },
        CachedStatement::Call { function_name: "f".to_string(), args: vec![], call_cache: None },
        CachedStatement::Repeat {
            times: 3,
            body: vec![CachedStatement::VariableAccess {
                variable_name: "x".to_string(),
                cache: VariableCache::new("x".to_string()),
            }],
            iteration_cache: None,
        },
    ];
    let hits = |program: &Vec<CachedStatement>| -> (u64, u64, u64, u64) {
        let told = match &program[0] {
            CachedStatement::Tell { cache: Some(entry), .. } => entry.hit_count,
            other => panic!("unexpected statement {:?}", other),
        };
        let called = match &program[1] {
            CachedStatement::Call { call_cache: Some(site), .. } => site.hit_count,
            other => panic!("unexpected statement {:?}", other),
        };
        match &program[2] {
            CachedStatement::Repeat { body, iteration_cache: Some(entry), .. } => match &body[0] {
                CachedStatement::VariableAccess { cache, .. } => {
                    (told, called, entry.hit_count, cache.cache_entries[0].hit_count)
                }
                other => panic!("unexpected statement {:?}", other),
            },
            other => panic!("unexpected statement {:?}", other),
        }
    };
    runtime.execute_cached(&mut program).unwrap();
    assert_eq!(hits(&program), (1, 1, 2, 4));
    runtime.execute_cached(&mut program).unwrap();
    assert_eq!(hits(&program), (2, 2, 5, 8));
    runtime.clear_caches();
    assert_eq!(runtime.cache_version(), 1);
    runtime.execute_cached(&mut program).unwrap();
    // Every site started anew: the output and the loop made their entries,
    // the call was recorded, and the variable site was looked up three times.
    assert_eq!(hits(&program), (0, 1, 2, 3));
    runtime.execute_cached(&mut program).unwrap();
    assert_eq!(hits(&program), (1, 2, 5, 7));
}

#[test]
fn given_readings_decide_where_the_clock_runs_out() {
    let mut runtime = OptimizedEllexRuntime::with_limits(ExecutionLimits::for_advanced(), true);
    let program = || {
        vec![CachedStatement::from_statement(Statement::Repeat(
            100,
            vec![Statement::Tell(text("x"))],
        ))]
    };
    // No reading above the timeout: the loop runs to its end.
    let calm: Vec<u64> = vec![5; 201];
    assert!(runtime.execute_cached_at(&mut program(), &calm).is_ok());
    assert_eq!(outputs(&runtime).len(), 100);
    assert_eq!(runtime.readings(), &calm);
    assert_eq!(runtime.monitor().instruction_count(), 201);
    // Behind the readings the clock reads zero.
    runtime.take_effects();
    assert!(runtime.execute_cached_at(&mut program(), &vec![]).is_ok());
    assert_eq!(outputs(&runtime).len(), 100);
    // One check-point for the loop and two for each round: the seventh is
    // the one before the third output.
    runtime.take_effects();
    let mut late: Vec<u64> = vec![0; 7];
    late[6] = 30_001;
    match runtime.execute_cached_at(&mut program(), &late) {
        Err(EllexError::Timeout { limit_ms }) => assert_eq!(limit_ms, 30_000),
        other => panic!("expected a timeout, got {:?}", other),
    }
    assert_eq!(outputs(&runtime).len(), 2);
    assert_eq!(runtime.monitor().instruction_count(), 7);
    // A reading at the timeout is within it.
    runtime.take_effects();
    late[6] = 30_000;
    assert!(runtime.execute_cached_at(&mut program(), &late).is_ok());
    assert_eq!(outputs(&runtime).len(), 100);
}

#[test]
fn the_instruction_ceiling_is_tested_before_the_clock() {
    let limits = ExecutionLimits::new().with_timeout(10);
    let mut runtime = OptimizedEllexRuntime::with_limits(limits, true);
    let mut program = vec![CachedStatement::from_statement(Statement::Repeat(
        10_000,
        vec![
            Statement::Tell(text("a")),
            Statement::Tell(text("b")),
            Statement::Tell(text("c")),
            Statement::Tell(text("d")),
            Statement::Tell(text("e")),
            Statement::Tell(text("f")),
            Statement::Tell(text("g")),
            Statement::Tell(text("h")),
            Statement::Tell(text("i")),
            Statement::Tell(text("j")),
        ],
    ))];
    // The clock runs out at the very check-point that passes the ceiling.
    let mut readings: Vec<u64> = vec![0; 100_001];
    readings[100_000] = 11;
    match runtime.execute_cached_at(&mut program, &readings) {
        Err(EllexError::InstructionLimitExceeded { count }) => assert_eq!(count, 100_001),
        other => panic!("expected the instruction limit, got {:?}", other),
    }
}

#[test]
fn the_readings_of_an_execution_replay_it() {
    let mut first = OptimizedEllexRuntime::new();
    let program = || {
        vec![
            CachedStatement::from_statement(Statement::Assignment("x".to_string(), number(1.0))),
            CachedStatement::from_statement(Statement::Repeat(3, vec![Statement::Tell(text("x"))])),
        ]
    };
    let result = first.execute_cached(&mut program());
    // One reading for each check-point: two statements, three rounds, three outputs.
    assert_eq!(first.readings().len(), 8);
    let readings = first.readings().clone();
    let mut second = OptimizedEllexRuntime::new();
    let replayed = second.execute_cached_at(&mut program(), &readings);
    assert_eq!(result.is_ok(), replayed.is_ok());
    assert_eq!(outputs(&first), outputs(&second));
    assert_eq!(first.monitor().instruction_count(), second.monitor().instruction_count());
    // An empty program reads no clock.
    assert!(first.execute_cached(&mut vec![]).is_ok());
    assert!(first.readings().is_empty());
}
