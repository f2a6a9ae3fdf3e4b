use ellex_core::safety::{ExecutionLimits, SafetyError, SafetyMonitor, SafetyWarning};

#[test]
fn safety_test_execution_limits_creation() {
    let limits = ExecutionLimits::new();
    assert_eq!(limits.timeout_ms, 5000);
    assert_eq!(limits.memory_limit_mb, 64);
    assert_eq!(limits.max_recursion_depth, 100);
    assert_eq!(limits.max_loop_iterations, 10000);
}

#[test]
fn test_safety_monitor_basic() {
    let limits = ExecutionLimits::new();
    let mut monitor = SafetyMonitor::new(limits);

    // Should start successfully
    assert!(monitor.check_execution_start().is_ok());

    // Should continue successfully for a while
    for _ in 0..100 {
        assert!(monitor.check_execution_continue().is_ok());
    }
}

#[test]
fn test_recursion_depth() {
    let limits = ExecutionLimits::new();
    let mut monitor = SafetyMonitor::new(limits);

    // Should allow recursion up to limit
    for _ in 0..100 {
        assert!(monitor.check_recursion_depth().is_ok());
    }

    // Should fail on next call
    assert!(matches!(
        monitor.check_recursion_depth(),
        Err(SafetyError::RecursionDepthExceeded { .. })
    ));
}

#[test]
fn test_loop_limits() {
    let limits = ExecutionLimits::new();
    let monitor = SafetyMonitor::new(limits);

    // Should reject loops that are too large
    assert!(matches!(
        monitor.check_loop_start(20000),
        Err(SafetyError::LoopLimitExceeded { .. })
    ));

    // Should accept reasonable loops
    assert!(monitor.check_loop_start(100).is_ok());
}

#[test]
fn test_memory_tracking() {
    let limits = ExecutionLimits::new();
    let mut monitor = SafetyMonitor::new(limits);

    monitor.update_memory_usage(100); // Over limit

    assert!(matches!(
        monitor.check_execution_continue(),
        Err(SafetyError::MemoryLimitExceeded { .. })
    ));
}

#[test]
fn test_safety_stats() {
    let limits = ExecutionLimits::new();
    let mut monitor = SafetyMonitor::new(limits);

    monitor.check_execution_start().unwrap();
    for _ in 0..50 {
        monitor.check_execution_continue().unwrap();
    }

    let stats = monitor.get_stats();
    assert_eq!(stats.instruction_count, 50);
    assert!(stats.elapsed_ms < 1000); // Should be very fast
}

#[test]
fn test_warning_thresholds() {
    let limits = ExecutionLimits::new();
    let mut monitor = SafetyMonitor::new(limits);

    // Set memory to warning threshold
    monitor.update_memory_usage(52); // 52/64 = ~81%

    let warnings = monitor.check_warning_thresholds();
    assert!(!warnings.is_empty());
    assert!(matches!(warnings[0], SafetyWarning::NearMemoryLimit { .. }));
}

#[test]
fn safety_test_beginner_vs_advanced_limits() {
    let beginner = ExecutionLimits::for_beginners();
    let advanced = ExecutionLimits::for_advanced();

    assert!(beginner.timeout_ms < advanced.timeout_ms);
    assert!(beginner.memory_limit_mb < advanced.memory_limit_mb);
    assert!(beginner.max_recursion_depth < advanced.max_recursion_depth);
    assert!(beginner.max_loop_iterations < advanced.max_loop_iterations);
}

#[test]
fn test_reset_functionality() {
    let limits = ExecutionLimits::new();
    let mut monitor = SafetyMonitor::new(limits);

    // Do some work
    monitor.check_execution_start().unwrap();
    for _ in 0..100 {
        monitor.check_execution_continue().unwrap();
    }
    monitor.check_recursion_depth().unwrap();

    let stats_before = monitor.get_stats();
    assert!(stats_before.instruction_count > 0);
    assert!(stats_before.recursion_depth > 0);

    // Reset
    monitor.reset();

    let stats_after = monitor.get_stats();
    assert_eq!(stats_after.instruction_count, 0);
    assert_eq!(stats_after.recursion_depth, 0);
}

#[test]
fn instruction_limit_fails_on_the_first_call_past_the_limit() {
    let limits = ExecutionLimits::new().with_timeout(60000);
    let mut monitor = SafetyMonitor::new(limits);
    monitor.check_execution_start().unwrap();
    for _ in 0..limits.max_instructions {
        assert_eq!(monitor.check_execution_continue_at(0), Ok(()));
    }
    assert_eq!(
        monitor.check_execution_continue_at(0),
        Err(SafetyError::InstructionLimitExceeded { count: 100001 })
    );
}

#[test]
fn checkpoint_tests_instructions_then_time_then_memory() {
    let limits = ExecutionLimits {
        timeout_ms: 10,
        memory_limit_mb: 5,
        max_recursion_depth: 3,
        max_loop_iterations: 4,
        max_instructions: 1,
    };
    let mut monitor = SafetyMonitor::new(limits);
    monitor.update_memory_usage(6);
    assert_eq!(
        monitor.check_execution_continue_at(11),
        Err(SafetyError::ExecutionTimeout { limit_ms: 10 })
    );
    assert_eq!(
        monitor.check_execution_continue_at(11),
        Err(SafetyError::InstructionLimitExceeded { count: 2 })
    );
    monitor.reset();
    monitor.update_memory_usage(6);
    assert_eq!(
        monitor.check_execution_continue_at(10),
        Err(SafetyError::MemoryLimitExceeded { current_mb: 6, limit_mb: 5 })
    );
}

#[test]
fn loop_start_boundary_is_inclusive() {
    let monitor = SafetyMonitor::new(ExecutionLimits::new());
    assert_eq!(monitor.check_loop_start(10000), Ok(()));
    assert_eq!(
        monitor.check_loop_start(10001),
        Err(SafetyError::LoopLimitExceeded { current: 10001, limit: 10000 })
    );
}

#[test]
fn loop_iteration_at_the_ceiling_fails_without_counting() {
    let limits = ExecutionLimits::new().with_loop_limit(3);
    let mut monitor = SafetyMonitor::new(limits);
    assert_eq!(monitor.check_loop_iteration_at(2, 0), Ok(()));
    assert_eq!(monitor.instruction_count(), 1);
    assert_eq!(
        monitor.check_loop_iteration_at(3, 0),
        Err(SafetyError::LoopLimitExceeded { current: 3, limit: 3 })
    );
    assert_eq!(monitor.instruction_count(), 1);
}

#[test]
fn recursion_depth_is_counted_and_released() {
    let limits = ExecutionLimits::new().with_recursion_limit(2);
    let mut monitor = SafetyMonitor::new(limits);
    assert_eq!(monitor.check_recursion_depth(), Ok(()));
    assert_eq!(monitor.check_recursion_depth(), Ok(()));
    assert_eq!(
        monitor.check_recursion_depth(),
        Err(SafetyError::RecursionDepthExceeded { current: 3, limit: 2 })
    );
    monitor.exit_recursion();
    assert_eq!(monitor.recursion_depth(), 2);
    monitor.exit_recursion();
    monitor.exit_recursion();
    monitor.exit_recursion();
    assert_eq!(monitor.recursion_depth(), 0);
}

#[test]
fn warnings_come_in_order_time_memory_recursion() {
    let limits = ExecutionLimits::new();
    let mut monitor = SafetyMonitor::new(limits);
    assert!(monitor.warnings_at(4000).is_empty());
    monitor.update_memory_usage(52);
    for _ in 0..91 {
        monitor.check_recursion_depth().unwrap();
    }
    let warnings = monitor.warnings_at(4001);
    assert_eq!(
        warnings,
        vec![
            SafetyWarning::NearTimeout { current_ms: 4001, limit_ms: 5000 },
            SafetyWarning::NearMemoryLimit { current_mb: 52, limit_mb: 64 },
            SafetyWarning::DeepRecursion { current: 91, limit: 100 },
        ]
    );
    assert_eq!(
        warnings[0].friendly_message(),
        "⏰ Your code is taking a while (4001/5000ms). Try to make it simpler!"
    );
    assert_eq!(
        warnings[2].friendly_message(),
        "🔄 Your functions are calling each other a lot (91/100). Watch out for infinite loops!"
    );
}

#[test]
fn stats_warn_above_eighty_and_ninety_percent() {
    let limits = ExecutionLimits::new();
    let mut monitor = SafetyMonitor::new(limits);
    let mut stats = monitor.get_stats();
    stats.elapsed_ms = 4000;
    assert!(!stats.has_warnings());
    stats.elapsed_ms = 4001;
    assert!(stats.has_warnings());
    monitor.update_memory_usage(32);
    for _ in 0..50 {
        monitor.check_recursion_depth().unwrap();
    }
    let mut half = monitor.get_stats();
    half.elapsed_ms = 0;
    assert!(!half.has_warnings());
}

#[test]
fn update_limits_keeps_the_counters() {
    let mut monitor = SafetyMonitor::new(ExecutionLimits::new());
    monitor.check_execution_continue_at(0).unwrap();
    monitor.update_limits(ExecutionLimits::for_beginners());
    assert_eq!(monitor.get_limits().max_loop_iterations, 1000);
    assert_eq!(monitor.instruction_count(), 1);
    assert_eq!(ExecutionLimits::default(), ExecutionLimits::new());
}

#[test]
fn test_instruction_limit() {
    let limits = ExecutionLimits::new().with_timeout(60000);
    let mut monitor = SafetyMonitor::new(limits);

    monitor.check_execution_start().unwrap();

    for i in 0..200000 {
        match monitor.check_execution_continue() {
            Ok(()) => continue,
            Err(SafetyError::InstructionLimitExceeded { .. }) => {
                // The first hundred thousand calls pass; the next one fails.
                assert_eq!(i, 100000);
                return;
            }
            Err(e) => panic!("Unexpected error: {:?}", e),
        }
    }
    panic!("Should have hit instruction limit");
}

#[test]
fn a_round_is_checked_on_the_clock_of_the_monitor() {
    let limits = ExecutionLimits::new().with_loop_limit(3).with_timeout(60000);
    let mut monitor = SafetyMonitor::new(limits);
    for round in 0..3 {
        assert!(monitor.check_loop_iteration(round).is_ok());
    }
    assert_eq!(monitor.instruction_count(), 3);
    match monitor.check_loop_iteration(3) {
        Err(SafetyError::LoopLimitExceeded { current, limit }) => assert_eq!((current, limit), (3, 3)),
        other => panic!("expected the loop limit, got {:?}", other),
    }
    // A round that is refused is not counted.
    assert_eq!(monitor.instruction_count(), 3);
    assert!(monitor.elapsed_ms() < 60000);
}
