use ellex_core::safety::SafetyError;
use ellex_core::{friendly_error_message, EllexConfig, EllexError};

#[test]
fn test_ellex_config_default() {
    let config = EllexConfig::default();
    assert_eq!(config.execution_timeout_ms, 5000);
    assert_eq!(config.memory_limit_mb, 64);
    assert!(config.enable_turtle);
    assert!(config.enable_ai);
}

#[test]
fn test_friendly_error_messages() {
    let timeout_error = EllexError::Timeout { limit_ms: 5000 };
    let friendly = friendly_error_message(&timeout_error);
    assert!(friendly.contains("long time"));
    assert!(friendly.contains("🐌"));
}

#[test]
fn friendly_messages_keep_the_details() {
    let parse_error = EllexError::ParseError {
        line: 1,
        column: 5,
        message: "Unexpected token".to_string(),
    };
    assert_eq!(
        friendly_error_message(&parse_error),
        "I didn't understand that. Unexpected token 🤔"
    );
    let unknown_error = EllexError::UnknownCommand {
        input: "foobar".to_string(),
        suggestion: "Try 'tell' instead".to_string(),
    };
    assert_eq!(
        friendly_error_message(&unknown_error),
        "I don't know how to 'foobar'. Try 'tell' instead 💡"
    );
    let logic = EllexError::LogicError { message: "no".to_string() };
    assert_eq!(friendly_error_message(&logic), "That doesn't make sense: no 🤷");
    let safety = EllexError::SafetyViolation { reason: "stop".to_string() };
    assert_eq!(friendly_error_message(&safety), "Safety first! stop 🛡️");
    let limit = EllexError::LoopLimitExceeded { current: 7, limit: 5 };
    assert_eq!(
        friendly_error_message(&limit),
        "Safety first! Loop iteration limit exceeded: 7 > 5 🛡️"
    );
}

#[test]
fn errors_render_with_their_figures() {
    assert_eq!(
        EllexError::Timeout { limit_ms: 5000 }.to_string(),
        "Execution timeout: code took longer than 5000ms"
    );
    assert_eq!(
        EllexError::ParseError { line: 3, column: 14, message: "oops".to_string() }.to_string(),
        "Parse error at line 3, column 14: oops"
    );
    assert_eq!(
        EllexError::UnknownCommand { input: "x".to_string(), suggestion: "y".to_string() }
            .to_string(),
        "I don't understand 'x'. y"
    );
    assert_eq!(
        EllexError::LogicError { message: "m".to_string() }.to_string(),
        "That doesn't make sense here: m"
    );
    assert_eq!(
        EllexError::SafetyViolation { reason: "r".to_string() }.to_string(),
        "Safety first! r"
    );
    assert_eq!(
        EllexError::InstructionLimitExceeded { count: 100001 }.to_string(),
        "Instruction count exceeded: 100001"
    );
    assert_eq!(
        EllexError::MemoryLimitExceeded { current_mb: 100, limit_mb: 64 }.to_string(),
        "Memory limit exceeded: 100MB > 64MB"
    );
    assert_eq!(
        EllexError::RecursionDepthExceeded { current: 150, limit: 100 }.to_string(),
        "Recursion depth exceeded: 150 > 100"
    );
}

#[test]
fn limit_errors_keep_kind_and_figures() {
    let errors = [
        SafetyError::ExecutionTimeout { limit_ms: 9 },
        SafetyError::MemoryLimitExceeded { current_mb: 2, limit_mb: 1 },
        SafetyError::RecursionDepthExceeded { current: 4, limit: 3 },
        SafetyError::LoopLimitExceeded { current: 6, limit: 5 },
        SafetyError::InstructionLimitExceeded { count: 8 },
    ];
    for error in errors {
        assert_eq!(EllexError::from_safety(error).as_safety(), Some(error));
    }
    assert!(matches!(
        EllexError::from_safety(errors[0]),
        EllexError::Timeout { limit_ms: 9 }
    ));
    assert_eq!(EllexError::LogicError { message: String::new() }.as_safety(), None);
}

#[test]
fn config_asks_for_its_limits() {
    let config = EllexConfig {
        execution_timeout_ms: 15000,
        memory_limit_mb: 256,
        enable_turtle: false,
        enable_ai: false,
        max_recursion_depth: 50,
        max_loop_iterations: 5000,
    };
    let limits = config.to_limits();
    assert_eq!(limits.timeout_ms, 15000);
    assert_eq!(limits.memory_limit_mb, 256);
    assert_eq!(limits.max_recursion_depth, 50);
    assert_eq!(limits.max_loop_iterations, 5000);
    assert_eq!(limits.max_instructions, 100000);
}
