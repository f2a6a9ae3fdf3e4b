use ellex_core::minielixir::{BinaryOperator, CaseClause, MiniElixirExpr, UnaryOperator};
use ellex_core::minielixir_validator::MiniElixirValidator;
use ellex_core::EllexError;

fn whole(n: i64) -> MiniElixirExpr {
    MiniElixirExpr::Integer(n)
}

fn call(name: &str, args: Vec<MiniElixirExpr>) -> MiniElixirExpr {
    MiniElixirExpr::Call { function: name.to_string(), args }
}

fn nested(depth: usize) -> MiniElixirExpr {
    let mut e = whole(1);
    for _ in 0..depth {
        e = MiniElixirExpr::UnaryOp { op: UnaryOperator::Minus, operand: Box::new(e) };
    }
    e
}

fn violation(r: Result<(), EllexError>) -> String {
    match r {
        Err(EllexError::SafetyViolation { reason }) => reason,
        other => panic!("Expected a safety violation, got {:?}", other),
    }
}

#[test]
fn test_validate_literals() {
    let validator = MiniElixirValidator::new();

    assert!(validator.validate(&MiniElixirExpr::Nil).is_ok());
    assert!(validator.validate(&MiniElixirExpr::Boolean(true)).is_ok());
    assert!(validator.validate(&MiniElixirExpr::Integer(42)).is_ok());
    assert!(validator.validate(&MiniElixirExpr::String("hello".to_string())).is_ok());
    assert!(validator.validate(&MiniElixirExpr::Atom("test".to_string())).is_ok());
}

#[test]
fn test_validate_forbidden_strings() {
    let validator = MiniElixirValidator::new();

    let forbidden_expr = MiniElixirExpr::String("System.cmd('rm -rf /')".to_string());
    assert!(validator.validate(&forbidden_expr).is_err());
}

#[test]
fn test_validate_allowed_functions() {
    let validator = MiniElixirValidator::new();

    let length_call = MiniElixirExpr::Call {
        function: "length".to_string(),
        args: vec![MiniElixirExpr::List(vec![MiniElixirExpr::Integer(1)])],
    };
    assert!(validator.validate(&length_call).is_ok());
}

#[test]
fn test_validate_forbidden_functions() {
    let validator = MiniElixirValidator::new();

    let spawn_call = MiniElixirExpr::Call {
        function: "spawn".to_string(),
        args: vec![],
    };
    assert!(validator.validate(&spawn_call).is_err());
}

#[test]
fn test_complexity_scoring() {
    let validator = MiniElixirValidator::new();

    let simple_expr = MiniElixirExpr::Integer(42);
    let complex_expr = MiniElixirExpr::BinaryOp {
        op: BinaryOperator::Add,
        left: Box::new(MiniElixirExpr::Integer(1)),
        right: Box::new(MiniElixirExpr::Integer(2)),
    };

    assert!(validator.complexity_score(&simple_expr) < validator.complexity_score(&complex_expr));
}

#[test]
fn test_deterministic_check() {
    let validator = MiniElixirValidator::new();

    let deterministic = MiniElixirExpr::BinaryOp {
        op: BinaryOperator::Add,
        left: Box::new(MiniElixirExpr::Integer(1)),
        right: Box::new(MiniElixirExpr::Integer(2)),
    };

    assert!(validator.is_deterministic(&deterministic));
}

#[test]
fn a_denylisted_string_is_a_safety_violation() {
    let validator = MiniElixirValidator::new();
    let reason = violation(
        validator.validate(&MiniElixirExpr::String("File and System.cmd(...)".to_string())),
    );
    assert_eq!(reason, "Forbidden pattern 'System' found in string");
    let reason = violation(validator.validate_atom_name("a:osb"));
    assert_eq!(reason, "Forbidden pattern ':os' found in atom");
    let reason = violation(validator.validate_string_content(&"x".repeat(10001)));
    assert_eq!(reason, "String too long (max: 10000 characters)");
    assert!(validator.validate_string_content(&"x".repeat(10000)).is_ok());
    assert!(validator.validate_string_content(&"é".repeat(5001)).is_err());
}

#[test]
fn names_must_be_words() {
    let validator = MiniElixirValidator::new();
    assert!(validator.validate_variable_name("_count1").is_ok());
    assert!(validator.validate_variable_name("").is_ok());
    assert!(matches!(
        validator.validate_variable_name("Count"),
        Err(EllexError::ParseError { line: 0, column: 0, message })
            if message == "Variable names must start with lowercase letter or underscore"
    ));
    assert!(matches!(
        validator.validate_variable_name("a-b"),
        Err(EllexError::ParseError { message, .. }) if message == "Invalid characters in variable name"
    ));
    assert!(matches!(
        validator.validate_atom_name("not ok"),
        Err(EllexError::ParseError { message, .. }) if message == "Invalid atom name format"
    ));
    assert!(validator.validate_binary_operator(&BinaryOperator::Put).is_ok());
    assert!(validator.validate_unary_operator(&UnaryOperator::Not).is_ok());
}

#[test]
fn calls_need_an_allowed_name_and_the_right_arity() {
    let validator = MiniElixirValidator::new();
    assert_eq!(
        violation(validator.validate(&call("spawn", vec![]))),
        "Function 'spawn' is not allowed"
    );
    assert!(matches!(
        validator.validate(&call("hd", vec![])),
        Err(EllexError::LogicError { message }) if message == "Function 'hd/1' expects exactly one argument"
    ));
    assert!(matches!(
        validator.validate(&call("elem", vec![whole(1)])),
        Err(EllexError::LogicError { message }) if message == "Function 'elem/2' expects exactly two arguments"
    ));
    assert!(validator.validate(&call("elem", vec![whole(1), whole(2)])).is_ok());
    assert!(validator.allows("tuple_size"));
    assert!(!validator.allows("double"));
    let extended = MiniElixirValidator::new()
        .with_custom_functions(vec!["double".to_string(), "hd".to_string()]);
    assert!(extended.allows("double"));
    assert!(extended.allows("length"));
    assert!(extended.validate(&call("double", vec![whole(1), whole(2), whole(3)])).is_ok());
    assert!(!extended.is_deterministic(&call("double", vec![])));
}

#[test]
fn depth_and_size_have_ceilings() {
    let validator = MiniElixirValidator::new();
    assert!(validator.validate(&nested(50)).is_ok());
    assert_eq!(
        violation(validator.validate(&nested(51))),
        "Expression too deeply nested (max: 50)"
    );
    assert!(validator.validate(&MiniElixirExpr::List(vec![whole(0); 1000])).is_ok());
    assert_eq!(
        violation(validator.validate(&MiniElixirExpr::List(vec![whole(0); 1001]))),
        "List too large (max: 1000)"
    );
    assert_eq!(
        violation(validator.validate(&MiniElixirExpr::Tuple(vec![whole(0); 1001]))),
        "Tuple too large (max: 1000)"
    );
    assert_eq!(
        violation(validator.validate(&MiniElixirExpr::Block(vec![whole(0); 1001]))),
        "Block too large (max: 1000)"
    );
    let pairs = vec![(whole(0), whole(1)); 1001];
    assert_eq!(
        violation(validator.validate(&MiniElixirExpr::MapLiteral(pairs))),
        "Map too large (max: 1000)"
    );
}

#[test]
fn the_first_finding_in_walk_order_is_reported() {
    let validator = MiniElixirValidator::new();
    let expr = MiniElixirExpr::If {
        condition: Box::new(MiniElixirExpr::Variable("ok".to_string())),
        then_branch: Box::new(MiniElixirExpr::MapLiteral(vec![(
            MiniElixirExpr::Atom("fine".to_string()),
            call("spawn", vec![]),
        )])),
        else_branch: Some(Box::new(MiniElixirExpr::String("Process".to_string()))),
    };
    assert_eq!(violation(validator.validate(&expr)), "Function 'spawn' is not allowed");
    let case = MiniElixirExpr::Case {
        expr: Box::new(whole(1)),
        clauses: vec![CaseClause {
            pattern: whole(1),
            guard: Some(MiniElixirExpr::String("spawn".to_string())),
            body: MiniElixirExpr::String("File".to_string()),
        }],
    };
    assert_eq!(
        violation(validator.validate(&case)),
        "Forbidden pattern 'spawn' found in string"
    );
}

#[test]
fn weights_follow_the_table() {
    let validator = MiniElixirValidator::new();
    let one = || whole(1);
    assert_eq!(validator.complexity_score(&one()), 1);
    assert_eq!(validator.complexity_score(&MiniElixirExpr::List(vec![one(), one()])), 3);
    assert_eq!(validator.complexity_score(&MiniElixirExpr::Block(vec![one(), one()])), 4);
    assert_eq!(validator.complexity_score(&MiniElixirExpr::MapLiteral(vec![(one(), one())])), 3);
    assert_eq!(validator.complexity_score(&nested(1)), 3);
    assert_eq!(validator.complexity_score(&call("length", vec![MiniElixirExpr::List(vec![one(), one(), one()])])), 9);
    let pipe = MiniElixirExpr::Pipe { value: Box::new(one()), function: Box::new(one()) };
    assert_eq!(validator.complexity_score(&pipe), 5);
    let matched = MiniElixirExpr::Match { pattern: Box::new(one()), value: Box::new(one()) };
    assert_eq!(validator.complexity_score(&matched), 6);
    let access = MiniElixirExpr::Access { object: Box::new(one()), key: Box::new(one()) };
    assert_eq!(validator.complexity_score(&access), 5);
    let conditional = MiniElixirExpr::If {
        condition: Box::new(one()),
        then_branch: Box::new(one()),
        else_branch: None,
    };
    assert_eq!(validator.complexity_score(&conditional), 7);
    let case = MiniElixirExpr::Case {
        expr: Box::new(one()),
        clauses: vec![
            CaseClause { pattern: one(), guard: Some(one()), body: one() },
            CaseClause { pattern: one(), guard: None, body: one() },
        ],
    };
    assert_eq!(validator.complexity_score(&case), 16);
    assert!(!validator.is_deterministic(&case));
    assert!(validator.is_deterministic(&access));
    assert!(!validator.is_deterministic(&MiniElixirExpr::List(vec![one(), call("now", vec![])])));
    assert!(validator.is_deterministic(&MiniElixirExpr::MapLiteral(vec![(one(), one())])));
}
