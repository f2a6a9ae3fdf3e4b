use ellex_core::sequin_minielixir::{
    call_function, eval_literal, evaluate_ast, parse_code, read_integer, BinaryOperator,
    CaseClause, ExecutionContext, Literal, MiniElixirAST, SequinMiniElixir, UnaryOperator,
};
use ellex_core::{Bindings, EllexError, EllexValue};

#[test]
fn the_allow_list_names_modules_and_functions() {
    let sequin = SequinMiniElixir::new();
    assert!(sequin.is_allowed("Kernel", "length"));
    assert!(sequin.is_allowed("Kernel", "get_in"));
    assert!(sequin.is_allowed("Kernel", "map_size"));
    assert!(sequin.is_allowed("Enum", "any?"));
    assert!(sequin.is_allowed("Enum", "sum"));
    assert!(sequin.is_allowed("String", "to_float"));
    assert!(sequin.is_allowed("Map", "has_key?"));
    assert!(sequin.is_allowed("DateTime", "utc_now"));
    assert!(!sequin.is_allowed("Kernel", "spawn"));
    assert!(!sequin.is_allowed("Enum", "length"));
    assert!(!sequin.is_allowed("System", "cmd"));
    assert!(!sequin.is_allowed("File", "read"));
    assert!(!sequin.is_allowed("kernel", "length"));
    assert!(SequinMiniElixir::default().is_allowed("Map", "pop"));
}

#[test]
fn test_sequin_minielixir_basic() {
    let interpreter = SequinMiniElixir::new();
    let context = ExecutionContext::new();

    let result = interpreter.execute("42", &context).unwrap();
    assert_eq!(result, EllexValue::Number(42.0f64.to_bits()));
}

#[test]
fn test_execution_context() {
    let mut record = Bindings::new();
    record.insert("id".to_string(), EllexValue::Number(123.0f64.to_bits()));
    record.insert("name".to_string(), EllexValue::String("test".to_string()));

    let context = ExecutionContext::new().with_action("insert".to_string()).with_record(record);

    assert_eq!(context.action, "insert");
    assert_eq!(context.record.len(), 2);
}

#[test]
fn test_timeout_enforcement() {
    let interpreter = SequinMiniElixir::new();
    let context = ExecutionContext::new();

    // This would timeout in a real recursive implementation
    let result = interpreter.execute("42", &context);
    assert!(result.is_ok());
}

fn number(x: f64) -> EllexValue {
    EllexValue::Number(x.to_bits())
}

fn text(s: &str) -> EllexValue {
    EllexValue::String(s.to_string())
}

#[test]
fn the_reader_gives_literals_and_variables() {
    let interpreter = SequinMiniElixir::new();
    let mut record = Bindings::new();
    record.insert("id".to_string(), number(123.0));
    let mut changes = Bindings::new();
    changes.insert("id".to_string(), number(7.0));
    let mut metadata = Bindings::new();
    metadata.insert("table.name".to_string(), text("users"));
    let context = ExecutionContext::default()
        .with_action("update".to_string())
        .with_record(record)
        .with_changes(changes)
        .with_metadata(metadata);
    let run = |code: &str| interpreter.execute_at(code, &context, 0);
    assert_eq!(run("nil").unwrap(), EllexValue::Nil);
    assert_eq!(run(" true ").unwrap(), text("true"));
    assert_eq!(run("false").unwrap(), text("false"));
    assert_eq!(run("\"hello world\"").unwrap(), text("hello world"));
    assert_eq!(run("\"\"").unwrap(), text(""));
    assert_eq!(run("42").unwrap(), number(42.0));
    assert_eq!(run("-42").unwrap(), number(-42.0));
    assert_eq!(run("+7").unwrap(), number(7.0));
    assert_eq!(run("-9223372036854775808").unwrap(), number(-9223372036854775808.0));
    assert_eq!(run("9223372036854775807").unwrap(), number(9223372036854775807.0));
    assert_eq!(run("9223372036854775808").unwrap(), number(9223372036854775808.0));
    assert_eq!(run("3.25").unwrap(), number(3.25));
    assert_eq!(run("1e3").unwrap(), number(1000.0));
    assert_eq!(run("action").unwrap(), text("update"));
    assert_eq!(run("record.id").unwrap(), number(123.0));
    assert_eq!(run("changes.id").unwrap(), number(7.0));
    assert_eq!(run("metadata.table.name").unwrap(), text("users"));
    for missing in ["record.name", "id", "record.", "records.id", "x + 1", "\"", ""] {
        match run(missing) {
            Err(EllexError::LogicError { message }) => {
                assert_eq!(message, format!("Variable '{}' is undefined", missing.trim()));
            }
            other => panic!("expected an undefined variable, got {:?}", other),
        }
    }
}

#[test]
fn the_timeout_is_tested_on_the_reading() {
    let interpreter = SequinMiniElixir::new();
    let context = ExecutionContext::new();
    assert_eq!(interpreter.execute_at("42", &context, 1000).unwrap(), number(42.0));
    match interpreter.execute_at("42", &context, 1001) {
        Err(EllexError::Timeout { limit_ms }) => assert_eq!(limit_ms, 1000),
        other => panic!("expected a timeout, got {:?}", other),
    }
    // The clock decides before the variable is looked up.
    assert!(matches!(
        interpreter.execute_at("missing", &context, u64::MAX),
        Err(EllexError::Timeout { .. })
    ));
}

#[test]
fn literals_have_their_values() {
    assert_eq!(eval_literal(&Literal::Atom("ok".to_string())), text(":ok"));
    assert_eq!(eval_literal(&Literal::Integer(i64::MIN)), number(i64::MIN as f64));
    assert_eq!(eval_literal(&Literal::Float(0.5f64.to_bits())), number(0.5));
    assert!(matches!(parse_code(" x "), MiniElixirAST::Variable(name) if name == "x"));
    assert!(matches!(parse_code("12"), MiniElixirAST::Literal(Literal::Integer(12))));
    assert!(matches!(parse_code("1.0"), MiniElixirAST::Literal(Literal::Float(_))));
    assert!(matches!(
        parse_code("00000000000000000012"),
        MiniElixirAST::Literal(Literal::Float(bits)) if bits == 12.0f64.to_bits()
    ));
    let chars = |s: &str| s.chars().collect::<Vec<char>>();
    for s in ["0", "-0", "+0", "12", "-12", "0000000000000000012", "9223372036854775807",
        "-9223372036854775808", "9223372036854775808", "-9223372036854775809", "", "-", "+",
        "1.0", "1e3", "12a", " 12", "00000000000000000012"]
    {
        // Nineteen digits at most; a longer numeral is read as a double of the same value.
        let digits = s.chars().filter(|c| c.is_ascii_digit()).count();
        let expected = if digits <= 19 { s.parse::<i64>().ok() } else { None };
        assert_eq!(read_integer(&chars(s)), expected, "{s}");
    }
}

fn lit(x: f64) -> MiniElixirAST {
    MiniElixirAST::Literal(Literal::Float(x.to_bits()))
}

fn words(s: &str) -> MiniElixirAST {
    MiniElixirAST::Literal(Literal::String(s.to_string()))
}

fn var(name: &str) -> MiniElixirAST {
    MiniElixirAST::Variable(name.to_string())
}

fn op(op: BinaryOperator, left: MiniElixirAST, right: MiniElixirAST) -> MiniElixirAST {
    MiniElixirAST::BinaryOp { op, left: Box::new(left), right: Box::new(right) }
}

fn call(module: Option<&str>, function: &str, args: Vec<MiniElixirAST>) -> MiniElixirAST {
    MiniElixirAST::FunctionCall {
        module: module.map(|m| m.to_string()),
        function: function.to_string(),
        args,
    }
}

fn logic(r: Result<EllexValue, EllexError>) -> String {
    match r {
        Err(EllexError::LogicError { message }) => message,
        other => panic!("expected a logic error, got {:?}", other),
    }
}

#[test]
fn operations_of_the_wider_dialect_evaluate() {
    let mut record = Bindings::new();
    record.insert("n".to_string(), number(4.0));
    let context = ExecutionContext::new().with_record(record);
    let eval = |ast: MiniElixirAST| evaluate_ast(&ast, &context);
    assert_eq!(eval(op(BinaryOperator::Add, var("record.n"), lit(0.5))).unwrap(), number(4.5));
    assert_eq!(eval(op(BinaryOperator::Subtract, lit(1.0), lit(3.0))).unwrap(), number(-2.0));
    assert_eq!(eval(op(BinaryOperator::Multiply, lit(1.5), lit(3.0))).unwrap(), number(4.5));
    assert_eq!(eval(op(BinaryOperator::Divide, lit(1.0), lit(3.0))).unwrap(), number(1.0 / 3.0));
    assert_eq!(logic(eval(op(BinaryOperator::Divide, lit(1.0), lit(0.0)))), "Division by zero");
    assert_eq!(eval(op(BinaryOperator::Add, words("a"), words("b"))).unwrap(), text("ab"));
    assert_eq!(logic(eval(op(BinaryOperator::Add, words("a"), lit(1.0)))), "Cannot add these types");
    assert_eq!(eval(op(BinaryOperator::Equal, lit(1.0), lit(1.0))).unwrap(), text("true"));
    assert_eq!(eval(op(BinaryOperator::NotEqual, lit(1.0), words("1"))).unwrap(), text("true"));
    assert_eq!(eval(op(BinaryOperator::LessThan, lit(1.0), lit(2.0))).unwrap(), text("true"));
    assert_eq!(eval(op(BinaryOperator::GreaterThanOrEqual, lit(1.0), lit(2.0))).unwrap(), text("false"));
    assert_eq!(logic(eval(op(BinaryOperator::LessThan, words("a"), lit(2.0)))), "Cannot compare these types");
    assert_eq!(eval(op(BinaryOperator::And, lit(0.0), lit(2.0))).unwrap(), number(0.0));
    assert_eq!(eval(op(BinaryOperator::Or, lit(0.0), lit(2.0))).unwrap(), number(2.0));
    assert_eq!(eval(op(BinaryOperator::Concat, words("n="), lit(2.5))).unwrap(), text("n=2.5"));
    let not = |x| MiniElixirAST::UnaryOp { op: UnaryOperator::Not, operand: Box::new(x) };
    let minus = |x| MiniElixirAST::UnaryOp { op: UnaryOperator::Minus, operand: Box::new(x) };
    assert_eq!(eval(not(words("false"))).unwrap(), text("true"));
    assert_eq!(eval(minus(lit(2.0))).unwrap(), number(-2.0));
    assert_eq!(logic(eval(minus(words("a")))), "Cannot negate non-numeric value");
    // The left part fails first.
    assert_eq!(
        logic(eval(op(BinaryOperator::Add, var("a"), var("b")))),
        "Variable 'a' is undefined"
    );
}

#[test]
fn lists_maps_and_blocks_of_the_wider_dialect_evaluate() {
    let context = ExecutionContext::new();
    let eval = |ast: MiniElixirAST| evaluate_ast(&ast, &context);
    let list = || MiniElixirAST::List(vec![lit(1.0), words("b")]);
    assert_eq!(eval(list()).unwrap(), EllexValue::List(vec![number(1.0), text("b")]));
    assert_eq!(
        eval(MiniElixirAST::Tuple(vec![lit(1.0)])).unwrap(),
        EllexValue::List(vec![number(1.0)])
    );
    assert_eq!(
        eval(MiniElixirAST::MapLiteral(vec![(words("k"), lit(1.0)), (words("l"), lit(2.0))])).unwrap(),
        EllexValue::List(vec![
            EllexValue::List(vec![text("k"), number(1.0)]),
            EllexValue::List(vec![text("l"), number(2.0)]),
        ])
    );
    assert_eq!(eval(MiniElixirAST::Block(vec![lit(1.0), lit(2.0)])).unwrap(), number(2.0));
    assert_eq!(eval(MiniElixirAST::Block(vec![])).unwrap(), EllexValue::Nil);
    let at = |i: f64| MiniElixirAST::ListAccess { list: Box::new(list()), index: Box::new(lit(i)) };
    assert_eq!(eval(at(1.0)).unwrap(), text("b"));
    assert_eq!(eval(at(2.0)).unwrap(), EllexValue::Nil);
    let bad = MiniElixirAST::ListAccess { list: Box::new(lit(1.0)), index: Box::new(lit(0.0)) };
    assert_eq!(logic(eval(bad)), "Invalid list access");
    let lenient = MiniElixirAST::MapAccess { map: Box::new(lit(1.0)), key: Box::new(lit(0.0)) };
    assert_eq!(eval(lenient).unwrap(), EllexValue::Nil);
    let first = MiniElixirAST::MapAccess { map: Box::new(list()), key: Box::new(lit(0.0)) };
    assert_eq!(eval(first).unwrap(), number(1.0));
    let matched = MiniElixirAST::PatternMatch { pattern: Box::new(var("x")), value: Box::new(lit(3.0)) };
    assert_eq!(eval(matched).unwrap(), number(3.0));
    let choose = |c: MiniElixirAST, otherwise: bool| MiniElixirAST::If {
        condition: Box::new(c),
        then_branch: Box::new(words("then")),
        else_branch: if otherwise { Some(Box::new(words("else"))) } else { None },
    };
    assert_eq!(eval(choose(lit(1.0), true)).unwrap(), text("then"));
    assert_eq!(eval(choose(lit(0.0), true)).unwrap(), text("else"));
    assert_eq!(eval(choose(lit(0.0), false)).unwrap(), EllexValue::Nil);
}

#[test]
fn cases_take_the_first_clause_whose_guard_holds() {
    let context = ExecutionContext::new();
    let clause = |guard: Option<MiniElixirAST>, body: &str| CaseClause {
        pattern: var("_"),
        guard,
        body: words(body),
    };
    let case = |clauses: Vec<CaseClause>| {
        evaluate_ast(&MiniElixirAST::Case { expr: Box::new(lit(1.0)), clauses }, &context)
    };
    assert_eq!(case(vec![clause(None, "a"), clause(None, "b")]).unwrap(), text("a"));
    assert_eq!(
        case(vec![clause(Some(lit(0.0)), "a"), clause(Some(lit(1.0)), "b"), clause(None, "c")]).unwrap(),
        text("b")
    );
    assert_eq!(logic(case(vec![clause(Some(lit(0.0)), "a")])), "No matching case clause");
    assert_eq!(logic(case(vec![])), "No matching case clause");
    assert_eq!(
        logic(case(vec![clause(Some(var("g")), "a"), clause(None, "b")])),
        "Variable 'g' is undefined"
    );
}

#[test]
fn functions_of_the_wider_dialect_give_their_values() {
    let context = ExecutionContext::new();
    let eval = |ast: MiniElixirAST| evaluate_ast(&ast, &context);
    assert_eq!(eval(call(None, "to_string", vec![lit(2.5)])).unwrap(), text("2.5"));
    assert_eq!(eval(call(Some("Kernel"), "to_string", vec![words("a")])).unwrap(), text("a"));
    assert_eq!(eval(call(None, "inspect", vec![words("a")])).unwrap(), text("String(\"a\")"));
    assert_eq!(eval(call(None, "inspect", vec![lit(1.0)])).unwrap(), text("Number(1.0)"));
    assert_eq!(
        eval(call(Some("Kernel"), "inspect", vec![words("say \"hi\"")])).unwrap(),
        text("String(\"say \\\"hi\\\"\")")
    );
    assert_eq!(logic(eval(call(None, "inspect", vec![]))), "inspect/1 expects exactly 1 argument");
    assert_eq!(logic(eval(call(None, "to_string", vec![]))), "to_string/1 expects exactly 1 argument");
    assert_eq!(eval(call(None, "get_in", vec![lit(1.0), lit(2.0)])).unwrap(), EllexValue::Nil);
    assert_eq!(logic(eval(call(None, "get_in", vec![lit(1.0)]))), "get_in/2 expects exactly 2 arguments");
    assert_eq!(eval(call(None, "is_nil", vec![])).unwrap(), text("false"));
    assert_eq!(eval(call(None, "length", vec![words("abc")])).unwrap(), number(0.0));
    assert_eq!(eval(call(None, "hd", vec![])).unwrap(), EllexValue::Nil);
    assert_eq!(eval(call(None, "tl", vec![])).unwrap(), EllexValue::List(vec![]));
    assert_eq!(eval(call(Some("Enum"), "empty?", vec![])).unwrap(), text("true"));
    assert_eq!(eval(call(Some("Enum"), "member?", vec![])).unwrap(), text("false"));
    assert_eq!(eval(call(Some("Enum"), "count", vec![])).unwrap(), number(0.0));
    assert_eq!(eval(call(Some("String"), "upcase", vec![words("a")])).unwrap(), text(""));
    assert_eq!(eval(call(Some("String"), "split", vec![])).unwrap(), EllexValue::List(vec![]));
    assert_eq!(eval(call(Some("Map"), "get", vec![])).unwrap(), EllexValue::Nil);
    assert_eq!(eval(call(Some("Map"), "keys", vec![])).unwrap(), EllexValue::List(vec![]));
    assert_eq!(logic(eval(call(Some("Enum"), "length", vec![]))), "Unknown function: Enum:length");
    assert_eq!(logic(eval(call(None, "spawn", vec![]))), "Unknown function: :spawn");
    assert_eq!(logic(eval(call(Some("Map"), "pop", vec![]))), "Unknown function: Map:pop");
    // An argument that fails is met before the function is looked for.
    assert_eq!(logic(eval(call(None, "spawn", vec![var("x")]))), "Variable 'x' is undefined");
    assert_eq!(
        logic(call_function(&Some("X".to_string()), "f", &vec![])),
        "Unknown function: X:f"
    );
    let pipe = |left: MiniElixirAST, right: MiniElixirAST| MiniElixirAST::Pipe {
        left: Box::new(left),
        right: Box::new(right),
    };
    assert_eq!(eval(pipe(lit(2.5), call(None, "to_string", vec![]))).unwrap(), text("2.5"));
    assert_eq!(
        logic(eval(pipe(lit(2.5), call(None, "to_string", vec![lit(1.0)])))),
        "to_string/1 expects exactly 1 argument"
    );
    assert_eq!(
        logic(eval(pipe(MiniElixirAST::List(vec![]), call(None, "to_string", vec![])))),
        "Cannot convert value to literal"
    );
    assert_eq!(logic(eval(pipe(lit(1.0), lit(2.0)))), "Pipe target must be a function call");
}

#[test]
fn the_check_of_the_wider_dialect_names_what_it_refuses() {
    let sequin = SequinMiniElixir::new();
    let refused = |ast: MiniElixirAST| match sequin.validate_ast(&ast) {
        Err(EllexError::SafetyViolation { reason }) => reason,
        other => panic!("expected a violation, got {:?}", other),
    };
    assert!(sequin.validate_ast(&call(Some("Kernel"), "length", vec![lit(1.0)])).is_ok());
    assert!(sequin.validate_ast(&call(None, "anything", vec![])).is_ok());
    assert!(sequin.validate_ast(&var("x")).is_ok());
    assert_eq!(refused(call(Some("System"), "cmd", vec![])), "Module 'System' is not allowed");
    assert_eq!(refused(call(Some("Enum"), "length", vec![])), "Function 'Enum:length' is not allowed");
    assert_eq!(
        refused(MiniElixirAST::List(vec![lit(1.0), call(Some("File"), "read", vec![])])),
        "Module 'File' is not allowed"
    );
    assert_eq!(
        refused(op(BinaryOperator::Add, call(Some("A"), "f", vec![]), call(Some("B"), "g", vec![]))),
        "Module 'A' is not allowed"
    );
    // What stands in a condition is not looked at.
    let hidden = MiniElixirAST::If {
        condition: Box::new(call(Some("System"), "cmd", vec![])),
        then_branch: Box::new(lit(1.0)),
        else_branch: None,
    };
    assert!(sequin.validate_ast(&hidden).is_ok());
    let mut deep = lit(1.0);
    for _ in 0..100 {
        deep = MiniElixirAST::Block(vec![deep]);
    }
    assert!(sequin.validate_ast(&deep).is_ok());
    deep = MiniElixirAST::Block(vec![deep]);
    assert_eq!(refused(deep), "AST too deeply nested");
    assert!(sequin.lists("Map"));
    assert!(!sequin.lists("map"));
}
