use ellex_core::minielixir::{
    BinaryOperator, EvaluationContext, MiniElixirExpr, MiniElixirInterpreter, UnaryOperator,
};
use ellex_core::minielixir_parser::{parse, tokenize, Token};
use ellex_core::{Bindings, EllexError, EllexValue};

fn number(x: f64) -> EllexValue {
    EllexValue::Number(x.to_bits())
}

fn text(s: &str) -> EllexValue {
    EllexValue::String(s.to_string())
}

fn whole(n: i64) -> MiniElixirExpr {
    MiniElixirExpr::Integer(n)
}

fn var(name: &str) -> MiniElixirExpr {
    MiniElixirExpr::Variable(name.to_string())
}

fn binary(op: BinaryOperator, left: MiniElixirExpr, right: MiniElixirExpr) -> MiniElixirExpr {
    MiniElixirExpr::BinaryOp { op, left: Box::new(left), right: Box::new(right) }
}

fn call(name: &str, args: Vec<MiniElixirExpr>) -> MiniElixirExpr {
    MiniElixirExpr::Call { function: name.to_string(), args }
}

fn eval(code: &str, ctx: &EvaluationContext) -> Result<EllexValue, EllexError> {
    let mut interpreter = MiniElixirInterpreter::new();
    let expr = interpreter.parse(code)?;
    interpreter.eval(&expr, ctx)
}

fn logic(r: Result<EllexValue, EllexError>) -> String {
    match r {
        Err(EllexError::LogicError { message }) => message,
        other => panic!("Expected a logic error, got {:?}", other),
    }
}

#[test]
fn test_parse_literals() {
    let interpreter = MiniElixirInterpreter::new();

    assert_eq!(interpreter.parse("nil").unwrap(), MiniElixirExpr::Nil);
    assert_eq!(interpreter.parse("true").unwrap(), MiniElixirExpr::Boolean(true));
    assert_eq!(interpreter.parse("42").unwrap(), MiniElixirExpr::Integer(42));
    assert_eq!(interpreter.parse("3.14").unwrap(), MiniElixirExpr::Float(3.14f64.to_bits()));
    assert_eq!(interpreter.parse(r#""hello""#).unwrap(), MiniElixirExpr::String("hello".to_string()));
    assert_eq!(interpreter.parse(":atom").unwrap(), MiniElixirExpr::Atom("atom".to_string()));
}

#[test]
fn test_eval_literals() {
    let mut interpreter = MiniElixirInterpreter::new();
    let mut ctx = EvaluationContext::new();

    assert_eq!(interpreter.eval(&MiniElixirExpr::Nil, &mut ctx).unwrap(), EllexValue::Nil);
    assert_eq!(interpreter.eval(&MiniElixirExpr::Integer(42), &mut ctx).unwrap(), number(42.0));
    assert_eq!(
        interpreter.eval(&MiniElixirExpr::String("hello".to_string()), &mut ctx).unwrap(),
        EllexValue::String("hello".to_string())
    );
}

#[test]
fn test_binary_operations() {
    let mut interpreter = MiniElixirInterpreter::new();
    let mut ctx = EvaluationContext::new();

    let add_expr = MiniElixirExpr::BinaryOp {
        op: BinaryOperator::Add,
        left: Box::new(MiniElixirExpr::Integer(5)),
        right: Box::new(MiniElixirExpr::Integer(3)),
    };

    assert_eq!(interpreter.eval(&add_expr, &mut ctx).unwrap(), number(8.0));
}

#[test]
fn test_variables() {
    let mut interpreter = MiniElixirInterpreter::new();
    let mut ctx = EvaluationContext::new();
    ctx.bind("x".to_string(), number(42.0));

    let var_expr = MiniElixirExpr::Variable("x".to_string());
    assert_eq!(interpreter.eval(&var_expr, &mut ctx).unwrap(), number(42.0));
}

#[test]
fn test_function_calls() {
    let mut interpreter = MiniElixirInterpreter::new();
    let mut ctx = EvaluationContext::new();

    let length_expr = MiniElixirExpr::Call {
        function: "length".to_string(),
        args: vec![MiniElixirExpr::List(vec![
            MiniElixirExpr::Integer(1),
            MiniElixirExpr::Integer(2),
            MiniElixirExpr::Integer(3),
        ])],
    };

    assert_eq!(interpreter.eval(&length_expr, &mut ctx).unwrap(), number(3.0));
}

#[test]
fn test_if_expression() {
    let mut interpreter = MiniElixirInterpreter::new();
    let mut ctx = EvaluationContext::new();

    let if_expr = MiniElixirExpr::If {
        condition: Box::new(MiniElixirExpr::Boolean(true)),
        then_branch: Box::new(MiniElixirExpr::String("yes".to_string())),
        else_branch: Some(Box::new(MiniElixirExpr::String("no".to_string()))),
    };

    assert_eq!(
        interpreter.eval(&if_expr, &mut ctx).unwrap(),
        EllexValue::String("yes".to_string())
    );
}

#[test]
fn operators_bind_as_documented() {
    assert_eq!(
        parse("1 + 2 * 3").unwrap(),
        binary(BinaryOperator::Add, whole(1), binary(BinaryOperator::Mul, whole(2), whole(3)))
    );
    assert_eq!(
        parse("(1 + 2) * 3").unwrap(),
        binary(BinaryOperator::Mul, binary(BinaryOperator::Add, whole(1), whole(2)), whole(3))
    );
    assert_eq!(
        parse("10 - 4 - 3").unwrap(),
        binary(BinaryOperator::Sub, binary(BinaryOperator::Sub, whole(10), whole(4)), whole(3))
    );
    assert_eq!(
        parse("a<b||c>=d&&e!=f").unwrap(),
        binary(
            BinaryOperator::Or,
            binary(BinaryOperator::Lt, var("a"), var("b")),
            binary(
                BinaryOperator::And,
                binary(BinaryOperator::Ge, var("c"), var("d")),
                binary(BinaryOperator::Ne, var("e"), var("f")),
            ),
        )
    );
    assert_eq!(
        parse("\"a\" <> \"b\" == \"ab\"").unwrap(),
        binary(
            BinaryOperator::Eq,
            binary(
                BinaryOperator::Concat,
                MiniElixirExpr::String("a".to_string()),
                MiniElixirExpr::String("b".to_string()),
            ),
            MiniElixirExpr::String("ab".to_string()),
        )
    );
    assert_eq!(parse("-5").unwrap(), whole(-5));
    assert_eq!(parse("-9223372036854775808").unwrap(), whole(i64::MIN));
    assert_eq!(
        parse("3 * -x").unwrap(),
        binary(
            BinaryOperator::Mul,
            whole(3),
            MiniElixirExpr::UnaryOp { op: UnaryOperator::Minus, operand: Box::new(var("x")) },
        )
    );
    assert_eq!(
        parse("!done").unwrap(),
        MiniElixirExpr::UnaryOp { op: UnaryOperator::Not, operand: Box::new(var("done")) }
    );
    assert_eq!(parse("2 - -3").unwrap(), binary(BinaryOperator::Sub, whole(2), whole(-3)));
}

#[test]
fn lists_and_calls_nest() {
    assert_eq!(
        parse("length([1,2,3])").unwrap(),
        call("length", vec![MiniElixirExpr::List(vec![whole(1), whole(2), whole(3)])])
    );
    assert_eq!(parse(" [ ] ").unwrap(), MiniElixirExpr::List(vec![]));
    assert_eq!(parse("f()").unwrap(), call("f", vec![]));
    assert_eq!(
        parse("f(g(1, [2, [3]]), x + 1)").unwrap(),
        call(
            "f",
            vec![
                call(
                    "g",
                    vec![
                        whole(1),
                        MiniElixirExpr::List(vec![whole(2), MiniElixirExpr::List(vec![whole(3)])]),
                    ]
                ),
                binary(BinaryOperator::Add, var("x"), whole(1)),
            ]
        )
    );
    assert_eq!(parse("false").unwrap(), MiniElixirExpr::Boolean(false));
    assert_eq!(
        parse("9223372036854775808").unwrap(),
        MiniElixirExpr::Float(9223372036854775808.0f64.to_bits())
    );
    assert_eq!(parse("0.5").unwrap(), MiniElixirExpr::Float(0.5f64.to_bits()));
    assert_eq!(parse("\"System.cmd(...)\"").unwrap(), MiniElixirExpr::String("System.cmd(...)".to_string()));
}

#[test]
fn malformed_text_is_a_parse_error() {
    for code in ["", "   ", "1 +", "* 2", "(1", "1)", "[1, 2", "f(1,,2)", "\"open", "1 2", "a $ b", "(a)(b)", "1.2.3"] {
        assert!(
            matches!(
                parse(code),
                Err(EllexError::ParseError { line: 0, column: 0, ref message })
                    if message == "Could not read the expression"
            ),
            "{code:?}"
        );
    }
}

#[test]
fn tokens_are_cut_as_documented() {
    let chars: Vec<char> = "ab_1<=12.50 :ok,\"x y\"!".chars().collect();
    let tokens = tokenize(&chars).unwrap();
    assert_eq!(tokens.len(), 7);
    assert!(matches!(&tokens[0], Token::Name(n) if n == "ab_1"));
    assert!(matches!(&tokens[1], Token::Operator(BinaryOperator::Le)));
    assert!(matches!(&tokens[2], Token::Number { mantissa: 1250, scale: 2 }));
    assert!(matches!(&tokens[3], Token::Atom(a) if a == "ok"));
    assert!(matches!(&tokens[4], Token::Comma));
    assert!(matches!(&tokens[5], Token::Text(t) if t == "x y"));
    assert!(matches!(&tokens[6], Token::Bang));
    assert!(tokenize(&"1 # 2".chars().collect()).is_none());
}

#[test]
fn arithmetic_and_comparisons_evaluate() {
    let mut bindings = Bindings::new();
    bindings.insert("x".to_string(), number(5.0));
    bindings.insert("half".to_string(), number(0.5));
    bindings.insert("items".to_string(), EllexValue::List(vec![number(7.0), text("b")]));
    let ctx = EvaluationContext::with_bindings(bindings);
    assert_eq!(eval("x + 1", &ctx).unwrap(), number(6.0));
    assert_eq!(eval("x - 7", &ctx).unwrap(), number(-2.0));
    assert_eq!(eval("3 * 4", &ctx).unwrap(), number(12.0));
    assert_eq!(eval("12 / 4", &ctx).unwrap(), number(3.0));
    assert_eq!(eval("-x", &ctx).unwrap(), number(-5.0));
    assert_eq!(eval("\"a\" + \"b\"", &ctx).unwrap(), text("ab"));
    assert_eq!(eval("\"n=\" <> x", &ctx).unwrap(), text("n=5"));
    assert_eq!(eval("x < 6", &ctx).unwrap(), text("true"));
    assert_eq!(eval("x >= 6", &ctx).unwrap(), text("false"));
    assert_eq!(eval("half <= 0.5", &ctx).unwrap(), text("true"));
    assert_eq!(eval("x == 5", &ctx).unwrap(), text("true"));
    assert_eq!(eval("x != 5", &ctx).unwrap(), text("false"));
    assert_eq!(eval("items == [7, \"b\"]", &ctx).unwrap(), text("true"));
    assert_eq!(eval("nil || x", &ctx).unwrap(), number(5.0));
    assert_eq!(eval("0 && x", &ctx).unwrap(), number(0.0));
    assert_eq!(eval("!x", &ctx).unwrap(), text("false"));
    assert_eq!(eval("!\"\"", &ctx).unwrap(), text("true"));
    assert_eq!(eval(":ok", &ctx).unwrap(), text(":ok"));
    assert_eq!(eval("hd(items)", &ctx).unwrap(), number(7.0));
    assert_eq!(eval("tl(items)", &ctx).unwrap(), EllexValue::List(vec![text("b")]));
    assert_eq!(eval("length(\"héllo\")", &ctx).unwrap(), number(6.0));
    assert_eq!(eval("to_string(x)", &ctx).unwrap(), text("5"));
    assert_eq!(eval("to_string(nil)", &ctx).unwrap(), text("nil"));
    assert_eq!(eval("to_string(half)", &ctx).unwrap(), text("0.5"));
    assert_eq!(eval("to_string(0.1)", &ctx).unwrap(), text("0.1"));
    assert_eq!(eval("to_string(1 / 3)", &ctx).unwrap(), text("0.3333333333333333"));
    assert_eq!(eval("\"a\" <> [1, \"b\", [nil]]", &ctx).unwrap(), text("a[1, b, [nil]]"));
    assert_eq!(eval("to_string(items)", &ctx).unwrap(), text("[7, b]"));
    assert_eq!(eval("12345678901234567890123", &ctx).unwrap(), number(12345678901234567890123.0));
    assert_eq!(eval("0.12345678901234567890123", &ctx).unwrap(), number(0.12345678901234567890123));
    assert_eq!(eval("1 / 3", &ctx).unwrap(), number(1.0 / 3.0));
    assert_eq!(eval("half + 1", &ctx).unwrap(), number(1.5));
    assert_eq!(eval("9007199254740992 + 1", &ctx).unwrap(), number(9007199254740992.0));
    assert_eq!(eval("0.1 + 0.2", &ctx).unwrap(), number(0.1 + 0.2));
    assert_eq!(eval("x * 0.1 - 7 / x", &ctx).unwrap(), number(5.0 * 0.1 - 7.0 / 5.0));
    assert_eq!(eval("\"n=\" <> -half", &ctx).unwrap(), text("n=-0.5"));
}

#[test]
fn evaluation_errors_are_logic_errors() {
    let mut bindings = Bindings::new();
    bindings.insert("half".to_string(), number(0.5));
    let ctx = EvaluationContext::with_bindings(bindings);
    assert_eq!(logic(eval("missing + 1", &ctx)), "Variable 'missing' is undefined");
    assert_eq!(logic(eval("1 / 0", &ctx)), "Division by zero");
    assert_eq!(logic(eval("half / 0", &ctx)), "Division by zero");
    assert_eq!(logic(eval("1 + \"a\"", &ctx)), "Cannot add these types");
    assert_eq!(logic(eval("nil - 1", &ctx)), "Cannot subtract these types");
    assert_eq!(logic(eval("nil * 1", &ctx)), "Cannot multiply these types");
    assert_eq!(logic(eval("nil / 1", &ctx)), "Cannot divide these types");
    assert_eq!(logic(eval("nil < 1", &ctx)), "Cannot compare these types");
    assert_eq!(logic(eval("-nil", &ctx)), "Cannot negate non-numeric value");
    assert_eq!(logic(eval("length()", &ctx)), "length/1 expects exactly one argument");
    assert_eq!(logic(eval("length(1)", &ctx)), "length/1 expects a list or string");
    assert_eq!(logic(eval("hd([])", &ctx)), "hd/1 called on empty list");
    assert_eq!(logic(eval("hd(1)", &ctx)), "hd/1 expects a list");
    assert_eq!(logic(eval("tl([])", &ctx)), "tl/1 called on empty list");
    assert_eq!(logic(eval("tl(1, 2)", &ctx)), "tl/1 expects exactly one argument");
    assert_eq!(logic(eval("to_string()", &ctx)), "to_string/1 expects exactly one argument");
    assert_eq!(logic(eval("is_list([1])", &ctx)), "Unknown function 'is_list'");
    let mut interpreter = MiniElixirInterpreter::new();
    let rem = binary(BinaryOperator::Rem, whole(1), whole(2));
    assert_eq!(logic(interpreter.eval(&rem, &ctx)), "Binary operator Rem not implemented");
}

#[test]
fn the_other_forms_evaluate() {
    let mut interpreter = MiniElixirInterpreter::new();
    let ctx = EvaluationContext::default();
    let list = MiniElixirExpr::List(vec![whole(10), whole(20), whole(30)]);
    let access = |key: MiniElixirExpr| MiniElixirExpr::Access {
        object: Box::new(list.clone()),
        key: Box::new(key),
    };
    assert_eq!(interpreter.eval(&access(whole(1)), &ctx).unwrap(), number(20.0));
    assert_eq!(interpreter.eval(&access(whole(3)), &ctx).unwrap(), EllexValue::Nil);
    assert_eq!(interpreter.eval(&access(whole(-1)), &ctx).unwrap(), number(10.0));
    assert_eq!(
        interpreter.eval(&access(MiniElixirExpr::Float(1.9f64.to_bits())), &ctx).unwrap(),
        number(20.0)
    );
    assert_eq!(
        interpreter.eval(&access(MiniElixirExpr::String("1".to_string())), &ctx).unwrap(),
        EllexValue::Nil
    );
    let block = MiniElixirExpr::Block(vec![whole(1), whole(2)]);
    assert_eq!(interpreter.eval(&block, &ctx).unwrap(), number(2.0));
    assert_eq!(interpreter.eval(&MiniElixirExpr::Block(vec![]), &ctx).unwrap(), EllexValue::Nil);
    let tuple = MiniElixirExpr::Tuple(vec![whole(1), MiniElixirExpr::Nil]);
    assert_eq!(
        interpreter.eval(&tuple, &ctx).unwrap(),
        EllexValue::List(vec![number(1.0), EllexValue::Nil])
    );
    assert_eq!(interpreter.eval(&MiniElixirExpr::MapLiteral(vec![]), &ctx).unwrap(), text("map"));
    let pipe = MiniElixirExpr::Pipe {
        value: Box::new(whole(42)),
        function: Box::new(call("length", vec![])),
    };
    assert_eq!(interpreter.eval(&pipe, &ctx).unwrap(), number(2.0));
    let bad_pipe = MiniElixirExpr::Pipe { value: Box::new(whole(42)), function: Box::new(whole(1)) };
    assert_eq!(logic(interpreter.eval(&bad_pipe, &ctx)), "Pipe target must be a function call");
    let matched = MiniElixirExpr::Match { pattern: Box::new(var("p")), value: Box::new(whole(3)) };
    assert_eq!(interpreter.eval(&matched, &ctx).unwrap(), number(3.0));
    let case = MiniElixirExpr::Case { expr: Box::new(var("unbound")), clauses: vec![] };
    assert_eq!(interpreter.eval(&case, &ctx).unwrap(), EllexValue::Nil);
    let without_else = MiniElixirExpr::If {
        condition: Box::new(MiniElixirExpr::Boolean(false)),
        then_branch: Box::new(whole(1)),
        else_branch: None,
    };
    assert_eq!(interpreter.eval(&without_else, &ctx).unwrap(), EllexValue::Nil);
    assert_eq!(
        interpreter.eval(&MiniElixirExpr::Integer(i64::MIN), &ctx).unwrap(),
        number(i64::MIN as f64)
    );
    assert_eq!(interpreter.stats().evaluation_count, 48);
    assert_eq!(interpreter.stats().cached_expressions, 0);
}

#[test]
fn the_context_counts_nested_evaluations() {
    let mut ctx = EvaluationContext::new();
    assert!(ctx.get("x").is_none());
    ctx.bind("x".to_string(), text("v"));
    assert_eq!(ctx.get("x"), Some(&text("v")));
    for _ in 0..100 {
        assert!(ctx.enter_recursion().is_ok());
    }
    assert!(matches!(
        ctx.enter_recursion(),
        Err(EllexError::SafetyViolation { reason }) if reason == "Maximum recursion depth of 100 exceeded"
    ));
    ctx.exit_recursion();
    assert!(ctx.enter_recursion().is_ok());
}

#[test]
fn every_expression_visited_is_counted() {
    let ctx = EvaluationContext::new();
    let count = |e: MiniElixirExpr| {
        let mut interpreter = MiniElixirInterpreter::new();
        let _ = interpreter.eval(&e, &ctx);
        interpreter.stats().evaluation_count
    };
    let missing = || MiniElixirExpr::Variable("missing".to_string());
    assert_eq!(count(whole(1)), 1);
    assert_eq!(count(binary(BinaryOperator::Add, whole(1), whole(2))), 3);
    // Behind an error nothing is visited.
    assert_eq!(count(binary(BinaryOperator::Add, missing(), whole(2))), 2);
    assert_eq!(count(MiniElixirExpr::List(vec![whole(1), missing(), whole(3)])), 3);
    assert_eq!(count(MiniElixirExpr::List(vec![whole(1), whole(2), whole(3)])), 4);
    // Only the branch taken is visited.
    let choice = MiniElixirExpr::If {
        condition: Box::new(MiniElixirExpr::Boolean(true)),
        then_branch: Box::new(whole(1)),
        else_branch: Some(Box::new(binary(BinaryOperator::Add, whole(1), whole(2)))),
    };
    assert_eq!(count(choice), 3);
    let mut interpreter = MiniElixirInterpreter::new();
    interpreter.eval(&whole(1), &ctx).unwrap();
    interpreter.eval(&binary(BinaryOperator::Mul, whole(2), whole(3)), &ctx).unwrap();
    assert_eq!(interpreter.stats().evaluation_count, 4);
}
