use ellex_core::direct_runtime::{evaluate_value, read_answer, understand};
use ellex_core::optimized_runtime::{Effect, TurtleCommand};
use ellex_core::render::{fill_text, format_output};
use ellex_core::{
    init, init_with_config, Bindings, EllexConfig, EllexError, EllexFunction, EllexRuntime,
    EllexValue, Statement,
};

fn number(x: f64) -> EllexValue {
    EllexValue::Number(x.to_bits())
}

fn text(s: &str) -> EllexValue {
    EllexValue::String(s.to_string())
}

fn tell(s: &str) -> Statement {
    Statement::Tell(text(s))
}

fn outputs(runtime: &EllexRuntime) -> Vec<String> {
    runtime
        .effects()
        .iter()
        .filter_map(|e| match e {
            Effect::Output(v) => Some(format_output(v)),
            _ => None,
        })
        .collect()
}

fn logic(r: Result<EllexValue, EllexError>) -> String {
    match r {
        Err(EllexError::LogicError { message }) => message,
        other => panic!("expected a logic error, got {:?}", other),
    }
}

#[test]
fn a_tell_sends_the_filled_text_to_the_sink_and_returns_it() {
    let mut runtime = EllexRuntime::new();
    runtime.set_variable("name".to_string(), text("Ada"));
    runtime.set_variable("n".to_string(), number(3.0));
    let r = runtime.execute(vec![tell("Hi {name}, {n} and {nobody}!")]);
    assert_eq!(r.unwrap(), text("Hi Ada, 3 and undefined:nobody!"));
    assert_eq!(outputs(&runtime), vec!["Hi Ada, 3 and undefined:nobody!".to_string()]);
    assert_eq!(runtime.monitor().instruction_count(), 1);
}

#[test]
fn an_empty_program_returns_nil() {
    let mut runtime = init();
    assert_eq!(runtime.execute(vec![]).unwrap(), EllexValue::Nil);
    assert_eq!(runtime.execute(vec![Statement::Repeat(0, vec![tell("x")])]).unwrap(), EllexValue::Nil);
    assert_eq!(runtime.execute(vec![Statement::Repeat(3, vec![])]).unwrap(), EllexValue::Nil);
    assert!(runtime.effects().is_empty());
}

#[test]
fn a_loop_returns_the_value_of_its_last_round() {
    let mut runtime = EllexRuntime::new();
    let program = vec![Statement::Repeat(
        3,
        vec![tell("a"), Statement::Assignment("x".to_string(), number(7.0))],
    )];
    assert_eq!(runtime.execute(program).unwrap(), number(7.0));
    assert_eq!(outputs(&runtime), vec!["a", "a", "a"]);
    assert_eq!(runtime.get_variables().get("x"), Some(&number(7.0)));
    assert!(runtime.get_variables().get("count").is_none());
    // One check-point for the loop, and two for each round plus the round itself.
    assert_eq!(runtime.monitor().instruction_count(), 1 + 3 * 3);
}

#[test]
fn the_direct_runtime_checks_loops_before_the_first_round() {
    let config = EllexConfig { max_loop_iterations: 5, ..EllexConfig::default() };
    let mut runtime = init_with_config(config);
    let r = runtime.execute(vec![tell("before"), Statement::Repeat(6, vec![tell("never")])]);
    match r {
        Err(EllexError::LoopLimitExceeded { current, limit }) => {
            assert_eq!((current, limit), (6, 5));
        }
        other => panic!("expected a loop limit error, got {:?}", other),
    }
    assert_eq!(outputs(&runtime), vec!["before"]);
    let r = runtime.execute(vec![Statement::Repeat(5, vec![tell("round")])]);
    assert!(r.is_ok());
    assert_eq!(outputs(&runtime).len(), 6);
}

#[test]
fn a_prompt_reads_numbers_and_texts() {
    let mut runtime = EllexRuntime::new();
    runtime.provide_input("  42 \n".to_string());
    runtime.provide_input(" forty two ".to_string());
    runtime.provide_input("-2.5".to_string());
    let program = vec![
        Statement::Ask("a".to_string(), None),
        Statement::Ask("b".to_string(), Some("string".to_string())),
        Statement::Ask("c".to_string(), Some("number".to_string())),
    ];
    assert_eq!(runtime.execute(program).unwrap(), number(-2.5));
    assert_eq!(runtime.get_variables().get("a"), Some(&number(42.0)));
    assert_eq!(runtime.get_variables().get("b"), Some(&text("forty two")));
    assert_eq!(runtime.get_variables().get("c"), Some(&number(-2.5)));
    let prompts = runtime
        .effects()
        .iter()
        .filter(|e| matches!(e, Effect::Prompt(p) if p == "? "))
        .count();
    assert_eq!(prompts, 3);
    let r = runtime.execute(vec![Statement::Ask("d".to_string(), None)]);
    assert_eq!(logic(r), "Failed to read input");
    assert!(runtime.get_variables().get("d").is_none());
}

#[test]
fn answers_are_read_like_the_standard_parser() {
    for s in ["0", "7", "42", "3.25", "-3.25", "0.1", "-0", "123456789.125", "9007199254740993",
        "1.", ".5", "1e5", "+1", "12345678901234567890", "1e400", "inf"]
    {
        let expected: f64 = s.parse().unwrap();
        assert_eq!(read_answer(s), number(expected), "{s}");
        assert_eq!(read_answer(&format!("  {s}\n")), number(expected), "{s}");
    }
    for s in ["", "-", "1 2", "--1", "abc", "1.2.3", "1e", "e5", "."] {
        assert!(s.parse::<f64>().is_err());
        assert_eq!(read_answer(s), text(s), "{s}");
    }
    assert_eq!(read_answer("  yes  "), text("yes"));
}

#[test]
fn a_condition_picks_its_branch() {
    let mut runtime = EllexRuntime::new();
    runtime.set_variable("who".to_string(), text("Ada"));
    runtime.set_variable("greeting".to_string(), text("Hello Ada"));
    let when = |subject: &str, value: EllexValue, otherwise: bool| {
        Statement::When(
            subject.to_string(),
            value,
            vec![tell("then")],
            if otherwise { Some(vec![tell("else")]) } else { None },
        )
    };
    assert_eq!(runtime.execute(vec![when("who", text("Ada"), true)]).unwrap(), text("then"));
    assert_eq!(runtime.execute(vec![when("who", text("Bob"), true)]).unwrap(), text("else"));
    assert_eq!(runtime.execute(vec![when("who", text("Bob"), false)]).unwrap(), EllexValue::Nil);
    // The value compared with is filled in first.
    assert_eq!(
        runtime.execute(vec![when("greeting", text("Hello {who}"), true)]).unwrap(),
        text("then")
    );
    assert_eq!(
        logic(runtime.execute(vec![when("nobody", text("x"), true)])),
        "Variable 'nobody' not found"
    );
    assert_eq!(outputs(&runtime), vec!["then", "else", "then"]);
}

#[test]
fn a_call_runs_the_function_and_returns_its_last_value() {
    let mut runtime = EllexRuntime::new();
    let greet = EllexFunction {
        name: "greet".to_string(),
        params: vec![],
        body: vec![tell("one"), tell("two")],
    };
    runtime.define_function("greet".to_string(), greet);
    let r = runtime.execute(vec![Statement::Call("greet".to_string())]);
    assert_eq!(r.unwrap(), text("two"));
    assert_eq!(outputs(&runtime), vec!["one", "two"]);
    assert_eq!(runtime.monitor().recursion_depth(), 0);
}

#[test]
fn endless_recursion_stops_at_the_ceiling() {
    let config = EllexConfig { max_recursion_depth: 7, ..EllexConfig::default() };
    let mut runtime = EllexRuntime::with_config(config);
    let again = EllexFunction {
        name: "again".to_string(),
        params: vec![],
        body: vec![tell("in"), Statement::Call("again".to_string())],
    };
    runtime.define_function("again".to_string(), again);
    match runtime.execute(vec![Statement::Call("again".to_string())]) {
        Err(EllexError::RecursionDepthExceeded { current, limit }) => {
            assert_eq!((current, limit), (8, 7));
        }
        other => panic!("expected a recursion error, got {:?}", other),
    }
    assert_eq!(outputs(&runtime).len(), 7);
    // The runtime is usable again.
    assert_eq!(runtime.execute(vec![tell("after")]).unwrap(), text("after"));
    assert_eq!(runtime.monitor().recursion_depth(), 0);
}

#[test]
fn graphics_primitives_move_the_turtle() {
    let mut runtime = EllexRuntime::new();
    let call = |name: &str| Statement::Call(name.to_string());
    let program = vec![
        call("forward"),
        call("right"),
        call("move_forward"),
        call("pen_up"),
        call("turn_left"),
        call("forward"),
        call("left"),
        call("turn_right"),
        call("pen_down"),
    ];
    assert_eq!(runtime.execute(program).unwrap(), text("Pen down"));
    let turtle = runtime.get_turtle().unwrap();
    assert_eq!(turtle.position(), (20, 10));
    assert_eq!(turtle.angle(), 0);
    assert!(turtle.is_pen_down());
    let lines = turtle.get_lines();
    assert_eq!(lines.len(), 2);
    assert_eq!((lines[0].from, lines[0].to), ((0, 0), (10, 0)));
    assert_eq!((lines[1].from, lines[1].to), ((10, 0), (10, 10)));
    assert_eq!(lines[1].color, "black");
    let commands: Vec<TurtleCommand> = runtime
        .effects()
        .iter()
        .filter_map(|e| match e {
            Effect::Graphics(c) => Some(*c),
            _ => None,
        })
        .collect();
    assert_eq!(commands.len(), 9);
    assert_eq!(commands[0], TurtleCommand::Forward);
    assert_eq!(commands[1], TurtleCommand::TurnRight);
    assert_eq!(runtime.execute(vec![call("forward")]).unwrap(), text("Turtle moved forward"));
    assert_eq!(runtime.execute(vec![call("right")]).unwrap(), text("Turtle turned right"));
    assert_eq!(runtime.execute(vec![call("left")]).unwrap(), text("Turtle turned left"));
    assert_eq!(runtime.execute(vec![call("pen_up")]).unwrap(), text("Pen up"));
    assert_eq!(logic(runtime.execute(vec![call("jump")])), "Unknown turtle command: jump");
}

#[test]
fn without_graphics_a_primitive_is_an_unknown_function() {
    let config = EllexConfig { enable_turtle: false, ..EllexConfig::default() };
    let mut runtime = EllexRuntime::with_config(config);
    let r = runtime.execute(vec![Statement::Call("forward".to_string())]);
    assert_eq!(logic(r), "Function 'forward' not found");
    assert!(runtime.effects().is_empty());
    // A function of that name is called, graphics or not.
    let forward = EllexFunction { name: "forward".to_string(), params: vec![], body: vec![tell("mine")] };
    runtime.define_function("forward".to_string(), forward);
    assert_eq!(runtime.execute(vec![Statement::Call("forward".to_string())]).unwrap(), text("mine"));
}

#[test]
fn an_error_keeps_what_was_done_before_it() {
    let mut runtime = EllexRuntime::new();
    let program = vec![
        Statement::Assignment("x".to_string(), number(1.0)),
        tell("said"),
        Statement::When("nobody".to_string(), EllexValue::Nil, vec![], None),
        tell("never"),
    ];
    assert_eq!(logic(runtime.execute(program)), "Variable 'nobody' not found");
    assert_eq!(runtime.get_variables().get("x"), Some(&number(1.0)));
    assert_eq!(outputs(&runtime), vec!["said"]);
    let taken = runtime.take_effects();
    assert_eq!(taken.len(), 1);
    assert!(runtime.effects().is_empty());
}

#[test]
fn the_instruction_ceiling_stops_a_long_program() {
    let config = EllexConfig { max_loop_iterations: 1_000_000, ..EllexConfig::default() };
    let mut runtime = EllexRuntime::with_config(config);
    let r = runtime.execute(vec![Statement::Repeat(100_000, vec![tell("x")])]);
    match r {
        Err(EllexError::InstructionLimitExceeded { count }) => assert_eq!(count, 100_001),
        other => panic!("expected an instruction limit error, got {:?}", other.map(|_| ())),
    }
    // One check-point for the loop, then two for each whole round.
    assert_eq!(outputs(&runtime).len(), 49_999);
}

#[test]
fn everyday_language_is_understood_by_its_first_word() {
    let mut runtime = EllexRuntime::new();
    let mut say = |code: &str| runtime.execute_natural_language(code);
    assert_eq!(say("tell \"Hello, world!\"").unwrap(), text("Hello, world!"));
    assert_eq!(say("  tell   hello there  ").unwrap(), text("hello there"));
    assert_eq!(say("tell tell tell x").unwrap(), text("x"));
    assert_eq!(say("tell \"").unwrap(), text("\""));
    assert_eq!(say("tell \"\"").unwrap(), text(""));
    assert_eq!(say("tell \"open").unwrap(), text("\"open"));
    assert_eq!(say("ask \"What's your name?\"").unwrap(), text("Asked: \"What's your name?\""));
    assert_eq!(say("please move forward now").unwrap(), text("Turtle moved forward"));
    assert_eq!(say("turn right").unwrap(), text("Turtle turned"));
    assert_eq!(say("return").unwrap(), text("Turtle turned"));
    match say("  dance  ") {
        Err(EllexError::ParseError { line, column, message }) => {
            assert_eq!((line, column), (0, 0));
            assert_eq!(message, "Don't understand: 'dance'");
        }
        other => panic!("expected a parse error, got {:?}", other),
    }
    assert!(matches!(understand("tell"), Err(EllexError::ParseError { .. })));
    assert!(matches!(understand(""), Err(EllexError::ParseError { .. })));
}

#[test]
fn everyday_language_restarts_the_monitor() {
    let mut runtime = EllexRuntime::new();
    runtime.execute(vec![tell("a"), tell("b")]).unwrap();
    assert_eq!(runtime.monitor().instruction_count(), 2);
    runtime.execute_natural_language("tell x").unwrap();
    assert_eq!(runtime.monitor().instruction_count(), 0);
    assert_eq!(outputs(&runtime), vec!["a", "b"]);
}

#[test]
fn values_are_printed_with_the_names_of_functions() {
    let f = EllexFunction { name: "greet".to_string(), params: vec![], body: vec![] };
    let list = EllexValue::List(vec![
        number(1.0),
        text("two"),
        EllexValue::Nil,
        EllexValue::Function(f.clone()),
        EllexValue::List(vec![number(-1.5)]),
    ]);
    assert_eq!(format_output(&list), "[1, two, nil, function greet, [-1.5]]");
    assert_eq!(list.to_string(), "[1, two, nil, <function>, [-1.5]]");
    assert_eq!(format_output(&EllexValue::Function(f)), "function greet");
}

#[test]
fn strict_filling_marks_what_is_not_bound() {
    let mut vars = Bindings::new();
    vars.insert("a".to_string(), text("{b}"));
    vars.insert("b".to_string(), number(2.0));
    assert_eq!(fill_text("{a}{b}", &vars, true), "{b}2");
    assert_eq!(fill_text("{x{b}", &vars, true), "undefined:x{b");
    assert_eq!(fill_text("{x{b}", &vars, false), "{x2");
    assert_eq!(fill_text("{}", &vars, true), "undefined:");
    assert_eq!(fill_text("{b", &vars, true), "{b");
    assert_eq!(fill_text("}{b}{", &vars, true), "}2{");
    assert_eq!(evaluate_value(&text("{b} {c}"), &vars), text("2 undefined:c"));
    assert_eq!(evaluate_value(&number(1.0), &vars), number(1.0));
    let list = EllexValue::List(vec![text("{b}")]);
    assert_eq!(evaluate_value(&list, &vars), list);
}

#[test]
fn new_options_replace_the_monitor_and_the_turtle() {
    let mut runtime = EllexRuntime::new();
    runtime.set_variable("x".to_string(), number(1.0));
    runtime.execute(vec![Statement::Call("forward".to_string())]).unwrap();
    assert_eq!(runtime.get_turtle().unwrap().position(), (10, 0));
    // Graphics stay enabled: the turtle stays where it is.
    runtime.update_config(EllexConfig { max_loop_iterations: 3, ..EllexConfig::default() });
    assert_eq!(runtime.get_turtle().unwrap().position(), (10, 0));
    assert_eq!(runtime.monitor().get_limits().max_loop_iterations, 3);
    assert_eq!(runtime.monitor().instruction_count(), 0);
    assert_eq!(runtime.get_variables().get("x"), Some(&number(1.0)));
    runtime.update_config(EllexConfig { enable_turtle: false, ..EllexConfig::default() });
    assert!(runtime.get_turtle().is_none());
    runtime.update_config(EllexConfig::default());
    assert_eq!(runtime.get_turtle().unwrap().position(), (0, 0));
    assert!(!runtime.has_elixir_backend());
    runtime.set_prefer_elixir(true);
    assert!(!runtime.has_elixir_backend());
}

#[test]
fn a_reset_forgets_variables_functions_and_drawings() {
    let mut runtime = EllexRuntime::default();
    let f = EllexFunction { name: "f".to_string(), params: vec![], body: vec![tell("f")] };
    runtime.define_function("f".to_string(), f);
    runtime.set_variable("x".to_string(), number(1.0));
    let program = vec![Statement::Call("f".to_string()), Statement::Call("forward".to_string())];
    runtime.execute(program).unwrap();
    runtime.reset();
    assert!(runtime.get_variables().is_empty());
    assert_eq!(runtime.monitor().instruction_count(), 0);
    let turtle = runtime.get_turtle().unwrap();
    assert_eq!(turtle.position(), (0, 0));
    assert!(turtle.get_lines().is_empty());
    assert_eq!(logic(runtime.execute(vec![Statement::Call("f".to_string())])), "Unknown turtle command: f");
    assert_eq!(runtime.get_config().max_loop_iterations, 10000);
}

#[test]
fn the_direct_runtime_runs_on_given_readings() {
    let config = EllexConfig { execution_timeout_ms: 100, ..EllexConfig::default() };
    let mut runtime = EllexRuntime::with_config(config);
    let program = || vec![tell("a"), Statement::Repeat(2, vec![tell("b")]), tell("c")];
    assert_eq!(runtime.execute_at(program(), &vec![1, 2, 3, 4, 5, 6, 7]).unwrap(), text("c"));
    assert_eq!(outputs(&runtime), vec!["a", "b", "b", "c"]);
    assert_eq!(runtime.readings().len(), 7);
    runtime.take_effects();
    // The fourth check-point is the one before the first output in the loop.
    match runtime.execute_at(program(), &vec![0, 0, 0, 101]) {
        Err(EllexError::Timeout { limit_ms }) => assert_eq!(limit_ms, 100),
        other => panic!("expected a timeout, got {:?}", other),
    }
    assert_eq!(outputs(&runtime), vec!["a"]);
    runtime.take_effects();
    // On its own clock the runtime keeps what it read.
    assert_eq!(runtime.execute(program()).unwrap(), text("c"));
    assert_eq!(runtime.readings().len(), 7);
    let readings = runtime.readings().clone();
    let mut other = EllexRuntime::with_config(config);
    assert_eq!(other.execute_at(program(), &readings).unwrap(), text("c"));
    assert_eq!(outputs(&other), vec!["a", "b", "b", "c"]);
}
