use ellex_core::runtime::{
    ConstantFolding, DeadCodeElim, ElixirTranspile, Inlining, LoopUnroll, Pass, Pipeline, SuperOpt,
};
use ellex_core::{EllexError, EllexFunction, EllexValue, Statement};

fn tell(s: &str) -> Statement {
    Statement::Tell(EllexValue::String(s.to_string()))
}

fn sample() -> Vec<Statement> {
    vec![
        tell("a"),
        Statement::Ask("unused".to_string(), None),
        Statement::Repeat(3, vec![tell("b"), Statement::Call("f".to_string())]),
        Statement::Repeat(4, vec![tell("c")]),
        Statement::Call("f".to_string()),
        Statement::Ask("used".to_string(), Some("number".to_string())),
        Statement::Call("unknown".to_string()),
    ]
}

#[test]
fn dead_code_elimination_drops_unused_prompts() {
    let mut ast = sample();
    let mut pass = DeadCodeElim::new();
    pass.mark_used("used".to_string());
    assert!(pass.is_used("used"));
    assert!(!pass.is_used("unused"));
    assert!(pass.apply(&mut ast).is_ok());
    let mut expected = sample();
    expected.remove(1);
    assert_eq!(ast, expected);
    let mut all = sample();
    assert!(DeadCodeElim::new().apply(&mut all).is_ok());
    expected.remove(4);
    assert_eq!(all, expected);
}

#[test]
fn loop_unrolling_writes_short_loops_out() {
    let mut ast = sample();
    assert!(LoopUnroll::new(3).apply(&mut ast).is_ok());
    let mut expected = sample();
    expected[2] = Statement::Repeat(
        1,
        vec![
            tell("b"),
            Statement::Call("f".to_string()),
            tell("b"),
            Statement::Call("f".to_string()),
            tell("b"),
            Statement::Call("f".to_string()),
        ],
    );
    assert_eq!(ast, expected);
    let mut empty = vec![Statement::Repeat(0, vec![tell("never")])];
    assert!(LoopUnroll::new(0).apply(&mut empty).is_ok());
    assert_eq!(empty, vec![Statement::Repeat(1, vec![])]);
}

#[test]
fn inlining_replaces_calls_at_the_top() {
    let mut pass = Inlining::new();
    pass.define(EllexFunction {
        name: "f".to_string(),
        body: vec![tell("x"), tell("y")],
        params: vec![],
    });
    let mut ast = sample();
    assert!(pass.apply(&mut ast).is_ok());
    let mut expected = sample();
    expected.splice(4..5, vec![tell("x"), tell("y")]);
    assert_eq!(ast, expected);
    let mut untouched = sample();
    assert!(Inlining::new().apply(&mut untouched).is_ok());
    assert_eq!(untouched, sample());
}

#[test]
fn the_pipeline_chains_passes_and_stops_at_an_error() {
    let mut pipeline = Pipeline::new();
    pipeline.attach(Box::new(ConstantFolding));
    pipeline.attach(Box::new(DeadCodeElim::new()));
    pipeline.attach(Box::new(LoopUnroll::new(4)));
    pipeline.attach(Box::new(SuperOpt));
    let mut ast = sample();
    assert!(pipeline.run(&mut ast).is_ok());
    assert_eq!(ast.len(), 5);
    assert_eq!(ast[2], Statement::Repeat(1, vec![tell("c"); 4]));
    pipeline.attach(Box::new(ElixirTranspile));
    pipeline.attach(Box::new(LoopUnroll::new(1)));
    let mut again = vec![Statement::Repeat(1, vec![tell("d"), tell("e")])];
    assert!(matches!(
        pipeline.run(&mut again),
        Err(EllexError::LogicError { message }) if message == "Transpilation not implemented yet"
    ));
    assert_eq!(again, vec![Statement::Repeat(1, vec![tell("d"), tell("e")])]);
    let mut empty_run = sample();
    assert!(Pipeline::new().run(&mut empty_run).is_ok());
    assert_eq!(empty_run, sample());
}
