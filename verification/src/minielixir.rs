//! The sandboxed expression language: its syntax tree, its evaluation
//! context, and the interpreter that reads and evaluates it.

use crate::double::{
    double_add, double_difference, double_div, double_mul, double_product, double_quotient,
    double_sub, double_sum,
};
use crate::environment::Bindings;
use crate::number::{
    bits_of_nat, index_of, is_zero, less_number, negate, negated, number_from_i64,
    number_from_u64, number_is_zero, number_less, number_to_index, numbers_equal,
    same_number, whole_bits,
};
use crate::render::shown;
use crate::text::{decimal, push_decimal, push_text, same_text};
use crate::values::{values_equal, values_model, EllexValue, ValueModel};
use crate::{EllexError, EllexResult, ErrorModel};
use vstd::prelude::*;

verus! {

/// An expression of the sandboxed language.
#[derive(Debug)]
#[allow(inconsistent_fields)]
pub enum MiniElixirExpr {
    Atom(String),
    String(String),
    Integer(i64),
    /// The IEEE-754 bit pattern of a double.
    Float(u64),
    Boolean(bool),
    Nil,
    List(Vec<MiniElixirExpr>),
    Tuple(Vec<MiniElixirExpr>),
    MapLiteral(Vec<(MiniElixirExpr, MiniElixirExpr)>),
    Variable(String),
    BinaryOp { op: BinaryOperator, left: Box<MiniElixirExpr>, right: Box<MiniElixirExpr> },
    UnaryOp { op: UnaryOperator, operand: Box<MiniElixirExpr> },
    Call { function: String, args: Vec<MiniElixirExpr> },
    Pipe { value: Box<MiniElixirExpr>, function: Box<MiniElixirExpr> },
    Match { pattern: Box<MiniElixirExpr>, value: Box<MiniElixirExpr> },
    Case { expr: Box<MiniElixirExpr>, clauses: Vec<CaseClause> },
    If {
        condition: Box<MiniElixirExpr>,
        then_branch: Box<MiniElixirExpr>,
        else_branch: Option<Box<MiniElixirExpr>>,
    },
    Block(Vec<MiniElixirExpr>),
    Access { object: Box<MiniElixirExpr>, key: Box<MiniElixirExpr> },
}

/// A binary operator.
#[derive(Debug, Clone, Copy, PartialEq, Eq, Structural)]
pub enum BinaryOperator {
    Add,
    Sub,
    Mul,
    Div,
    Rem,
    Eq,
    Ne,
    Lt,
    Le,
    Gt,
    Ge,
    StrictEq,
    StrictNe,
    And,
    Or,
    Concat,
    Cons,
    Put,
}

/// A unary operator.
#[derive(Debug, Clone, Copy, PartialEq, Eq, Structural)]
pub enum UnaryOperator {
    Not,
    Minus,
}

/// One clause of a case expression.
#[derive(Debug)]
pub struct CaseClause {
    pub pattern: MiniElixirExpr,
    pub guard: Option<MiniElixirExpr>,
    pub body: MiniElixirExpr,
}

/// The model of an expression.
#[allow(inconsistent_fields)]
pub enum ExprModel {
    Atom(Seq<char>),
    Text(Seq<char>),
    Integer(i64),
    Float(u64),
    Boolean(bool),
    Nil,
    List(Seq<ExprModel>),
    Tuple(Seq<ExprModel>),
    MapLiteral(Seq<(ExprModel, ExprModel)>),
    Variable(Seq<char>),
    BinaryOp { op: BinaryOperator, left: Box<ExprModel>, right: Box<ExprModel> },
    UnaryOp { op: UnaryOperator, operand: Box<ExprModel> },
    Call { function: Seq<char>, args: Seq<ExprModel> },
    Pipe { value: Box<ExprModel>, function: Box<ExprModel> },
    Match { pattern: Box<ExprModel>, value: Box<ExprModel> },
    Case { expr: Box<ExprModel>, clauses: Seq<ClauseModel> },
    If { condition: Box<ExprModel>, then_branch: Box<ExprModel>, else_branch: Option<Box<ExprModel>> },
    Block(Seq<ExprModel>),
    Access { object: Box<ExprModel>, key: Box<ExprModel> },
}

/// The model of a case clause.
pub struct ClauseModel {
    pub pattern: ExprModel,
    pub guard: Option<ExprModel>,
    pub body: ExprModel,
}

pub open spec fn expr_model(e: MiniElixirExpr) -> ExprModel
    decreases e,
{
    match e {
        MiniElixirExpr::Atom(a) => ExprModel::Atom(a@),
        MiniElixirExpr::String(s) => ExprModel::Text(s@),
        MiniElixirExpr::Integer(n) => ExprModel::Integer(n),
        MiniElixirExpr::Float(bits) => ExprModel::Float(bits),
        MiniElixirExpr::Boolean(b) => ExprModel::Boolean(b),
        MiniElixirExpr::Nil => ExprModel::Nil,
        MiniElixirExpr::List(items) => ExprModel::List(exprs_model(items)),
        MiniElixirExpr::Tuple(items) => ExprModel::Tuple(exprs_model(items)),
        MiniElixirExpr::MapLiteral(pairs) => ExprModel::MapLiteral(pairs_model(pairs)),
        MiniElixirExpr::Variable(name) => ExprModel::Variable(name@),
        MiniElixirExpr::BinaryOp { op, left, right } => ExprModel::BinaryOp {
            op,
            left: Box::new(expr_model(*left)),
            right: Box::new(expr_model(*right)),
        },
        MiniElixirExpr::UnaryOp { op, operand } => ExprModel::UnaryOp {
            op,
            operand: Box::new(expr_model(*operand)),
        },
        MiniElixirExpr::Call { function, args } => ExprModel::Call {
            function: function@,
            args: exprs_model(args),
        },
        MiniElixirExpr::Pipe { value, function } => ExprModel::Pipe {
            value: Box::new(expr_model(*value)),
            function: Box::new(expr_model(*function)),
        },
        MiniElixirExpr::Match { pattern, value } => ExprModel::Match {
            pattern: Box::new(expr_model(*pattern)),
            value: Box::new(expr_model(*value)),
        },
        MiniElixirExpr::Case { expr, clauses } => ExprModel::Case {
            expr: Box::new(expr_model(*expr)),
            clauses: clauses_model(clauses),
        },
        MiniElixirExpr::If { condition, then_branch, else_branch } => ExprModel::If {
            condition: Box::new(expr_model(*condition)),
            then_branch: Box::new(expr_model(*then_branch)),
            else_branch: match else_branch {
                Some(b) => Some(Box::new(expr_model(*b))),
                None => None,
            },
        },
        MiniElixirExpr::Block(items) => ExprModel::Block(exprs_model(items)),
        MiniElixirExpr::Access { object, key } => ExprModel::Access {
            object: Box::new(expr_model(*object)),
            key: Box::new(expr_model(*key)),
        },
    }
}

pub open spec fn exprs_model(items: Vec<MiniElixirExpr>) -> Seq<ExprModel>
    decreases items,
{
    Seq::new(
        items.len() as nat,
        |i: int|
            if 0 <= i < items.len() {
                expr_model(items[i])
            } else {
                ExprModel::Nil
            },
    )
}

pub open spec fn pairs_model(pairs: Vec<(MiniElixirExpr, MiniElixirExpr)>) -> Seq<
    (ExprModel, ExprModel),
>
    decreases pairs,
{
    Seq::new(
        pairs.len() as nat,
        |i: int|
            if 0 <= i < pairs.len() {
                (expr_model(pairs[i].0), expr_model(pairs[i].1))
            } else {
                (ExprModel::Nil, ExprModel::Nil)
            },
    )
}

pub open spec fn clause_model(c: CaseClause) -> ClauseModel
    decreases c,
{
    ClauseModel {
        pattern: expr_model(c.pattern),
        guard: match c.guard {
            Some(g) => Some(expr_model(g)),
            None => None,
        },
        body: expr_model(c.body),
    }
}

pub open spec fn clauses_model(clauses: Vec<CaseClause>) -> Seq<ClauseModel>
    decreases clauses,
{
    Seq::new(
        clauses.len() as nat,
        |i: int|
            if 0 <= i < clauses.len() {
                clause_model(clauses[i])
            } else {
                ClauseModel { pattern: ExprModel::Nil, guard: None, body: ExprModel::Nil }
            },
    )
}

impl View for MiniElixirExpr {
    type V = ExprModel;

    open spec fn view(&self) -> ExprModel {
        expr_model(*self)
    }
}

impl View for CaseClause {
    type V = ClauseModel;

    open spec fn view(&self) -> ClauseModel {
        clause_model(*self)
    }
}

/// What an evaluation gives: a value or an error.
pub type Evaluated = Result<ValueModel, ErrorModel>;

/// The value or the error of a result.
pub open spec fn evaluated(r: EllexResult<EllexValue>) -> Evaluated {
    match r {
        Ok(v) => Ok(v@),
        Err(e) => Err(e@),
    }
}

pub open spec fn logic(message: Seq<char>) -> ErrorModel {
    ErrorModel::LogicError { message }
}

/// "true" or "false": the language has no truth value of its own.
pub open spec fn truth_text(b: bool) -> Seq<char> {
    if b {
        "true"@
    } else {
        "false"@
    }
}

pub open spec fn truth(b: bool) -> ValueModel {
    ValueModel::Text(truth_text(b))
}

/// Nil, the empty text, the text "false", zero and the empty list count as
/// false; everything else counts as true.
pub open spec fn truthy(v: ValueModel) -> bool {
    match v {
        ValueModel::Nil => false,
        ValueModel::Text(s) => s != "false"@ && s.len() > 0,
        ValueModel::Number(bits) => !is_zero(bits),
        ValueModel::List(items) => items.len() > 0,
        ValueModel::Function(_) => true,
    }
}

/// The text that stands for a value: a text itself, the numeral of a
/// number, "nil", "<function>", and a list between brackets.
pub open spec fn display(v: ValueModel) -> Seq<char> {
    shown(v)
}

/// The name of an operator.
pub open spec fn operator_name(op: BinaryOperator) -> Seq<char> {
    match op {
        BinaryOperator::Add => "Add"@,
        BinaryOperator::Sub => "Sub"@,
        BinaryOperator::Mul => "Mul"@,
        BinaryOperator::Div => "Div"@,
        BinaryOperator::Rem => "Rem"@,
        BinaryOperator::Eq => "Eq"@,
        BinaryOperator::Ne => "Ne"@,
        BinaryOperator::Lt => "Lt"@,
        BinaryOperator::Le => "Le"@,
        BinaryOperator::Gt => "Gt"@,
        BinaryOperator::Ge => "Ge"@,
        BinaryOperator::StrictEq => "StrictEq"@,
        BinaryOperator::StrictNe => "StrictNe"@,
        BinaryOperator::And => "And"@,
        BinaryOperator::Or => "Or"@,
        BinaryOperator::Concat => "Concat"@,
        BinaryOperator::Cons => "Cons"@,
        BinaryOperator::Put => "Put"@,
    }
}

/// Whether the order test `op` holds of two numbers.
pub open spec fn ordered(op: BinaryOperator, a: u64, b: u64) -> bool {
    match op {
        BinaryOperator::Lt => less_number(a, b),
        BinaryOperator::Le => less_number(a, b) || same_number(a, b),
        BinaryOperator::Gt => less_number(b, a),
        _ => less_number(b, a) || same_number(a, b),
    }
}

/// The result of a binary operator on two values.
pub open spec fn apply_binary(op: BinaryOperator, l: ValueModel, r: ValueModel) -> Evaluated {
    match op {
        BinaryOperator::Add => match (l, r) {
            (ValueModel::Number(a), ValueModel::Number(b)) => Ok(ValueModel::Number(double_sum(a, b))),
            (ValueModel::Text(a), ValueModel::Text(b)) => Ok(ValueModel::Text(a + b)),
            _ => Err(logic("Cannot add these types"@)),
        },
        BinaryOperator::Sub => match (l, r) {
            (ValueModel::Number(a), ValueModel::Number(b)) => Ok(ValueModel::Number(double_difference(a, b))),
            _ => Err(logic("Cannot subtract these types"@)),
        },
        BinaryOperator::Mul => match (l, r) {
            (ValueModel::Number(a), ValueModel::Number(b)) => Ok(ValueModel::Number(double_product(a, b))),
            _ => Err(logic("Cannot multiply these types"@)),
        },
        BinaryOperator::Div => match (l, r) {
            (ValueModel::Number(a), ValueModel::Number(b)) => if is_zero(b) {
                Err(logic("Division by zero"@))
            } else {
                Ok(ValueModel::Number(double_quotient(a, b)))
            },
            _ => Err(logic("Cannot divide these types"@)),
        },
        BinaryOperator::Eq => Ok(truth(values_equal(l, r))),
        BinaryOperator::Ne => Ok(truth(!values_equal(l, r))),
        BinaryOperator::Lt | BinaryOperator::Le | BinaryOperator::Gt | BinaryOperator::Ge => match (
            l,
            r,
        ) {
            (ValueModel::Number(a), ValueModel::Number(b)) => Ok(truth(ordered(op, a, b))),
            _ => Err(logic("Cannot compare these types"@)),
        },
        BinaryOperator::And => Ok(
            if truthy(l) {
                r
            } else {
                l
            },
        ),
        BinaryOperator::Or => Ok(
            if truthy(l) {
                l
            } else {
                r
            },
        ),
        BinaryOperator::Concat => Ok(ValueModel::Text(display(l) + display(r))),
        _ => Err(logic("Binary operator "@ + operator_name(op) + " not implemented"@)),
    }
}

/// The result of a unary operator on a value.
pub open spec fn apply_unary(op: UnaryOperator, v: ValueModel) -> Evaluated {
    match op {
        UnaryOperator::Not => Ok(truth(!truthy(v))),
        UnaryOperator::Minus => match v {
            ValueModel::Number(bits) => Ok(ValueModel::Number(negated(bits))),
            _ => Err(logic("Cannot negate non-numeric value"@)),
        },
    }
}

/// The result of a call of `function` with the values `args`. The
/// interpreter implements `length`, `hd`, `tl` and `to_string`; every other
/// name is unknown to it.
pub open spec fn apply_builtin(function: Seq<char>, args: Seq<ValueModel>) -> Evaluated {
    if function == "length"@ {
        if args.len() != 1 {
            Err(logic("length/1 expects exactly one argument"@))
        } else {
            match args[0] {
                ValueModel::List(items) => Ok(ValueModel::Number(bits_of_nat(items.len()))),
                ValueModel::Text(s) => Ok(
                    ValueModel::Number(bits_of_nat(vstd::utf8::encode_utf8(s).len())),
                ),
                _ => Err(logic("length/1 expects a list or string"@)),
            }
        }
    } else if function == "hd"@ {
        if args.len() != 1 {
            Err(logic("hd/1 expects exactly one argument"@))
        } else {
            match args[0] {
                ValueModel::List(items) => if items.len() == 0 {
                    Err(logic("hd/1 called on empty list"@))
                } else {
                    Ok(items[0])
                },
                _ => Err(logic("hd/1 expects a list"@)),
            }
        }
    } else if function == "tl"@ {
        if args.len() != 1 {
            Err(logic("tl/1 expects exactly one argument"@))
        } else {
            match args[0] {
                ValueModel::List(items) => if items.len() == 0 {
                    Err(logic("tl/1 called on empty list"@))
                } else {
                    Ok(ValueModel::List(items.drop_first()))
                },
                _ => Err(logic("tl/1 expects a list"@)),
            }
        }
    } else if function == "to_string"@ {
        if args.len() != 1 {
            Err(logic("to_string/1 expects exactly one argument"@))
        } else {
            Ok(ValueModel::Text(display(args[0])))
        }
    } else {
        Err(logic("Unknown function '"@ + function + "'"@))
    }
}

/// The element of `object` that `key` indexes: nil unless `object` is a
/// list, `key` a number, and the index within the list.
pub open spec fn access(object: ValueModel, key: ValueModel) -> ValueModel {
    match (object, key) {
        (ValueModel::List(items), ValueModel::Number(bits)) => if index_of(bits) < items.len() {
            items[index_of(bits) as int]
        } else {
            ValueModel::Nil
        },
        _ => ValueModel::Nil,
    }
}

/// The value of `e` under the bindings `env`, or the first error that its
/// evaluation meets, parts evaluated left to right.
pub open spec fn eval_model(e: ExprModel, env: Map<Seq<char>, ValueModel>) -> Evaluated
    decreases e, 0nat,
{
    match e {
        ExprModel::Nil => Ok(ValueModel::Nil),
        ExprModel::Boolean(b) => Ok(truth(b)),
        ExprModel::Integer(n) => Ok(
            ValueModel::Number(
                whole_bits(
                    n < 0,
                    (if n < 0 {
                        -(n as int)
                    } else {
                        n as int
                    }) as nat,
                ),
            ),
        ),
        ExprModel::Float(bits) => Ok(ValueModel::Number(bits)),
        ExprModel::Text(s) => Ok(ValueModel::Text(s)),
        ExprModel::Atom(a) => Ok(ValueModel::Text(seq![':'] + a)),
        ExprModel::Variable(name) => if env.contains_key(name) {
            Ok(env[name])
        } else {
            Err(logic("Variable '"@ + name + "' is undefined"@))
        },
        ExprModel::List(items) => match eval_all(items, items.len() as int, env) {
            Ok(values) => Ok(ValueModel::List(values)),
            Err(error) => Err(error),
        },
        ExprModel::Tuple(items) => match eval_all(items, items.len() as int, env) {
            Ok(values) => Ok(ValueModel::List(values)),
            Err(error) => Err(error),
        },
        ExprModel::MapLiteral(_) => Ok(ValueModel::Text("map"@)),
        ExprModel::BinaryOp { op, left, right } => match eval_model(*left, env) {
            Err(error) => Err(error),
            Ok(l) => match eval_model(*right, env) {
                Err(error) => Err(error),
                Ok(r) => apply_binary(op, l, r),
            },
        },
        ExprModel::UnaryOp { op, operand } => match eval_model(*operand, env) {
            Err(error) => Err(error),
            Ok(v) => apply_unary(op, v),
        },
        ExprModel::Call { function, args } => match eval_all(args, args.len() as int, env) {
            Err(error) => Err(error),
            Ok(values) => apply_builtin(function, values),
        },
        ExprModel::Pipe { value, function } => match eval_model(*value, env) {
            Err(error) => Err(error),
            Ok(piped) => match *function {
                ExprModel::Call { function: name, args } => match eval_all(
                    args,
                    args.len() as int,
                    env,
                ) {
                    Err(error) => Err(error),
                    Ok(values) => apply_builtin(
                        name,
                        seq![ValueModel::Text(display(piped))] + values,
                    ),
                },
                _ => Err(logic("Pipe target must be a function call"@)),
            },
        },
        ExprModel::Match { pattern, value } => eval_model(*value, env),
        ExprModel::Case { expr, clauses } => Ok(ValueModel::Nil),
        ExprModel::If { condition, then_branch, else_branch } => match eval_model(
            *condition,
            env,
        ) {
            Err(error) => Err(error),
            Ok(c) => if truthy(c) {
                eval_model(*then_branch, env)
            } else {
                match else_branch {
                    Some(b) => eval_model(*b, env),
                    None => Ok(ValueModel::Nil),
                }
            },
        },
        ExprModel::Block(items) => match eval_all(items, items.len() as int, env) {
            Err(error) => Err(error),
            Ok(values) => Ok(
                if values.len() == 0 {
                    ValueModel::Nil
                } else {
                    values.last()
                },
            ),
        },
        ExprModel::Access { object, key } => match eval_model(*object, env) {
            Err(error) => Err(error),
            Ok(o) => match eval_model(*key, env) {
                Err(error) => Err(error),
                Ok(k) => Ok(access(o, k)),
            },
        },
    }
}

/// The values of the first `n` expressions of `items`, or the first error.
pub open spec fn eval_all(items: Seq<ExprModel>, n: int, env: Map<Seq<char>, ValueModel>) -> Result<
    Seq<ValueModel>,
    ErrorModel,
>
    decreases items, n,
{
    if n <= 0 || n > items.len() {
        Ok(Seq::empty())
    } else {
        match eval_all(items, n - 1, env) {
            Err(error) => Err(error),
            Ok(values) => match eval_model(items[n - 1], env) {
                Err(error) => Err(error),
                Ok(v) => Ok(values.push(v)),
            },
        }
    }
}

/// The number of expressions that the evaluation of `e` under `env`
/// visits: `e` itself and the parts that are evaluated before the value or
/// the first error is there.
pub open spec fn visits(e: ExprModel, env: Map<Seq<char>, ValueModel>) -> nat
    decreases e, 0nat,
{
    match e {
        ExprModel::List(items) => 1 + visits_all(items, items.len() as int, env),
        ExprModel::Tuple(items) => 1 + visits_all(items, items.len() as int, env),
        ExprModel::Block(items) => 1 + visits_all(items, items.len() as int, env),
        ExprModel::Call { function, args } => 1 + visits_all(args, args.len() as int, env),
        ExprModel::BinaryOp { op, left, right } => 1 + visits(*left, env) + if eval_model(
            *left,
            env,
        ) is Ok {
            visits(*right, env)
        } else {
            0
        },
        ExprModel::Access { object, key } => 1 + visits(*object, env) + if eval_model(
            *object,
            env,
        ) is Ok {
            visits(*key, env)
        } else {
            0
        },
        ExprModel::UnaryOp { op, operand } => 1 + visits(*operand, env),
        ExprModel::Match { pattern, value } => 1 + visits(*value, env),
        ExprModel::Pipe { value, function } => 1 + visits(*value, env) + if eval_model(
            *value,
            env,
        ) is Ok {
            match *function {
                ExprModel::Call { function: name, args } => visits_all(
                    args,
                    args.len() as int,
                    env,
                ),
                _ => 0,
            }
        } else {
            0
        },
        ExprModel::If { condition, then_branch, else_branch } => 1 + visits(*condition, env)
            + match eval_model(*condition, env) {
            Err(_) => 0,
            Ok(c) => if truthy(c) {
                visits(*then_branch, env)
            } else {
                match else_branch {
                    Some(b) => visits(*b, env),
                    None => 0,
                }
            },
        },
        _ => 1,
    }
}

/// The number of expressions that the evaluation of the first `n`
/// expressions of `items` visits: nothing is visited behind an error.
pub open spec fn visits_all(items: Seq<ExprModel>, n: int, env: Map<Seq<char>, ValueModel>) -> nat
    decreases items, n,
{
    if n <= 0 || n > items.len() {
        0
    } else {
        visits_all(items, n - 1, env) + if eval_all(items, n - 1, env) is Ok {
            visits(items[n - 1], env)
        } else {
            0
        }
    }
}

/// The counter `c` after `n` more; it stops at the largest `u64`.
pub open spec fn advance(c: u64, n: nat) -> u64 {
    if c + n > u64::MAX {
        u64::MAX
    } else {
        (c + n) as u64
    }
}

/// The model of an evaluation context.
pub struct ContextModel {
    pub bindings: Map<Seq<char>, ValueModel>,
    pub recursion_depth: usize,
    pub max_recursion: usize,
}

/// The bindings that an expression is evaluated against, and a counter of
/// nested evaluations with its ceiling.
#[derive(Debug, Clone)]
pub struct EvaluationContext {
    bindings: Bindings,
    recursion_depth: usize,
    max_recursion: usize,
}

impl View for EvaluationContext {
    type V = ContextModel;

    closed spec fn view(&self) -> ContextModel {
        ContextModel {
            bindings: self.bindings@,
            recursion_depth: self.recursion_depth,
            max_recursion: self.max_recursion,
        }
    }
}

/// The recursion ceiling of a new context.
pub const DEFAULT_MAX_RECURSION: usize = 100;

impl EvaluationContext {
    /// A context without bindings, at depth zero, with a ceiling of 100.
    pub fn new() -> (ctx: Self)
        ensures
            ctx@ == (ContextModel {
                bindings: Map::empty(),
                recursion_depth: 0,
                max_recursion: DEFAULT_MAX_RECURSION,
            }),
    {
        EvaluationContext {
            bindings: Bindings::new(),
            recursion_depth: 0,
            max_recursion: DEFAULT_MAX_RECURSION,
        }
    }

    /// A context with the given bindings.
    pub fn with_bindings(bindings: Bindings) -> (ctx: Self)
        ensures
            ctx@ == (ContextModel {
                bindings: bindings@,
                recursion_depth: 0,
                max_recursion: DEFAULT_MAX_RECURSION,
            }),
    {
        EvaluationContext { bindings, recursion_depth: 0, max_recursion: DEFAULT_MAX_RECURSION }
    }

    /// Binds `name` to `value`.
    pub fn bind(&mut self, name: String, value: EllexValue)
        ensures
            final(self)@ == (ContextModel {
                bindings: old(self)@.bindings.insert(name@, value@),
                ..old(self)@
            }),
    {
        self.bindings.insert(name, value);
    }

    /// The value bound to `name`, if any.
    pub fn get(&self, name: &str) -> (r: Option<&EllexValue>)
        ensures
            r is Some <==> self@.bindings.contains_key(name@),
            r is Some ==> r.unwrap()@ == self@.bindings[name@],
    {
        self.bindings.get(name)
    }

    /// The bindings of this context.
    pub fn bindings(&self) -> (b: &Bindings)
        ensures
            b@ == self@.bindings,
    {
        &self.bindings
    }

    /// Enters one nested evaluation; refused at the ceiling.
    pub fn enter_recursion(&mut self) -> (r: EllexResult<()>)
        ensures
            old(self)@.recursion_depth >= old(self)@.max_recursion ==> final(self)@ == old(self)@
                && crate::error_of(r) == Some(
                ErrorModel::SafetyViolation {
                    reason: "Maximum recursion depth of "@ + decimal(
                        old(self)@.max_recursion as nat,
                    ) + " exceeded"@,
                },
            ),
            old(self)@.recursion_depth < old(self)@.max_recursion ==> r is Ok && final(self)@ == (
            ContextModel {
                recursion_depth: (old(self)@.recursion_depth + 1) as usize,
                ..old(self)@
            }),
    {
        if self.recursion_depth >= self.max_recursion {
            let mut n = String::new();
            push_decimal(&mut n, self.max_recursion as u64);
            assert(n@ =~= decimal(self.max_recursion as nat));
            return Err(EllexError::violation("Maximum recursion depth of ", n.as_str(), " exceeded"));
        }
        self.recursion_depth = self.recursion_depth + 1;
        Ok(())
    }

    /// Leaves one nested evaluation; at depth zero nothing changes.
    pub fn exit_recursion(&mut self)
        ensures
            final(self)@ == (ContextModel {
                recursion_depth: if old(self)@.recursion_depth > 0 {
                    (old(self)@.recursion_depth - 1) as usize
                } else {
                    0
                },
                ..old(self)@
            }),
    {
        if self.recursion_depth > 0 {
            self.recursion_depth = self.recursion_depth - 1;
        }
    }
}

impl Default for EvaluationContext {
    fn default() -> (ctx: Self)
        ensures
            ctx@ == (ContextModel {
                bindings: Map::empty(),
                recursion_depth: 0,
                max_recursion: DEFAULT_MAX_RECURSION,
            }),
    {
        Self::new()
    }
}

/// Figures about an interpreter.
#[derive(Debug, Clone, Copy, PartialEq, Eq, Structural)]
pub struct InterpreterStats {
    /// The number of evaluations requested so far.
    pub evaluation_count: u64,
    /// The number of expressions the interpreter keeps; it keeps none.
    pub cached_expressions: usize,
}

fn logic_error(message: &str) -> (e: EllexError)
    ensures
        e@ == logic(message@),
{
    EllexError::LogicError { message: String::from_str(message) }
}

fn truth_value(b: bool) -> (v: EllexValue)
    ensures
        v@ == truth(b),
{
    if b {
        EllexValue::String(String::from_str("true"))
    } else {
        EllexValue::String(String::from_str("false"))
    }
}

/// Whether `value` counts as true.
pub fn is_truthy(value: &EllexValue) -> (r: bool)
    ensures
        r == truthy(value@),
{
    match value {
        EllexValue::Nil => false,
        EllexValue::String(s) => {
            let chars = crate::text::chars_of(s.as_str());
            !same_text(s.as_str(), "false") && chars.len() > 0
        },
        EllexValue::Number(bits) => !number_is_zero(*bits),
        EllexValue::List(items) => {
            assert(values_model(*items).len() == items.len());
            items.len() > 0
        },
        EllexValue::Function(_) => true,
    }
}

/// The text that stands for `value`, if it has one.
pub fn display_value(value: &EllexValue) -> (r: String)
    ensures
        r@ == display(value@),
{
    value.to_string()
}

fn operator_text(op: BinaryOperator) -> (s: &'static str)
    ensures
        s@ == operator_name(op),
{
    match op {
        BinaryOperator::Add => "Add",
        BinaryOperator::Sub => "Sub",
        BinaryOperator::Mul => "Mul",
        BinaryOperator::Div => "Div",
        BinaryOperator::Rem => "Rem",
        BinaryOperator::Eq => "Eq",
        BinaryOperator::Ne => "Ne",
        BinaryOperator::Lt => "Lt",
        BinaryOperator::Le => "Le",
        BinaryOperator::Gt => "Gt",
        BinaryOperator::Ge => "Ge",
        BinaryOperator::StrictEq => "StrictEq",
        BinaryOperator::StrictNe => "StrictNe",
        BinaryOperator::And => "And",
        BinaryOperator::Or => "Or",
        BinaryOperator::Concat => "Concat",
        BinaryOperator::Cons => "Cons",
        BinaryOperator::Put => "Put",
    }
}

/// Applies a binary operator to two values.
pub fn binary_operation(op: BinaryOperator, left: EllexValue, right: EllexValue) -> (r: EllexResult<
    EllexValue,
>)
    ensures
        evaluated(r) == apply_binary(op, left@, right@),
{
    match op {
        BinaryOperator::Add => match (&left, &right) {
            (EllexValue::Number(a), EllexValue::Number(b)) => Ok(EllexValue::Number(double_add(*a, *b))),
            (EllexValue::String(a), EllexValue::String(b)) => {
                let mut joined = a.clone();
                push_text(&mut joined, b.as_str());
                Ok(EllexValue::String(joined))
            },
            _ => Err(logic_error("Cannot add these types")),
        },
        BinaryOperator::Sub => match (&left, &right) {
            (EllexValue::Number(a), EllexValue::Number(b)) => Ok(EllexValue::Number(double_sub(*a, *b))),
            _ => Err(logic_error("Cannot subtract these types")),
        },
        BinaryOperator::Mul => match (&left, &right) {
            (EllexValue::Number(a), EllexValue::Number(b)) => Ok(EllexValue::Number(double_mul(*a, *b))),
            _ => Err(logic_error("Cannot multiply these types")),
        },
        BinaryOperator::Div => match (&left, &right) {
            (EllexValue::Number(a), EllexValue::Number(b)) => {
                if number_is_zero(*b) {
                    Err(logic_error("Division by zero"))
                } else {
                    Ok(EllexValue::Number(double_div(*a, *b)))
                }
            },
            _ => Err(logic_error("Cannot divide these types")),
        },
        BinaryOperator::Eq => Ok(truth_value(left.same_as(&right))),
        BinaryOperator::Ne => Ok(truth_value(!left.same_as(&right))),
        BinaryOperator::Lt | BinaryOperator::Le | BinaryOperator::Gt | BinaryOperator::Ge => match (
            &left,
            &right,
        ) {
            (EllexValue::Number(a), EllexValue::Number(b)) => {
                let holds = match op {
                    BinaryOperator::Lt => number_less(*a, *b),
                    BinaryOperator::Le => number_less(*a, *b) || numbers_equal(*a, *b),
                    BinaryOperator::Gt => number_less(*b, *a),
                    _ => number_less(*b, *a) || numbers_equal(*a, *b),
                };
                Ok(truth_value(holds))
            },
            _ => Err(logic_error("Cannot compare these types")),
        },
        BinaryOperator::And => {
            if is_truthy(&left) {
                Ok(right)
            } else {
                Ok(left)
            }
        },
        BinaryOperator::Or => {
            if is_truthy(&left) {
                Ok(left)
            } else {
                Ok(right)
            }
        },
        BinaryOperator::Concat => {
            let mut joined = display_value(&left);
            push_text(&mut joined, display_value(&right).as_str());
            Ok(EllexValue::String(joined))
        },
        _ => Err(EllexError::logic("Binary operator ", operator_text(op), " not implemented")),
    }
}

/// Applies a unary operator to a value.
pub fn unary_operation(op: UnaryOperator, value: EllexValue) -> (r: EllexResult<EllexValue>)
    ensures
        evaluated(r) == apply_unary(op, value@),
{
    match op {
        UnaryOperator::Not => Ok(truth_value(!is_truthy(&value))),
        UnaryOperator::Minus => match value {
            EllexValue::Number(bits) => Ok(EllexValue::Number(negate(bits))),
            _ => Err(logic_error("Cannot negate non-numeric value")),
        },
    }
}

/// Calls the built-in `function` with the values `args`.
pub fn builtin_call(function: &str, args: &Vec<EllexValue>) -> (r: EllexResult<EllexValue>)
    ensures
        evaluated(r) == apply_builtin(function@, values_model(*args)),
{
    assert(values_model(*args).len() == args.len());
    if same_text(function, "length") {
        if args.len() != 1 {
            return Err(logic_error("length/1 expects exactly one argument"));
        }
        assert(values_model(*args)[0] == args[0]@);
        match &args[0] {
            EllexValue::List(items) => {
                assert(values_model(*items).len() == items.len());
                Ok(EllexValue::Number(number_from_u64(items.len() as u64)))
            },
            EllexValue::String(s) => Ok(
                EllexValue::Number(number_from_u64(s.as_str().as_bytes().len() as u64)),
            ),
            _ => Err(logic_error("length/1 expects a list or string")),
        }
    } else if same_text(function, "hd") {
        if args.len() != 1 {
            return Err(logic_error("hd/1 expects exactly one argument"));
        }
        assert(values_model(*args)[0] == args[0]@);
        match &args[0] {
            EllexValue::List(items) => {
                assert(values_model(*items).len() == items.len());
                if items.len() == 0 {
                    Err(logic_error("hd/1 called on empty list"))
                } else {
                    assert(values_model(*items)[0] == items[0]@);
                    Ok(items[0].duplicate())
                }
            },
            _ => Err(logic_error("hd/1 expects a list")),
        }
    } else if same_text(function, "tl") {
        if args.len() != 1 {
            return Err(logic_error("tl/1 expects exactly one argument"));
        }
        assert(values_model(*args)[0] == args[0]@);
        match &args[0] {
            EllexValue::List(items) => {
                assert(values_model(*items).len() == items.len());
                if items.len() == 0 {
                    Err(logic_error("tl/1 called on empty list"))
                } else {
                    let mut rest: Vec<EllexValue> = Vec::new();
                    let mut i: usize = 1;
                    while i < items.len()
                        invariant
                            1 <= i <= items.len(),
                            rest.len() == i - 1,
                            forall|j: int| 0 <= j < rest.len() ==> rest[j]@ == items[j + 1]@,
                        decreases items.len() - i,
                    {
                        rest.push(items[i].duplicate());
                        i += 1;
                    }
                    assert(values_model(rest) =~= values_model(*items).drop_first());
                    Ok(EllexValue::List(rest))
                }
            },
            _ => Err(logic_error("tl/1 expects a list")),
        }
    } else if same_text(function, "to_string") {
        if args.len() != 1 {
            return Err(logic_error("to_string/1 expects exactly one argument"));
        }
        assert(values_model(*args)[0] == args[0]@);
        Ok(EllexValue::String(display_value(&args[0])))
    } else {
        Err(EllexError::logic("Unknown function '", function, "'"))
    }
}

/// The element of `object` that `key` indexes.
pub fn access_value(object: &EllexValue, key: &EllexValue) -> (v: EllexValue)
    ensures
        v@ == access(object@, key@),
{
    match (object, key) {
        (EllexValue::List(items), EllexValue::Number(bits)) => {
            assert(values_model(*items).len() == items.len());
            let index = number_to_index(*bits);
            if index < items.len() {
                assert(values_model(*items)[index as int] == items[index as int]@);
                items[index].duplicate()
            } else {
                EllexValue::Nil
            }
        },
        _ => EllexValue::Nil,
    }
}

/// Evaluates `expr` under `bindings` and counts the expressions visited.
pub fn evaluate_counted(expr: &MiniElixirExpr, bindings: &Bindings, count: &mut u64) -> (r:
    EllexResult<EllexValue>)
    ensures
        evaluated(r) == eval_model(expr@, bindings@),
        *final(count) == advance(*old(count), visits(expr@, bindings@)),
    decreases expr, 0nat,
{
    *count = count.saturating_add(1);
    match expr {
        MiniElixirExpr::Nil => Ok(EllexValue::Nil),
        MiniElixirExpr::Boolean(b) => Ok(truth_value(*b)),
        MiniElixirExpr::Integer(n) => Ok(EllexValue::Number(number_from_i64(*n))),
        MiniElixirExpr::Float(bits) => Ok(EllexValue::Number(*bits)),
        MiniElixirExpr::String(s) => Ok(EllexValue::String(s.clone())),
        MiniElixirExpr::Atom(a) => {
            let mut text = String::from_str(":");
            push_text(&mut text, a.as_str());
            proof {
                reveal_strlit(":");
                assert(":"@ =~= seq![':']);
            }
            Ok(EllexValue::String(text))
        },
        MiniElixirExpr::Variable(name) => match bindings.get(name.as_str()) {
            Some(v) => Ok(v.duplicate()),
            None => Err(EllexError::logic("Variable '", name.as_str(), "' is undefined")),
        },
        MiniElixirExpr::List(items) => {
            assert(exprs_model(*items).len() == items.len());
            match evaluate_all_counted(items, bindings, count) {
                Ok(values) => Ok(EllexValue::List(values)),
                Err(error) => Err(error),
            }
        },
        MiniElixirExpr::Tuple(items) => {
            assert(exprs_model(*items).len() == items.len());
            match evaluate_all_counted(items, bindings, count) {
                Ok(values) => Ok(EllexValue::List(values)),
                Err(error) => Err(error),
            }
        },
        MiniElixirExpr::MapLiteral(_) => Ok(EllexValue::String(String::from_str("map"))),
        MiniElixirExpr::BinaryOp { op, left, right } => {
            let l = match evaluate_counted(left, bindings, count) {
                Ok(v) => v,
                Err(error) => {
                    return Err(error);
                },
            };
            let r = match evaluate_counted(right, bindings, count) {
                Ok(v) => v,
                Err(error) => {
                    return Err(error);
                },
            };
            binary_operation(*op, l, r)
        },
        MiniElixirExpr::UnaryOp { op, operand } => {
            let v = match evaluate_counted(operand, bindings, count) {
                Ok(v) => v,
                Err(error) => {
                    return Err(error);
                },
            };
            unary_operation(*op, v)
        },
        MiniElixirExpr::Call { function, args } => {
            assert(exprs_model(*args).len() == args.len());
            let values = match evaluate_all_counted(args, bindings, count) {
                Ok(values) => values,
                Err(error) => {
                    return Err(error);
                },
            };
            builtin_call(function.as_str(), &values)
        },
        MiniElixirExpr::Pipe { value, function } => {
            let piped = match evaluate_counted(value, bindings, count) {
                Ok(v) => v,
                Err(error) => {
                    return Err(error);
                },
            };
            match &**function {
                MiniElixirExpr::Call { function: name, args } => {
                    assert(exprs_model(*args).len() == args.len());
                    assert(expr_model(**function) == (ExprModel::Call {
                        function: name@,
                        args: exprs_model(*args),
                    }));
                    let text = display_value(&piped);
                    let values = match evaluate_all_counted(args, bindings, count) {
                        Ok(values) => values,
                        Err(error) => {
                            return Err(error);
                        },
                    };
                    let mut all: Vec<EllexValue> = Vec::new();
                    all.push(EllexValue::String(text));
                    let mut i: usize = 0;
                    while i < values.len()
                        invariant
                            0 <= i <= values.len(),
                            all.len() == i + 1,
                            all[0]@ == ValueModel::Text(text@),
                            forall|j: int| 0 <= j < i ==> all[j + 1]@ == values[j]@,
                        decreases values.len() - i,
                    {
                        all.push(values[i].duplicate());
                        i += 1;
                    }
                    assert(values_model(all) =~= seq![ValueModel::Text(text@)] + values_model(
                        values,
                    ));
                    builtin_call(name.as_str(), &all)
                },
                _ => {
                    assert(!(expr_model(**function) is Call));
                    Err(logic_error("Pipe target must be a function call"))
                },
            }
        },
        MiniElixirExpr::Match { pattern, value } => evaluate_counted(value, bindings, count),
        MiniElixirExpr::Case { expr: subject, clauses } => Ok(EllexValue::Nil),
        MiniElixirExpr::If { condition, then_branch, else_branch } => {
            let c = match evaluate_counted(condition, bindings, count) {
                Ok(v) => v,
                Err(error) => {
                    return Err(error);
                },
            };
            if is_truthy(&c) {
                evaluate_counted(then_branch, bindings, count)
            } else {
                match else_branch {
                    Some(b) => evaluate_counted(b, bindings, count),
                    None => Ok(EllexValue::Nil),
                }
            }
        },
        MiniElixirExpr::Block(items) => {
            assert(exprs_model(*items).len() == items.len());
            let mut values = match evaluate_all_counted(items, bindings, count) {
                Ok(values) => values,
                Err(error) => {
                    return Err(error);
                },
            };
            let ghost all_values = values_model(values);
            let ghost count = values.len();
            assert(all_values.len() == count);
            assert(count > 0 ==> all_values[count - 1] == values[count - 1]@);
            match values.pop() {
                Some(last) => Ok(last),
                None => Ok(EllexValue::Nil),
            }
        },
        MiniElixirExpr::Access { object, key } => {
            let o = match evaluate_counted(object, bindings, count) {
                Ok(v) => v,
                Err(error) => {
                    return Err(error);
                },
            };
            let k = match evaluate_counted(key, bindings, count) {
                Ok(v) => v,
                Err(error) => {
                    return Err(error);
                },
            };
            Ok(access_value(&o, &k))
        },
    }
}

/// Evaluates the expressions of `items` in order and counts the
/// expressions visited.
pub fn evaluate_all_counted(items: &Vec<MiniElixirExpr>, bindings: &Bindings, count: &mut u64) -> (r:
    EllexResult<Vec<EllexValue>>)
    ensures
        *final(count) == advance(
            *old(count),
            visits_all(exprs_model(*items), items.len() as int, bindings@),
        ),
        match r {
            Ok(values) => eval_all(exprs_model(*items), items.len() as int, bindings@) == Ok::<
                Seq<ValueModel>,
                ErrorModel,
            >(values_model(values)),
            Err(error) => eval_all(exprs_model(*items), items.len() as int, bindings@) == Err::<
                Seq<ValueModel>,
                ErrorModel,
            >(error@),
        },
    decreases items, 1nat,
{
    let ghost model = exprs_model(*items);
    let mut values: Vec<EllexValue> = Vec::new();
    let mut i: usize = 0;
    assert(values_model(values) =~= Seq::<ValueModel>::empty());
    while i < items.len()
        invariant
            0 <= i <= items.len(),
            model == exprs_model(*items),
            model.len() == items.len(),
            eval_all(model, i as int, bindings@) == Ok::<Seq<ValueModel>, ErrorModel>(
                values_model(values),
            ),
            *count == advance(*old(count), visits_all(model, i as int, bindings@)),
        decreases items.len() - i,
    {
        assert(model[i as int] == items[i as int]@);
        match evaluate_counted(&items[i], bindings, count) {
            Ok(v) => {
                let ghost before = values_model(values);
                values.push(v);
                assert(values_model(values) =~= before.push(v@));
            },
            Err(error) => {
                proof {
                    lemma_eval_all_error_stays(model, i as int + 1, items.len() as int, bindings@);
                    lemma_visits_stop(model, i as int + 1, items.len() as int, bindings@);
                }
                return Err(error);
            },
        }
        i += 1;
    }
    Ok(values)
}

/// Evaluates `expr` under `bindings`.
pub fn evaluate(expr: &MiniElixirExpr, bindings: &Bindings) -> (r: EllexResult<EllexValue>)
    ensures
        evaluated(r) == eval_model(expr@, bindings@),
{
    let mut count: u64 = 0;
    evaluate_counted(expr, bindings, &mut count)
}

/// Behind an error nothing is visited.
pub proof fn lemma_visits_stop(
    items: Seq<ExprModel>,
    n: int,
    m: int,
    env: Map<Seq<char>, ValueModel>,
)
    requires
        0 <= n <= m <= items.len(),
        eval_all(items, n, env) is Err,
    ensures
        visits_all(items, m, env) == visits_all(items, n, env),
    decreases m - n,
{
    if n < m {
        lemma_visits_stop(items, n, m - 1, env);
        lemma_eval_all_error_stays(items, n, m - 1, env);
    }
}

/// An error among the first `n` expressions is the error of every longer
/// prefix.
pub proof fn lemma_eval_all_error_stays(
    items: Seq<ExprModel>,
    n: int,
    m: int,
    env: Map<Seq<char>, ValueModel>,
)
    requires
        0 <= n <= m <= items.len(),
        eval_all(items, n, env) is Err,
    ensures
        eval_all(items, m, env) == eval_all(items, n, env),
    decreases m - n,
{
    if n < m {
        lemma_eval_all_error_stays(items, n, m - 1, env);
    }
}

/// The interpreter of the sandboxed language.
#[derive(Debug)]
pub struct MiniElixirInterpreter {
    evaluation_count: u64,
}

impl MiniElixirInterpreter {
    pub fn new() -> (i: Self)
        ensures
            i.evaluations() == 0,
    {
        MiniElixirInterpreter { evaluation_count: 0 }
    }

    /// The number of evaluations requested so far; it stops at the largest
    /// `u64`.
    pub closed spec fn evaluations(&self) -> u64 {
        self.evaluation_count
    }

    /// Reads `code` as one expression.
    pub fn parse(&self, code: &str) -> (r: EllexResult<MiniElixirExpr>)
        ensures
            match r {
                Ok(e) => crate::minielixir_parser::read(code@) == Ok::<ExprModel, ErrorModel>(e@),
                Err(error) => crate::minielixir_parser::read(code@) == Err::<
                    ExprModel,
                    ErrorModel,
                >(error@),
            },
    {
        crate::minielixir_parser::parse(code)
    }

    /// Evaluates `expr` against the bindings of `ctx` and counts one
    /// evaluation.
    pub fn eval(&mut self, expr: &MiniElixirExpr, ctx: &EvaluationContext) -> (r: EllexResult<
        EllexValue,
    >)
        ensures
            evaluated(r) == eval_model(expr@, ctx@.bindings),
            final(self).evaluations() == advance(
                old(self).evaluations(),
                visits(expr@, ctx@.bindings),
            ),
    {
        evaluate_counted(expr, ctx.bindings(), &mut self.evaluation_count)
    }

    /// The figures of this interpreter.
    pub fn stats(&self) -> (s: InterpreterStats)
        ensures
            s == (InterpreterStats {
                evaluation_count: self.evaluations(),
                cached_expressions: 0,
            }),
    {
        InterpreterStats { evaluation_count: self.evaluation_count, cached_expressions: 0 }
    }
}

impl Default for MiniElixirInterpreter {
    fn default() -> (i: Self)
        ensures
            i.evaluations() == 0,
    {
        Self::new()
    }
}

} // verus!
