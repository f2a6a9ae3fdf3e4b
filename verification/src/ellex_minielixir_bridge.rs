//! The rendering of statements as expressions of the sandboxed
//! language, and the two back ends that run them.

use crate::reading::{number_read, read_number};
use crate::json::{jsons_model, statements_json, Json};
use crate::minielixir::{
    eval_model, evaluated, exprs_model, BinaryOperator, EvaluationContext, ExprModel,
    InterpreterStats, MiniElixirExpr,
};
use crate::minielixir_cached_runtime::{
    block_value, memory_estimate, ranked, CacheAnalysis, CachedMiniElixirRuntime,
    CachedRuntimeStats, RuntimeModel,
};
use crate::minielixir_parser::{
    char_is_word, is_digit, is_word_char, next_token, token_at, Token, TokenModel,
};
use crate::render::find_char;
use crate::number::{is_negative, number_whole, whole_magnitude, SIGN_BIT};
use crate::text::{
    chars_of, find_text, first_occurrence, matches_at, occurs_at, push_text, string_of,
    string_of_range, trim_text, trimmed,
};
use crate::values::{
    statements_model, values_model, EllexValue, Statement, StatementModel, ValueModel,
};
use crate::EllexResult;
use vstd::prelude::*;

verus! {

/// The back end that runs outside this process. It is never available here.
#[derive(Debug, Clone, Copy, PartialEq, Eq, Structural)]
pub struct ElixirMiniElixirBridge;

impl ElixirMiniElixirBridge {
    pub fn new() -> (b: Self) {
        ElixirMiniElixirBridge
    }

    /// Whether the outside back end can be reached: it cannot.
    pub fn is_available(&self) -> (r: bool)
        ensures
            !r,
    {
        false
    }
}

impl Default for ElixirMiniElixirBridge {
    fn default() -> (b: Self) {
        ElixirMiniElixirBridge
    }
}

/// The expression that stands for a value: a whole number of at most 2^53
/// becomes an integer, any other number a float, a function a call of its
/// name without arguments.
pub open spec fn value_expr(v: ValueModel) -> ExprModel
    decreases v,
{
    match v {
        ValueModel::Text(s) => ExprModel::Text(s),
        ValueModel::Number(bits) => match whole_magnitude(bits) {
            Some(m) => ExprModel::Integer(
                (if is_negative(bits) {
                    -(m as int)
                } else {
                    m as int
                }) as i64,
            ),
            None => ExprModel::Float(bits),
        },
        ValueModel::List(items) => ExprModel::List(value_exprs(items)),
        ValueModel::Function(f) => ExprModel::Call { function: f.name, args: Seq::empty() },
        ValueModel::Nil => ExprModel::Nil,
    }
}

pub open spec fn value_exprs(items: Seq<ValueModel>) -> Seq<ExprModel>
    decreases items,
{
    Seq::new(
        items.len(),
        |i: int|
            if 0 <= i < items.len() {
                value_expr(items[i])
            } else {
                ExprModel::Nil
            },
    )
}

/// One expression for a body: the expression itself if there is exactly
/// one, a block otherwise.
pub open spec fn body_expr(exprs: Seq<ExprModel>) -> ExprModel {
    if exprs.len() == 1 {
        exprs[0]
    } else {
        ExprModel::Block(exprs)
    }
}

/// The expression that stands for a statement.
pub open spec fn statement_expr(s: StatementModel) -> ExprModel
    decreases s,
{
    match s {
        StatementModel::Tell(value) => ExprModel::Call {
            function: "to_string"@,
            args: seq![value_expr(value)],
        },
        StatementModel::Ask(variable, _) => ExprModel::Call {
            function: "get_input"@,
            args: seq![ExprModel::Text("Enter "@ + variable + ": "@)],
        },
        StatementModel::Assignment(variable, value) => ExprModel::Call {
            function: "assign"@,
            args: seq![ExprModel::Text(variable), value_expr(value)],
        },
        StatementModel::Repeat(times, body) => ExprModel::Call {
            function: "repeat"@,
            args: seq![ExprModel::Integer(times as i64), body_expr(statement_exprs(body))],
        },
        StatementModel::When(variable, condition, then_body, else_body) => ExprModel::If {
            condition: Box::new(
                ExprModel::BinaryOp {
                    op: BinaryOperator::Eq,
                    left: Box::new(ExprModel::Variable(variable)),
                    right: Box::new(value_expr(condition)),
                },
            ),
            then_branch: Box::new(body_expr(statement_exprs(then_body))),
            else_branch: match else_body {
                Some(b) => Some(Box::new(body_expr(statement_exprs(b)))),
                None => None,
            },
        },
        StatementModel::Call(name) => ExprModel::Call { function: name, args: Seq::empty() },
    }
}

pub open spec fn statement_exprs(body: Seq<StatementModel>) -> Seq<ExprModel>
    decreases body,
{
    Seq::new(
        body.len(),
        |i: int|
            if 0 <= i < body.len() {
                statement_expr(body[i])
            } else {
                ExprModel::Nil
            },
    )
}

/// The expression that stands for `value`.
pub fn ellex_value_to_minielixir(value: &EllexValue) -> (e: MiniElixirExpr)
    ensures
        e@ == value_expr(value@),
    decreases value,
{
    match value {
        EllexValue::String(s) => MiniElixirExpr::String(s.clone()),
        EllexValue::Number(bits) => match number_whole(*bits) {
            Some(m) => {
                if *bits >= SIGN_BIT {
                    MiniElixirExpr::Integer(-(m as i64))
                } else {
                    MiniElixirExpr::Integer(m as i64)
                }
            },
            None => MiniElixirExpr::Float(*bits),
        },
        EllexValue::List(items) => {
            let mut out: Vec<MiniElixirExpr> = Vec::new();
            let mut i: usize = 0;
            while i < items.len()
                invariant
                    0 <= i <= items.len(),
                    out.len() == i,
                    *value is List,
                    value->List_0 == *items,
                    forall|j: int| 0 <= j < i ==> out[j]@ == value_expr(items[j]@),
                decreases items.len() - i,
            {
                proof {
                    assert(decreases_to!(*value => value->List_0));
                    assert(decreases_to!(value->List_0 => items[i as int]));
                }
                out.push(ellex_value_to_minielixir(&items[i]));
                i += 1;
            }
            assert(values_model(*items).len() == items.len());
            assert(exprs_model(out) =~= value_exprs(values_model(*items))) by {
                assert forall|j: int| 0 <= j < out.len() implies exprs_model(out)[j] == value_exprs(
                    values_model(*items),
                )[j] by {
                    assert(values_model(*items)[j] == items[j]@);
                }
            }
            MiniElixirExpr::List(out)
        },
        EllexValue::Function(f) => {
            let args: Vec<MiniElixirExpr> = Vec::new();
            assert(exprs_model(args) =~= Seq::<ExprModel>::empty());
            MiniElixirExpr::Call { function: f.name.clone(), args }
        },
        EllexValue::Nil => MiniElixirExpr::Nil,
    }
}

fn body_of(mut exprs: Vec<MiniElixirExpr>) -> (e: MiniElixirExpr)
    ensures
        e@ == body_expr(exprs_model(exprs)),
{
    assert(exprs_model(exprs).len() == exprs.len());
    if exprs.len() == 1 {
        assert(exprs_model(exprs)[0] == exprs[0]@);
        match exprs.pop() {
            Some(only) => only,
            None => MiniElixirExpr::Nil,
        }
    } else {
        MiniElixirExpr::Block(exprs)
    }
}

/// The expression that stands for `stmt`.
pub fn statement_to_minielixir(stmt: &Statement) -> (e: MiniElixirExpr)
    ensures
        e@ == statement_expr(stmt@),
    decreases stmt, 0nat,
{
    match stmt {
        Statement::Tell(value) => {
            let mut args: Vec<MiniElixirExpr> = Vec::new();
            args.push(ellex_value_to_minielixir(value));
            assert(exprs_model(args) =~= seq![value_expr(value@)]);
            MiniElixirExpr::Call { function: String::from_str("to_string"), args }
        },
        Statement::Ask(variable, _) => {
            let mut prompt = String::from_str("Enter ");
            push_text(&mut prompt, variable.as_str());
            push_text(&mut prompt, ": ");
            let mut args: Vec<MiniElixirExpr> = Vec::new();
            args.push(MiniElixirExpr::String(prompt));
            assert(exprs_model(args) =~= seq![ExprModel::Text("Enter "@ + variable@ + ": "@)]);
            MiniElixirExpr::Call { function: String::from_str("get_input"), args }
        },
        Statement::Assignment(variable, value) => {
            let mut args: Vec<MiniElixirExpr> = Vec::new();
            args.push(MiniElixirExpr::String(variable.clone()));
            args.push(ellex_value_to_minielixir(value));
            assert(exprs_model(args) =~= seq![ExprModel::Text(variable@), value_expr(value@)]);
            MiniElixirExpr::Call { function: String::from_str("assign"), args }
        },
        Statement::Repeat(times, body) => {
            let block = body_of(statements_to_minielixir(body));
            let mut args: Vec<MiniElixirExpr> = Vec::new();
            args.push(MiniElixirExpr::Integer(*times as i64));
            args.push(block);
            assert(exprs_model(args) =~= seq![
                ExprModel::Integer(*times as i64),
                body_expr(statement_exprs(statements_model(*body))),
            ]);
            MiniElixirExpr::Call { function: String::from_str("repeat"), args }
        },
        Statement::When(variable, condition, then_body, else_body) => {
            let subject = MiniElixirExpr::Variable(variable.clone());
            assert(subject@ == ExprModel::Variable(variable@));
            let expected = ellex_value_to_minielixir(condition);
            let test = MiniElixirExpr::BinaryOp {
                op: BinaryOperator::Eq,
                left: Box::new(subject),
                right: Box::new(expected),
            };
            assert(test@ == (ExprModel::BinaryOp {
                op: BinaryOperator::Eq,
                left: Box::new(ExprModel::Variable(variable@)),
                right: Box::new(value_expr(condition@)),
            }));
            let then_block = body_of(statements_to_minielixir(then_body));
            let else_block = match else_body {
                Some(b) => Some(Box::new(body_of(statements_to_minielixir(b)))),
                None => None,
            };
            MiniElixirExpr::If {
                condition: Box::new(test),
                then_branch: Box::new(then_block),
                else_branch: else_block,
            }
        },
        Statement::Call(name) => {
            let args: Vec<MiniElixirExpr> = Vec::new();
            assert(exprs_model(args) =~= Seq::<ExprModel>::empty());
            MiniElixirExpr::Call { function: name.clone(), args }
        },
    }
}

/// The expressions that stand for the statements of `body`, in order.
pub fn statements_to_minielixir(body: &Vec<Statement>) -> (r: Vec<MiniElixirExpr>)
    ensures
        exprs_model(r) == statement_exprs(statements_model(*body)),
    decreases body, 1nat,
{
    let mut out: Vec<MiniElixirExpr> = Vec::new();
    let mut i: usize = 0;
    while i < body.len()
        invariant
            0 <= i <= body.len(),
            out.len() == i,
            forall|j: int| 0 <= j < i ==> out[j]@ == statement_expr(body[j]@),
        decreases body.len() - i,
    {
        out.push(statement_to_minielixir(&body[i]));
        i += 1;
    }
    assert(statements_model(*body).len() == body.len());
    assert(exprs_model(out) =~= statement_exprs(statements_model(*body))) by {
        assert forall|j: int| 0 <= j < out.len() implies exprs_model(out)[j] == statement_exprs(
            statements_model(*body),
        )[j] by {
            assert(statements_model(*body)[j] == body[j]@);
        }
    }
    out
}

/// Evaluating the statements `body` without bindings took the runtime from
/// `before` to `after` with the result `r`: a single statement is evaluated
/// as an expression, any other number of them as a block.
pub open spec fn executes(
    before: RuntimeModel,
    after: RuntimeModel,
    r: EllexResult<EllexValue>,
    body: Seq<StatementModel>,
) -> bool {
    let exprs = statement_exprs(body);
    let env = Map::<Seq<char>, ValueModel>::empty();
    if exprs.len() == 1 {
        &&& evaluated(r) == eval_model(exprs[0], env)
        &&& after == before.after_eval(exprs[0], env)
    } else {
        &&& evaluated(r) == block_value(exprs, exprs.len() as int, env)
        &&& after == before.after_block(exprs, exprs.len() as int, env)
    }
}

/// The text stands between two quotes.
pub open spec fn quoted(t: Seq<char>) -> bool {
    t.len() >= 2 && t[0] == '"' && t[t.len() - 1] == '"'
}

/// The count that the text writes: digits alone, and no more than fits 32
/// bits.
pub open spec fn count_read(t: Seq<char>) -> Option<u32> {
    if t.len() > 0 && is_digit(t[0]) {
        match token_at(t, 0) {
            Some((TokenModel::Number { mantissa, scale }, end)) => {
                if end == t.len() && scale == 0 && mantissa <= u32::MAX {
                    Some(mantissa as u32)
                } else {
                    None
                }
            },
            _ => None,
        }
    } else {
        None
    }
}

/// Every character is a letter, a digit or an underscore.
pub open spec fn is_word(t: Seq<char>) -> bool {
    forall|i: int| 0 <= i < t.len() ==> is_word_char(#[trigger] t[i])
}

/// The value that follows "tell": a text between quotes without them, a
/// numeral as its number, anything else as text.
pub open spec fn told_value(content: Seq<char>) -> ValueModel {
    if quoted(content) {
        ValueModel::Text(content.subrange(1, content.len() - 1))
    } else {
        match number_read(content) {
            Some(bits) => ValueModel::Number(bits),
            None => ValueModel::Text(content),
        }
    }
}

/// The loop that a line writes: "repeat", a count, "times". The body is not
/// read.
pub open spec fn repeat_read(line: Seq<char>) -> Option<u32> {
    let at = first_occurrence(line, " times"@, 0);
    if occurs_at(line, "repeat "@, 0) && 7 <= at < line.len() {
        count_read(trimmed(line.subrange(7, at)))
    } else {
        None
    }
}

/// The statement that one line writes, white space around it dropped
/// before:
///
/// - "tell" and a value: an output;
/// - "ask" and a name between quotes: a prompt for that variable;
/// - "repeat", a count and "times": a loop with an empty body;
/// - a single word: a call;
/// - anything else writes nothing.
pub open spec fn parsed_line(line: Seq<char>) -> Option<StatementModel> {
    if occurs_at(line, "tell "@, 0) {
        Some(StatementModel::Tell(told_value(trimmed(line.subrange(5, line.len() as int)))))
    } else if occurs_at(line, "ask "@, 0) && quoted(trimmed(line.subrange(4, line.len() as int))) {
        let name = trimmed(line.subrange(4, line.len() as int));
        Some(StatementModel::Ask(name.subrange(1, name.len() - 1), None))
    } else if repeat_read(line) is Some {
        Some(StatementModel::Repeat(repeat_read(line).unwrap(), Seq::empty()))
    } else if is_word(line) {
        Some(StatementModel::Call(line))
    } else {
        None
    }
}

/// The statements that the lines of `code[from..]` write. Empty lines and
/// lines that start with `#` are passed over.
pub open spec fn parsed_lines(code: Seq<char>, from: int) -> Seq<StatementModel>
    decreases code.len() - from,
{
    let end = find_char(code, '\n', from);
    if from < 0 || from >= code.len() || end < from || end > code.len() {
        Seq::empty()
    } else {
        let line = trimmed(code.subrange(from, end));
        let rest = if end < code.len() {
            parsed_lines(code, end + 1)
        } else {
            Seq::empty()
        };
        if line.len() == 0 || line[0] == '#' {
            rest
        } else {
            match parsed_line(line) {
                Some(statement) => seq![statement] + rest,
                None => rest,
            }
        }
    }
}

/// The count that a text writes.
pub fn read_count(t: &Vec<char>) -> (r: Option<u32>)
    ensures
        r == count_read(t@),
{
    if t.len() > 0 && '0' <= t[0] && t[0] <= '9' {
        match next_token(t, 0) {
            Some((Token::Number { mantissa, scale }, end)) => {
                if end == t.len() && scale == 0 && mantissa <= 0xFFFF_FFFF {
                    Some(mantissa as u32)
                } else {
                    None
                }
            },
            _ => None,
        }
    } else {
        None
    }
}

/// The text `t[from..]` without the white space around it.
fn rest_of(t: &Vec<char>, from: usize, to: usize) -> (r: Vec<char>)
    requires
        from <= to <= t.len(),
    ensures
        r@ == trimmed(t@.subrange(from as int, to as int)),
{
    let part = string_of_range(t, from, to);
    let text = trim_text(part.as_str());
    chars_of(text.as_str())
}

/// Whether every character is a letter, a digit or an underscore.
fn all_word_chars(t: &Vec<char>) -> (r: bool)
    ensures
        r == is_word(t@),
{
    let mut i: usize = 0;
    while i < t.len()
        invariant
            0 <= i <= t.len(),
            forall|j: int| 0 <= j < i ==> is_word_char(#[trigger] t@[j]),
        decreases t.len() - i,
    {
        if !char_is_word(t[i]) {
            assert(!is_word_char(t@[i as int]));
            return false;
        }
        i += 1;
    }
    true
}

/// The statement that one line writes.
pub fn parse_line(line: &Vec<char>) -> (r: Option<Statement>)
    ensures
        match r {
            Some(statement) => parsed_line(line@) == Some(statement@),
            None => parsed_line(line@) is None,
        },
{
    let tell = chars_of("tell ");
    let ask = chars_of("ask ");
    let repeat = chars_of("repeat ");
    let times = chars_of(" times");
    proof {
        reveal_strlit("tell ");
        reveal_strlit("ask ");
        reveal_strlit("repeat ");
        reveal_strlit(" times");
    }
    if tell.len() <= line.len() && matches_at(line, &tell, 0) {
        let content = rest_of(line, 5, line.len());
        let n = content.len();
        let value = if n >= 2 && content[0] == '"' && content[n - 1] == '"' {
            EllexValue::String(string_of_range(&content, 1, n - 1))
        } else {
            match read_number(&content) {
                Some(bits) => EllexValue::Number(bits),
                None => EllexValue::String(string_of(&content)),
            }
        };
        return Some(Statement::Tell(value));
    }
    if ask.len() <= line.len() && matches_at(line, &ask, 0) {
        let name = rest_of(line, 4, line.len());
        let n = name.len();
        if n >= 2 && name[0] == '"' && name[n - 1] == '"' {
            return Some(Statement::Ask(string_of_range(&name, 1, n - 1), None));
        }
    }
    if repeat.len() <= line.len() && matches_at(line, &repeat, 0) {
        let at = find_text(line, &times);
        if 7 <= at && at < line.len() {
            let count = rest_of(line, 7, at);
            match read_count(&count) {
                Some(n) => {
                    let body: Vec<Statement> = Vec::new();
                    assert(statements_model(body) =~= Seq::<StatementModel>::empty());
                    return Some(Statement::Repeat(n, body));
                },
                None => {},
            }
        }
    }
    if all_word_chars(line) {
        Some(Statement::Call(string_of(line)))
    } else {
        None
    }
}

/// The statements that the lines of `code` write.
pub fn parse_ellex_simple(code: &str) -> (r: Vec<Statement>)
    ensures
        statements_model(r) == parsed_lines(code@, 0),
{
    let chars = chars_of(code);
    let mut out: Vec<Statement> = Vec::new();
    let mut from: usize = 0;
    assert(statements_model(out) =~= Seq::<StatementModel>::empty());
    while from < chars.len()
        invariant
            0 <= from <= chars.len(),
            chars@ == code@,
            parsed_lines(code@, 0) == statements_model(out) + parsed_lines(code@, from as int),
        decreases chars.len() - from,
    {
        let ghost before = statements_model(out);
        let end = scan_line(&chars, from);
        let line = rest_of(&chars, from, end);
        if line.len() > 0 && line[0] != '#' {
            match parse_line(&line) {
                Some(statement) => {
                    out.push(statement);
                    assert(statements_model(out) =~= before + seq![statement@]);
                    assert(before + (seq![statement@] + parsed_lines(code@, end + 1)) =~= before
                        + seq![statement@] + parsed_lines(code@, end + 1));
                },
                None => {},
            }
        }
        if end < chars.len() {
            from = end + 1;
        } else {
            from = end;
        }
    }
    assert(statements_model(out) + Seq::<StatementModel>::empty() =~= statements_model(out));
    out
}

/// The end of the line that starts at `from`.
fn scan_line(s: &Vec<char>, from: usize) -> (end: usize)
    requires
        from <= s.len(),
    ensures
        end == find_char(s@, '\n', from as int),
        from <= end <= s.len(),
{
    let mut end: usize = from;
    while end < s.len() && s[end] != '\n'
        invariant
            from <= end <= s.len(),
            find_char(s@, '\n', end as int) == find_char(s@, '\n', from as int),
        decreases s.len() - end,
    {
        end += 1;
    }
    end
}

/// The back end inside this process: statements are rendered as expressions
/// and run by the cached runtime of the expression language.
#[derive(Debug)]
pub struct EllexMiniElixirBridge {
    runtime: CachedMiniElixirRuntime,
}

impl EllexMiniElixirBridge {
    pub fn new() -> (b: Self)
        ensures
            b.runtime_model() == crate::minielixir_cached_runtime::RuntimeModel::fresh(
                crate::minielixir_validator::ValidatorModel::standard(),
            ),
    {
        EllexMiniElixirBridge { runtime: CachedMiniElixirRuntime::new() }
    }

    /// The runtime behind the bridge.
    pub closed spec fn runtime_model(&self) -> crate::minielixir_cached_runtime::RuntimeModel {
        self.runtime@
    }

    /// The expressions that stand for `statements`.
    pub fn statements_to_minielixir(&self, statements: &Vec<Statement>) -> (r: EllexResult<
        Vec<MiniElixirExpr>,
    >)
        ensures
            r is Ok,
            exprs_model(r.unwrap()) == statement_exprs(statements_model(*statements)),
    {
        Ok(statements_to_minielixir(statements))
    }

    /// The expression that stands for `stmt`.
    pub fn statement_to_minielixir(&self, stmt: &Statement) -> (r: EllexResult<MiniElixirExpr>)
        ensures
            r is Ok,
            r.unwrap()@ == statement_expr(stmt@),
    {
        Ok(statement_to_minielixir(stmt))
    }

    /// The expression that stands for `value`.
    pub fn ellex_value_to_minielixir(&self, value: &EllexValue) -> (r: EllexResult<MiniElixirExpr>)
        ensures
            r is Ok,
            r.unwrap()@ == value_expr(value@),
    {
        Ok(ellex_value_to_minielixir(value))
    }

    /// Renders `statements` as expressions and evaluates them, without
    /// bindings: a single expression as it is, several as a block.
    pub fn execute_statements(&mut self, statements: &Vec<Statement>) -> (r: EllexResult<EllexValue>)
        ensures
            executes(
                old(self).runtime_model(),
                final(self).runtime_model(),
                r,
                statements_model(*statements),
            ),
    {
        let exprs = statements_to_minielixir(statements);
        let ctx = EvaluationContext::new();
        assert(exprs_model(exprs).len() == exprs.len());
        if exprs.len() == 1 {
            assert(exprs_model(exprs)[0] == exprs[0]@);
            self.runtime.eval_expr(&exprs[0], &ctx)
        } else {
            self.runtime.eval_block(&exprs, &ctx)
        }
    }

    /// Reads `code` line by line and evaluates the statements it writes.
    pub fn execute_ellex_code(&mut self, code: &str) -> (r: EllexResult<EllexValue>)
        ensures
            executes(
                old(self).runtime_model(),
                final(self).runtime_model(),
                r,
                parsed_lines(code@, 0),
            ),
    {
        let statements = parse_ellex_simple(code);
        self.execute_statements(&statements)
    }

    /// The statements of `statements` as trees of the structured format.
    pub fn ellex_to_json(&self, statements: &Vec<Statement>) -> (r: EllexResult<Vec<Json>>)
        ensures
            r is Ok,
            jsons_model(r.unwrap()) == statements_json(statements_model(*statements)),
    {
        Ok(crate::json::ellex_to_json(statements))
    }

    /// The value that `expr` stands for without being evaluated, if it
    /// stands for one.
    pub fn minielixir_to_ellex_value(&self, expr: &MiniElixirExpr) -> (r: Option<EllexValue>)
        ensures
            match r {
                Some(v) => crate::expr_values::expr_value(expr@) == Some(v@),
                None => crate::expr_values::expr_value(expr@) is None,
            },
    {
        crate::expr_values::minielixir_to_ellex_value(expr)
    }

    /// The figures of the runtime behind the bridge.
    pub fn performance_stats(&self) -> (stats: CachedRuntimeStats)
        ensures
            stats == (CachedRuntimeStats {
                total_evaluations: self.runtime_model().total_evaluations,
                cached_expressions: self.runtime_model().expressions.len() as usize,
                cached_results: self.runtime_model().results.results.len() as usize,
                interpreter_stats: InterpreterStats {
                    evaluation_count: self.runtime_model().interpreter_evaluations,
                    cached_expressions: 0,
                },
                global_cache_stats: self.runtime_model().stats,
            }),
    {
        self.runtime.performance_stats()
    }

    /// The expressions on record in the runtime behind the bridge, hot and
    /// cold, each list with the most executed first, and the estimate of
    /// the memory in use.
    pub fn cache_analysis(&self) -> (analysis: CacheAnalysis)
        ensures
            analysis.hot_expressions@ == ranked(
                self.runtime_model().expressions,
                self.runtime_model().expressions.len() as int,
                true,
            ),
            analysis.cold_expressions@ == ranked(
                self.runtime_model().expressions,
                self.runtime_model().expressions.len() as int,
                false,
            ),
            analysis.total_memory_usage == memory_estimate(
                self.runtime_model().expressions.len(),
                self.runtime_model().results.results.len(),
            ),
    {
        self.runtime.cache_analysis()
    }

    /// Forgets what the runtime behind the bridge has cached.
    pub fn clear_caches(&mut self)
        ensures
            final(self).runtime_model() == (crate::minielixir_cached_runtime::RuntimeModel {
                results: crate::result_cache::ResultCacheModel {
                    results: Seq::empty(),
                    ..old(self).runtime_model().results
                },
                expressions: Seq::empty(),
                stats: crate::cached_statement::CacheStats::zero(),
                ..old(self).runtime_model()
            }),
    {
        self.runtime.clear_caches();
    }
}

impl Default for EllexMiniElixirBridge {
    fn default() -> (b: Self) {
        Self::new()
    }
}

} // verus!
