//! Values and statements as a debugger writes them: each by the name of its
//! kind and its parts between brackets, texts between quotes, numbers with
//! a fraction or an exponent.

use crate::numeral::{debug_numeral, push_debug_numeral};
use crate::text::{decimal, push_decimal, push_text, quote, quoted};
use crate::values::{
    names_model, statements_model, values_model, EllexFunction, EllexValue, FunctionModel,
    Statement, StatementModel, ValueModel,
};
use vstd::prelude::*;

verus! {

/// A value as a debugger writes it.
pub open spec fn debugged(v: ValueModel) -> Seq<char>
    decreases v, 0nat,
{
    match v {
        ValueModel::Text(s) => "String("@ + quoted(s) + ")"@,
        ValueModel::Number(bits) => "Number("@ + debug_numeral(bits) + ")"@,
        ValueModel::List(items) => "List(["@ + debugged_items(items, items.len() as int) + "])"@,
        ValueModel::Function(f) => "Function("@ + debugged_function(f) + ")"@,
        ValueModel::Nil => "Nil"@,
    }
}

/// The first `n` values of `items`, separated by a comma and a space.
pub open spec fn debugged_items(items: Seq<ValueModel>, n: int) -> Seq<char>
    decreases items, n,
{
    if n <= 0 || n > items.len() {
        Seq::empty()
    } else if n == 1 {
        debugged(items[0])
    } else {
        debugged_items(items, n - 1) + ", "@ + debugged(items[n - 1])
    }
}

/// The first `n` of `names` between quotes, separated by a comma and a
/// space.
pub open spec fn quoted_names(names: Seq<Seq<char>>, n: int) -> Seq<char>
    decreases n,
{
    if n <= 0 || n > names.len() {
        Seq::empty()
    } else if n == 1 {
        quoted(names[0])
    } else {
        quoted_names(names, n - 1) + ", "@ + quoted(names[n - 1])
    }
}

/// A function as a debugger writes it: its name, its body and the names of
/// its parameters.
pub open spec fn debugged_function(f: FunctionModel) -> Seq<char>
    decreases f, 0nat,
{
    "EllexFunction { name: "@ + quoted(f.name) + ", body: ["@ + debugged_block(
        f.body,
        f.body.len() as int,
    ) + "], params: ["@ + quoted_names(f.params, f.params.len() as int) + "] }"@
}

/// A type hint as a debugger writes it.
pub open spec fn debugged_hint(hint: Option<Seq<char>>) -> Seq<char> {
    match hint {
        Some(h) => "Some("@ + quoted(h) + ")"@,
        None => "None"@,
    }
}

/// A statement as a debugger writes it.
pub open spec fn debugged_statement(s: StatementModel) -> Seq<char>
    decreases s, 0nat,
{
    match s {
        StatementModel::Tell(v) => "Tell("@ + debugged(v) + ")"@,
        StatementModel::Ask(name, hint) => "Ask("@ + quoted(name) + ", "@ + debugged_hint(hint)
            + ")"@,
        StatementModel::Repeat(times, body) => "Repeat("@ + decimal(times as nat) + ", ["@
            + debugged_block(body, body.len() as int) + "])"@,
        StatementModel::When(name, value, then_body, else_body) => "When("@ + quoted(name) + ", "@
            + debugged(value) + ", ["@ + debugged_block(then_body, then_body.len() as int) + "], "@
            + debugged_else(else_body) + ")"@,
        StatementModel::Call(name) => "Call("@ + quoted(name) + ")"@,
        StatementModel::Assignment(name, v) => "Assignment("@ + quoted(name) + ", "@ + debugged(v)
            + ")"@,
    }
}

/// The first `n` statements of `body`, separated by a comma and a space.
pub open spec fn debugged_block(body: Seq<StatementModel>, n: int) -> Seq<char>
    decreases body, n,
{
    if n <= 0 || n > body.len() {
        Seq::empty()
    } else if n == 1 {
        debugged_statement(body[0])
    } else {
        debugged_block(body, n - 1) + ", "@ + debugged_statement(body[n - 1])
    }
}

/// Appends `name` between quotes to `out`.
fn push_quoted(out: &mut String, name: &str)
    ensures
        final(out)@ == old(out)@ + quoted(name@),
{
    let text = quote(name);
    push_text(out, text.as_str());
}

/// Appends the names to `out`, each between quotes.
fn push_quoted_names(out: &mut String, names: &Vec<String>)
    ensures
        final(out)@ == old(out)@ + quoted_names(names_model(*names), names.len() as int),
{
    let ghost start = out@;
    let ghost model = names_model(*names);
    let mut i: usize = 0;
    assert(out@ =~= start + quoted_names(model, 0));
    while i < names.len()
        invariant
            0 <= i <= names.len(),
            model == names_model(*names),
            model.len() == names.len(),
            out@ == start + quoted_names(model, i as int),
        decreases names.len() - i,
    {
        assert(model[i as int] == names[i as int]@);
        if i > 0 {
            push_text(out, ", ");
        }
        push_quoted(out, names[i].as_str());
        i += 1;
        assert(out@ =~= start + quoted_names(model, i as int));
    }
}

/// Appends to `out` the values as a debugger writes them.
fn push_debugged_items(out: &mut String, items: &Vec<EllexValue>)
    ensures
        final(out)@ == old(out)@ + debugged_items(values_model(*items), items.len() as int),
    decreases items, 0nat,
{
    let ghost start = out@;
    let ghost model = values_model(*items);
    let mut i: usize = 0;
    assert(out@ =~= start + debugged_items(model, 0));
    while i < items.len()
        invariant
            0 <= i <= items.len(),
            model == values_model(*items),
            model.len() == items.len(),
            out@ == start + debugged_items(model, i as int),
        decreases items.len() - i,
    {
        assert(model[i as int] == items[i as int]@);
        if i > 0 {
            push_text(out, ", ");
        }
        push_debugged(out, &items[i]);
        i += 1;
        assert(out@ =~= start + debugged_items(model, i as int));
    }
}

/// Appends to `out` the value as a debugger writes it.
pub fn push_debugged(out: &mut String, value: &EllexValue)
    ensures
        final(out)@ == old(out)@ + debugged(value@),
    decreases value, 0nat,
{
    match value {
        EllexValue::String(s) => {
            push_text(out, "String(");
            push_quoted(out, s.as_str());
            push_text(out, ")");
            assert(out@ =~= old(out)@ + debugged(value@));
        },
        EllexValue::Number(bits) => {
            push_text(out, "Number(");
            push_debug_numeral(out, *bits);
            push_text(out, ")");
            assert(out@ =~= old(out)@ + debugged(value@));
        },
        EllexValue::List(items) => {
            push_text(out, "List([");
            push_debugged_items(out, items);
            push_text(out, "])");
            assert(out@ =~= old(out)@ + debugged(value@));
        },
        EllexValue::Function(f) => {
            push_text(out, "Function(");
            push_debugged_function(out, f);
            push_text(out, ")");
            assert(out@ =~= old(out)@ + debugged(value@));
        },
        EllexValue::Nil => {
            push_text(out, "Nil");
        },
    }
}

/// Appends to `out` the function as a debugger writes it.
fn push_debugged_function(out: &mut String, f: &EllexFunction)
    ensures
        final(out)@ == old(out)@ + debugged_function(f@),
    decreases f, 0nat,
{
    push_text(out, "EllexFunction { name: ");
    push_quoted(out, f.name.as_str());
    push_text(out, ", body: [");
    push_debugged_block(out, &f.body);
    push_text(out, "], params: [");
    push_quoted_names(out, &f.params);
    push_text(out, "] }");
    assert(out@ =~= old(out)@ + debugged_function(f@));
}

/// Appends to `out` the statements as a debugger writes them.
fn push_debugged_block(out: &mut String, body: &Vec<Statement>)
    ensures
        final(out)@ == old(out)@ + debugged_block(statements_model(*body), body.len() as int),
    decreases body, 0nat,
{
    let ghost start = out@;
    let ghost model = statements_model(*body);
    let mut i: usize = 0;
    assert(out@ =~= start + debugged_block(model, 0));
    while i < body.len()
        invariant
            0 <= i <= body.len(),
            model == statements_model(*body),
            model.len() == body.len(),
            out@ == start + debugged_block(model, i as int),
        decreases body.len() - i,
    {
        assert(model[i as int] == body[i as int]@);
        if i > 0 {
            push_text(out, ", ");
        }
        push_debugged_statement(out, &body[i]);
        i += 1;
        assert(out@ =~= start + debugged_block(model, i as int));
    }
}

/// Appends to `out` a question as a debugger writes it.
fn push_debugged_ask(out: &mut String, name: &String, hint: &Option<String>)
    ensures
        final(out)@ == old(out)@ + ("Ask("@ + quoted(name@) + ", "@ + debugged_hint(
            match *hint {
                Some(h) => Some(h@),
                None => None,
            },
        ) + ")"@),
{
    push_text(out, "Ask(");
    push_quoted(out, name.as_str());
    push_text(out, ", ");
    let ghost before = out@;
    match hint {
        Some(h) => {
            push_text(out, "Some(");
            push_quoted(out, h.as_str());
            push_text(out, ")");
            assert(out@ =~= before + debugged_hint(Some(h@)));
        },
        None => {
            push_text(out, "None");
        },
    }
    push_text(out, ")");
    assert(out@ =~= old(out)@ + ("Ask("@ + quoted(name@) + ", "@ + debugged_hint(
        match *hint {
            Some(h) => Some(h@),
            None => None,
        },
    ) + ")"@));
}

/// The other body of a conditional as a debugger writes it.
pub open spec fn debugged_else(else_body: Option<Seq<StatementModel>>) -> Seq<char>
    decreases else_body, 0nat,
{
    match else_body {
        Some(b) => "Some(["@ + debugged_block(b, b.len() as int) + "])"@,
        None => "None"@,
    }
}

/// The model of the other body of a conditional.
pub open spec fn else_model(else_body: Option<Vec<Statement>>) -> Option<Seq<StatementModel>> {
    match else_body {
        Some(b) => Some(statements_model(b)),
        None => None,
    }
}

/// Appends to `out` the other body of a conditional as a debugger writes
/// it.
fn push_debugged_else(out: &mut String, else_body: &Option<Vec<Statement>>)
    ensures
        final(out)@ == old(out)@ + debugged_else(else_model(*else_body)),
    decreases else_body, 0nat,
{
    match else_body {
        Some(b) => {
            push_text(out, "Some([");
            push_debugged_block(out, b);
            push_text(out, "])");
            assert(out@ =~= old(out)@ + ("Some(["@ + debugged_block(
                statements_model(*b),
                b.len() as int,
            ) + "])"@));
        },
        None => {
            push_text(out, "None");
        },
    }
}

/// Appends to `out` an output statement as a debugger writes it.
fn push_debugged_tell(out: &mut String, s: &Statement)
    requires
        s is Tell,
    ensures
        final(out)@ == old(out)@ + debugged_statement(s@),
    decreases s, 0nat,
{
    match s {
        Statement::Tell(v) => {
            push_text(out, "Tell(");
            push_debugged(out, v);
            push_text(out, ")");
            assert(out@ =~= old(out)@ + ("Tell("@ + debugged(v@) + ")"@));
        },
        _ => {},
    }
}

/// Appends to `out` a loop as a debugger writes it.
fn push_debugged_repeat(out: &mut String, s: &Statement)
    requires
        s is Repeat,
    ensures
        final(out)@ == old(out)@ + debugged_statement(s@),
    decreases s, 0nat,
{
    match s {
        Statement::Repeat(times, body) => {
            push_text(out, "Repeat(");
            let n: u64 = *times as u64;
            push_decimal(out, n);
            push_text(out, ", [");
            push_debugged_block(out, body);
            push_text(out, "])");
            assert(out@ =~= old(out)@ + ("Repeat("@ + decimal(*times as nat) + ", ["@
                + debugged_block(statements_model(*body), body.len() as int) + "])"@));
        },
        _ => {},
    }
}

/// Appends to `out` a conditional as a debugger writes it.
fn push_debugged_when(out: &mut String, s: &Statement)
    requires
        s is When,
    ensures
        final(out)@ == old(out)@ + debugged_statement(s@),
    decreases s, 0nat,
{
    match s {
        Statement::When(name, value, then_body, else_body) => {
            let ghost other = else_model(*else_body);
            let ghost then_text = debugged_block(
                statements_model(*then_body),
                then_body.len() as int,
            );
            push_text(out, "When(");
            push_quoted(out, name.as_str());
            push_text(out, ", ");
            push_debugged(out, value);
            let ghost half = out@;
            assert(half =~= old(out)@ + ("When("@ + quoted(name@) + ", "@ + debugged(value@)));
            push_text(out, ", [");
            push_debugged_block(out, then_body);
            push_text(out, "], ");
            let ghost most = out@;
            assert(most =~= half + (", ["@ + then_text + "], "@));
            push_debugged_else(out, else_body);
            push_text(out, ")");
            assert(out@ =~= most + (debugged_else(other) + ")"@));
            assert(out@ =~= old(out)@ + ("When("@ + quoted(name@) + ", "@ + debugged(value@)
                + ", ["@ + then_text + "], "@ + debugged_else(other) + ")"@));
        },
        _ => {},
    }
}

/// Appends to `out` a binding as a debugger writes it.
fn push_debugged_assignment(out: &mut String, s: &Statement)
    requires
        s is Assignment,
    ensures
        final(out)@ == old(out)@ + debugged_statement(s@),
    decreases s, 0nat,
{
    match s {
        Statement::Assignment(name, v) => {
            push_text(out, "Assignment(");
            push_quoted(out, name.as_str());
            push_text(out, ", ");
            push_debugged(out, v);
            push_text(out, ")");
            assert(out@ =~= old(out)@ + ("Assignment("@ + quoted(name@) + ", "@ + debugged(v@)
                + ")"@));
        },
        _ => {},
    }
}

/// Appends to `out` the statement as a debugger writes it.
fn push_debugged_statement(out: &mut String, s: &Statement)
    ensures
        final(out)@ == old(out)@ + debugged_statement(s@),
    decreases s, 1nat,
{
    match s {
        Statement::Tell(_) => {
            push_debugged_tell(out, s);
        },
        Statement::Ask(name, hint) => {
            push_debugged_ask(out, name, hint);
        },
        Statement::Repeat(_, _) => {
            push_debugged_repeat(out, s);
        },
        Statement::When(_, _, _, _) => {
            push_debugged_when(out, s);
        },
        Statement::Call(name) => {
            push_text(out, "Call(");
            push_quoted(out, name.as_str());
            push_text(out, ")");
            assert(out@ =~= old(out)@ + ("Call("@ + quoted(name@) + ")"@));
        },
        Statement::Assignment(_, _) => {
            push_debugged_assignment(out, s);
        },
    }
}

/// The value as a debugger writes it.
pub fn debug_text(value: &EllexValue) -> (s: String)
    ensures
        s@ == debugged(value@),
{
    let mut s = String::new();
    push_debugged(&mut s, value);
    assert(s@ =~= debugged(value@));
    s
}

} // verus!
