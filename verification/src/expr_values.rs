//! Expressions read back as values: a literal is its value, a list the list
//! of its values, and a variable or a call the text that writes it.

use crate::minielixir::{exprs_model, ExprModel, MiniElixirExpr};
use crate::number::{number_from_i64, whole_bits};
use crate::numeral::{numeral, push_numeral};
use crate::text::{decimal, push_decimal, push_text};
use crate::values::{values_model, EllexValue, ValueModel};
use vstd::prelude::*;

verus! {

/// The numeral of a whole number.
pub open spec fn integer_text(n: int) -> Seq<char> {
    if n < 0 {
        seq!['-'] + decimal((-n) as nat)
    } else {
        decimal(n as nat)
    }
}

/// The text that writes an expression, for the expressions that have one:
/// "nil", "true" and "false", a numeral, a text between quotes, an atom
/// behind its colon, the name of a variable, a list between brackets and a
/// call with its arguments between parentheses, the parts separated by a
/// comma and a space. An operation, a condition and the like have none.
pub open spec fn expr_text(e: ExprModel) -> Option<Seq<char>>
    decreases e, 0nat,
{
    match e {
        ExprModel::Nil => Some("nil"@),
        ExprModel::Boolean(b) => Some(
            if b {
                "true"@
            } else {
                "false"@
            },
        ),
        ExprModel::Integer(n) => Some(integer_text(n as int)),
        ExprModel::Float(bits) => Some(numeral(bits)),
        ExprModel::Text(s) => Some(seq!['"'] + s + seq!['"']),
        ExprModel::Atom(a) => Some(seq![':'] + a),
        ExprModel::Variable(v) => Some(v),
        ExprModel::List(items) => match listed(items, items.len() as int) {
            Some(t) => Some(seq!['['] + t + seq![']']),
            None => None,
        },
        ExprModel::Call { function, args } => match listed(args, args.len() as int) {
            Some(t) => Some(function + seq!['('] + t + seq![')']),
            None => None,
        },
        _ => None,
    }
}

/// The texts of the first `n` expressions of `items`, separated by a comma
/// and a space; none if one of them has no text.
pub open spec fn listed(items: Seq<ExprModel>, n: int) -> Option<Seq<char>>
    decreases items, n,
{
    if n <= 0 || n > items.len() {
        Some(Seq::empty())
    } else {
        match (listed(items, n - 1), expr_text(items[n - 1])) {
            (Some(before), Some(last)) => Some(
                if n == 1 {
                    last
                } else {
                    before + seq![',', ' '] + last
                },
            ),
            _ => None,
        }
    }
}

/// The value that an expression stands for without being evaluated: a
/// literal is its value, a truth value and an atom the text that writes
/// them, a list the list of what its parts stand for, and anything else the
/// text that writes it. An expression without a text stands for nothing.
pub open spec fn expr_value(e: ExprModel) -> Option<ValueModel>
    decreases e, 0nat,
{
    match e {
        ExprModel::Text(s) => Some(ValueModel::Text(s)),
        ExprModel::Integer(n) => Some(
            ValueModel::Number(
                whole_bits(
                    n < 0,
                    (if n < 0 {
                        -(n as int)
                    } else {
                        n as int
                    }) as nat,
                ),
            ),
        ),
        ExprModel::Float(bits) => Some(ValueModel::Number(bits)),
        ExprModel::Nil => Some(ValueModel::Nil),
        ExprModel::List(items) => match expr_values(items, items.len() as int) {
            Some(values) => Some(ValueModel::List(values)),
            None => None,
        },
        _ => match expr_text(e) {
            Some(t) => Some(ValueModel::Text(t)),
            None => None,
        },
    }
}

/// What the first `n` expressions of `items` stand for; nothing if one of
/// them stands for nothing.
pub open spec fn expr_values(items: Seq<ExprModel>, n: int) -> Option<Seq<ValueModel>>
    decreases items, n,
{
    if n <= 0 || n > items.len() {
        Some(Seq::empty())
    } else {
        match (expr_values(items, n - 1), expr_value(items[n - 1])) {
            (Some(before), Some(last)) => Some(before.push(last)),
            _ => None,
        }
    }
}

/// Appends the numeral of a whole number.
pub fn push_integer(out: &mut String, n: i64)
    ensures
        final(out)@ == old(out)@ + integer_text(n as int),
{
    if n < 0 {
        let m: u64 = if n == i64::MIN {
            0x8000_0000_0000_0000
        } else {
            (-n) as u64
        };
        out.push('-');
        push_decimal(out, m);
        assert(out@ =~= old(out)@ + integer_text(n as int));
    } else {
        push_decimal(out, n as u64);
    }
}

/// Appends the texts of `items`, separated by a comma and a space, and says
/// whether every one of them has a text; if not, what was appended means
/// nothing.
fn push_listed(out: &mut String, items: &Vec<MiniElixirExpr>) -> (ok: bool)
    ensures
        match listed(exprs_model(*items), items.len() as int) {
            Some(t) => ok && final(out)@ == old(out)@ + t,
            None => !ok,
        },
    decreases items, 0nat,
{
    let ghost model = exprs_model(*items);
    let mut i: usize = 0;
    assert(out@ =~= old(out)@ + Seq::<char>::empty());
    while i < items.len()
        invariant
            0 <= i <= items.len(),
            model == exprs_model(*items),
            model.len() == items.len(),
            listed(model, i as int) == Some(out@.subrange(old(out)@.len() as int, out@.len() as int)),
            out@.subrange(0, old(out)@.len() as int) == old(out)@,
            out@.len() >= old(out)@.len(),
        decreases items.len() - i,
    {
        proof {
            assert(decreases_to!(items => items[i as int]));
            assert(model[i as int] == items[i as int]@);
        }
        let ghost before = out@;
        if i > 0 {
            out.push(',');
            out.push(' ');
        }
        let ghost mid = out@;
        if !push_text_of(out, &items[i]) {
            proof {
                lemma_listed_stays_none(model, i + 1, items.len() as int);
            }
            return false;
        }
        i += 1;
        proof {
            let start = old(out)@.len() as int;
            let t = expr_text(model[i - 1]).unwrap();
            assert(out@ == mid + t);
            if i == 1 {
                assert(out@.subrange(start, out@.len() as int) =~= t);
            } else {
                assert(out@.subrange(start, out@.len() as int) =~= before.subrange(
                    start,
                    before.len() as int,
                ) + seq![',', ' '] + t);
            }
            assert(out@.subrange(0, start) =~= old(out)@);
        }
    }
    proof {
        let start = old(out)@.len() as int;
        assert(out@ =~= out@.subrange(0, start) + out@.subrange(start, out@.len() as int));
    }
    true
}

/// Once an expression has no text, no longer list has one.
pub proof fn lemma_listed_stays_none(items: Seq<ExprModel>, n: int, m: int)
    requires
        0 < n <= m <= items.len(),
        listed(items, n) is None,
    ensures
        listed(items, m) is None,
    decreases m - n,
{
    if n < m {
        lemma_listed_stays_none(items, n, m - 1);
    }
}

/// Appends the text that writes `expr` and says whether it has one; if not,
/// what was appended means nothing.
pub fn push_text_of(out: &mut String, expr: &MiniElixirExpr) -> (ok: bool)
    ensures
        match expr_text(expr@) {
            Some(t) => ok && final(out)@ == old(out)@ + t,
            None => !ok,
        },
    decreases expr, 1nat,
{
    match expr {
        MiniElixirExpr::Nil => {
            push_text(out, "nil");
            true
        },
        MiniElixirExpr::Boolean(b) => {
            if *b {
                push_text(out, "true");
            } else {
                push_text(out, "false");
            }
            true
        },
        MiniElixirExpr::Integer(n) => {
            push_integer(out, *n);
            true
        },
        MiniElixirExpr::Float(bits) => {
            push_numeral(out, *bits);
            true
        },
        MiniElixirExpr::String(s) => {
            out.push('"');
            push_text(out, s.as_str());
            out.push('"');
            assert(out@ =~= old(out)@ + (seq!['"'] + s@ + seq!['"']));
            true
        },
        MiniElixirExpr::Atom(a) => {
            out.push(':');
            push_text(out, a.as_str());
            assert(out@ =~= old(out)@ + (seq![':'] + a@));
            true
        },
        MiniElixirExpr::Variable(v) => {
            push_text(out, v.as_str());
            true
        },
        MiniElixirExpr::List(items) => {
            assert(expr@ == ExprModel::List(exprs_model(*items)));
            assert(exprs_model(*items).len() == items.len());
            out.push('[');
            let ghost opened = out@;
            proof {
                assert(decreases_to!(*expr => expr->List_0));
            }
            if !push_listed(out, items) {
                return false;
            }
            out.push(']');
            assert(out@ =~= old(out)@ + (seq!['['] + listed(
                exprs_model(*items),
                items.len() as int,
            ).unwrap() + seq![']']));
            true
        },
        MiniElixirExpr::Call { function, args } => {
            assert(expr@ == (ExprModel::Call { function: function@, args: exprs_model(*args) }));
            assert(exprs_model(*args).len() == args.len());
            push_text(out, function.as_str());
            out.push('(');
            proof {
                assert(decreases_to!(*expr => expr->Call_args));
            }
            if !push_listed(out, args) {
                return false;
            }
            out.push(')');
            assert(out@ =~= old(out)@ + (function@ + seq!['('] + listed(
                exprs_model(*args),
                args.len() as int,
            ).unwrap() + seq![')']));
            true
        },
        _ => false,
    }
}

/// The text that writes `expr`, if it has one.
pub fn text_of_expr(expr: &MiniElixirExpr) -> (r: Option<String>)
    ensures
        match r {
            Some(t) => expr_text(expr@) == Some(t@),
            None => expr_text(expr@) is None,
        },
{
    let mut out = String::new();
    if push_text_of(&mut out, expr) {
        assert(out@ =~= expr_text(expr@).unwrap());
        Some(out)
    } else {
        None
    }
}

/// Once an expression stands for nothing, no longer list stands for
/// something.
pub proof fn lemma_values_stay_none(items: Seq<ExprModel>, n: int, m: int)
    requires
        0 < n <= m <= items.len(),
        expr_values(items, n) is None,
    ensures
        expr_values(items, m) is None,
    decreases m - n,
{
    if n < m {
        lemma_values_stay_none(items, n, m - 1);
    }
}

/// The value that `expr` stands for without being evaluated, if it stands
/// for one.
pub fn minielixir_to_ellex_value(expr: &MiniElixirExpr) -> (r: Option<EllexValue>)
    ensures
        match r {
            Some(v) => expr_value(expr@) == Some(v@),
            None => expr_value(expr@) is None,
        },
    decreases expr,
{
    match expr {
        MiniElixirExpr::String(s) => Some(EllexValue::String(s.clone())),
        MiniElixirExpr::Integer(n) => Some(EllexValue::Number(number_from_i64(*n))),
        MiniElixirExpr::Float(bits) => Some(EllexValue::Number(*bits)),
        MiniElixirExpr::Nil => Some(EllexValue::Nil),
        MiniElixirExpr::List(items) => {
            assert(expr@ == ExprModel::List(exprs_model(*items)));
            let ghost model = exprs_model(*items);
            let mut out: Vec<EllexValue> = Vec::new();
            let mut i: usize = 0;
            assert(values_model(out) =~= Seq::<ValueModel>::empty());
            while i < items.len()
                invariant
                    0 <= i <= items.len(),
                    model == exprs_model(*items),
                    model.len() == items.len(),
                    *expr is List,
                    expr->List_0 == *items,
                    expr_values(model, i as int) == Some(values_model(out)),
                decreases items.len() - i,
            {
                proof {
                    assert(decreases_to!(*expr => expr->List_0));
                    assert(decreases_to!(expr->List_0 => items[i as int]));
                    assert(model[i as int] == items[i as int]@);
                }
                let ghost before = values_model(out);
                match minielixir_to_ellex_value(&items[i]) {
                    Some(v) => {
                        out.push(v);
                        assert(values_model(out) =~= before.push(v@));
                    },
                    None => {
                        proof {
                            lemma_values_stay_none(model, i + 1, items.len() as int);
                        }
                        return None;
                    },
                }
                i += 1;
            }
            Some(EllexValue::List(out))
        },
        _ => match text_of_expr(expr) {
            Some(t) => Some(EllexValue::String(t)),
            None => None,
        },
    }
}

} // verus!
