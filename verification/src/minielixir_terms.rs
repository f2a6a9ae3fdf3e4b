//! Expressions as terms: comparing and copying them, and the variables that
//! occur in them. The value of an expression depends on the bindings of the
//! variables that occur in it, and on nothing else.

use crate::minielixir::{
    clauses_model, eval_all, eval_model, exprs_model, pairs_model, CaseClause,
    ClauseModel, ExprModel, MiniElixirExpr,
};
use crate::values::ValueModel;
use vstd::prelude::*;

verus! {

fn same_string(a: &String, b: &String) -> (r: bool)
    ensures
        r == (a@ == b@),
{
    *a == *b
}

/// Whether `a` and `b` are the same expression part by part.
pub fn identical_exprs(a: &MiniElixirExpr, b: &MiniElixirExpr) -> (r: bool)
    ensures
        r == (a@ == b@),
    decreases a, 0nat,
{
    match (a, b) {
        (MiniElixirExpr::Atom(x), MiniElixirExpr::Atom(y)) => same_string(x, y),
        (MiniElixirExpr::String(x), MiniElixirExpr::String(y)) => same_string(x, y),
        (MiniElixirExpr::Integer(x), MiniElixirExpr::Integer(y)) => *x == *y,
        (MiniElixirExpr::Float(x), MiniElixirExpr::Float(y)) => *x == *y,
        (MiniElixirExpr::Boolean(x), MiniElixirExpr::Boolean(y)) => *x == *y,
        (MiniElixirExpr::Nil, MiniElixirExpr::Nil) => true,
        (MiniElixirExpr::List(xs), MiniElixirExpr::List(ys)) => identical_lists(xs, ys),
        (MiniElixirExpr::Tuple(xs), MiniElixirExpr::Tuple(ys)) => identical_lists(xs, ys),
        (MiniElixirExpr::Block(xs), MiniElixirExpr::Block(ys)) => identical_lists(xs, ys),
        (MiniElixirExpr::MapLiteral(xs), MiniElixirExpr::MapLiteral(ys)) => identical_pairs(xs, ys),
        (MiniElixirExpr::Variable(x), MiniElixirExpr::Variable(y)) => same_string(x, y),
        (
            MiniElixirExpr::BinaryOp { op: o, left: l, right: r },
            MiniElixirExpr::BinaryOp { op: p, left: m, right: s },
        ) => *o == *p && identical_exprs(l, m) && identical_exprs(r, s),
        (
            MiniElixirExpr::UnaryOp { op: o, operand: x },
            MiniElixirExpr::UnaryOp { op: p, operand: y },
        ) => *o == *p && identical_exprs(x, y),
        (
            MiniElixirExpr::Call { function: f, args: xs },
            MiniElixirExpr::Call { function: g, args: ys },
        ) => same_string(f, g) && identical_lists(xs, ys),
        (
            MiniElixirExpr::Pipe { value: v, function: f },
            MiniElixirExpr::Pipe { value: w, function: g },
        ) => identical_exprs(v, w) && identical_exprs(f, g),
        (
            MiniElixirExpr::Match { pattern: p, value: v },
            MiniElixirExpr::Match { pattern: q, value: w },
        ) => identical_exprs(p, q) && identical_exprs(v, w),
        (
            MiniElixirExpr::Case { expr: x, clauses: cs },
            MiniElixirExpr::Case { expr: y, clauses: ds },
        ) => identical_exprs(x, y) && identical_clauses(cs, ds),
        (
            MiniElixirExpr::If { condition: c, then_branch: t, else_branch: e },
            MiniElixirExpr::If { condition: d, then_branch: u, else_branch: f },
        ) => {
            if !identical_exprs(c, d) || !identical_exprs(t, u) {
                return false;
            }
            match (e, f) {
                (Some(x), Some(y)) => identical_exprs(x, y),
                (None, None) => true,
                _ => false,
            }
        },
        (
            MiniElixirExpr::Access { object: o, key: k },
            MiniElixirExpr::Access { object: p, key: l },
        ) => identical_exprs(o, p) && identical_exprs(k, l),
        _ => false,
    }
}

/// Whether two lists of expressions are the same expression by expression.
pub fn identical_lists(xs: &Vec<MiniElixirExpr>, ys: &Vec<MiniElixirExpr>) -> (r: bool)
    ensures
        r == (exprs_model(*xs) == exprs_model(*ys)),
    decreases xs, 1nat,
{
    if xs.len() != ys.len() {
        assert(exprs_model(*xs).len() != exprs_model(*ys).len());
        return false;
    }
    let mut i: usize = 0;
    while i < xs.len()
        invariant
            0 <= i <= xs.len(),
            xs.len() == ys.len(),
            forall|j: int| 0 <= j < i ==> xs[j]@ == ys[j]@,
        decreases xs.len() - i,
    {
        if !identical_exprs(&xs[i], &ys[i]) {
            assert(exprs_model(*xs)[i as int] == xs[i as int]@);
            assert(exprs_model(*ys)[i as int] == ys[i as int]@);
            return false;
        }
        i += 1;
    }
    assert(exprs_model(*xs) =~= exprs_model(*ys));
    true
}

/// Whether two lists of pairs are the same pair by pair.
pub fn identical_pairs(
    xs: &Vec<(MiniElixirExpr, MiniElixirExpr)>,
    ys: &Vec<(MiniElixirExpr, MiniElixirExpr)>,
) -> (r: bool)
    ensures
        r == (pairs_model(*xs) == pairs_model(*ys)),
    decreases xs, 1nat,
{
    if xs.len() != ys.len() {
        assert(pairs_model(*xs).len() != pairs_model(*ys).len());
        return false;
    }
    let mut i: usize = 0;
    while i < xs.len()
        invariant
            0 <= i <= xs.len(),
            xs.len() == ys.len(),
            forall|j: int|
                0 <= j < i ==> xs[j].0@ == ys[j].0@ && (#[trigger] xs[j]).1@ == ys[j].1@,
        decreases xs.len() - i,
    {
        let x = &xs[i];
        let y = &ys[i];
        if !identical_exprs(&x.0, &y.0) || !identical_exprs(&x.1, &y.1) {
            assert(pairs_model(*xs)[i as int] == (x.0@, x.1@));
            assert(pairs_model(*ys)[i as int] == (y.0@, y.1@));
            return false;
        }
        i += 1;
    }
    assert(pairs_model(*xs) =~= pairs_model(*ys)) by {
        assert forall|j: int| 0 <= j < xs.len() implies pairs_model(*xs)[j] == pairs_model(
            *ys,
        )[j] by {
            assert(xs[j].1@ == ys[j].1@);
        }
    }
    true
}

/// Whether two lists of clauses are the same clause by clause.
pub fn identical_clauses(xs: &Vec<CaseClause>, ys: &Vec<CaseClause>) -> (r: bool)
    ensures
        r == (clauses_model(*xs) == clauses_model(*ys)),
    decreases xs, 1nat,
{
    if xs.len() != ys.len() {
        assert(clauses_model(*xs).len() != clauses_model(*ys).len());
        return false;
    }
    let mut i: usize = 0;
    while i < xs.len()
        invariant
            0 <= i <= xs.len(),
            xs.len() == ys.len(),
            forall|j: int| 0 <= j < i ==> xs[j]@ == ys[j]@,
        decreases xs.len() - i,
    {
        let x = &xs[i];
        let y = &ys[i];
        assert(clauses_model(*xs)[i as int] == x@);
        assert(clauses_model(*ys)[i as int] == y@);
        if !identical_exprs(&x.pattern, &y.pattern) || !identical_exprs(&x.body, &y.body) {
            return false;
        }
        let guards = match (&x.guard, &y.guard) {
            (Some(g), Some(h)) => identical_exprs(g, h),
            (None, None) => true,
            _ => false,
        };
        if !guards {
            return false;
        }
        i += 1;
    }
    assert(clauses_model(*xs) =~= clauses_model(*ys));
    true
}

/// A copy of `e`.
pub fn duplicate_expr(e: &MiniElixirExpr) -> (r: MiniElixirExpr)
    ensures
        r@ == e@,
    decreases e, 0nat,
{
    match e {
        MiniElixirExpr::Atom(x) => MiniElixirExpr::Atom(x.clone()),
        MiniElixirExpr::String(x) => MiniElixirExpr::String(x.clone()),
        MiniElixirExpr::Integer(x) => MiniElixirExpr::Integer(*x),
        MiniElixirExpr::Float(x) => MiniElixirExpr::Float(*x),
        MiniElixirExpr::Boolean(x) => MiniElixirExpr::Boolean(*x),
        MiniElixirExpr::Nil => MiniElixirExpr::Nil,
        MiniElixirExpr::List(xs) => MiniElixirExpr::List(duplicate_exprs(xs)),
        MiniElixirExpr::Tuple(xs) => MiniElixirExpr::Tuple(duplicate_exprs(xs)),
        MiniElixirExpr::Block(xs) => MiniElixirExpr::Block(duplicate_exprs(xs)),
        MiniElixirExpr::MapLiteral(pairs) => {
            let mut out: Vec<(MiniElixirExpr, MiniElixirExpr)> = Vec::new();
            let mut i: usize = 0;
            while i < pairs.len()
                invariant
                    0 <= i <= pairs.len(),
                    out.len() == i,
                    *e is MapLiteral,
                    e->MapLiteral_0 == *pairs,
                    forall|j: int|
                        0 <= j < i ==> out[j].0@ == pairs[j].0@ && (#[trigger] out[j]).1@
                            == pairs[j].1@,
                decreases pairs.len() - i,
            {
                proof {
                    assert(decreases_to!(*e => e->MapLiteral_0));
                    assert(decreases_to!(e->MapLiteral_0 => pairs[i as int]));
                }
                let pair = &pairs[i];
                out.push((duplicate_expr(&pair.0), duplicate_expr(&pair.1)));
                i += 1;
            }
            assert(pairs_model(out) =~= pairs_model(*pairs)) by {
                assert forall|j: int| 0 <= j < out.len() implies pairs_model(out)[j] == pairs_model(
                    *pairs,
                )[j] by {
                    assert(out[j].1@ == pairs[j].1@);
                }
            }
            MiniElixirExpr::MapLiteral(out)
        },
        MiniElixirExpr::Variable(x) => MiniElixirExpr::Variable(x.clone()),
        MiniElixirExpr::BinaryOp { op, left, right } => MiniElixirExpr::BinaryOp {
            op: *op,
            left: Box::new(duplicate_expr(left)),
            right: Box::new(duplicate_expr(right)),
        },
        MiniElixirExpr::UnaryOp { op, operand } => MiniElixirExpr::UnaryOp {
            op: *op,
            operand: Box::new(duplicate_expr(operand)),
        },
        MiniElixirExpr::Call { function, args } => MiniElixirExpr::Call {
            function: function.clone(),
            args: duplicate_exprs(args),
        },
        MiniElixirExpr::Pipe { value, function } => MiniElixirExpr::Pipe {
            value: Box::new(duplicate_expr(value)),
            function: Box::new(duplicate_expr(function)),
        },
        MiniElixirExpr::Match { pattern, value } => MiniElixirExpr::Match {
            pattern: Box::new(duplicate_expr(pattern)),
            value: Box::new(duplicate_expr(value)),
        },
        MiniElixirExpr::Case { expr, clauses } => {
            let mut out: Vec<CaseClause> = Vec::new();
            let mut i: usize = 0;
            while i < clauses.len()
                invariant
                    0 <= i <= clauses.len(),
                    out.len() == i,
                    *e is Case,
                    e->Case_clauses == *clauses,
                    forall|j: int| 0 <= j < i ==> out[j]@ == clauses[j]@,
                decreases clauses.len() - i,
            {
                proof {
                    assert(decreases_to!(*e => e->Case_clauses));
                    assert(decreases_to!(e->Case_clauses => clauses[i as int]));
                }
                let clause = &clauses[i];
                let copy = CaseClause {
                    pattern: duplicate_expr(&clause.pattern),
                    guard: match &clause.guard {
                        Some(g) => Some(duplicate_expr(g)),
                        None => None,
                    },
                    body: duplicate_expr(&clause.body),
                };
                assert(copy@ == clause@);
                out.push(copy);
                i += 1;
            }
            assert(clauses_model(out) =~= clauses_model(*clauses));
            MiniElixirExpr::Case { expr: Box::new(duplicate_expr(expr)), clauses: out }
        },
        MiniElixirExpr::If { condition, then_branch, else_branch } => MiniElixirExpr::If {
            condition: Box::new(duplicate_expr(condition)),
            then_branch: Box::new(duplicate_expr(then_branch)),
            else_branch: match else_branch {
                Some(b) => Some(Box::new(duplicate_expr(b))),
                None => None,
            },
        },
        MiniElixirExpr::Access { object, key } => MiniElixirExpr::Access {
            object: Box::new(duplicate_expr(object)),
            key: Box::new(duplicate_expr(key)),
        },
    }
}

/// A copy of a list of expressions.
pub fn duplicate_exprs(items: &Vec<MiniElixirExpr>) -> (r: Vec<MiniElixirExpr>)
    ensures
        exprs_model(r) == exprs_model(*items),
    decreases items, 1nat,
{
    let mut out: Vec<MiniElixirExpr> = Vec::new();
    let mut i: usize = 0;
    while i < items.len()
        invariant
            0 <= i <= items.len(),
            out.len() == i,
            forall|j: int| 0 <= j < i ==> out[j]@ == items[j]@,
        decreases items.len() - i,
    {
        out.push(duplicate_expr(&items[i]));
        i += 1;
    }
    assert(exprs_model(out) =~= exprs_model(*items));
    out
}

impl Clone for MiniElixirExpr {
    fn clone(&self) -> (r: Self)
        ensures
            r@ == self@,
    {
        duplicate_expr(self)
    }
}

impl Clone for CaseClause {
    fn clone(&self) -> (r: Self)
        ensures
            r@ == self@,
    {
        CaseClause {
            pattern: duplicate_expr(&self.pattern),
            guard: match &self.guard {
                Some(g) => Some(duplicate_expr(g)),
                None => None,
            },
            body: duplicate_expr(&self.body),
        }
    }
}

impl PartialEq for MiniElixirExpr {
    fn eq(&self, other: &Self) -> (r: bool) {
        identical_exprs(self, other)
    }
}

impl vstd::std_specs::cmp::PartialEqSpecImpl for MiniElixirExpr {
    open spec fn obeys_eq_spec() -> bool {
        true
    }

    open spec fn eq_spec(&self, other: &Self) -> bool {
        self@ == other@
    }
}

/// The variable `name` occurs in `e`.
pub open spec fn occurs(e: ExprModel, name: Seq<char>) -> bool
    decreases e, 0nat,
{
    match e {
        ExprModel::Variable(n) => n == name,
        ExprModel::List(items) => occurs_in_any(items, name),
        ExprModel::Tuple(items) => occurs_in_any(items, name),
        ExprModel::Block(items) => occurs_in_any(items, name),
        ExprModel::MapLiteral(pairs) => occurs_in_pairs(pairs, name),
        ExprModel::BinaryOp { op, left, right } => occurs(*left, name) || occurs(*right, name),
        ExprModel::UnaryOp { op, operand } => occurs(*operand, name),
        ExprModel::Call { function, args } => occurs_in_any(args, name),
        ExprModel::Pipe { value, function } => occurs(*value, name) || occurs(*function, name),
        ExprModel::Match { pattern, value } => occurs(*pattern, name) || occurs(*value, name),
        ExprModel::Case { expr, clauses } => occurs(*expr, name) || occurs_in_clauses(
            clauses,
            name,
        ),
        ExprModel::If { condition, then_branch, else_branch } => {
            ||| occurs(*condition, name)
            ||| occurs(*then_branch, name)
            ||| match else_branch {
                Some(b) => occurs(*b, name),
                None => false,
            }
        },
        ExprModel::Access { object, key } => occurs(*object, name) || occurs(*key, name),
        _ => false,
    }
}

pub open spec fn occurs_in_any(items: Seq<ExprModel>, name: Seq<char>) -> bool
    decreases items, 1nat,
{
    exists|i: int| 0 <= i < items.len() && occurs(#[trigger] items[i], name)
}

pub open spec fn occurs_in_pairs(pairs: Seq<(ExprModel, ExprModel)>, name: Seq<char>) -> bool
    decreases pairs, 2nat,
{
    exists|i: int| 0 <= i < pairs.len() && occurs_in_pair(#[trigger] pairs[i], name)
}

pub open spec fn occurs_in_clauses(clauses: Seq<ClauseModel>, name: Seq<char>) -> bool
    decreases clauses, 2nat,
{
    exists|i: int| 0 <= i < clauses.len() && occurs_in_clause(#[trigger] clauses[i], name)
}

pub open spec fn occurs_in_pair(pair: (ExprModel, ExprModel), name: Seq<char>) -> bool
    decreases pair, 1nat,
{
    occurs(pair.0, name) || occurs(pair.1, name)
}

pub open spec fn occurs_in_clause(clause: ClauseModel, name: Seq<char>) -> bool
    decreases clause, 1nat,
{
    ||| occurs(clause.pattern, name)
    ||| occurs(clause.body, name)
    ||| match clause.guard {
        Some(g) => occurs(g, name),
        None => false,
    }
}

/// Two sets of bindings bind `name` alike: both leave it unbound, or both
/// bind it to the same value.
pub open spec fn bound_alike(
    a: Map<Seq<char>, ValueModel>,
    b: Map<Seq<char>, ValueModel>,
    name: Seq<char>,
) -> bool {
    a.contains_key(name) == b.contains_key(name) && (a.contains_key(name) ==> a[name] == b[name])
}

/// Two sets of bindings bind every variable of `e` alike.
pub open spec fn agree_on(
    e: ExprModel,
    a: Map<Seq<char>, ValueModel>,
    b: Map<Seq<char>, ValueModel>,
) -> bool {
    forall|name: Seq<char>| occurs(e, name) ==> bound_alike(a, b, name)
}

/// The value of an expression depends on the bindings of its own variables
/// only: bindings that bind those alike give the same value or the same
/// error.
pub proof fn lemma_eval_reads_own_variables(
    e: ExprModel,
    a: Map<Seq<char>, ValueModel>,
    b: Map<Seq<char>, ValueModel>,
)
    requires
        agree_on(e, a, b),
    ensures
        eval_model(e, a) == eval_model(e, b),
    decreases e, 0nat,
{
    match e {
        ExprModel::Variable(n) => {
            assert(occurs(e, n));
        },
        ExprModel::List(items) => {
            assert forall|name: Seq<char>| occurs_in_any(items, name) implies bound_alike(
                a,
                b,
                name,
            ) by {
                assert(occurs(e, name));
            }
            lemma_eval_all_reads_variables(items, items.len() as int, a, b);
        },
        ExprModel::Tuple(items) => {
            assert forall|name: Seq<char>| occurs_in_any(items, name) implies bound_alike(
                a,
                b,
                name,
            ) by {
                assert(occurs(e, name));
            }
            lemma_eval_all_reads_variables(items, items.len() as int, a, b);
        },
        ExprModel::Block(items) => {
            assert forall|name: Seq<char>| occurs_in_any(items, name) implies bound_alike(
                a,
                b,
                name,
            ) by {
                assert(occurs(e, name));
            }
            lemma_eval_all_reads_variables(items, items.len() as int, a, b);
        },
        ExprModel::Call { function, args } => {
            assert forall|name: Seq<char>| occurs_in_any(args, name) implies bound_alike(
                a,
                b,
                name,
            ) by {
                assert(occurs(e, name));
            }
            lemma_eval_all_reads_variables(args, args.len() as int, a, b);
        },
        ExprModel::BinaryOp { op, left, right } => {
            assert(agree_on(*left, a, b)) by {
                assert forall|name: Seq<char>| occurs(*left, name) implies bound_alike(
                    a,
                    b,
                    name,
                ) by {
                    assert(occurs(e, name));
                }
            }
            assert(agree_on(*right, a, b)) by {
                assert forall|name: Seq<char>| occurs(*right, name) implies bound_alike(
                    a,
                    b,
                    name,
                ) by {
                    assert(occurs(e, name));
                }
            }
            lemma_eval_reads_own_variables(*left, a, b);
            lemma_eval_reads_own_variables(*right, a, b);
        },
        ExprModel::UnaryOp { op, operand } => {
            assert(agree_on(*operand, a, b)) by {
                assert forall|name: Seq<char>| occurs(*operand, name) implies bound_alike(
                    a,
                    b,
                    name,
                ) by {
                    assert(occurs(e, name));
                }
            }
            lemma_eval_reads_own_variables(*operand, a, b);
        },
        ExprModel::Pipe { value, function } => {
            assert(agree_on(*value, a, b)) by {
                assert forall|name: Seq<char>| occurs(*value, name) implies bound_alike(
                    a,
                    b,
                    name,
                ) by {
                    assert(occurs(e, name));
                }
            }
            lemma_eval_reads_own_variables(*value, a, b);
            match *function {
                ExprModel::Call { function: f, args } => {
                    assert forall|name: Seq<char>| occurs_in_any(args, name) implies bound_alike(
                        a,
                        b,
                        name,
                    ) by {
                        assert(occurs(*function, name));
                        assert(occurs(e, name));
                    }
                    lemma_eval_all_reads_variables(args, args.len() as int, a, b);
                },
                _ => {},
            }
        },
        ExprModel::Match { pattern, value } => {
            assert(agree_on(*value, a, b)) by {
                assert forall|name: Seq<char>| occurs(*value, name) implies bound_alike(
                    a,
                    b,
                    name,
                ) by {
                    assert(occurs(e, name));
                }
            }
            lemma_eval_reads_own_variables(*value, a, b);
        },
        ExprModel::If { condition, then_branch, else_branch } => {
            assert(agree_on(*condition, a, b)) by {
                assert forall|name: Seq<char>| occurs(*condition, name) implies bound_alike(
                    a,
                    b,
                    name,
                ) by {
                    assert(occurs(e, name));
                }
            }
            assert(agree_on(*then_branch, a, b)) by {
                assert forall|name: Seq<char>| occurs(*then_branch, name) implies bound_alike(
                    a,
                    b,
                    name,
                ) by {
                    assert(occurs(e, name));
                }
            }
            lemma_eval_reads_own_variables(*condition, a, b);
            lemma_eval_reads_own_variables(*then_branch, a, b);
            match else_branch {
                Some(x) => {
                    assert(agree_on(*x, a, b)) by {
                        assert forall|name: Seq<char>| occurs(*x, name) implies bound_alike(
                            a,
                            b,
                            name,
                        ) by {
                            assert(occurs(e, name));
                        }
                    }
                    lemma_eval_reads_own_variables(*x, a, b);
                },
                None => {},
            }
        },
        ExprModel::Access { object, key } => {
            assert(agree_on(*object, a, b)) by {
                assert forall|name: Seq<char>| occurs(*object, name) implies bound_alike(
                    a,
                    b,
                    name,
                ) by {
                    assert(occurs(e, name));
                }
            }
            assert(agree_on(*key, a, b)) by {
                assert forall|name: Seq<char>| occurs(*key, name) implies bound_alike(
                    a,
                    b,
                    name,
                ) by {
                    assert(occurs(e, name));
                }
            }
            lemma_eval_reads_own_variables(*object, a, b);
            lemma_eval_reads_own_variables(*key, a, b);
        },
        _ => {},
    }
}

/// The values of the first `n` expressions of `items` depend on the bindings
/// of the variables of `items` only.
pub proof fn lemma_eval_all_reads_variables(
    items: Seq<ExprModel>,
    n: int,
    a: Map<Seq<char>, ValueModel>,
    b: Map<Seq<char>, ValueModel>,
)
    requires
        forall|name: Seq<char>| occurs_in_any(items, name) ==> bound_alike(a, b, name),
    ensures
        eval_all(items, n, a) == eval_all(items, n, b),
    decreases items, n,
{
    if 0 < n <= items.len() {
        lemma_eval_all_reads_variables(items, n - 1, a, b);
        let item = items[n - 1];
        assert(agree_on(item, a, b)) by {
            assert forall|name: Seq<char>| occurs(item, name) implies bound_alike(a, b, name) by {
                assert(occurs_in_any(items, name));
            }
        }
        lemma_eval_reads_own_variables(item, a, b);
    }
}

/// `name` is one of `names`.
pub open spec fn listed(names: Seq<String>, name: Seq<char>) -> bool {
    exists|i: int| 0 <= i < names.len() && (#[trigger] names[i])@ == name
}

/// `after` is `before` with names added at the end.
pub open spec fn extends(before: Seq<String>, after: Seq<String>) -> bool {
    before.len() <= after.len() && after.subrange(0, before.len() as int) == before
}

/// `after` is `before` followed by names of variables of `e`, and every
/// variable of `e` is among them.
pub open spec fn gathers(before: Seq<String>, after: Seq<String>, e: ExprModel) -> bool {
    &&& extends(before, after)
    &&& forall|name: Seq<char>| occurs(e, name) ==> listed(after, name)
    &&& forall|name: Seq<char>| listed(after, name) ==> listed(before, name) || occurs(e, name)
}

pub proof fn lemma_extends_keeps_listed(before: Seq<String>, after: Seq<String>, name: Seq<char>)
    requires
        extends(before, after),
        listed(before, name),
    ensures
        listed(after, name),
{
    let i = choose|i: int| 0 <= i < before.len() && (#[trigger] before[i])@ == name;
    assert(after.subrange(0, before.len() as int)[i] == after[i]);
    assert(after[i]@ == name);
}

pub proof fn lemma_extends_chain(a: Seq<String>, b: Seq<String>, c: Seq<String>)
    requires
        extends(a, b),
        extends(b, c),
    ensures
        extends(a, c),
{
    assert(c.subrange(0, a.len() as int) =~= a) by {
        assert forall|i: int| 0 <= i < a.len() implies c[i] == a[i] by {
            assert(b.subrange(0, a.len() as int)[i] == b[i]);
            assert(c.subrange(0, b.len() as int)[i] == c[i]);
        }
    }
}

/// Appends to `out` the names of the variables that occur in `expr`, in the
/// order of a walk from the root, a name once for each occurrence.
pub fn collect_variable_references(expr: &MiniElixirExpr, out: &mut Vec<String>)
    ensures
        gathers(old(out)@, final(out)@, expr@),
    decreases expr, 0nat,
{
    let ghost before = out@;
    assert(before.subrange(0, before.len() as int) =~= before);
    match expr {
        MiniElixirExpr::Variable(name) => {
            out.push(name.clone());
            assert(out@.subrange(0, before.len() as int) =~= before);
            assert(out@[before.len() as int]@ == name@);
            assert(listed(out@, name@));
            assert forall|n: Seq<char>| listed(out@, n) implies listed(before, n) || occurs(
                expr@,
                n,
            ) by {
                let i = choose|i: int| 0 <= i < out@.len() && (#[trigger] out@[i])@ == n;
                if i < before.len() {
                    assert(before[i]@ == n);
                }
            }
        },
        MiniElixirExpr::List(items) => {
            collect_from_all(items, out);
            assert(expr@ == ExprModel::List(exprs_model(*items)));
            assert forall|n: Seq<char>| occurs(expr@, n) implies listed(out@, n) by {
                assert(occurs_in_any(exprs_model(*items), n));
            }
            assert forall|n: Seq<char>| listed(out@, n) implies listed(before, n) || occurs(
                expr@,
                n,
            ) by {
                if !listed(before, n) {
                    assert(occurs_in_any(exprs_model(*items), n));
                }
            }
        },
        MiniElixirExpr::Tuple(items) => {
            collect_from_all(items, out);
            assert(expr@ == ExprModel::Tuple(exprs_model(*items)));
            assert forall|n: Seq<char>| occurs(expr@, n) implies listed(out@, n) by {
                assert(occurs_in_any(exprs_model(*items), n));
            }
            assert forall|n: Seq<char>| listed(out@, n) implies listed(before, n) || occurs(
                expr@,
                n,
            ) by {
                if !listed(before, n) {
                    assert(occurs_in_any(exprs_model(*items), n));
                }
            }
        },
        MiniElixirExpr::Block(items) => {
            collect_from_all(items, out);
            assert(expr@ == ExprModel::Block(exprs_model(*items)));
            assert forall|n: Seq<char>| occurs(expr@, n) implies listed(out@, n) by {
                assert(occurs_in_any(exprs_model(*items), n));
            }
            assert forall|n: Seq<char>| listed(out@, n) implies listed(before, n) || occurs(
                expr@,
                n,
            ) by {
                if !listed(before, n) {
                    assert(occurs_in_any(exprs_model(*items), n));
                }
            }
        },
        MiniElixirExpr::Call { function, args } => {
            collect_from_all(args, out);
            assert(expr@ == (ExprModel::Call { function: function@, args: exprs_model(*args) }));
            assert forall|n: Seq<char>| occurs(expr@, n) implies listed(out@, n) by {
                assert(occurs_in_any(exprs_model(*args), n));
            }
            assert forall|n: Seq<char>| listed(out@, n) implies listed(before, n) || occurs(
                expr@,
                n,
            ) by {
                if !listed(before, n) {
                    assert(occurs_in_any(exprs_model(*args), n));
                }
            }
        },
        MiniElixirExpr::MapLiteral(pairs) => {
            collect_from_pairs(pairs, out);
            assert(expr@ == ExprModel::MapLiteral(pairs_model(*pairs)));
            assert forall|n: Seq<char>| occurs(expr@, n) implies listed(out@, n) by {
                assert(occurs_in_pairs(pairs_model(*pairs), n));
            }
            assert forall|n: Seq<char>| listed(out@, n) implies listed(before, n) || occurs(
                expr@,
                n,
            ) by {
                if !listed(before, n) {
                    assert(occurs_in_pairs(pairs_model(*pairs), n));
                }
            }
        },
        MiniElixirExpr::BinaryOp { op, left, right } => {
            collect_variable_references(left, out);
            let ghost middle = out@;
            collect_variable_references(right, out);
            proof {
                lemma_gathers_two(before, middle, out@, left@, right@);
            }
            assert(gathers(before, out@, expr@));
        },
        MiniElixirExpr::UnaryOp { op, operand } => {
            collect_variable_references(operand, out);
            assert(gathers(before, out@, expr@));
        },
        MiniElixirExpr::Pipe { value, function } => {
            collect_variable_references(value, out);
            let ghost middle = out@;
            collect_variable_references(function, out);
            proof {
                lemma_gathers_two(before, middle, out@, value@, function@);
            }
            assert(gathers(before, out@, expr@));
        },
        MiniElixirExpr::Match { pattern, value } => {
            collect_variable_references(pattern, out);
            let ghost middle = out@;
            collect_variable_references(value, out);
            proof {
                lemma_gathers_two(before, middle, out@, pattern@, value@);
            }
            assert(gathers(before, out@, expr@));
        },
        MiniElixirExpr::Access { object, key } => {
            collect_variable_references(object, out);
            let ghost middle = out@;
            collect_variable_references(key, out);
            proof {
                lemma_gathers_two(before, middle, out@, object@, key@);
            }
            assert(gathers(before, out@, expr@));
        },
        MiniElixirExpr::Case { expr: subject, clauses } => {
            collect_variable_references(subject, out);
            let ghost middle = out@;
            collect_from_clauses(clauses, out);
            assert(expr@ == (ExprModel::Case {
                expr: Box::new(subject@),
                clauses: clauses_model(*clauses),
            }));
            proof {
                lemma_extends_chain(before, middle, out@);
                assert forall|n: Seq<char>| occurs(expr@, n) implies listed(out@, n) by {
                    if occurs(subject@, n) {
                        lemma_extends_keeps_listed(middle, out@, n);
                    } else {
                        assert(occurs_in_clauses(clauses_model(*clauses), n));
                    }
                }
                assert forall|n: Seq<char>| listed(out@, n) implies listed(before, n) || occurs(
                    expr@,
                    n,
                ) by {
                    if !listed(before, n) && !occurs(subject@, n) {
                        assert(occurs_in_clauses(clauses_model(*clauses), n));
                    }
                }
            }
        },
        MiniElixirExpr::If { condition, then_branch, else_branch } => {
            collect_variable_references(condition, out);
            let ghost first = out@;
            collect_variable_references(then_branch, out);
            proof {
                lemma_gathers_two(before, first, out@, condition@, then_branch@);
            }
            let ghost middle = out@;
            match else_branch {
                Some(b) => {
                    collect_variable_references(b, out);
                    proof {
                        lemma_extends_chain(before, middle, out@);
                        assert forall|n: Seq<char>| occurs(expr@, n) implies listed(out@, n) by {
                            if occurs(condition@, n) || occurs(then_branch@, n) {
                                lemma_extends_keeps_listed(middle, out@, n);
                            }
                        }
                    }
                },
                None => {},
            }
        },
        _ => {
            assert(gathers(before, out@, expr@));
        },
    }
}

/// Two gatherings in a row gather the variables of both expressions.
pub proof fn lemma_gathers_two(
    before: Seq<String>,
    middle: Seq<String>,
    after: Seq<String>,
    first: ExprModel,
    second: ExprModel,
)
    requires
        gathers(before, middle, first),
        gathers(middle, after, second),
    ensures
        extends(before, after),
        forall|name: Seq<char>|
            occurs(first, name) || occurs(second, name) ==> listed(after, name),
        forall|name: Seq<char>|
            listed(after, name) ==> listed(before, name) || occurs(first, name) || occurs(
                second,
                name,
            ),
{
    lemma_extends_chain(before, middle, after);
    assert forall|n: Seq<char>| occurs(first, n) implies listed(after, n) by {
        lemma_extends_keeps_listed(middle, after, n);
    }
}

/// Appends the names of the variables of every expression of `items`.
fn collect_from_all(items: &Vec<MiniElixirExpr>, out: &mut Vec<String>)
    ensures
        extends(old(out)@, final(out)@),
        forall|name: Seq<char>|
            occurs_in_any(exprs_model(*items), name) ==> listed(final(out)@, name),
        forall|name: Seq<char>|
            listed(final(out)@, name) ==> listed(old(out)@, name) || occurs_in_any(
                exprs_model(*items),
                name,
            ),
    decreases items, 1nat,
{
    let ghost before = out@;
    let ghost model = exprs_model(*items);
    assert(before.subrange(0, before.len() as int) =~= before);
    let mut i: usize = 0;
    while i < items.len()
        invariant
            0 <= i <= items.len(),
            model == exprs_model(*items),
            model.len() == items.len(),
            before == old(out)@,
            extends(before, out@),
            forall|j: int, name: Seq<char>|
                0 <= j < i && #[trigger] occurs(model[j], name) ==> listed(out@, name),
            forall|name: Seq<char>|
                listed(out@, name) ==> listed(before, name) || occurs_in_any(model, name),
        decreases items.len() - i,
    {
        let ghost middle = out@;
        assert(model[i as int] == items[i as int]@);
        collect_variable_references(&items[i], out);
        proof {
            lemma_extends_chain(before, middle, out@);
            assert forall|j: int, name: Seq<char>|
                0 <= j < i + 1 && #[trigger] occurs(model[j], name) implies listed(out@, name) by {
                if j < i {
                    lemma_extends_keeps_listed(middle, out@, name);
                }
            }
            assert forall|name: Seq<char>| listed(out@, name) implies listed(before, name)
                || occurs_in_any(model, name) by {
                if !listed(middle, name) {
                    assert(occurs(model[i as int], name));
                }
            }
        }
        i += 1;
    }
    assert forall|name: Seq<char>| occurs_in_any(model, name) implies listed(out@, name) by {
        let j = choose|j: int| 0 <= j < model.len() && occurs(#[trigger] model[j], name);
        assert(occurs(model[j], name));
    }
}

/// Appends the names of the variables of every key and value of `pairs`.
fn collect_from_pairs(pairs: &Vec<(MiniElixirExpr, MiniElixirExpr)>, out: &mut Vec<String>)
    ensures
        extends(old(out)@, final(out)@),
        forall|name: Seq<char>|
            occurs_in_pairs(pairs_model(*pairs), name) ==> listed(final(out)@, name),
        forall|name: Seq<char>|
            listed(final(out)@, name) ==> listed(old(out)@, name) || occurs_in_pairs(
                pairs_model(*pairs),
                name,
            ),
    decreases pairs, 2nat,
{
    let ghost before = out@;
    let ghost model = pairs_model(*pairs);
    assert(before.subrange(0, before.len() as int) =~= before);
    let mut i: usize = 0;
    while i < pairs.len()
        invariant
            0 <= i <= pairs.len(),
            model == pairs_model(*pairs),
            model.len() == pairs.len(),
            before == old(out)@,
            extends(before, out@),
            forall|j: int, name: Seq<char>|
                0 <= j < i && #[trigger] occurs_in_pair(model[j], name) ==> listed(out@, name),
            forall|name: Seq<char>|
                listed(out@, name) ==> listed(before, name) || occurs_in_pairs(model, name),
        decreases pairs.len() - i,
    {
        let ghost middle = out@;
        let pair = &pairs[i];
        assert(model[i as int] == (pair.0@, pair.1@));
        collect_variable_references(&pair.0, out);
        let ghost half = out@;
        collect_variable_references(&pair.1, out);
        proof {
            lemma_gathers_two(middle, half, out@, pair.0@, pair.1@);
            lemma_extends_chain(before, middle, out@);
            assert forall|j: int, name: Seq<char>|
                0 <= j < i + 1 && #[trigger] occurs_in_pair(model[j], name) implies listed(
                out@,
                name,
            ) by {
                if j < i {
                    lemma_extends_keeps_listed(middle, out@, name);
                }
            }
            assert forall|name: Seq<char>| listed(out@, name) implies listed(before, name)
                || occurs_in_pairs(model, name) by {
                if !listed(middle, name) {
                    assert(occurs_in_pair(model[i as int], name));
                }
            }
        }
        i += 1;
    }
    assert forall|name: Seq<char>| occurs_in_pairs(model, name) implies listed(out@, name) by {
        let j = choose|j: int| 0 <= j < model.len() && occurs_in_pair(#[trigger] model[j], name);
        assert(occurs_in_pair(model[j], name));
    }
}

/// Appends the names of the variables of every clause of `clauses`:
/// pattern, guard, body.
fn collect_from_clauses(clauses: &Vec<CaseClause>, out: &mut Vec<String>)
    ensures
        extends(old(out)@, final(out)@),
        forall|name: Seq<char>|
            occurs_in_clauses(clauses_model(*clauses), name) ==> listed(final(out)@, name),
        forall|name: Seq<char>|
            listed(final(out)@, name) ==> listed(old(out)@, name) || occurs_in_clauses(
                clauses_model(*clauses),
                name,
            ),
    decreases clauses, 2nat,
{
    let ghost before = out@;
    let ghost model = clauses_model(*clauses);
    assert(before.subrange(0, before.len() as int) =~= before);
    let mut i: usize = 0;
    while i < clauses.len()
        invariant
            0 <= i <= clauses.len(),
            model == clauses_model(*clauses),
            model.len() == clauses.len(),
            before == old(out)@,
            extends(before, out@),
            forall|j: int, name: Seq<char>|
                0 <= j < i && #[trigger] occurs_in_clause(model[j], name) ==> listed(out@, name),
            forall|name: Seq<char>|
                listed(out@, name) ==> listed(before, name) || occurs_in_clauses(model, name),
        decreases clauses.len() - i,
    {
        let ghost middle = out@;
        let clause = &clauses[i];
        assert(model[i as int] == clause@);
        collect_variable_references(&clause.pattern, out);
        let ghost after_pattern = out@;
        match &clause.guard {
            Some(g) => {
                collect_variable_references(g, out);
            },
            None => {
                assert(out@.subrange(0, out@.len() as int) =~= out@);
            },
        }
        let ghost after_guard = out@;
        collect_variable_references(&clause.body, out);
        proof {
            lemma_extends_chain(middle, after_pattern, after_guard);
            lemma_extends_chain(middle, after_guard, out@);
            lemma_extends_chain(after_pattern, after_guard, out@);
            lemma_extends_chain(before, middle, out@);
            assert forall|j: int, name: Seq<char>|
                0 <= j < i + 1 && #[trigger] occurs_in_clause(model[j], name) implies listed(
                out@,
                name,
            ) by {
                if j < i {
                    lemma_extends_keeps_listed(middle, out@, name);
                } else {
                    if occurs(clause.pattern@, name) {
                        lemma_extends_keeps_listed(after_pattern, out@, name);
                    } else if occurs(clause.body@, name) {
                    } else {
                        lemma_extends_keeps_listed(after_guard, out@, name);
                    }
                }
            }
            assert forall|name: Seq<char>| listed(out@, name) implies listed(before, name)
                || occurs_in_clauses(model, name) by {
                if !listed(middle, name) {
                    assert(occurs_in_clause(model[i as int], name));
                }
            }
        }
        i += 1;
    }
    assert forall|name: Seq<char>| occurs_in_clauses(model, name) implies listed(out@, name) by {
        let j = choose|j: int| 0 <= j < model.len() && occurs_in_clause(#[trigger] model[j], name);
        assert(occurs_in_clause(model[j], name));
    }
}

} // verus!
