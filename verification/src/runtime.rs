//! Passes over a statement list, and the pipeline that chains them.

use crate::environment::Bindings;
use crate::values::{
    duplicate_statements, statements_model, EllexFunction, EllexValue, Statement, StatementModel,
    ValueModel,
};
use crate::{error_of, EllexError, EllexResult, ErrorModel};
use vstd::prelude::*;

verus! {

/// What a pass makes of a statement list: a new list, or an error.
pub type PassOutcome = Result<Seq<StatementModel>, ErrorModel>;

/// A result and a final list agree with the outcome of a pass: on success
/// the list is the new one, on an error it is the old one.
pub open spec fn agrees(
    outcome: PassOutcome,
    before: Seq<StatementModel>,
    after: Seq<StatementModel>,
    r: EllexResult<()>,
) -> bool {
    match outcome {
        Ok(out) => r is Ok && after == out,
        Err(error) => error_of(r) == Some(error) && after == before,
    }
}

/// A pass over a statement list.
pub trait Pass {
    /// What the pass makes of `ast`.
    spec fn outcome(&self, ast: Seq<StatementModel>) -> PassOutcome;

    /// Rewrites `ast` in place.
    fn apply(&self, ast: &mut Vec<Statement>) -> (r: EllexResult<()>)
        ensures
            agrees(
                self.outcome(statements_model(*old(ast))),
                statements_model(*old(ast)),
                statements_model(*final(ast)),
                r,
            ),
    ;
}

/// A chain of passes.
pub struct Pipeline {
    passes: Vec<Box<dyn Pass>>,
}

/// What the first `n` passes make of `ast`, each working on what the one
/// before made; the first error ends the chain.
pub open spec fn chain_outcome(passes: Seq<Box<dyn Pass>>, n: int, ast: Seq<StatementModel>) -> PassOutcome
    decreases n,
{
    if n <= 0 || n > passes.len() {
        Ok(ast)
    } else {
        match chain_outcome(passes, n - 1, ast) {
            Err(error) => Err(error),
            Ok(made) => passes[n - 1].outcome(made),
        }
    }
}

/// The list after the first `n` passes: what the last pass that succeeded
/// made, or the list that was given if the first pass failed already.
pub open spec fn chain_state(passes: Seq<Box<dyn Pass>>, n: int, ast: Seq<StatementModel>) -> Seq<
    StatementModel,
>
    decreases n,
{
    if n <= 0 || n > passes.len() {
        ast
    } else {
        match chain_outcome(passes, n - 1, ast) {
            Err(_) => chain_state(passes, n - 1, ast),
            Ok(made) => match passes[n - 1].outcome(made) {
                Ok(out) => out,
                Err(_) => made,
            },
        }
    }
}

impl Pipeline {
    /// The passes of the pipeline, in order.
    pub closed spec fn passes(&self) -> Seq<Box<dyn Pass>> {
        self.passes@
    }

    /// A pipeline without passes.
    pub fn new() -> (p: Self)
        ensures
            p.passes() == Seq::<Box<dyn Pass>>::empty(),
    {
        Pipeline { passes: Vec::new() }
    }

    /// Adds `pass` at the end of the chain.
    pub fn attach(&mut self, pass: Box<dyn Pass>)
        ensures
            final(self).passes() == old(self).passes().push(pass),
    {
        self.passes.push(pass);
    }

    /// Runs the passes in order on `ast`. A pass that fails ends the run and
    /// leaves the list as the passes before it made it.
    pub fn run(&self, ast: &mut Vec<Statement>) -> (r: EllexResult<()>)
        ensures
            match chain_outcome(
                self.passes(),
                self.passes().len() as int,
                statements_model(*old(ast)),
            ) {
                Ok(out) => r is Ok && statements_model(*final(ast)) == out,
                Err(error) => error_of(r) == Some(error),
            },
            statements_model(*final(ast)) == chain_state(
                self.passes(),
                self.passes().len() as int,
                statements_model(*old(ast)),
            ),
    {
        let ghost start = statements_model(*ast);
        let mut i: usize = 0;
        while i < self.passes.len()
            invariant
                0 <= i <= self.passes.len(),
                start == statements_model(*old(ast)),
                chain_outcome(self.passes(), i as int, start) == Ok::<
                    Seq<StatementModel>,
                    ErrorModel,
                >(statements_model(*ast)),
                chain_state(self.passes(), i as int, start) == statements_model(*ast),
            decreases self.passes.len() - i,
        {
            let ghost made = statements_model(*ast);
            match self.passes[i].apply(ast) {
                Ok(()) => {},
                Err(error) => {
                    proof {
                        assert(self.passes()[i as int].outcome(made) is Err);
                        assert(chain_outcome(self.passes(), i as int + 1, start)
                            == self.passes()[i as int].outcome(made));
                        lemma_chain_error_stays(
                            self.passes(),
                            i as int + 1,
                            self.passes().len() as int,
                            start,
                        );
                        assert(self.passes()[i as int].outcome(made) == Err::<
                            Seq<StatementModel>,
                            ErrorModel,
                        >(error@));
                        assert(chain_outcome(self.passes(), self.passes().len() as int, start)
                            == Err::<Seq<StatementModel>, ErrorModel>(error@));
                    }
                    return Err(error);
                },
            }
            i += 1;
        }
        Ok(())
    }
}

/// Once a pass of the chain has failed, the passes after it change nothing.
pub proof fn lemma_chain_error_stays(
    passes: Seq<Box<dyn Pass>>,
    n: int,
    m: int,
    ast: Seq<StatementModel>,
)
    requires
        0 <= n <= m <= passes.len(),
        chain_outcome(passes, n, ast) is Err,
    ensures
        chain_outcome(passes, m, ast) == chain_outcome(passes, n, ast),
        chain_state(passes, m, ast) == chain_state(passes, n, ast),
    decreases m - n,
{
    if n < m {
        lemma_chain_error_stays(passes, n, m - 1, ast);
    }
}

/// Folds constants. Every value of a statement is a constant already, so
/// the pass leaves the list as it is.
pub struct ConstantFolding;

impl Pass for ConstantFolding {
    open spec fn outcome(&self, ast: Seq<StatementModel>) -> PassOutcome {
        Ok(ast)
    }

    fn apply(&self, ast: &mut Vec<Statement>) -> (r: EllexResult<()>) {
        Ok(())
    }
}

/// `name` is one of `names`.
pub open spec fn named(names: Seq<String>, name: Seq<char>) -> bool {
    exists|i: int| 0 <= i < names.len() && (#[trigger] names[i])@ == name
}

/// Removes the prompts for variables that nothing uses.
pub struct DeadCodeElim {
    used_vars: Vec<String>,
}

/// A statement stays unless it prompts for a variable that is not used.
pub open spec fn stays(s: StatementModel, used: Seq<String>) -> bool {
    match s {
        StatementModel::Ask(variable, _) => named(used, variable),
        _ => true,
    }
}

/// The statements among the first `n` of `ast` that stay, in order.
pub open spec fn kept(ast: Seq<StatementModel>, n: int, used: Seq<String>) -> Seq<StatementModel>
    decreases n,
{
    if n <= 0 || n > ast.len() {
        Seq::empty()
    } else if stays(ast[n - 1], used) {
        kept(ast, n - 1, used).push(ast[n - 1])
    } else {
        kept(ast, n - 1, used)
    }
}

impl DeadCodeElim {
    /// The variables marked as used.
    pub closed spec fn used(&self) -> Seq<String> {
        self.used_vars@
    }

    /// A pass for which no variable is used.
    pub fn new() -> (p: Self)
        ensures
            p.used() == Seq::<String>::empty(),
    {
        DeadCodeElim { used_vars: Vec::new() }
    }

    /// Marks the variable `name` as used.
    pub fn mark_used(&mut self, name: String)
        ensures
            final(self).used() == old(self).used().push(name),
    {
        self.used_vars.push(name);
    }

    /// Whether the variable `name` is marked as used.
    pub fn is_used(&self, name: &str) -> (r: bool)
        ensures
            r == named(self.used(), name@),
    {
        let mut i: usize = 0;
        while i < self.used_vars.len()
            invariant
                0 <= i <= self.used_vars.len(),
                forall|j: int| 0 <= j < i ==> self.used_vars[j]@ != name@,
            decreases self.used_vars.len() - i,
        {
            if crate::text::same_text(self.used_vars[i].as_str(), name) {
                return true;
            }
            i += 1;
        }
        false
    }
}

impl Pass for DeadCodeElim {
    open spec fn outcome(&self, ast: Seq<StatementModel>) -> PassOutcome {
        Ok(kept(ast, ast.len() as int, self.used()))
    }

    fn apply(&self, ast: &mut Vec<Statement>) -> (r: EllexResult<()>) {
        let ghost model = statements_model(*ast);
        let mut out: Vec<Statement> = Vec::new();
        let mut i: usize = 0;
        assert(statements_model(out) =~= kept(model, 0, self.used()));
        while i < ast.len()
            invariant
                0 <= i <= ast.len(),
                *ast == *old(ast),
                model == statements_model(*ast),
                model.len() == ast.len(),
                statements_model(out) == kept(model, i as int, self.used()),
            decreases ast.len() - i,
        {
            let statement = &ast[i];
            assert(model[i as int] == statement@);
            let stay = match statement {
                Statement::Ask(variable, _) => self.is_used(variable.as_str()),
                _ => true,
            };
            if stay {
                let ghost before = statements_model(out);
                out.push(statement.duplicate());
                assert(statements_model(out) =~= before.push(statement@));
            }
            i += 1;
        }
        *ast = out;
        Ok(())
    }
}

/// Replaces calls by the bodies of the functions they call.
pub struct Inlining {
    functions: Bindings,
}

/// What stands for the statement `s` after inlining: the body of the
/// function if `s` calls a known one, `s` itself otherwise.
pub open spec fn inlined(s: StatementModel, functions: Map<Seq<char>, ValueModel>) -> Seq<
    StatementModel,
> {
    match s {
        StatementModel::Call(name) => if functions.contains_key(name) && functions[name]
            is Function {
            functions[name]->Function_0.body
        } else {
            seq![s]
        },
        _ => seq![s],
    }
}

/// The first `n` statements of `ast` after inlining.
pub open spec fn inlined_through(
    ast: Seq<StatementModel>,
    n: int,
    functions: Map<Seq<char>, ValueModel>,
) -> Seq<StatementModel>
    decreases n,
{
    if n <= 0 || n > ast.len() {
        Seq::empty()
    } else {
        inlined_through(ast, n - 1, functions) + inlined(ast[n - 1], functions)
    }
}

impl Inlining {
    /// The functions that the pass knows.
    pub closed spec fn known(&self) -> Map<Seq<char>, ValueModel> {
        self.functions@
    }

    /// A pass that knows no function.
    pub fn new() -> (p: Self)
        ensures
            p.known() == Map::<Seq<char>, ValueModel>::empty(),
    {
        Inlining { functions: Bindings::new() }
    }

    /// Makes `function` known under its name.
    pub fn define(&mut self, function: EllexFunction)
        ensures
            final(self).known() == old(self).known().insert(
                function@.name,
                ValueModel::Function(function@),
            ),
    {
        let name = function.name.clone();
        self.functions.insert(name, EllexValue::Function(function));
    }
}

impl Pass for Inlining {
    open spec fn outcome(&self, ast: Seq<StatementModel>) -> PassOutcome {
        Ok(inlined_through(ast, ast.len() as int, self.known()))
    }

    fn apply(&self, ast: &mut Vec<Statement>) -> (r: EllexResult<()>) {
        let ghost model = statements_model(*ast);
        let mut out: Vec<Statement> = Vec::new();
        let mut i: usize = 0;
        assert(statements_model(out) =~= inlined_through(model, 0, self.known()));
        while i < ast.len()
            invariant
                0 <= i <= ast.len(),
                *ast == *old(ast),
                model == statements_model(*ast),
                model.len() == ast.len(),
                statements_model(out) == inlined_through(model, i as int, self.known()),
            decreases ast.len() - i,
        {
            let statement = &ast[i];
            assert(model[i as int] == statement@);
            let ghost before = statements_model(out);
            let body: Option<Vec<Statement>> = match statement {
                Statement::Call(name) => match self.functions.get(name.as_str()) {
                    Some(EllexValue::Function(f)) => Some(duplicate_statements(&f.body)),
                    _ => None,
                },
                _ => None,
            };
            match body {
                Some(mut statements) => {
                    let ghost added = statements_model(statements);
                    assert(added == inlined(statement@, self.known()));
                    assert forall|j: int| 0 <= j < statements.len() implies added[j]
                        == statements[j]@ by {}
                    assert(added.len() == statements.len());
                    assert forall|j: int| 0 <= j < out.len() implies before[j] == out[j]@ by {}
                    out.append(&mut statements);
                    assert(statements_model(out) =~= before + added);
                },
                None => {
                    out.push(statement.duplicate());
                    assert(statements_model(out) =~= before + seq![statement@]);
                },
            }
            i += 1;
        }
        *ast = out;
        Ok(())
    }
}

/// Unrolls short loops.
#[derive(Debug, Clone, Copy, PartialEq, Eq, Structural)]
pub struct LoopUnroll {
    max_unroll: usize,
}

/// `body` written `count` times in a row.
pub open spec fn repeated(body: Seq<StatementModel>, count: nat) -> Seq<StatementModel>
    decreases count,
{
    if count == 0 {
        Seq::empty()
    } else {
        repeated(body, (count - 1) as nat) + body
    }
}

/// What stands for the statement `s` after unrolling: a loop of at most
/// `max_unroll` rounds becomes a loop of one round over its body written out
/// that many times; anything else stays.
pub open spec fn unrolled(s: StatementModel, max_unroll: usize) -> StatementModel {
    match s {
        StatementModel::Repeat(count, body) => if count <= max_unroll {
            StatementModel::Repeat(1, repeated(body, count as nat))
        } else {
            s
        },
        _ => s,
    }
}

/// Every statement of `ast` unrolled.
pub open spec fn unrolled_all(ast: Seq<StatementModel>, max_unroll: usize) -> Seq<StatementModel> {
    Seq::new(ast.len(), |i: int| unrolled(ast[i], max_unroll))
}

impl LoopUnroll {
    /// The longest loop that the pass unrolls.
    pub closed spec fn limit(&self) -> usize {
        self.max_unroll
    }

    /// A pass that unrolls loops of at most `max_unroll` rounds.
    pub fn new(max_unroll: usize) -> (p: Self)
        ensures
            p.limit() == max_unroll,
    {
        LoopUnroll { max_unroll }
    }
}

impl Pass for LoopUnroll {
    open spec fn outcome(&self, ast: Seq<StatementModel>) -> PassOutcome {
        Ok(unrolled_all(ast, self.limit()))
    }

    fn apply(&self, ast: &mut Vec<Statement>) -> (r: EllexResult<()>) {
        let ghost model = statements_model(*ast);
        let mut out: Vec<Statement> = Vec::new();
        let mut i: usize = 0;
        while i < ast.len()
            invariant
                0 <= i <= ast.len(),
                *ast == *old(ast),
                model == statements_model(*ast),
                model.len() == ast.len(),
                out.len() == i,
                forall|j: int| 0 <= j < i ==> out[j]@ == unrolled(model[j], self.limit()),
            decreases ast.len() - i,
        {
            let statement = &ast[i];
            assert(model[i as int] == statement@);
            let replacement = match statement {
                Statement::Repeat(count, body) => {
                    if (*count as usize) <= self.max_unroll {
                        let ghost body_model = statements_model(*body);
                        let mut written: Vec<Statement> = Vec::new();
                        let mut round: u32 = 0;
                        assert(statements_model(written) =~= repeated(body_model, 0));
                        while round < *count
                            invariant
                                0 <= round <= *count,
                                body_model == statements_model(*body),
                                statements_model(written) == repeated(body_model, round as nat),
                            decreases *count - round,
                        {
                            let ghost before = statements_model(written);
                            let mut copy = duplicate_statements(body);
                            let ghost added = statements_model(copy);
                            assert forall|j: int| 0 <= j < copy.len() implies added[j]
                                == copy[j]@ by {}
                            assert(added.len() == copy.len());
                            assert forall|j: int| 0 <= j < written.len() implies before[j]
                                == written[j]@ by {}
                            written.append(&mut copy);
                            assert(statements_model(written) =~= before + added);
                            round += 1;
                        }
                        Statement::Repeat(1, written)
                    } else {
                        statement.duplicate()
                    }
                },
                _ => statement.duplicate(),
            };
            out.push(replacement);
            i += 1;
        }
        assert(statements_model(out) =~= unrolled_all(model, self.limit()));
        *ast = out;
        Ok(())
    }
}

/// A pass to another language that is not written yet: it always fails.
pub struct ElixirTranspile;

impl Pass for ElixirTranspile {
    open spec fn outcome(&self, ast: Seq<StatementModel>) -> PassOutcome {
        Err(ErrorModel::LogicError { message: "Transpilation not implemented yet"@ })
    }

    fn apply(&self, ast: &mut Vec<Statement>) -> (r: EllexResult<()>) {
        Err(
            EllexError::LogicError {
                message: String::from_str("Transpilation not implemented yet"),
            },
        )
    }
}

/// A pass for suggestions from outside: it leaves the list as it is.
pub struct SuperOpt;

impl Pass for SuperOpt {
    open spec fn outcome(&self, ast: Seq<StatementModel>) -> PassOutcome {
        Ok(ast)
    }

    fn apply(&self, ast: &mut Vec<Statement>) -> (r: EllexResult<()>) {
        Ok(())
    }
}

} // verus!
