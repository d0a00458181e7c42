//! The tree-walking evaluator.
//!
//! IEEE floating-point arithmetic lies outside the verified fragment, so the
//! evaluator does everything but the arithmetic itself: it walks the tree —
//! left subtree before right, both fully — resolves every variable through
//! the environment, rejects any binary operation over a string or boolean
//! operand, and returns the exact fold schedule: the postfix sequence of
//! value pushes and operator applications that the driving host folds with
//! its native floating-point unit.  The first error wins, exactly as
//! [`eval_model`] says, and [`lemma_schedule_runs_to_one_value`] proves that
//! every returned schedule folds, without stack underflow and with numbers
//! under every operator, to exactly one value.

use vstd::prelude::*;

use crate::lexer::token::clone_chars;
use crate::parser::ast::{BinOp, Expr, ExprModel, Literal, LiteralModel};
use crate::runtime::environment::Environment;

verus! {

/// An evaluation error.  Evaluation is fatal on the first error: either an
/// unbound variable, carried by name, or a binary operation over an operand
/// that is not a number.
#[derive(Debug, Clone, PartialEq)]
pub enum EvalError {
    UndefinedVariable(Vec<char>),
    UnsupportedOperation,
}

/// The mathematical model of an [`EvalError`].
pub ghost enum EvalErrorModel {
    UndefinedVariable(Seq<char>),
    UnsupportedOperation,
}

impl DeepView for EvalError {
    type V = EvalErrorModel;

    open spec fn deep_view(&self) -> EvalErrorModel {
        match self {
            EvalError::UndefinedVariable(name) => EvalErrorModel::UndefinedVariable(name@),
            EvalError::UnsupportedOperation => EvalErrorModel::UnsupportedOperation,
        }
    }
}

/// One step of the fold schedule: push a literal value, or apply a binary
/// operator to the two values most recently pushed or produced.
#[derive(Debug, Clone, PartialEq)]
pub enum Step {
    Push(Literal),
    Apply(BinOp),
}

/// The mathematical model of a [`Step`].
pub ghost enum StepModel {
    Push(LiteralModel),
    Apply(BinOp),
}

impl DeepView for Step {
    type V = StepModel;

    open spec fn deep_view(&self) -> StepModel {
        match self {
            Step::Push(lit) => StepModel::Push(lit.deep_view()),
            Step::Apply(op) => StepModel::Apply(*op),
        }
    }
}

/// Whether evaluating the expression yields a number: literals yield their
/// own value, while a variable (always bound to a number) and a binary
/// operation (always folding numbers) yield numbers.
pub open spec fn value_is_number(e: ExprModel) -> bool {
    match e {
        ExprModel::Literal(lit) => lit matches LiteralModel::Number(_),
        ExprModel::Variable(_) => true,
        ExprModel::Binary(_, _, _) => true,
    }
}

/// The evaluator's whole behaviour: the fold schedule of the expression
/// under the environment, or the first error.  The left subtree is
/// evaluated before the right one and both fully, so the leftmost error
/// wins; only then are the operand kinds checked.
pub open spec fn eval_model(e: ExprModel, env: Map<Seq<char>, Seq<char>>) -> Result<
    Seq<StepModel>,
    EvalErrorModel,
>
    decreases e,
{
    match e {
        ExprModel::Literal(lit) => Ok(seq![StepModel::Push(lit)]),
        ExprModel::Variable(name) => if env.contains_key(name) {
            Ok(seq![StepModel::Push(LiteralModel::Number(env[name]))])
        } else {
            Err(EvalErrorModel::UndefinedVariable(name))
        },
        ExprModel::Binary(left, op, right) => match eval_model(*left, env) {
            Err(e) => Err(e),
            Ok(left_steps) => match eval_model(*right, env) {
                Err(e) => Err(e),
                Ok(right_steps) => if value_is_number(*left) && value_is_number(*right) {
                    Ok(left_steps + right_steps + seq![StepModel::Apply(op)])
                } else {
                    Err(EvalErrorModel::UnsupportedOperation)
                },
            },
        },
    }
}

/// The abstract fold of a schedule, tracking only whether each stack entry
/// is a number: a push records its literal's kind; an application needs two
/// numbers on top and leaves one.  `None` is a fold that would go wrong.
pub open spec fn fold_shape(steps: Seq<StepModel>, stack: Seq<bool>) -> Option<Seq<bool>>
    decreases steps.len(),
{
    if steps.len() == 0 {
        Some(stack)
    } else {
        match steps[0] {
            StepModel::Push(lit) => fold_shape(
                steps.subrange(1, steps.len() as int),
                stack.push(lit matches LiteralModel::Number(_)),
            ),
            StepModel::Apply(_) => if stack.len() >= 2 && stack.last() && stack[stack.len() - 2] {
                fold_shape(
                    steps.subrange(1, steps.len() as int),
                    stack.drop_last().drop_last().push(true),
                )
            } else {
                None
            },
        }
    }
}

/// Folding a concatenation is folding the first part, then the second.
proof fn lemma_fold_shape_concat(a: Seq<StepModel>, b: Seq<StepModel>, stack: Seq<bool>)
    ensures
        fold_shape(a + b, stack) == match fold_shape(a, stack) {
            Some(mid) => fold_shape(b, mid),
            None => None,
        },
    decreases a.len(),
{
    if a.len() == 0 {
        assert(a + b =~= b);
    } else {
        assert((a + b).subrange(1, (a + b).len() as int) =~= a.subrange(1, a.len() as int) + b);
        match a[0] {
            StepModel::Push(lit) => {
                lemma_fold_shape_concat(
                    a.subrange(1, a.len() as int),
                    b,
                    stack.push(lit matches LiteralModel::Number(_)),
                );
            },
            StepModel::Apply(_) => {
                if stack.len() >= 2 && stack.last() && stack[stack.len() - 2] {
                    lemma_fold_shape_concat(
                        a.subrange(1, a.len() as int),
                        b,
                        stack.drop_last().drop_last().push(true),
                    );
                }
            },
        }
    }
}

/// Every schedule the evaluator accepts is well formed over any stack: its
/// fold pushes exactly one entry, a number exactly when the expression
/// yields one.
proof fn lemma_schedule_well_formed(
    e: ExprModel,
    env: Map<Seq<char>, Seq<char>>,
    steps: Seq<StepModel>,
    stack: Seq<bool>,
)
    requires
        eval_model(e, env) == Ok::<Seq<StepModel>, EvalErrorModel>(steps),
    ensures
        fold_shape(steps, stack) == Some(stack.push(value_is_number(e))),
    decreases e,
{
    reveal_with_fuel(fold_shape, 4);
    match e {
        ExprModel::Literal(lit) => {
            assert(steps =~= seq![StepModel::Push(lit)]);
            assert(steps.subrange(1, 1) =~= Seq::<StepModel>::empty());
        },
        ExprModel::Variable(name) => {
            assert(steps =~= seq![StepModel::Push(LiteralModel::Number(env[name]))]);
            assert(steps.subrange(1, 1) =~= Seq::<StepModel>::empty());
        },
        ExprModel::Binary(left, op, right) => {
            let left_steps = eval_model(*left, env)->Ok_0;
            let right_steps = eval_model(*right, env)->Ok_0;
            lemma_schedule_well_formed(*left, env, left_steps, stack);
            lemma_schedule_well_formed(*right, env, right_steps, stack.push(true));
            lemma_fold_shape_concat(left_steps + right_steps, seq![StepModel::Apply(op)], stack);
            lemma_fold_shape_concat(left_steps, right_steps, stack);
            let two = stack.push(true).push(true);
            assert(fold_shape(seq![StepModel::Apply(op)], two) == Some(
                two.drop_last().drop_last().push(true),
            )) by {
                assert(seq![StepModel::Apply(op)].subrange(1, 1) =~= Seq::<StepModel>::empty());
            }
            assert(two.drop_last().drop_last() =~= stack);
        },
    }
}

/// Every schedule the evaluator returns folds safely: starting from an
/// empty stack, no application lacks its two operands, every application
/// meets two numbers, and exactly one value is left at the end.
pub proof fn lemma_schedule_runs_to_one_value(
    e: ExprModel,
    env: Map<Seq<char>, Seq<char>>,
    steps: Seq<StepModel>,
)
    requires
        eval_model(e, env) == Ok::<Seq<StepModel>, EvalErrorModel>(steps),
    ensures
        fold_shape(steps, Seq::empty()) == Some(seq![value_is_number(e)]),
{
    lemma_schedule_well_formed(e, env, steps, Seq::empty());
    assert(Seq::empty().push(value_is_number(e)) =~= seq![value_is_number(e)]);
}

/// Whether evaluating the expression yields a number, executably.
fn value_is_number_exec(e: &Expr) -> (r: bool)
    ensures
        r == value_is_number(e.deep_view()),
{
    match e {
        Expr::Literal(lit) => match lit {
            Literal::Number(_) => true,
            _ => false,
        },
        _ => true,
    }
}

/// A fresh literal carrying the same value.
fn clone_literal(lit: &Literal) -> (r: Literal)
    ensures
        r.deep_view() == lit.deep_view(),
{
    match lit {
        Literal::Number(text) => Literal::Number(clone_chars(text)),
        Literal::Str(text) => Literal::Str(clone_chars(text)),
        Literal::Boolean(b) => Literal::Boolean(*b),
    }
}

/// The evaluator.  It holds the environment that variable references are
/// resolved through, and never mutates it.
pub struct Evaluator {
    environment: Environment,
}

impl Evaluator {
    /// The environment that variables are resolved through.
    pub closed spec fn env_model(&self) -> Map<Seq<char>, Seq<char>> {
        self.environment@
    }

    /// Create an evaluator holding the given environment.
    pub fn new(environment: Environment) -> (evaluator: Evaluator)
        ensures
            evaluator.env_model() == environment@,
    {
        Evaluator { environment }
    }

    /// Evaluate the tree: exactly [`eval_model`].  On success the fold
    /// schedule is returned for the host to fold with its native
    /// floating-point arithmetic — division by zero and overflow follow the
    /// host's IEEE semantics and are not errors here.
    pub fn evaluate(&mut self, expr: &Expr) -> (r: Result<Vec<Step>, EvalError>)
        ensures
            final(self).env_model() == old(self).env_model(),
            match r {
                Ok(steps) => eval_model(expr.deep_view(), old(self).env_model()) == Ok::<
                    Seq<StepModel>,
                    EvalErrorModel,
                >(steps.deep_view()),
                Err(e) => eval_model(expr.deep_view(), old(self).env_model()) == Err::<
                    Seq<StepModel>,
                    EvalErrorModel,
                >(e.deep_view()),
            },
        decreases expr,
    {
        match expr {
            Expr::Literal(lit) => {
                let mut steps: Vec<Step> = Vec::new();
                steps.push(Step::Push(clone_literal(lit)));
                proof {
                    assert(steps.deep_view() =~= seq![StepModel::Push(lit.deep_view())]);
                }
                Ok(steps)
            },
            Expr::Variable(name) => match self.environment.get(name) {
                Some(value) => {
                    let mut steps: Vec<Step> = Vec::new();
                    steps.push(Step::Push(Literal::Number(value)));
                    proof {
                        assert(steps.deep_view() =~= seq![
                            StepModel::Push(
                                LiteralModel::Number(old(self).env_model()[name@]),
                            ),
                        ]);
                    }
                    Ok(steps)
                },
                None => Err(EvalError::UndefinedVariable(clone_chars(name))),
            },
            Expr::Binary(left, op, right) => {
                let left_result = self.evaluate(left);
                let mut left_steps = match left_result {
                    Ok(steps) => steps,
                    Err(e) => {
                        return Err(e);
                    },
                };
                let right_result = self.evaluate(right);
                let mut right_steps = match right_result {
                    Ok(steps) => steps,
                    Err(e) => {
                        return Err(e);
                    },
                };
                if value_is_number_exec(left) && value_is_number_exec(right) {
                    let ghost left_model = left_steps.deep_view();
                    let ghost right_model = right_steps.deep_view();
                    left_steps.append(&mut right_steps);
                    left_steps.push(Step::Apply(*op));
                    proof {
                        assert(left_steps.deep_view() =~= left_model + right_model + seq![
                            StepModel::Apply(*op),
                        ]);
                    }
                    Ok(left_steps)
                } else {
                    Err(EvalError::UnsupportedOperation)
                }
            },
        }
    }
}

} // verus!
