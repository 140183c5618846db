//! What evaluation means, as functions on the models of syntax trees, values
//! and environments.
//!
//! Evaluation is total: every run ends in a value or in a [`RuntimeError`].
//! A budget bounds how deeply evaluations of expressions may nest, so that a
//! function that calls itself without end stops with
//! [`RuntimeError::ResourceExhausted`]. Each function answers with a result and
//! with the environment that the run leaves behind.

use vstd::prelude::*;
use crate::ast::{
    BinaryOperator, ExprView, LiteralView, ProgramView, StatementView, UnaryOperatorView,
};
use crate::interpreter::PrimitiveView;
use crate::interpreter::scope::{
    AssignError, FrameView, assign, assign_result, define, empty_frame, lookup,
};

verus! {

/// Why a run stopped.
#[derive(Debug, Clone, Copy, PartialEq, Eq, Structural)]
pub enum RuntimeError {
    /// An operand, a condition, a call target or a loop source is of the wrong kind.
    TypeError,
    /// A name is bound in no frame that is in sight.
    UndefinedVariable,
    /// An assignment would change the kind of a variable's value.
    AssignTypeMismatch,
    /// A call passes more or fewer arguments than the function has parameters.
    ArityError,
    /// An index is negative or not less than the array's length.
    IndexOutOfBounds,
    /// The right operand of `/` or `%` is zero.
    DivideByZero,
    /// Evaluations nest more deeply than the budget allows, or a loop over an
    /// open range has run through every number.
    ResourceExhausted,
}

impl RuntimeError {
    /// The error in words.
    pub open spec fn description(self) -> Seq<char> {
        match self {
            RuntimeError::TypeError => "type error: a value of another kind was needed"@,
            RuntimeError::UndefinedVariable => "undefined variable"@,
            RuntimeError::AssignTypeMismatch => "assignment would change the kind of the variable"@,
            RuntimeError::ArityError => "wrong number of arguments"@,
            RuntimeError::IndexOutOfBounds => "index out of bounds"@,
            RuntimeError::DivideByZero => "division by zero"@,
            RuntimeError::ResourceExhausted => "evaluation nests too deeply"@,
        }
    }
}

/// A model of an environment: its frames, the global one first.
pub type Env = Seq<FrameView>;

/// The number that `x` is taken for in 32 bits, two's complement.
pub open spec fn wrap_i32(x: int) -> i32 {
    let m = x % 0x1_0000_0000;
    if m > i32::MAX {
        (m - 0x1_0000_0000) as i32
    } else {
        m as i32
    }
}

/// The quotient of `x` by `d`, rounded toward zero. `d` is not zero.
pub open spec fn trunc_div(x: int, d: int) -> int {
    if x >= 0 && d > 0 {
        x / d
    } else if x < 0 && d < 0 {
        (-x) / (-d)
    } else if x < 0 {
        -((-x) / d)
    } else {
        -(x / (-d))
    }
}

/// The remainder that goes with [`trunc_div`]; it has the sign of `x`.
pub open spec fn trunc_rem(x: int, d: int) -> int {
    x - d * trunc_div(x, d)
}

/// The value of an arithmetic operator, `..` or `==` on two evaluated operands.
pub open spec fn apply_binary(
    operator: BinaryOperator,
    lhs: PrimitiveView,
    rhs: PrimitiveView,
) -> Result<
    PrimitiveView,
    RuntimeError,
> {
    match (operator, lhs, rhs) {
        (BinaryOperator::Add, PrimitiveView::Number(a), PrimitiveView::Number(b)) => Ok(
            PrimitiveView::Number(wrap_i32(a + b)),
        ),
        (BinaryOperator::Subtract, PrimitiveView::Number(a), PrimitiveView::Number(b)) => Ok(
            PrimitiveView::Number(wrap_i32(a - b)),
        ),
        (BinaryOperator::Multiply, PrimitiveView::Number(a), PrimitiveView::Number(b)) => Ok(
            PrimitiveView::Number(wrap_i32(a * b)),
        ),
        (BinaryOperator::Divide, PrimitiveView::Number(a), PrimitiveView::Number(b)) => if b == 0 {
            Err(RuntimeError::DivideByZero)
        } else {
            Ok(PrimitiveView::Number(wrap_i32(trunc_div(a as int, b as int))))
        },
        (BinaryOperator::Modulo, PrimitiveView::Number(a), PrimitiveView::Number(b)) => if b == 0 {
            Err(RuntimeError::DivideByZero)
        } else {
            Ok(PrimitiveView::Number(wrap_i32(trunc_rem(a as int, b as int))))
        },
        (BinaryOperator::Range, PrimitiveView::Number(a), PrimitiveView::Number(b)) => Ok(
            PrimitiveView::Range { begin: a, fin: Some(b) },
        ),
        (BinaryOperator::Equal, PrimitiveView::Number(a), PrimitiveView::Number(b)) => Ok(
            PrimitiveView::Bool(a == b),
        ),
        (BinaryOperator::Equal, PrimitiveView::Bool(a), PrimitiveView::Bool(b)) => Ok(
            PrimitiveView::Bool(a == b),
        ),
        _ => Err(RuntimeError::TypeError),
    }
}

/// The answer of an assignment whose left operand is `target` and whose
/// right operand came to `value`.
pub open spec fn apply_assign(target: ExprView, value: PrimitiveView, env: Env) -> (
    Result<PrimitiveView, RuntimeError>,
    Env,
) {
    match target {
        ExprView::Literal(LiteralView::Ident(name)) => match assign_result(env, name, value) {
            Ok(()) => (Ok(PrimitiveView::Nothing), assign(env, name, value)),
            Err(AssignError::TypeMismatch) => (Err(RuntimeError::AssignTypeMismatch), env),
            Err(AssignError::UndefinedVariable) => (Err(RuntimeError::UndefinedVariable), env),
        },
        _ => (Err(RuntimeError::TypeError), env),
    }
}

/// The value of `-` on an evaluated operand.
pub open spec fn apply_minus(operand: PrimitiveView) -> Result<PrimitiveView, RuntimeError> {
    match operand {
        PrimitiveView::Number(a) => Ok(PrimitiveView::Number(wrap_i32(-a))),
        _ => Err(RuntimeError::TypeError),
    }
}

/// The element of an evaluated array at an evaluated index.
pub open spec fn apply_index(items: Seq<PrimitiveView>, index: PrimitiveView) -> Result<
    PrimitiveView,
    RuntimeError,
> {
    match index {
        PrimitiveView::Number(i) => if 0 <= i < items.len() {
            Ok(items[i as int])
        } else {
            Err(RuntimeError::IndexOutOfBounds)
        },
        _ => Err(RuntimeError::TypeError),
    }
}

/// The frame of a call: the first `n` parameters bound to the first `n`
/// arguments, a later parameter of the same name winning over an earlier one.
pub open spec fn bind_params(names: Seq<Seq<char>>, values: Seq<PrimitiveView>, n: nat) -> FrameView
    decreases n,
{
    if n == 0 {
        empty_frame()
    } else {
        bind_params(names, values, (n - 1) as nat).insert(names[n - 1], values[n - 1])
    }
}

/// The environment that a function's body sees when it is called from `env`:
/// the global frame and the frame of the call, nothing of the caller's own.
pub open spec fn call_env(env: Env, names: Seq<Seq<char>>, values: Seq<PrimitiveView>) -> Env {
    env.subrange(0, 1).push(bind_params(names, values, names.len()))
}

/// The caller's environment after a call that left `inner` behind: the global
/// frame as the call left it, under the caller's own frames, untouched.
pub open spec fn return_env(env: Env, inner: Env) -> Env {
    inner.drop_last() + env.subrange(1, env.len() as int)
}

/// Evaluates an expression with `depth` nested evaluations to spare.
pub open spec fn eval_expr(expr: ExprView, env: Env, depth: nat) -> (
    Result<PrimitiveView, RuntimeError>,
    Env,
)
    decreases depth, 0int, 0int,
{
    if depth == 0 {
        (Err(RuntimeError::ResourceExhausted), env)
    } else {
        let inner = (depth - 1) as nat;
        match expr {
            ExprView::Literal(literal) => eval_literal(literal, env, inner),
            ExprView::Unary { operand, operator } => eval_unary(*operand, operator, env, inner),
            ExprView::Binary { lhs, operator, rhs } => eval_binary(
                *lhs,
                operator,
                *rhs,
                env,
                inner,
            ),
        }
    }
}

/// Evaluates the expressions from the `i`-th on, left to right, and appends
/// their values to `done`. Stops at the first error.
pub open spec fn eval_exprs(
    exprs: Seq<ExprView>,
    i: nat,
    done: Seq<PrimitiveView>,
    env: Env,
    depth: nat,
) -> (Result<Seq<PrimitiveView>, RuntimeError>, Env)
    decreases depth, 1int, exprs.len() - i,
{
    if i >= exprs.len() {
        (Ok(done), env)
    } else {
        let (value, env1) = eval_expr(exprs[i as int], env, depth);
        match value {
            Ok(v) => eval_exprs(exprs, i + 1, done.push(v), env1, depth),
            Err(e) => (Err(e), env1),
        }
    }
}

/// Runs one turn of a loop: a fresh frame that binds `name` to `item`, the
/// body evaluated in it for its effects, the frame dropped again.
pub open spec fn eval_turn(
    name: Seq<char>,
    item: PrimitiveView,
    body: ExprView,
    env: Env,
    depth: nat,
) -> (
    Result<(), RuntimeError>,
    Env,
)
    decreases depth, 1int, 0int,
{
    let (value, env1) = eval_expr(body, define(env.push(empty_frame()), name, item), depth);
    match value {
        Ok(_) => (Ok(()), env1.drop_last()),
        Err(e) => (Err(e), env1.drop_last()),
    }
}

/// Runs a loop over the items of an array from the `i`-th on.
pub open spec fn eval_for_array(
    name: Seq<char>,
    items: Seq<PrimitiveView>,
    i: nat,
    body: ExprView,
    env: Env,
    depth: nat,
) -> (Result<(), RuntimeError>, Env)
    decreases depth, 2int, items.len() - i,
{
    if i >= items.len() {
        (Ok(()), env)
    } else {
        let (done, env1) = eval_turn(name, items[i as int], body, env, depth);
        match done {
            Ok(_) => eval_for_array(name, items, i + 1, body, env1, depth),
            Err(e) => (Err(e), env1),
        }
    }
}

/// Runs a loop over the numbers from `i` up to, and without, `end`.
pub open spec fn eval_for_range(
    name: Seq<char>,
    i: int,
    end: int,
    body: ExprView,
    env: Env,
    depth: nat,
) -> (Result<(), RuntimeError>, Env)
    decreases depth, 2int, end - i,
{
    if i >= end {
        (Ok(()), env)
    } else {
        let (done, env1) = eval_turn(name, PrimitiveView::Number(i as i32), body, env, depth);
        match done {
            Ok(_) => eval_for_range(name, i + 1, end, body, env1, depth),
            Err(e) => (Err(e), env1),
        }
    }
}

/// Runs a loop over an evaluated source. A range without an end is run
/// through to the largest number; a loop that gets that far has used up
/// what there is.
pub open spec fn eval_for(
    name: Seq<char>,
    source: PrimitiveView,
    body: ExprView,
    env: Env,
    depth: nat,
) -> (
    Result<(), RuntimeError>,
    Env,
)
    decreases depth, 3int, 0int,
{
    match source {
        PrimitiveView::Array(items) => eval_for_array(name, items, 0, body, env, depth),
        PrimitiveView::Range { begin, fin: Some(end) } => eval_for_range(
            name,
            begin as int,
            end as int,
            body,
            env,
            depth,
        ),
        PrimitiveView::Range { begin, fin: None } => {
            let (done, env1) = eval_for_range(name, begin as int, i32::MAX + 1, body, env, depth);
            match done {
                Ok(_) => (Err(RuntimeError::ResourceExhausted), env1),
                Err(e) => (Err(e), env1),
            }
        },
        _ => (Err(RuntimeError::TypeError), env),
    }
}

/// Runs a statement.
pub open spec fn eval_statement(statement: StatementView, env: Env, depth: nat) -> (
    Result<(), RuntimeError>,
    Env,
)
    decreases depth, 4int, 0int,
{
    match statement {
        StatementView::Expr(expr) => {
            let (value, env1) = eval_expr(expr, env, depth);
            match value {
                Ok(_) => (Ok(()), env1),
                Err(e) => (Err(e), env1),
            }
        },
        StatementView::Let { ident, value } => {
            let (value, env1) = eval_expr(value, env, depth);
            match value {
                Ok(v) => (Ok(()), define(env1, ident, v)),
                Err(e) => (Err(e), env1),
            }
        },
        StatementView::FuncDef { ident, args, expr } => (
            Ok(()),
            define(env, ident, PrimitiveView::Function { args_name: args, code: expr }),
        ),
        StatementView::For { ident, iter, expr } => {
            let (source, env1) = eval_expr(iter, env, depth);
            match source {
                Ok(s) => eval_for(ident, s, expr, env1, depth),
                Err(e) => (Err(e), env1),
            }
        },
    }
}

/// Runs the statements from the `i`-th on, in order. Stops at the first error.
pub open spec fn eval_statements(statements: Seq<StatementView>, i: nat, env: Env, depth: nat) -> (
    Result<(), RuntimeError>,
    Env,
)
    decreases depth, 5int, statements.len() - i,
{
    if i >= statements.len() {
        (Ok(()), env)
    } else {
        let (done, env1) = eval_statement(statements[i as int], env, depth);
        match done {
            Ok(_) => eval_statements(statements, i + 1, env1, depth),
            Err(e) => (Err(e), env1),
        }
    }
}

/// Calls a function on evaluated arguments from the environment `env`.
pub open spec fn eval_call(
    args_name: Seq<Seq<char>>,
    code: ExprView,
    args: Seq<PrimitiveView>,
    env: Env,
    depth: nat,
) -> (Result<PrimitiveView, RuntimeError>, Env)
    decreases depth, 6int, 0int,
{
    if args_name.len() != args.len() {
        (Err(RuntimeError::ArityError), env)
    } else {
        let (value, inner) = eval_expr(code, call_env(env, args_name, args), depth);
        (value, return_env(env, inner))
    }
}

/// Evaluates a primary expression.
pub open spec fn eval_literal(literal: LiteralView, env: Env, depth: nat) -> (
    Result<PrimitiveView, RuntimeError>,
    Env,
)
    decreases depth, 7int, 0int,
{
    match literal {
        LiteralView::Number(n) => (Ok(PrimitiveView::Number(n)), env),
        LiteralView::Bool(b) => (Ok(PrimitiveView::Bool(b)), env),
        LiteralView::String(s) => (Ok(PrimitiveView::String(s)), env),
        LiteralView::Nothing => (Ok(PrimitiveView::Nothing), env),
        LiteralView::Array(items) => {
            let (values, env1) = eval_exprs(items, 0, Seq::empty(), env, depth);
            match values {
                Ok(vs) => (Ok(PrimitiveView::Array(vs)), env1),
                Err(e) => (Err(e), env1),
            }
        },
        LiteralView::Ident(name) => match lookup(env, name) {
            Some(v) => (Ok(v), env),
            None => (Err(RuntimeError::UndefinedVariable), env),
        },
        LiteralView::If { condition, expr, or } => {
            let (test, env1) = eval_expr(*condition, env, depth);
            match test {
                Ok(PrimitiveView::Bool(true)) => eval_expr(*expr, env1, depth),
                Ok(PrimitiveView::Bool(false)) => match or {
                    Some(other) => eval_expr(*other, env1, depth),
                    None => (Ok(PrimitiveView::Nothing), env1),
                },
                Ok(_) => (Err(RuntimeError::TypeError), env1),
                Err(e) => (Err(e), env1),
            }
        },
        LiteralView::Block { statements, return_value } => {
            let (done, env1) = eval_statements(statements, 0, env.push(empty_frame()), depth);
            match done {
                Ok(_) => {
                    let (value, env2) = eval_expr(*return_value, env1, depth);
                    (value, env2.drop_last())
                },
                Err(e) => (Err(e), env1.drop_last()),
            }
        },
    }
}

/// Evaluates a prefix or postfix operator on its operand. The operand comes
/// first, then the arguments of a call; the index of `[]` is evaluated only
/// where the operand is an array.
pub open spec fn eval_unary(
    operand: ExprView,
    operator: UnaryOperatorView,
    env: Env,
    depth: nat,
) -> (
    Result<PrimitiveView, RuntimeError>,
    Env,
)
    decreases depth, 7int, 0int,
{
    let (target, env1) = eval_expr(operand, env, depth);
    match target {
        Err(e) => (Err(e), env1),
        Ok(target) => match operator {
            UnaryOperatorView::Minus => (apply_minus(target), env1),
            UnaryOperatorView::Call(args) => {
                let (values, env2) = eval_exprs(args, 0, Seq::empty(), env1, depth);
                match values {
                    Err(e) => (Err(e), env2),
                    Ok(values) => match target {
                        PrimitiveView::Function { args_name, code } => eval_call(
                            args_name,
                            code,
                            values,
                            env2,
                            depth,
                        ),
                        _ => (Err(RuntimeError::TypeError), env2),
                    },
                }
            },
            UnaryOperatorView::Index(index) => match target {
                PrimitiveView::Array(items) => {
                    let (at, env2) = eval_expr(*index, env1, depth);
                    match at {
                        Ok(at) => (apply_index(items, at), env2),
                        Err(e) => (Err(e), env2),
                    }
                },
                _ => (Err(RuntimeError::TypeError), env1),
            },
        },
    }
}

/// Evaluates a binary operator: the left operand, then the right one, then
/// the operator on both. An assignment evaluates its left operand too.
pub open spec fn eval_binary(
    lhs: ExprView,
    operator: BinaryOperator,
    rhs: ExprView,
    env: Env,
    depth: nat,
) -> (Result<PrimitiveView, RuntimeError>, Env)
    decreases depth, 7int, 0int,
{
    let (left, env1) = eval_expr(lhs, env, depth);
    match left {
        Err(e) => (Err(e), env1),
        Ok(left) => {
            let (right, env2) = eval_expr(rhs, env1, depth);
            match right {
                Err(e) => (Err(e), env2),
                Ok(right) => if operator == BinaryOperator::Assign {
                    apply_assign(lhs, right, env2)
                } else {
                    (apply_binary(operator, left, right), env2)
                },
            }
        },
    }
}

/// The text `main`.
pub open spec fn main_name() -> Seq<char> {
    seq!['m', 'a', 'i', 'n']
}

/// The call `main()`.
pub open spec fn main_call() -> ExprView {
    ExprView::Unary {
        operand: Box::new(ExprView::Literal(LiteralView::Ident(main_name()))),
        operator: UnaryOperatorView::Call(Seq::empty()),
    }
}

/// Runs a program: its statements in a fresh environment of one frame, then
/// the call `main()`, whose value is the program's.
pub open spec fn eval_program(
    program: ProgramView,
    depth: nat,
) -> Result<PrimitiveView, RuntimeError> {
    let (done, env) = eval_statements(program.statements, 0, seq![empty_frame()], depth);
    match done {
        Ok(_) => eval_expr(main_call(), env, depth).0,
        Err(e) => Err(e),
    }
}

} // verus!
