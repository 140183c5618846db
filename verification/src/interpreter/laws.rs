//! What holds of every evaluation.
//!
//! The laws are stated over the functions of [`crate::interpreter::semantics`],
//! to which the evaluator is proved equal.

use vstd::prelude::*;
use crate::ast::{BinaryOperator, ExprView, LiteralView, StatementView, UnaryOperatorView};
use crate::interpreter::PrimitiveView;
use crate::interpreter::scope::{
    FrameView, assign, assign_result, binding_frame, define, empty_frame, lemma_binding_frame,
    lookup,
};
use crate::ast::ProgramView;
use crate::interpreter::semantics::{
    Env, RuntimeError, apply_binary, apply_index, call_env, eval_binary, eval_call, eval_expr,
    eval_exprs, eval_for, eval_for_array, eval_for_range, eval_literal, eval_program,
    eval_statement, eval_statements, eval_turn, eval_unary, main_call, return_env,
};

verus! {

/// Two frames bind the same names, each to a value of the same kind.
pub open spec fn frame_keeps(before: FrameView, after: FrameView) -> bool {
    &&& before.dom() =~= after.dom()
    &&& forall|name: Seq<char>| #[trigger]
        before.dom().contains(name) ==> after[name].kind() == before[name].kind()
}

/// Two environments have as many frames, and each frame of the one binds the
/// same names as its counterpart, each to a value of the same kind.
pub open spec fn same_shape(before: Env, after: Env) -> bool {
    &&& before.len() == after.len()
    &&& forall|i: int| 0 <= i < before.len() ==> frame_keeps(#[trigger] before[i], after[i])
}

/// Two environments have as many frames; all but the innermost are of the
/// same shape, and the innermost has lost no name.
pub open spec fn grows(before: Env, after: Env) -> bool {
    &&& before.len() == after.len()
    &&& before.len() > 0
    &&& same_shape(before.drop_last(), after.drop_last())
    &&& before.last().dom().subset_of(after.last().dom())
}

/// Being of the same shape carries over from one pair to the next.
pub proof fn lemma_same_shape_transitive(a: Env, b: Env, c: Env)
    requires
        same_shape(a, b),
        same_shape(b, c),
    ensures
        same_shape(a, c),
{
    assert forall|i: int| 0 <= i < a.len() implies frame_keeps(#[trigger] a[i], c[i]) by {
        assert(frame_keeps(a[i], b[i]));
        assert(frame_keeps(b[i], c[i]));
        assert forall|name: Seq<char>| #[trigger]
            a[i].dom().contains(name) implies c[i][name].kind() == a[i][name].kind() by {
            assert(b[i].dom().contains(name));
        }
    }
}

/// Environments of the same shape are still so without their innermost frames.
proof fn lemma_same_shape_drop_last(a: Env, b: Env)
    requires
        same_shape(a, b),
        a.len() > 0,
    ensures
        same_shape(a.drop_last(), b.drop_last()),
        grows(a, b),
{
    assert forall|i: int| 0 <= i < a.drop_last().len() implies frame_keeps(
        #[trigger] a.drop_last()[i],
        b.drop_last()[i],
    ) by {
        assert(frame_keeps(a[i], b[i]));
    }
    assert(frame_keeps(a[a.len() - 1], b[a.len() - 1]));
}

/// Growing carries over from one pair to the next.
proof fn lemma_grows_transitive(a: Env, b: Env, c: Env)
    requires
        grows(a, b),
        grows(b, c),
    ensures
        grows(a, c),
{
    lemma_same_shape_transitive(a.drop_last(), b.drop_last(), c.drop_last());
}

/// A binding in the innermost frame makes the environment grow.
proof fn lemma_define_grows(env: Env, name: Seq<char>, value: PrimitiveView)
    requires
        env.len() > 0,
    ensures
        grows(env, define(env, name, value)),
        define(env, name, value).drop_last() == env.drop_last(),
{
    assert(define(env, name, value).drop_last() =~= env.drop_last());
    assert forall|i: int| 0 <= i < env.drop_last().len() implies frame_keeps(
        #[trigger] env.drop_last()[i],
        env.drop_last()[i],
    ) by {}
}

/// An assignment, accepted or refused, leaves the environment's shape as it was.
pub proof fn lemma_assign_keeps_shape(env: Env, name: Seq<char>, value: PrimitiveView)
    ensures
        same_shape(env, assign(env, name, value)),
{
    lemma_binding_frame(env, name);
    let after = assign(env, name, value);
    assert forall|i: int| 0 <= i < env.len() implies frame_keeps(#[trigger] env[i], after[i]) by {
        assert forall|other: Seq<char>| #[trigger]
            env[i].dom().contains(other) implies after[i][other].kind() == env[i][other].kind()
        by {}
    }
}

/// In environments of the same shape a name is found in the same frame.
pub proof fn lemma_same_shape_binding_frame(before: Env, after: Env, name: Seq<char>)
    requires
        same_shape(before, after),
    ensures
        binding_frame(before, name) == binding_frame(after, name),
    decreases before.len(),
{
    if before.len() > 0 {
        assert(frame_keeps(before[before.len() - 1], after[before.len() - 1]));
        lemma_same_shape_drop_last(before, after);
        if !before.last().contains_key(name) {
            lemma_same_shape_binding_frame(before.drop_last(), after.drop_last(), name);
        }
    }
}

/// In environments of the same shape the same names resolve, each to a value
/// of the same kind in both.
pub proof fn lemma_same_shape_lookup(before: Env, after: Env, name: Seq<char>)
    requires
        same_shape(before, after),
    ensures
        lookup(before, name) is Some <==> lookup(after, name) is Some,
        lookup(before, name) is Some ==> lookup(after, name)->Some_0.kind() == lookup(
            before,
            name,
        )->Some_0.kind(),
{
    lemma_same_shape_binding_frame(before, after, name);
    lemma_binding_frame(before, name);
    if let Some(i) = binding_frame(before, name) {
        assert(frame_keeps(before[i], after[i]));
        assert(before[i].dom().contains(name));
    }
}

/// A name that was just bound resolves to the value it was bound to, and
/// every other name resolves as before.
pub proof fn lemma_define_then_lookup(
    env: Env,
    name: Seq<char>,
    value: PrimitiveView,
    other: Seq<char>,
)
    requires
        env.len() > 0,
    ensures
        lookup(define(env, name, value), name) == Some(value),
        other != name ==> lookup(define(env, name, value), other) == lookup(env, other),
{
    let after = define(env, name, value);
    assert(after.drop_last() =~= env.drop_last());
    lemma_binding_frame(env, other);
    lemma_binding_frame(env.drop_last(), other);
    if other != name {
        assert(after.last().contains_key(other) == env.last().contains_key(other));
        assert(binding_frame(after, other) == binding_frame(env, other));
    }
}

/// After an assignment that was accepted the name resolves to the new value;
/// one that was refused changes nothing. Either way every other name resolves
/// as before.
pub proof fn lemma_assign_then_lookup(
    env: Env,
    name: Seq<char>,
    value: PrimitiveView,
    other: Seq<char>,
)
    ensures
        assign_result(env, name, value) is Ok ==> lookup(assign(env, name, value), name) == Some(
            value,
        ),
        assign_result(env, name, value) is Err ==> assign(env, name, value) == env,
        other != name ==> lookup(assign(env, name, value), other) == lookup(env, other),
{
    let after = assign(env, name, value);
    lemma_assign_keeps_shape(env, name, value);
    lemma_same_shape_binding_frame(env, after, name);
    lemma_same_shape_binding_frame(env, after, other);
    lemma_binding_frame(env, name);
    lemma_binding_frame(env, other);
}

/// A fresh frame hides nothing, and dropping it again gives the environment
/// that was there before.
pub proof fn lemma_enter_then_leave(env: Env, name: Seq<char>)
    ensures
        lookup(env.push(empty_frame()), name) == lookup(env, name),
        env.push(empty_frame()).drop_last() == env,
{
    let entered = env.push(empty_frame());
    assert(entered.drop_last() =~= env);
    assert(!entered.last().contains_key(name));
    lemma_binding_frame(env, name);
    assert(binding_frame(entered, name) == binding_frame(env, name));
}

/// Every environment is of its own shape.
proof fn lemma_refl(env: Env)
    ensures
        same_shape(env, env),
{
    assert forall|i: int| 0 <= i < env.len() implies frame_keeps(#[trigger] env[i], env[i]) by {}
}

/// An expression leaves the shape as it was.
proof fn lemma_expr(expr: ExprView, env: Env, depth: nat)
    requires
        env.len() > 0,
    ensures
        same_shape(env, eval_expr(expr, env, depth).1),
    decreases depth, 0int, 0int,
{
    lemma_refl(env);
    if depth > 0 {
        let inner = (depth - 1) as nat;
        match expr {
            ExprView::Literal(literal) => lemma_literal(literal, env, inner),
            ExprView::Unary { operand, operator } => lemma_unary(*operand, operator, env, inner),
            ExprView::Binary { lhs, operator, rhs } => lemma_binary(
                *lhs,
                operator,
                *rhs,
                env,
                inner,
            ),
        }
    }
}

/// A list of expressions leaves the shape as it was.
proof fn lemma_exprs(exprs: Seq<ExprView>, i: nat, done: Seq<PrimitiveView>, env: Env, depth: nat)
    requires
        env.len() > 0,
    ensures
        same_shape(env, eval_exprs(exprs, i, done, env, depth).1),
    decreases depth, 1int, exprs.len() - i,
{
    lemma_refl(env);
    if i < exprs.len() {
        lemma_expr(exprs[i as int], env, depth);
        let (value, env1) = eval_expr(exprs[i as int], env, depth);
        if let Ok(v) = value {
            lemma_exprs(exprs, i + 1, done.push(v), env1, depth);
            lemma_same_shape_transitive(
                env,
                env1,
                eval_exprs(exprs, i + 1, done.push(v), env1, depth).1,
            );
        }
    }
}

/// One turn of a loop leaves the shape as it was: its frame comes and goes.
proof fn lemma_turn(name: Seq<char>, item: PrimitiveView, body: ExprView, env: Env, depth: nat)
    requires
        env.len() > 0,
    ensures
        same_shape(env, eval_turn(name, item, body, env, depth).1),
    decreases depth, 1int, 0int,
{
    let entered = define(env.push(empty_frame()), name, item);
    lemma_expr(body, entered, depth);
    let env1 = eval_expr(body, entered, depth).1;
    lemma_same_shape_drop_last(entered, env1);
    assert(entered.drop_last() =~= env);
}

/// A loop over an array leaves the shape as it was.
proof fn lemma_for_array(
    name: Seq<char>,
    items: Seq<PrimitiveView>,
    i: nat,
    body: ExprView,
    env: Env,
    depth: nat,
)
    requires
        env.len() > 0,
    ensures
        same_shape(env, eval_for_array(name, items, i, body, env, depth).1),
    decreases depth, 2int, items.len() - i,
{
    lemma_refl(env);
    if i < items.len() {
        lemma_turn(name, items[i as int], body, env, depth);
        let (done, env1) = eval_turn(name, items[i as int], body, env, depth);
        if done is Ok {
            lemma_for_array(name, items, i + 1, body, env1, depth);
            lemma_same_shape_transitive(
                env,
                env1,
                eval_for_array(name, items, i + 1, body, env1, depth).1,
            );
        }
    }
}

/// A loop over a range leaves the shape as it was.
proof fn lemma_for_range(name: Seq<char>, i: int, end: int, body: ExprView, env: Env, depth: nat)
    requires
        env.len() > 0,
    ensures
        same_shape(env, eval_for_range(name, i, end, body, env, depth).1),
    decreases depth, 2int, end - i,
{
    lemma_refl(env);
    if i < end {
        lemma_turn(name, PrimitiveView::Number(i as i32), body, env, depth);
        let (done, env1) = eval_turn(name, PrimitiveView::Number(i as i32), body, env, depth);
        if done is Ok {
            lemma_for_range(name, i + 1, end, body, env1, depth);
            lemma_same_shape_transitive(
                env,
                env1,
                eval_for_range(name, i + 1, end, body, env1, depth).1,
            );
        }
    }
}

/// A loop leaves the shape as it was.
proof fn lemma_for(name: Seq<char>, source: PrimitiveView, body: ExprView, env: Env, depth: nat)
    requires
        env.len() > 0,
    ensures
        same_shape(env, eval_for(name, source, body, env, depth).1),
    decreases depth, 3int, 0int,
{
    lemma_refl(env);
    match source {
        PrimitiveView::Array(items) => lemma_for_array(name, items, 0, body, env, depth),
        PrimitiveView::Range { begin, fin: Some(end) } => lemma_for_range(
            name,
            begin as int,
            end as int,
            body,
            env,
            depth,
        ),
        PrimitiveView::Range { begin, fin: None } => lemma_for_range(
            name,
            begin as int,
            i32::MAX + 1,
            body,
            env,
            depth,
        ),
        _ => {},
    }
}

/// A statement makes the environment grow.
proof fn lemma_statement(statement: StatementView, env: Env, depth: nat)
    requires
        env.len() > 0,
    ensures
        grows(env, eval_statement(statement, env, depth).1),
    decreases depth, 4int, 0int,
{
    match statement {
        StatementView::Expr(expr) => {
            lemma_expr(expr, env, depth);
            lemma_same_shape_drop_last(env, eval_expr(expr, env, depth).1);
        },
        StatementView::Let { ident, value } => {
            lemma_expr(value, env, depth);
            let (value, env1) = eval_expr(value, env, depth);
            lemma_same_shape_drop_last(env, env1);
            if let Ok(v) = value {
                lemma_define_grows(env1, ident, v);
                lemma_grows_transitive(env, env1, define(env1, ident, v));
            }
        },
        StatementView::FuncDef { ident, args, expr } => {
            lemma_define_grows(
                env,
                ident,
                PrimitiveView::Function { args_name: args, code: expr },
            );
        },
        StatementView::For { ident, iter, expr } => {
            lemma_expr(iter, env, depth);
            let (source, env1) = eval_expr(iter, env, depth);
            lemma_same_shape_drop_last(env, env1);
            if let Ok(s) = source {
                lemma_for(ident, s, expr, env1, depth);
                let env2 = eval_for(ident, s, expr, env1, depth).1;
                lemma_same_shape_transitive(env, env1, env2);
                lemma_same_shape_drop_last(env, env2);
            }
        },
    }
}

/// Statements in a row make the environment grow.
proof fn lemma_statements(statements: Seq<StatementView>, i: nat, env: Env, depth: nat)
    requires
        env.len() > 0,
    ensures
        grows(env, eval_statements(statements, i, env, depth).1),
    decreases depth, 5int, statements.len() - i,
{
    lemma_refl(env);
    lemma_same_shape_drop_last(env, env);
    if i < statements.len() {
        lemma_statement(statements[i as int], env, depth);
        let (done, env1) = eval_statement(statements[i as int], env, depth);
        if done is Ok {
            lemma_statements(statements, i + 1, env1, depth);
            lemma_grows_transitive(env, env1, eval_statements(statements, i + 1, env1, depth).1);
        }
    }
}

/// A call leaves the shape of the caller's environment as it was, and the
/// body leaves the two frames that it was given.
proof fn lemma_call(
    args_name: Seq<Seq<char>>,
    code: ExprView,
    args: Seq<PrimitiveView>,
    env: Env,
    depth: nat,
)
    requires
        env.len() > 0,
    ensures
        same_shape(env, eval_call(args_name, code, args, env, depth).1),
        args_name.len() == args.len() ==> eval_expr(
            code,
            call_env(env, args_name, args),
            depth,
        ).1.len() == 2,
    decreases depth, 6int, 0int,
{
    lemma_refl(env);
    if args_name.len() == args.len() {
        let entered = call_env(env, args_name, args);
        lemma_expr(code, entered, depth);
        let inner = eval_expr(code, entered, depth).1;
        let after = return_env(env, inner);
        assert(frame_keeps(entered[0], inner[0]));
        assert forall|i: int| 0 <= i < env.len() implies frame_keeps(
            #[trigger] env[i],
            after[i],
        ) by {
            if i > 0 {
                assert(after[i] == env[i]);
            }
        }
    }
}

/// A primary expression leaves the shape as it was: what a block binds goes
/// with the block's frame.
proof fn lemma_literal(literal: LiteralView, env: Env, depth: nat)
    requires
        env.len() > 0,
    ensures
        same_shape(env, eval_literal(literal, env, depth).1),
    decreases depth, 7int, 0int,
{
    lemma_refl(env);
    match literal {
        LiteralView::Array(items) => lemma_exprs(items, 0, Seq::empty(), env, depth),
        LiteralView::If { condition, expr, or } => {
            lemma_expr(*condition, env, depth);
            let (test, env1) = eval_expr(*condition, env, depth);
            match test {
                Ok(PrimitiveView::Bool(true)) => {
                    lemma_expr(*expr, env1, depth);
                    lemma_same_shape_transitive(env, env1, eval_expr(*expr, env1, depth).1);
                },
                Ok(PrimitiveView::Bool(false)) => if let Some(other) = or {
                    lemma_expr(*other, env1, depth);
                    lemma_same_shape_transitive(env, env1, eval_expr(*other, env1, depth).1);
                },
                _ => {},
            }
        },
        LiteralView::Block { statements, return_value } => {
            let entered = env.push(empty_frame());
            assert(entered.drop_last() =~= env);
            lemma_statements(statements, 0, entered, depth);
            let (done, env1) = eval_statements(statements, 0, entered, depth);
            if done is Ok {
                lemma_expr(*return_value, env1, depth);
                let env2 = eval_expr(*return_value, env1, depth).1;
                lemma_same_shape_drop_last(env1, env2);
                lemma_same_shape_transitive(env, env1.drop_last(), env2.drop_last());
            }
        },
        _ => {},
    }
}

/// A prefix or postfix operator leaves the shape as it was.
proof fn lemma_unary(operand: ExprView, operator: UnaryOperatorView, env: Env, depth: nat)
    requires
        env.len() > 0,
    ensures
        same_shape(env, eval_unary(operand, operator, env, depth).1),
    decreases depth, 7int, 0int,
{
    lemma_expr(operand, env, depth);
    let (target, env1) = eval_expr(operand, env, depth);
    if let Ok(target) = target {
        match operator {
            UnaryOperatorView::Minus => {},
            UnaryOperatorView::Call(args) => {
                lemma_exprs(args, 0, Seq::empty(), env1, depth);
                let (values, env2) = eval_exprs(args, 0, Seq::empty(), env1, depth);
                lemma_same_shape_transitive(env, env1, env2);
                if let Ok(values) = values {
                    if let PrimitiveView::Function { args_name, code } = target {
                        lemma_call(args_name, code, values, env2, depth);
                        lemma_same_shape_transitive(
                            env,
                            env2,
                            eval_call(args_name, code, values, env2, depth).1,
                        );
                    }
                }
            },
            UnaryOperatorView::Index(index) => {
                if target is Array {
                    lemma_expr(*index, env1, depth);
                    lemma_same_shape_transitive(env, env1, eval_expr(*index, env1, depth).1);
                }
            },
        }
    }
}

/// A binary operator leaves the shape as it was: an assignment gives a
/// variable a value of the kind it had.
proof fn lemma_binary(lhs: ExprView, operator: BinaryOperator, rhs: ExprView, env: Env, depth: nat)
    requires
        env.len() > 0,
    ensures
        same_shape(env, eval_binary(lhs, operator, rhs, env, depth).1),
    decreases depth, 7int, 0int,
{
    lemma_expr(lhs, env, depth);
    let (left, env1) = eval_expr(lhs, env, depth);
    if left is Ok {
        lemma_expr(rhs, env1, depth);
        let (right, env2) = eval_expr(rhs, env1, depth);
        lemma_same_shape_transitive(env, env1, env2);
        if let Ok(right) = right {
            if operator == BinaryOperator::Assign {
                if let ExprView::Literal(LiteralView::Ident(name)) = lhs {
                    lemma_assign_keeps_shape(env2, name, right);
                    lemma_same_shape_transitive(env, env2, assign(env2, name, right));
                }
            }
        }
    }
}

/// Evaluating an expression leaves the environment in the shape it had: as
/// many frames, each with the names it had, and each name with a value of
/// the kind it had. So a name that a block binds is gone when the block is
/// left, a name that resolved before resolves after, and no variable ever
/// changes its kind.
pub proof fn lemma_eval_expr_keeps_shape(expr: ExprView, env: Env, depth: nat)
    requires
        env.len() > 0,
    ensures
        same_shape(env, eval_expr(expr, env, depth).1),
{
    lemma_expr(expr, env, depth);
}

/// No expression binds a name for what comes after it, and none unbinds one:
/// a name resolves after the evaluation of an expression just when it
/// resolved before, and then to a value of the kind that it had. So what a
/// block binds with `let` is out of sight when the block is left, and a name
/// that was hidden by it is in sight again.
pub proof fn lemma_names_in_sight_stay(expr: ExprView, env: Env, depth: nat, name: Seq<char>)
    requires
        env.len() > 0,
    ensures
        lookup(eval_expr(expr, env, depth).1, name) is Some <==> lookup(env, name) is Some,
        lookup(env, name) is Some ==> lookup(eval_expr(expr, env, depth).1, name)->Some_0.kind()
            == lookup(env, name)->Some_0.kind(),
{
    lemma_expr(expr, env, depth);
    lemma_same_shape_lookup(env, eval_expr(expr, env, depth).1, name);
}

/// Running a statement leaves every frame but the innermost in the shape it
/// had, and takes no name from the innermost.
pub proof fn lemma_eval_statement_grows(statement: StatementView, env: Env, depth: nat)
    requires
        env.len() > 0,
    ensures
        grows(env, eval_statement(statement, env, depth).1),
{
    lemma_statement(statement, env, depth);
}

/// A call sees the global frame and its arguments, and nothing else of the
/// caller: from two environments with the same global frame, the same call
/// gives the same result and leaves the same global frame. The caller's other
/// frames are after the call what they were before it.
pub proof fn lemma_call_sees_globals_only(
    args_name: Seq<Seq<char>>,
    code: ExprView,
    args: Seq<PrimitiveView>,
    first: Env,
    second: Env,
    depth: nat,
)
    requires
        first.len() > 0,
        second.len() > 0,
        first[0] == second[0],
    ensures
        eval_call(args_name, code, args, first, depth).0 == eval_call(
            args_name,
            code,
            args,
            second,
            depth,
        ).0,
        eval_call(args_name, code, args, first, depth).1[0] == eval_call(
            args_name,
            code,
            args,
            second,
            depth,
        ).1[0],
        eval_call(args_name, code, args, first, depth).1.subrange(1, first.len() as int)
            == first.subrange(1, first.len() as int),
{
    lemma_call(args_name, code, args, first, depth);
    lemma_call(args_name, code, args, second, depth);
    assert(first.subrange(0, 1) =~= second.subrange(0, 1));
    let after = eval_call(args_name, code, args, first, depth).1;
    assert(after.subrange(1, first.len() as int) =~= first.subrange(1, first.len() as int));
}

/// Division and remainder by zero fail, whatever the dividend.
pub proof fn lemma_division_by_zero_fails(dividend: i32)
    ensures
        apply_binary(
            BinaryOperator::Divide,
            PrimitiveView::Number(dividend),
            PrimitiveView::Number(0),
        ) == Err::<PrimitiveView, RuntimeError>(RuntimeError::DivideByZero),
        apply_binary(
            BinaryOperator::Modulo,
            PrimitiveView::Number(dividend),
            PrimitiveView::Number(0),
        ) == Err::<PrimitiveView, RuntimeError>(RuntimeError::DivideByZero),
{
}

/// Whether a run stopped because its budget ran out.
pub open spec fn exhausted<T>(res: Result<T, RuntimeError>) -> bool {
    res == Err::<T, RuntimeError>(RuntimeError::ResourceExhausted)
}

/// An expression that a budget sufficed for comes to the same with a larger one.
proof fn lemma_more_expr(expr: ExprView, env: Env, small: nat, large: nat)
    requires
        small <= large,
        !exhausted(eval_expr(expr, env, small).0),
    ensures
        eval_expr(expr, env, large) == eval_expr(expr, env, small),
    decreases small, 0int, 0int,
{
    if small > 0 {
        let s = (small - 1) as nat;
        let l = (large - 1) as nat;
        match expr {
            ExprView::Literal(literal) => lemma_more_literal(literal, env, s, l),
            ExprView::Unary { operand, operator } => lemma_more_unary(
                *operand,
                operator,
                env,
                s,
                l,
            ),
            ExprView::Binary { lhs, operator, rhs } => lemma_more_binary(
                *lhs,
                operator,
                *rhs,
                env,
                s,
                l,
            ),
        }
    }
}

/// The same of a list of expressions.
proof fn lemma_more_exprs(
    exprs: Seq<ExprView>,
    i: nat,
    done: Seq<PrimitiveView>,
    env: Env,
    small: nat,
    large: nat,
)
    requires
        small <= large,
        !exhausted(eval_exprs(exprs, i, done, env, small).0),
    ensures
        eval_exprs(exprs, i, done, env, large) == eval_exprs(exprs, i, done, env, small),
    decreases small, 1int, exprs.len() - i,
{
    if i < exprs.len() {
        lemma_more_expr(exprs[i as int], env, small, large);
        let (value, env1) = eval_expr(exprs[i as int], env, small);
        if let Ok(v) = value {
            lemma_more_exprs(exprs, i + 1, done.push(v), env1, small, large);
        }
    }
}

/// The same of one turn of a loop.
proof fn lemma_more_turn(
    name: Seq<char>,
    item: PrimitiveView,
    body: ExprView,
    env: Env,
    small: nat,
    large: nat,
)
    requires
        small <= large,
        !exhausted(eval_turn(name, item, body, env, small).0),
    ensures
        eval_turn(name, item, body, env, large) == eval_turn(name, item, body, env, small),
    decreases small, 1int, 0int,
{
    lemma_more_expr(body, define(env.push(empty_frame()), name, item), small, large);
}

/// The same of a loop over an array.
proof fn lemma_more_for_array(
    name: Seq<char>,
    items: Seq<PrimitiveView>,
    i: nat,
    body: ExprView,
    env: Env,
    small: nat,
    large: nat,
)
    requires
        small <= large,
        !exhausted(eval_for_array(name, items, i, body, env, small).0),
    ensures
        eval_for_array(name, items, i, body, env, large) == eval_for_array(
            name,
            items,
            i,
            body,
            env,
            small,
        ),
    decreases small, 2int, items.len() - i,
{
    if i < items.len() {
        lemma_more_turn(name, items[i as int], body, env, small, large);
        let (done, env1) = eval_turn(name, items[i as int], body, env, small);
        if done is Ok {
            lemma_more_for_array(name, items, i + 1, body, env1, small, large);
        }
    }
}

/// The same of a loop over a range.
proof fn lemma_more_for_range(
    name: Seq<char>,
    i: int,
    end: int,
    body: ExprView,
    env: Env,
    small: nat,
    large: nat,
)
    requires
        small <= large,
        !exhausted(eval_for_range(name, i, end, body, env, small).0),
    ensures
        eval_for_range(name, i, end, body, env, large) == eval_for_range(
            name,
            i,
            end,
            body,
            env,
            small,
        ),
    decreases small, 2int, end - i,
{
    if i < end {
        lemma_more_turn(name, PrimitiveView::Number(i as i32), body, env, small, large);
        let (done, env1) = eval_turn(name, PrimitiveView::Number(i as i32), body, env, small);
        if done is Ok {
            lemma_more_for_range(name, i + 1, end, body, env1, small, large);
        }
    }
}

/// The same of a loop.
proof fn lemma_more_for(
    name: Seq<char>,
    source: PrimitiveView,
    body: ExprView,
    env: Env,
    small: nat,
    large: nat,
)
    requires
        small <= large,
        !exhausted(eval_for(name, source, body, env, small).0),
    ensures
        eval_for(name, source, body, env, large) == eval_for(name, source, body, env, small),
    decreases small, 3int, 0int,
{
    match source {
        PrimitiveView::Array(items) => lemma_more_for_array(
            name,
            items,
            0,
            body,
            env,
            small,
            large,
        ),
        PrimitiveView::Range { begin, fin: Some(end) } => lemma_more_for_range(
            name,
            begin as int,
            end as int,
            body,
            env,
            small,
            large,
        ),
        PrimitiveView::Range { begin, fin: None } => lemma_more_for_range(
            name,
            begin as int,
            i32::MAX + 1,
            body,
            env,
            small,
            large,
        ),
        _ => {},
    }
}

/// The same of a statement.
proof fn lemma_more_statement(statement: StatementView, env: Env, small: nat, large: nat)
    requires
        small <= large,
        !exhausted(eval_statement(statement, env, small).0),
    ensures
        eval_statement(statement, env, large) == eval_statement(statement, env, small),
    decreases small, 4int, 0int,
{
    match statement {
        StatementView::Expr(expr) => lemma_more_expr(expr, env, small, large),
        StatementView::Let { ident, value } => lemma_more_expr(value, env, small, large),
        StatementView::FuncDef { .. } => {},
        StatementView::For { ident, iter, expr } => {
            lemma_more_expr(iter, env, small, large);
            let (source, env1) = eval_expr(iter, env, small);
            if let Ok(s) = source {
                lemma_more_for(ident, s, expr, env1, small, large);
            }
        },
    }
}

/// The same of statements in a row.
proof fn lemma_more_statements(
    statements: Seq<StatementView>,
    i: nat,
    env: Env,
    small: nat,
    large: nat,
)
    requires
        small <= large,
        !exhausted(eval_statements(statements, i, env, small).0),
    ensures
        eval_statements(statements, i, env, large) == eval_statements(statements, i, env, small),
    decreases small, 5int, statements.len() - i,
{
    if i < statements.len() {
        lemma_more_statement(statements[i as int], env, small, large);
        let (done, env1) = eval_statement(statements[i as int], env, small);
        if done is Ok {
            lemma_more_statements(statements, i + 1, env1, small, large);
        }
    }
}

/// The same of a call.
proof fn lemma_more_call(
    args_name: Seq<Seq<char>>,
    code: ExprView,
    args: Seq<PrimitiveView>,
    env: Env,
    small: nat,
    large: nat,
)
    requires
        small <= large,
        !exhausted(eval_call(args_name, code, args, env, small).0),
    ensures
        eval_call(args_name, code, args, env, large) == eval_call(
            args_name,
            code,
            args,
            env,
            small,
        ),
    decreases small, 6int, 0int,
{
    if args_name.len() == args.len() {
        lemma_more_expr(code, call_env(env, args_name, args), small, large);
    }
}

/// The same of a primary expression.
proof fn lemma_more_literal(literal: LiteralView, env: Env, small: nat, large: nat)
    requires
        small <= large,
        !exhausted(eval_literal(literal, env, small).0),
    ensures
        eval_literal(literal, env, large) == eval_literal(literal, env, small),
    decreases small, 7int, 0int,
{
    match literal {
        LiteralView::Array(items) => lemma_more_exprs(items, 0, Seq::empty(), env, small, large),
        LiteralView::If { condition, expr, or } => {
            lemma_more_expr(*condition, env, small, large);
            let (test, env1) = eval_expr(*condition, env, small);
            match test {
                Ok(PrimitiveView::Bool(true)) => lemma_more_expr(*expr, env1, small, large),
                Ok(PrimitiveView::Bool(false)) => if let Some(other) = or {
                    lemma_more_expr(*other, env1, small, large);
                },
                _ => {},
            }
        },
        LiteralView::Block { statements, return_value } => {
            let entered = env.push(empty_frame());
            lemma_more_statements(statements, 0, entered, small, large);
            let (done, env1) = eval_statements(statements, 0, entered, small);
            if done is Ok {
                lemma_more_expr(*return_value, env1, small, large);
            }
        },
        _ => {},
    }
}

/// The same of a prefix or postfix operator.
proof fn lemma_more_unary(
    operand: ExprView,
    operator: UnaryOperatorView,
    env: Env,
    small: nat,
    large: nat,
)
    requires
        small <= large,
        !exhausted(eval_unary(operand, operator, env, small).0),
    ensures
        eval_unary(operand, operator, env, large) == eval_unary(operand, operator, env, small),
    decreases small, 7int, 0int,
{
    lemma_more_expr(operand, env, small, large);
    let (target, env1) = eval_expr(operand, env, small);
    if let Ok(target) = target {
        match operator {
            UnaryOperatorView::Minus => {},
            UnaryOperatorView::Call(args) => {
                lemma_more_exprs(args, 0, Seq::empty(), env1, small, large);
                let (values, env2) = eval_exprs(args, 0, Seq::empty(), env1, small);
                if let Ok(values) = values {
                    if let PrimitiveView::Function { args_name, code } = target {
                        lemma_more_call(args_name, code, values, env2, small, large);
                    }
                }
            },
            UnaryOperatorView::Index(index) => {
                if target is Array {
                    lemma_more_expr(*index, env1, small, large);
                }
            },
        }
    }
}

/// The same of a binary operator.
proof fn lemma_more_binary(
    lhs: ExprView,
    operator: BinaryOperator,
    rhs: ExprView,
    env: Env,
    small: nat,
    large: nat,
)
    requires
        small <= large,
        !exhausted(eval_binary(lhs, operator, rhs, env, small).0),
    ensures
        eval_binary(lhs, operator, rhs, env, large) == eval_binary(lhs, operator, rhs, env, small),
    decreases small, 7int, 0int,
{
    lemma_more_expr(lhs, env, small, large);
    let (left, env1) = eval_expr(lhs, env, small);
    if left is Ok {
        lemma_more_expr(rhs, env1, small, large);
    }
}

/// The budget matters only where it runs out: an expression that comes to a
/// value, or to an error other than [`RuntimeError::ResourceExhausted`], with
/// one budget comes to the same, and leaves the same environment, with every
/// larger one.
pub proof fn lemma_larger_budget_same_result(expr: ExprView, env: Env, small: nat, large: nat)
    requires
        small <= large,
        !exhausted(eval_expr(expr, env, small).0),
    ensures
        eval_expr(expr, env, large) == eval_expr(expr, env, small),
{
    lemma_more_expr(expr, env, small, large);
}

/// The same of a whole program: unless the budget runs out, its result does
/// not depend on the budget.
pub proof fn lemma_larger_budget_same_program(program: ProgramView, small: nat, large: nat)
    requires
        small <= large,
        !exhausted(eval_program(program, small)),
    ensures
        eval_program(program, large) == eval_program(program, small),
{
    let start = seq![empty_frame()];
    lemma_more_statements(program.statements, 0, start, small, large);
    let (done, env) = eval_statements(program.statements, 0, start, small);
    if done is Ok {
        lemma_more_expr(main_call(), env, small, large);
    }
}

/// A loop over a range whose end is not above its begin runs no turn: it
/// succeeds and leaves the environment as it was.
pub proof fn lemma_empty_range_runs_no_turn(
    name: Seq<char>,
    begin: int,
    end: int,
    body: ExprView,
    env: Env,
    depth: nat,
)
    requires
        begin >= end,
    ensures
        eval_for_range(name, begin, end, body, env, depth) == (Ok::<(), RuntimeError>(()), env),
{
}

/// A loop over a range that is not empty runs its first turn with the
/// variable bound to the range's begin, and, where that turn succeeds, goes on
/// from the next number in the environment that the turn left. So the
/// variable takes each number from the begin up to, and without, the end, in
/// rising order, until a turn fails.
pub proof fn lemma_range_runs_turn_by_turn(
    name: Seq<char>,
    begin: int,
    end: int,
    body: ExprView,
    env: Env,
    depth: nat,
)
    requires
        begin < end,
    ensures
        ({
            let first = eval_turn(name, PrimitiveView::Number(begin as i32), body, env, depth);
            eval_for_range(name, begin, end, body, env, depth) == (match first.0 {
                Ok(_) => eval_for_range(name, begin + 1, end, body, first.1, depth),
                Err(e) => (Err::<(), RuntimeError>(e), first.1),
            })
        }),
{
}

/// Indexing gives the item at the index where the index is a number that is
/// not negative and less than the array's length, and fails with
/// [`RuntimeError::IndexOutOfBounds`] for every other number.
pub proof fn lemma_index_within_or_out_of_bounds(items: Seq<PrimitiveView>, index: i32)
    ensures
        0 <= index < items.len() ==> apply_index(items, PrimitiveView::Number(index)) == Ok::<
            PrimitiveView,
            RuntimeError,
        >(items[index as int]),
        !(0 <= index < items.len()) ==> apply_index(items, PrimitiveView::Number(index)) == Err::<
            PrimitiveView,
            RuntimeError,
        >(RuntimeError::IndexOutOfBounds),
{
}

} // verus!
