//! Runtime values and the evaluator.

use vstd::prelude::*;
use vstd::string::StringExecFns;
use crate::ast::{
    BinaryOperator, Expr, ExprView, Ident, Literal, Program, Statement, UnaryOperator,
    clone_idents, expr_view, exprs_view, idents_view, statements_view,
};
use crate::interpreter::scope::{AssignError, Scope, empty_frame};
use crate::interpreter::semantics::{RuntimeError, trunc_div, trunc_rem, wrap_i32};

pub mod laws;
pub mod scope;
pub mod semantics;

verus! {

/// A runtime value.
#[derive(Debug, PartialEq, Eq)]
pub enum Primitive {
    Number(i32),
    Bool(bool),
    String(String),
    Array(Vec<Primitive>),
    Function { args_name: Vec<Ident>, code: Expr },
    Range { begin: i32, fin: Option<i32> },
    Nothing,
}

/// The model of [`Primitive`].
pub enum PrimitiveView {
    Number(i32),
    Bool(bool),
    String(Seq<char>),
    Array(Seq<PrimitiveView>),
    Function { args_name: Seq<Seq<char>>, code: ExprView },
    Range { begin: i32, fin: Option<i32> },
    Nothing,
}

/// The seven kinds of runtime value. A variable keeps the kind of the value
/// it was first bound to.
#[derive(Debug, Clone, Copy, PartialEq, Eq, Structural)]
pub enum Kind {
    Number,
    Bool,
    String,
    Array,
    Function,
    Range,
    Nothing,
}

impl PrimitiveView {
    /// The kind of a value.
    pub open spec fn kind(self) -> Kind {
        match self {
            PrimitiveView::Number(_) => Kind::Number,
            PrimitiveView::Bool(_) => Kind::Bool,
            PrimitiveView::String(_) => Kind::String,
            PrimitiveView::Array(_) => Kind::Array,
            PrimitiveView::Function { .. } => Kind::Function,
            PrimitiveView::Range { .. } => Kind::Range,
            PrimitiveView::Nothing => Kind::Nothing,
        }
    }
}

/// The models of a list of values.
pub open spec fn primitives_view(values: Seq<Primitive>) -> Seq<PrimitiveView>
    decreases values, 1int,
{
    Seq::new(
        values.len(),
        |i: int|
            if 0 <= i < values.len() {
                primitive_view(values[i])
            } else {
                arbitrary()
            },
    )
}

/// The model of a value.
pub open spec fn primitive_view(value: Primitive) -> PrimitiveView
    decreases value, 0int,
{
    match value {
        Primitive::Number(n) => PrimitiveView::Number(n),
        Primitive::Bool(b) => PrimitiveView::Bool(b),
        Primitive::String(s) => PrimitiveView::String(s@),
        Primitive::Array(items) => PrimitiveView::Array(primitives_view(items@)),
        Primitive::Function { args_name, code } => PrimitiveView::Function {
            args_name: idents_view(args_name@),
            code: expr_view(code),
        },
        Primitive::Range { begin, fin } => PrimitiveView::Range { begin, fin },
        Primitive::Nothing => PrimitiveView::Nothing,
    }
}

impl View for Primitive {
    type V = PrimitiveView;

    open spec fn view(&self) -> PrimitiveView {
        primitive_view(*self)
    }
}

/// Copies a list of values.
pub fn clone_primitives(values: &Vec<Primitive>) -> (res: Vec<Primitive>)
    ensures
        primitives_view(res@) == primitives_view(values@),
    decreases values,
{
    let mut res: Vec<Primitive> = Vec::new();
    let mut i: usize = 0;
    while i < values.len()
        invariant
            i <= values.len(),
            res.len() == i,
            forall|j: int| 0 <= j < i ==> res[j]@ == values[j]@,
        decreases values.len() - i,
    {
        res.push(values[i].clone());
        i += 1;
    }
    assert(primitives_view(res@) =~= primitives_view(values@));
    res
}

impl Clone for Primitive {
    fn clone(&self) -> (res: Self)
        ensures
            res@ == self@,
        decreases self,
    {
        match self {
            Primitive::Number(n) => Primitive::Number(*n),
            Primitive::Bool(b) => Primitive::Bool(*b),
            Primitive::String(s) => Primitive::String(s.clone()),
            Primitive::Array(items) => Primitive::Array(clone_primitives(items)),
            Primitive::Function { args_name, code } => Primitive::Function {
                args_name: clone_idents(args_name),
                code: code.clone(),
            },
            Primitive::Range { begin, fin } => Primitive::Range { begin: *begin, fin: *fin },
            Primitive::Nothing => Primitive::Nothing,
        }
    }
}

impl Primitive {
    /// The kind of this value.
    pub fn kind(&self) -> (kind: Kind)
        ensures
            kind == self@.kind(),
    {
        match self {
            Primitive::Number(_) => Kind::Number,
            Primitive::Bool(_) => Kind::Bool,
            Primitive::String(_) => Kind::String,
            Primitive::Array(_) => Kind::Array,
            Primitive::Function { .. } => Kind::Function,
            Primitive::Range { .. } => Kind::Range,
            Primitive::Nothing => Kind::Nothing,
        }
    }
}

impl RuntimeError {
    /// The error in words.
    pub fn message(&self) -> (text: String)
        ensures
            text@ == self.description(),
    {
        match self {
            RuntimeError::TypeError => String::from_str(
                "type error: a value of another kind was needed",
            ),
            RuntimeError::UndefinedVariable => String::from_str("undefined variable"),
            RuntimeError::AssignTypeMismatch => String::from_str(
                "assignment would change the kind of the variable",
            ),
            RuntimeError::ArityError => String::from_str("wrong number of arguments"),
            RuntimeError::IndexOutOfBounds => String::from_str("index out of bounds"),
            RuntimeError::DivideByZero => String::from_str("division by zero"),
            RuntimeError::ResourceExhausted => String::from_str("evaluation nests too deeply"),
        }
    }
}

/// How deeply evaluations may nest where the caller names no limit.
pub const DEFAULT_DEPTH: usize = 512;

/// The model of an evaluation's result.
pub open spec fn result_view(res: Result<Primitive, RuntimeError>) -> Result<
    PrimitiveView,
    RuntimeError,
> {
    match res {
        Ok(v) => Ok(v@),
        Err(e) => Err(e),
    }
}

/// The model of the result of evaluating a list.
pub open spec fn results_view(res: Result<Vec<Primitive>, RuntimeError>) -> Result<
    Seq<PrimitiveView>,
    RuntimeError,
> {
    match res {
        Ok(vs) => Ok(primitives_view(vs@)),
        Err(e) => Err(e),
    }
}

/// A number within the 32-bit range stands for itself, and one that is off by
/// less than the range's width is brought back by that width.
proof fn lemma_wrap_i32(x: int)
    requires
        -0x1_0000_0000 <= x < 0x1_0000_0000,
    ensures
        i32::MIN <= x <= i32::MAX ==> wrap_i32(x) == x,
        x > i32::MAX ==> wrap_i32(x) == x - 0x1_0000_0000,
        x < i32::MIN ==> wrap_i32(x) == x + 0x1_0000_0000,
{
}

/// Division that rounds toward zero keeps within the dividend's size.
proof fn lemma_trunc_div_bounds(x: int, d: int)
    requires
        d != 0,
    ensures
        x >= 0 ==> -x <= trunc_div(x, d) <= x,
        x < 0 ==> x <= trunc_div(x, d) <= -x,
{
    assert(forall|a: int, b: int| a >= 0 && b > 0 ==> 0 <= #[trigger] (a / b) <= a)
        by (nonlinear_arith);
}

/// `-` on a value.
fn apply_minus(operand: &Primitive) -> (res: Result<Primitive, RuntimeError>)
    ensures
        result_view(res) == semantics::apply_minus(operand@),
{
    match operand {
        Primitive::Number(a) => {
            proof {
                lemma_wrap_i32(-(*a as int));
            }
            Ok(Primitive::Number(0i32.wrapping_sub(*a)))
        },
        _ => Err(RuntimeError::TypeError),
    }
}

/// `/` on two numbers. The one quotient that does not fit, that of the
/// smallest number by -1, wraps around to the smallest number.
fn divide(a: i32, b: i32) -> (res: Result<Primitive, RuntimeError>)
    ensures
        result_view(res) == semantics::apply_binary(
            BinaryOperator::Divide,
            PrimitiveView::Number(a),
            PrimitiveView::Number(b),
        ),
{
    proof {
        if b != 0 {
            let x = a as int;
            let d = b as int;
            lemma_trunc_div_bounds(x, d);
            lemma_wrap_i32(trunc_div(x, d));
            assert(x * -1 == -x);
            assert(d * -1 == -d);
            assert(((-x) / d) * -1 == -((-x) / d));
            assert((x / (-d)) * -1 == -(x / (-d)));
        }
    }
    match a.checked_div(b) {
        Some(q) => Ok(Primitive::Number(q)),
        None => if b == 0 {
            Err(RuntimeError::DivideByZero)
        } else {
            Ok(Primitive::Number(i32::MIN))
        },
    }
}

/// `%` on two numbers. The remainder of the smallest number by -1 is 0.
fn modulo(a: i32, b: i32) -> (res: Result<Primitive, RuntimeError>)
    ensures
        result_view(res) == semantics::apply_binary(
            BinaryOperator::Modulo,
            PrimitiveView::Number(a),
            PrimitiveView::Number(b),
        ),
{
    proof {
        if b != 0 {
            lemma_trunc_rem(a as int, b as int);
            lemma_wrap_i32(trunc_rem(a as int, b as int));
        }
    }
    match a.checked_rem(b) {
        Some(r) => Ok(Primitive::Number(r)),
        None => if b == 0 {
            Err(RuntimeError::DivideByZero)
        } else {
            Ok(Primitive::Number(0))
        },
    }
}

/// The remainder of a division that rounds toward zero, case by case, and
/// its size.
proof fn lemma_trunc_rem(x: int, d: int)
    requires
        d != 0,
    ensures
        x >= 0 && d > 0 ==> trunc_rem(x, d) == x % d,
        x < 0 && d < 0 ==> trunc_rem(x, d) == -((-x) % (-d)),
        x < 0 && d > 0 ==> trunc_rem(x, d) == -((-x) % d),
        x >= 0 && d < 0 ==> trunc_rem(x, d) == x % (-d),
        x >= 0 ==> 0 <= trunc_rem(x, d) <= x,
        x < 0 ==> x <= trunc_rem(x, d) <= 0,
{
    assert(forall|a: int, b: int| a >= 0 && b > 0 ==> a == b * (a / b) + #[trigger] (a % b) && 0
        <= a % b <= a) by (nonlinear_arith);
    assert(forall|a: int, b: int| #[trigger] (b * (-a)) == -(b * a)) by (nonlinear_arith);
    assert(forall|a: int, b: int| #[trigger] ((-b) * a) == -(b * a)) by (nonlinear_arith);
    if x >= 0 && d > 0 {
        assert(x == d * (x / d) + x % d);
    } else if x < 0 && d < 0 {
        assert(-x == (-d) * ((-x) / (-d)) + (-x) % (-d));
    } else if x < 0 {
        assert(-x == d * ((-x) / d) + (-x) % d);
        assert(d * (-((-x) / d)) == -(d * ((-x) / d)));
    } else {
        assert(x == (-d) * (x / (-d)) + x % (-d));
        assert(d * (-(x / (-d))) == -(d * (x / (-d))));
    }
}

/// An arithmetic operator, `..` or `==` on two values.
fn apply_binary(operator: BinaryOperator, lhs: &Primitive, rhs: &Primitive) -> (res: Result<
    Primitive,
    RuntimeError,
>)
    requires
        operator != BinaryOperator::Assign,
    ensures
        result_view(res) == semantics::apply_binary(operator, lhs@, rhs@),
{
    match (lhs, rhs) {
        (Primitive::Number(a), Primitive::Number(b)) => {
            let a: i32 = *a;
            let b: i32 = *b;
            match operator {
                BinaryOperator::Add => {
                    proof {
                        lemma_wrap_i32(a + b);
                    }
                    Ok(Primitive::Number(a.wrapping_add(b)))
                },
                BinaryOperator::Subtract => {
                    proof {
                        lemma_wrap_i32(a - b);
                    }
                    Ok(Primitive::Number(a.wrapping_sub(b)))
                },
                BinaryOperator::Multiply => Ok(Primitive::Number(a.wrapping_mul(b))),
                BinaryOperator::Divide => divide(a, b),
                BinaryOperator::Modulo => modulo(a, b),
                BinaryOperator::Range => Ok(Primitive::Range { begin: a, fin: Some(b) }),
                BinaryOperator::Equal => Ok(Primitive::Bool(a == b)),
                BinaryOperator::Assign => Err(RuntimeError::TypeError),
            }
        },
        (Primitive::Bool(a), Primitive::Bool(b)) => match operator {
            BinaryOperator::Equal => Ok(Primitive::Bool(*a == *b)),
            _ => Err(RuntimeError::TypeError),
        },
        _ => Err(RuntimeError::TypeError),
    }
}

/// The element of an array at an index.
fn apply_index(items: &Vec<Primitive>, index: &Primitive) -> (res: Result<Primitive, RuntimeError>)
    ensures
        result_view(res) == semantics::apply_index(primitives_view(items@), index@),
{
    match index {
        Primitive::Number(i) => {
            let i: i32 = *i;
            if i >= 0 && (i as usize) < items.len() {
                Ok(items[i as usize].clone())
            } else {
                Err(RuntimeError::IndexOutOfBounds)
            }
        },
        _ => Err(RuntimeError::TypeError),
    }
}

/// An assignment whose right operand came to `value`.
fn apply_assign(target: &Expr, value: Primitive, scope: &mut Scope) -> (res: Result<
    Primitive,
    RuntimeError,
>)
    ensures
        result_view(res) == semantics::apply_assign(target@, value@, old(scope)@).0,
        final(scope)@ == semantics::apply_assign(target@, value@, old(scope)@).1,
        final(scope)@.len() == old(scope)@.len(),
{
    match target {
        Expr::Literal(literal) => {
            assert(target@ == ExprView::Literal(literal@));
            match literal {
                Literal::Ident(ident) => match scope.assign(ident, value) {
                    Ok(()) => Ok(Primitive::Nothing),
                    Err(AssignError::TypeMismatch) => Err(RuntimeError::AssignTypeMismatch),
                    Err(AssignError::UndefinedVariable) => Err(RuntimeError::UndefinedVariable),
                },
                _ => Err(RuntimeError::TypeError),
            }
        },
        _ => Err(RuntimeError::TypeError),
    }
}

/// Evaluates an expression in `scope`, with `depth` nested evaluations to spare.
pub fn eval_expr(expr: &Expr, scope: &mut Scope, depth: usize) -> (res: Result<
    Primitive,
    RuntimeError,
>)
    requires
        old(scope)@.len() > 0,
    ensures
        result_view(res) == semantics::eval_expr(expr@, old(scope)@, depth as nat).0,
        final(scope)@ == semantics::eval_expr(expr@, old(scope)@, depth as nat).1,
        final(scope)@.len() == old(scope)@.len(),
    decreases depth, 0int, 0int,
{
    if depth == 0 {
        return Err(RuntimeError::ResourceExhausted);
    }
    match expr {
        Expr::Literal(literal) => eval_literal(literal, scope, depth - 1),
        Expr::Unary { operand, operator } => eval_unary(&**operand, operator, scope, depth - 1),
        Expr::Binary { lhs, operator, rhs } => eval_binary(
            &**lhs,
            *operator,
            &**rhs,
            scope,
            depth - 1,
        ),
    }
}

/// Evaluates a list of expressions from left to right. The first error ends it.
fn eval_exprs(exprs: &Vec<Expr>, scope: &mut Scope, depth: usize) -> (res: Result<
    Vec<Primitive>,
    RuntimeError,
>)
    requires
        old(scope)@.len() > 0,
    ensures
        results_view(res) == semantics::eval_exprs(
            exprs_view(exprs@),
            0,
            Seq::empty(),
            old(scope)@,
            depth as nat,
        ).0,
        final(scope)@ == semantics::eval_exprs(
            exprs_view(exprs@),
            0,
            Seq::empty(),
            old(scope)@,
            depth as nat,
        ).1,
        final(scope)@.len() == old(scope)@.len(),
    decreases depth, 1int, 0int,
{
    let ghost env0 = scope@;
    let ghost all = exprs_view(exprs@);
    let mut values: Vec<Primitive> = Vec::new();
    let mut i: usize = 0;
    assert(primitives_view(values@) =~= Seq::empty());
    while i < exprs.len()
        invariant
            i <= exprs.len(),
            all == exprs_view(exprs@),
            env0 == old(scope)@,
            scope@.len() == env0.len(),
            env0.len() > 0,
            semantics::eval_exprs(all, 0, Seq::empty(), env0, depth as nat)
                == semantics::eval_exprs(
                all,
                i as nat,
                primitives_view(values@),
                scope@,
                depth as nat,
            ),
        decreases exprs.len() - i,
    {
        let ghost done = primitives_view(values@);
        match eval_expr(&exprs[i], scope, depth) {
            Ok(v) => {
                values.push(v);
                assert(primitives_view(values@) =~= done.push(v@));
            },
            Err(e) => {
                return Err(e);
            },
        }
        i += 1;
    }
    Ok(values)
}

/// Runs one turn of a loop: binds the loop variable in a fresh frame,
/// evaluates the body, and drops the frame whether or not the body failed.
fn eval_turn(ident: &Ident, item: Primitive, body: &Expr, scope: &mut Scope, depth: usize) -> (res:
    Result<(), RuntimeError>)
    requires
        old(scope)@.len() > 0,
    ensures
        res == semantics::eval_turn(ident@, item@, body@, old(scope)@, depth as nat).0,
        final(scope)@ == semantics::eval_turn(ident@, item@, body@, old(scope)@, depth as nat).1,
        final(scope)@.len() == old(scope)@.len(),
    decreases depth, 1int, 0int,
{
    scope.create();
    scope.define(ident.clone(), item);
    let value = eval_expr(body, scope, depth);
    scope.delete();
    match value {
        Ok(_) => Ok(()),
        Err(e) => Err(e),
    }
}

/// Runs a loop over the items of an array.
fn eval_for_array(
    ident: &Ident,
    items: &Vec<Primitive>,
    body: &Expr,
    scope: &mut Scope,
    depth: usize,
) -> (res: Result<(), RuntimeError>)
    requires
        old(scope)@.len() > 0,
    ensures
        res == semantics::eval_for_array(
            ident@,
            primitives_view(items@),
            0,
            body@,
            old(scope)@,
            depth as nat,
        ).0,
        final(scope)@ == semantics::eval_for_array(
            ident@,
            primitives_view(items@),
            0,
            body@,
            old(scope)@,
            depth as nat,
        ).1,
        final(scope)@.len() == old(scope)@.len(),
    decreases depth, 2int, 0int,
{
    let ghost env0 = scope@;
    let ghost all = primitives_view(items@);
    let mut i: usize = 0;
    while i < items.len()
        invariant
            i <= items.len(),
            all == primitives_view(items@),
            env0 == old(scope)@,
            scope@.len() == env0.len(),
            env0.len() > 0,
            semantics::eval_for_array(ident@, all, 0, body@, env0, depth as nat)
                == semantics::eval_for_array(ident@, all, i as nat, body@, scope@, depth as nat),
        decreases items.len() - i,
    {
        let item = items[i].clone();
        assert(item@ == all[i as int]);
        match eval_turn(ident, item, body, scope, depth) {
            Ok(_) => {},
            Err(e) => {
                return Err(e);
            },
        }
        i += 1;
    }
    Ok(())
}

/// Runs a loop over the numbers from `begin` up to, and without, `end`.
fn eval_for_range(
    ident: &Ident,
    begin: i64,
    end: i64,
    body: &Expr,
    scope: &mut Scope,
    depth: usize,
) -> (res: Result<(), RuntimeError>)
    requires
        old(scope)@.len() > 0,
        i32::MIN <= begin <= i32::MAX,
        i32::MIN <= end <= i32::MAX + 1,
    ensures
        res == semantics::eval_for_range(
            ident@,
            begin as int,
            end as int,
            body@,
            old(scope)@,
            depth as nat,
        ).0,
        final(scope)@ == semantics::eval_for_range(
            ident@,
            begin as int,
            end as int,
            body@,
            old(scope)@,
            depth as nat,
        ).1,
        final(scope)@.len() == old(scope)@.len(),
    decreases depth, 2int, 0int,
{
    let ghost env0 = scope@;
    let mut i: i64 = begin;
    while i < end
        invariant
            i32::MIN <= begin <= i <= i32::MAX + 1,
            i32::MIN <= end <= i32::MAX + 1,
            env0 == old(scope)@,
            scope@.len() == env0.len(),
            env0.len() > 0,
            semantics::eval_for_range(ident@, begin as int, end as int, body@, env0, depth as nat)
                == semantics::eval_for_range(
                ident@,
                i as int,
                end as int,
                body@,
                scope@,
                depth as nat,
            ),
        decreases end - i,
    {
        match eval_turn(ident, Primitive::Number(i as i32), body, scope, depth) {
            Ok(_) => {},
            Err(e) => {
                return Err(e);
            },
        }
        i += 1;
    }
    Ok(())
}

/// Runs a loop over an evaluated source: an array or a range.
fn eval_for(ident: &Ident, source: Primitive, body: &Expr, scope: &mut Scope, depth: usize) -> (res:
    Result<(), RuntimeError>)
    requires
        old(scope)@.len() > 0,
    ensures
        res == semantics::eval_for(ident@, source@, body@, old(scope)@, depth as nat).0,
        final(scope)@ == semantics::eval_for(ident@, source@, body@, old(scope)@, depth as nat).1,
        final(scope)@.len() == old(scope)@.len(),
    decreases depth, 3int, 0int,
{
    match source {
        Primitive::Array(items) => eval_for_array(ident, &items, body, scope, depth),
        Primitive::Range { begin, fin: Some(end) } => eval_for_range(
            ident,
            begin as i64,
            end as i64,
            body,
            scope,
            depth,
        ),
        Primitive::Range { begin, fin: None } => {
            match eval_for_range(ident, begin as i64, 0x8000_0000i64, body, scope, depth) {
                Ok(_) => Err(RuntimeError::ResourceExhausted),
                Err(e) => Err(e),
            }
        },
        _ => Err(RuntimeError::TypeError),
    }
}

/// Runs a statement in `scope`.
pub fn eval_statement(statement: &Statement, scope: &mut Scope, depth: usize) -> (res: Result<
    (),
    RuntimeError,
>)
    requires
        old(scope)@.len() > 0,
    ensures
        res == semantics::eval_statement(statement@, old(scope)@, depth as nat).0,
        final(scope)@ == semantics::eval_statement(statement@, old(scope)@, depth as nat).1,
        final(scope)@.len() == old(scope)@.len(),
    decreases depth, 4int, 0int,
{
    match statement {
        Statement::Expr(expr) => match eval_expr(expr, scope, depth) {
            Ok(_) => Ok(()),
            Err(e) => Err(e),
        },
        Statement::Let { ident, value } => match eval_expr(value, scope, depth) {
            Ok(v) => {
                scope.define(ident.clone(), v);
                Ok(())
            },
            Err(e) => Err(e),
        },
        Statement::FuncDef { ident, args, expr } => {
            scope.define(
                ident.clone(),
                Primitive::Function { args_name: clone_idents(args), code: expr.clone() },
            );
            Ok(())
        },
        Statement::For { ident, iter, expr } => match eval_expr(iter, scope, depth) {
            Ok(source) => eval_for(ident, source, expr, scope, depth),
            Err(e) => Err(e),
        },
    }
}

/// Runs statements in order. The first error ends the run.
fn eval_statements(statements: &Vec<Statement>, scope: &mut Scope, depth: usize) -> (res: Result<
    (),
    RuntimeError,
>)
    requires
        old(scope)@.len() > 0,
    ensures
        res == semantics::eval_statements(
            statements_view(statements@),
            0,
            old(scope)@,
            depth as nat,
        ).0,
        final(scope)@ == semantics::eval_statements(
            statements_view(statements@),
            0,
            old(scope)@,
            depth as nat,
        ).1,
        final(scope)@.len() == old(scope)@.len(),
    decreases depth, 5int, 0int,
{
    let ghost env0 = scope@;
    let ghost all = statements_view(statements@);
    let mut i: usize = 0;
    while i < statements.len()
        invariant
            i <= statements.len(),
            all == statements_view(statements@),
            env0 == old(scope)@,
            scope@.len() == env0.len(),
            env0.len() > 0,
            semantics::eval_statements(all, 0, env0, depth as nat) == semantics::eval_statements(
                all,
                i as nat,
                scope@,
                depth as nat,
            ),
        decreases statements.len() - i,
    {
        match eval_statement(&statements[i], scope, depth) {
            Ok(_) => {},
            Err(e) => {
                return Err(e);
            },
        }
        i += 1;
    }
    Ok(())
}

/// Binds each parameter to its argument in the innermost frame, in order.
fn bind_params(scope: &mut Scope, names: &Vec<Ident>, values: &Vec<Primitive>)
    requires
        old(scope)@.len() > 0,
        old(scope)@.last() == empty_frame(),
        names.len() == values.len(),
    ensures
        final(scope)@ == old(scope)@.drop_last().push(
            semantics::bind_params(
                idents_view(names@),
                primitives_view(values@),
                names.len() as nat,
            ),
        ),
{
    let ghost env0 = scope@;
    let mut i: usize = 0;
    assert(scope@ =~= env0.drop_last().push(
        semantics::bind_params(idents_view(names@), primitives_view(values@), 0),
    ));
    while i < names.len()
        invariant
            i <= names.len(),
            names.len() == values.len(),
            env0.len() > 0,
            scope@ == env0.drop_last().push(
                semantics::bind_params(idents_view(names@), primitives_view(values@), i as nat),
            ),
        decreases names.len() - i,
    {
        scope.define(names[i].clone(), values[i].clone());
        i += 1;
        assert(scope@ =~= env0.drop_last().push(
            semantics::bind_params(idents_view(names@), primitives_view(values@), i as nat),
        ));
    }
}

/// Calls a function on evaluated arguments. The body sees the global frame
/// and a frame of its parameters; the caller's other frames are set aside for
/// the time of the call and come back as they were.
fn eval_call(
    args_name: &Vec<Ident>,
    code: &Expr,
    args: Vec<Primitive>,
    scope: &mut Scope,
    depth: usize,
) -> (res: Result<Primitive, RuntimeError>)
    requires
        old(scope)@.len() > 0,
    ensures
        result_view(res) == semantics::eval_call(
            idents_view(args_name@),
            code@,
            primitives_view(args@),
            old(scope)@,
            depth as nat,
        ).0,
        final(scope)@ == semantics::eval_call(
            idents_view(args_name@),
            code@,
            primitives_view(args@),
            old(scope)@,
            depth as nat,
        ).1,
        final(scope)@.len() == old(scope)@.len(),
    decreases depth, 6int, 0int,
{
    if args_name.len() != args.len() {
        return Err(RuntimeError::ArityError);
    }
    let ghost env0 = scope@;
    let mut global = scope.create_global();
    let inner = global.get_mut();
    inner.create();
    bind_params(inner, args_name, &args);
    assert(inner@ =~= semantics::call_env(env0, idents_view(args_name@), primitives_view(args@)));
    let res = eval_expr(code, inner, depth);
    inner.delete();
    global.reconstruct(scope);
    res
}

/// Evaluates a primary expression.
fn eval_literal(literal: &Literal, scope: &mut Scope, depth: usize) -> (res: Result<
    Primitive,
    RuntimeError,
>)
    requires
        old(scope)@.len() > 0,
    ensures
        result_view(res) == semantics::eval_literal(literal@, old(scope)@, depth as nat).0,
        final(scope)@ == semantics::eval_literal(literal@, old(scope)@, depth as nat).1,
        final(scope)@.len() == old(scope)@.len(),
    decreases depth, 7int, 0int,
{
    match literal {
        Literal::Number(n) => Ok(Primitive::Number(*n)),
        Literal::Bool(b) => Ok(Primitive::Bool(*b)),
        Literal::String(s) => Ok(Primitive::String(s.clone())),
        Literal::Nothing => Ok(Primitive::Nothing),
        Literal::Array(items) => match eval_exprs(items, scope, depth) {
            Ok(values) => Ok(Primitive::Array(values)),
            Err(e) => Err(e),
        },
        Literal::Ident(ident) => match scope.get(ident) {
            Some(v) => Ok(v),
            None => Err(RuntimeError::UndefinedVariable),
        },
        Literal::If { condition, expr, or } => match eval_expr(&**condition, scope, depth) {
            Ok(Primitive::Bool(true)) => eval_expr(&**expr, scope, depth),
            Ok(Primitive::Bool(false)) => match or {
                Some(other) => eval_expr(&**other, scope, depth),
                None => Ok(Primitive::Nothing),
            },
            Ok(_) => Err(RuntimeError::TypeError),
            Err(e) => Err(e),
        },
        Literal::Block { statements, return_value } => {
            scope.create();
            match eval_statements(statements, scope, depth) {
                Ok(_) => {
                    let value = eval_expr(&**return_value, scope, depth);
                    scope.delete();
                    value
                },
                Err(e) => {
                    scope.delete();
                    Err(e)
                },
            }
        },
    }
}

/// Evaluates a prefix or postfix operator on its operand.
fn eval_unary(operand: &Expr, operator: &UnaryOperator, scope: &mut Scope, depth: usize) -> (res:
    Result<Primitive, RuntimeError>)
    requires
        old(scope)@.len() > 0,
    ensures
        result_view(res) == semantics::eval_unary(
            operand@,
            operator@,
            old(scope)@,
            depth as nat,
        ).0,
        final(scope)@ == semantics::eval_unary(operand@, operator@, old(scope)@, depth as nat).1,
        final(scope)@.len() == old(scope)@.len(),
    decreases depth, 7int, 0int,
{
    let target = match eval_expr(operand, scope, depth) {
        Ok(target) => target,
        Err(e) => {
            return Err(e);
        },
    };
    match operator {
        UnaryOperator::Minus => apply_minus(&target),
        UnaryOperator::Call(args) => {
            let values = match eval_exprs(args, scope, depth) {
                Ok(values) => values,
                Err(e) => {
                    return Err(e);
                },
            };
            match target {
                Primitive::Function { args_name, code } => eval_call(
                    &args_name,
                    &code,
                    values,
                    scope,
                    depth,
                ),
                _ => Err(RuntimeError::TypeError),
            }
        },
        UnaryOperator::Index(index) => match target {
            Primitive::Array(items) => match eval_expr(&**index, scope, depth) {
                Ok(at) => apply_index(&items, &at),
                Err(e) => Err(e),
            },
            _ => Err(RuntimeError::TypeError),
        },
    }
}

/// Evaluates a binary operator: both operands from left to right, then the
/// operator.
fn eval_binary(
    lhs: &Expr,
    operator: BinaryOperator,
    rhs: &Expr,
    scope: &mut Scope,
    depth: usize,
) -> (res: Result<Primitive, RuntimeError>)
    requires
        old(scope)@.len() > 0,
    ensures
        result_view(res) == semantics::eval_binary(
            lhs@,
            operator,
            rhs@,
            old(scope)@,
            depth as nat,
        ).0,
        final(scope)@ == semantics::eval_binary(
            lhs@,
            operator,
            rhs@,
            old(scope)@,
            depth as nat,
        ).1,
        final(scope)@.len() == old(scope)@.len(),
    decreases depth, 7int, 0int,
{
    let left = match eval_expr(lhs, scope, depth) {
        Ok(left) => left,
        Err(e) => {
            return Err(e);
        },
    };
    let right = match eval_expr(rhs, scope, depth) {
        Ok(right) => right,
        Err(e) => {
            return Err(e);
        },
    };
    match operator {
        BinaryOperator::Assign => apply_assign(lhs, right, scope),
        _ => apply_binary(operator, &left, &right),
    }
}

/// The call `main()`.
fn main_call() -> (call: Expr)
    ensures
        call@ == semantics::main_call(),
{
    proof {
        reveal_strlit("main");
    }
    let name = Ident(String::from_str("main"));
    assert(name@ =~= semantics::main_name());
    let literal = Literal::Ident(name);
    assert(literal@ == crate::ast::LiteralView::Ident(semantics::main_name()));
    let operand = Expr::Literal(literal);
    let args: Vec<Expr> = Vec::new();
    assert(exprs_view(args@) =~= Seq::empty());
    let operator = UnaryOperator::Call(args);
    assert(operator@ == crate::ast::UnaryOperatorView::Call(Seq::empty()));
    assert(operand@ == ExprView::Literal(crate::ast::LiteralView::Ident(semantics::main_name())));
    Expr::Unary { operand: Box::new(operand), operator }
}

/// Runs a program with `depth` nested evaluations to spare: every top-level
/// statement in a fresh environment, then the call `main()`.
pub fn eval_with_limit(program: &Program, depth: usize) -> (res: Result<Primitive, RuntimeError>)
    ensures
        result_view(res) == semantics::eval_program(program@, depth as nat),
{
    let mut scope = Scope::new();
    match eval_statements(&program.statements, &mut scope, depth) {
        Ok(_) => {
            let call = main_call();
            eval_expr(&call, &mut scope, depth)
        },
        Err(e) => Err(e),
    }
}

/// Runs a program with the default budget, [`DEFAULT_DEPTH`].
pub fn eval(program: Program) -> (res: Result<Primitive, RuntimeError>)
    ensures
        result_view(res) == semantics::eval_program(program@, DEFAULT_DEPTH as nat),
{
    eval_with_limit(&program, DEFAULT_DEPTH)
}

} // verus!
