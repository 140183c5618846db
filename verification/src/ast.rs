//! The abstract syntax tree and its mathematical model.
//!
//! Each tree type has a view in which vectors are sequences and owned strings
//! are sequences of characters. The parser's and the evaluator's contracts are
//! stated over these views.

use vstd::prelude::*;

verus! {

/// An identifier: the name of a variable, a parameter or a function.
/// Two identifiers are the same when their text is the same.
#[derive(Debug, PartialEq, Eq, Hash)]
pub struct Ident(pub String);

/// The binary operators, in no particular order.
#[derive(Debug, Clone, Copy, PartialEq, Eq, Structural)]
pub enum BinaryOperator {
    Add,
    Subtract,
    Multiply,
    Divide,
    Modulo,
    Range,
    Assign,
    Equal,
}

/// The prefix and postfix operators.
#[derive(Debug, PartialEq, Eq)]
pub enum UnaryOperator {
    Minus,
    Call(Vec<Expr>),
    Index(Box<Expr>),
}

/// An expression.
#[allow(inconsistent_fields)]
#[derive(Debug, PartialEq, Eq)]
pub enum Expr {
    Literal(Literal),
    Unary { operand: Box<Expr>, operator: UnaryOperator },
    Binary { lhs: Box<Expr>, operator: BinaryOperator, rhs: Box<Expr> },
}

/// The primary expressions: constants, names, and the bracketed forms.
#[derive(Debug, PartialEq, Eq)]
pub enum Literal {
    Number(i32),
    Bool(bool),
    String(String),
    Array(Vec<Expr>),
    Ident(Ident),
    If { condition: Box<Expr>, expr: Box<Expr>, or: Option<Box<Expr>> },
    Block { statements: Vec<Statement>, return_value: Box<Expr> },
    Nothing,
}

/// A statement.
#[derive(Debug, PartialEq, Eq)]
pub enum Statement {
    Expr(Expr),
    FuncDef { ident: Ident, args: Vec<Ident>, expr: Expr },
    Let { ident: Ident, value: Expr },
    For { ident: Ident, iter: Expr, expr: Expr },
}

/// A whole program: its top-level statements in source order.
#[derive(Debug, PartialEq, Eq)]
pub struct Program {
    pub statements: Vec<Statement>,
}

/// The model of [`UnaryOperator`].
pub enum UnaryOperatorView {
    Minus,
    Call(Seq<ExprView>),
    Index(Box<ExprView>),
}

/// The model of [`Expr`].
#[allow(inconsistent_fields)]
pub enum ExprView {
    Literal(LiteralView),
    Unary { operand: Box<ExprView>, operator: UnaryOperatorView },
    Binary { lhs: Box<ExprView>, operator: BinaryOperator, rhs: Box<ExprView> },
}

/// The model of [`Literal`].
pub enum LiteralView {
    Number(i32),
    Bool(bool),
    String(Seq<char>),
    Array(Seq<ExprView>),
    Ident(Seq<char>),
    If { condition: Box<ExprView>, expr: Box<ExprView>, or: Option<Box<ExprView>> },
    Block { statements: Seq<StatementView>, return_value: Box<ExprView> },
    Nothing,
}

/// The model of [`Statement`].
pub enum StatementView {
    Expr(ExprView),
    FuncDef { ident: Seq<char>, args: Seq<Seq<char>>, expr: ExprView },
    Let { ident: Seq<char>, value: ExprView },
    For { ident: Seq<char>, iter: ExprView, expr: ExprView },
}

/// The model of [`Program`].
pub struct ProgramView {
    pub statements: Seq<StatementView>,
}

impl View for Ident {
    type V = Seq<char>;

    open spec fn view(&self) -> Seq<char> {
        self.0@
    }
}

/// The texts of a list of identifiers.
pub open spec fn idents_view(idents: Seq<Ident>) -> Seq<Seq<char>> {
    Seq::new(idents.len(), |i: int| idents[i]@)
}

/// The models of a list of expressions.
pub open spec fn exprs_view(exprs: Seq<Expr>) -> Seq<ExprView>
    decreases exprs, 1int,
{
    Seq::new(
        exprs.len(),
        |i: int|
            if 0 <= i < exprs.len() {
                expr_view(exprs[i])
            } else {
                arbitrary()
            },
    )
}

/// The models of a list of statements.
pub open spec fn statements_view(statements: Seq<Statement>) -> Seq<StatementView>
    decreases statements, 1int,
{
    Seq::new(
        statements.len(),
        |i: int|
            if 0 <= i < statements.len() {
                statement_view(statements[i])
            } else {
                arbitrary()
            },
    )
}

/// The model of an expression.
pub open spec fn expr_view(expr: Expr) -> ExprView
    decreases expr, 0int,
{
    match expr {
        Expr::Literal(literal) => ExprView::Literal(literal_view(literal)),
        Expr::Unary { operand, operator } => ExprView::Unary {
            operand: Box::new(expr_view(*operand)),
            operator: unary_operator_view(operator),
        },
        Expr::Binary { lhs, operator, rhs } => ExprView::Binary {
            lhs: Box::new(expr_view(*lhs)),
            operator,
            rhs: Box::new(expr_view(*rhs)),
        },
    }
}

/// The model of a prefix or postfix operator.
pub open spec fn unary_operator_view(operator: UnaryOperator) -> UnaryOperatorView
    decreases operator, 0int,
{
    match operator {
        UnaryOperator::Minus => UnaryOperatorView::Minus,
        UnaryOperator::Call(args) => UnaryOperatorView::Call(exprs_view(args@)),
        UnaryOperator::Index(index) => UnaryOperatorView::Index(Box::new(expr_view(*index))),
    }
}

/// The model of a primary expression.
pub open spec fn literal_view(literal: Literal) -> LiteralView
    decreases literal, 0int,
{
    match literal {
        Literal::Number(n) => LiteralView::Number(n),
        Literal::Bool(b) => LiteralView::Bool(b),
        Literal::String(s) => LiteralView::String(s@),
        Literal::Array(items) => LiteralView::Array(exprs_view(items@)),
        Literal::Ident(ident) => LiteralView::Ident(ident@),
        Literal::If { condition, expr, or } => LiteralView::If {
            condition: Box::new(expr_view(*condition)),
            expr: Box::new(expr_view(*expr)),
            or: match or {
                Some(e) => Some(Box::new(expr_view(*e))),
                None => None,
            },
        },
        Literal::Block { statements, return_value } => LiteralView::Block {
            statements: statements_view(statements@),
            return_value: Box::new(expr_view(*return_value)),
        },
        Literal::Nothing => LiteralView::Nothing,
    }
}

/// The model of a statement.
pub open spec fn statement_view(statement: Statement) -> StatementView
    decreases statement, 0int,
{
    match statement {
        Statement::Expr(expr) => StatementView::Expr(expr_view(expr)),
        Statement::FuncDef { ident, args, expr } => StatementView::FuncDef {
            ident: ident@,
            args: idents_view(args@),
            expr: expr_view(expr),
        },
        Statement::Let { ident, value } => StatementView::Let {
            ident: ident@,
            value: expr_view(value),
        },
        Statement::For { ident, iter, expr } => StatementView::For {
            ident: ident@,
            iter: expr_view(iter),
            expr: expr_view(expr),
        },
    }
}

impl View for UnaryOperator {
    type V = UnaryOperatorView;

    open spec fn view(&self) -> UnaryOperatorView {
        unary_operator_view(*self)
    }
}

impl View for Expr {
    type V = ExprView;

    open spec fn view(&self) -> ExprView {
        expr_view(*self)
    }
}

impl View for Literal {
    type V = LiteralView;

    open spec fn view(&self) -> LiteralView {
        literal_view(*self)
    }
}

impl View for Statement {
    type V = StatementView;

    open spec fn view(&self) -> StatementView {
        statement_view(*self)
    }
}

impl View for Program {
    type V = ProgramView;

    open spec fn view(&self) -> ProgramView {
        ProgramView { statements: statements_view(self.statements@) }
    }
}

impl Clone for Ident {
    fn clone(&self) -> (res: Self)
        ensures
            res@ == self@,
    {
        Ident(self.0.clone())
    }
}

/// Copies a list of identifiers.
pub fn clone_idents(idents: &Vec<Ident>) -> (res: Vec<Ident>)
    ensures
        idents_view(res@) == idents_view(idents@),
{
    let mut res: Vec<Ident> = Vec::new();
    let mut i: usize = 0;
    while i < idents.len()
        invariant
            i <= idents.len(),
            res.len() == i,
            forall|j: int| 0 <= j < i ==> res[j]@ == idents[j]@,
        decreases idents.len() - i,
    {
        res.push(idents[i].clone());
        i += 1;
    }
    assert(idents_view(res@) =~= idents_view(idents@));
    res
}

/// Copies a list of expressions.
pub fn clone_exprs(exprs: &Vec<Expr>) -> (res: Vec<Expr>)
    ensures
        exprs_view(res@) == exprs_view(exprs@),
    decreases exprs,
{
    let mut res: Vec<Expr> = Vec::new();
    let mut i: usize = 0;
    while i < exprs.len()
        invariant
            i <= exprs.len(),
            res.len() == i,
            forall|j: int| 0 <= j < i ==> res[j]@ == exprs[j]@,
        decreases exprs.len() - i,
    {
        res.push(exprs[i].clone());
        i += 1;
    }
    assert(exprs_view(res@) =~= exprs_view(exprs@));
    res
}

/// Copies a list of statements.
pub fn clone_statements(statements: &Vec<Statement>) -> (res: Vec<Statement>)
    ensures
        statements_view(res@) == statements_view(statements@),
    decreases statements,
{
    let mut res: Vec<Statement> = Vec::new();
    let mut i: usize = 0;
    while i < statements.len()
        invariant
            i <= statements.len(),
            res.len() == i,
            forall|j: int| 0 <= j < i ==> res[j]@ == statements[j]@,
        decreases statements.len() - i,
    {
        res.push(statements[i].clone());
        i += 1;
    }
    assert(statements_view(res@) =~= statements_view(statements@));
    res
}

impl Clone for UnaryOperator {
    fn clone(&self) -> (res: Self)
        ensures
            res@ == self@,
        decreases self,
    {
        match self {
            UnaryOperator::Minus => UnaryOperator::Minus,
            UnaryOperator::Call(args) => UnaryOperator::Call(clone_exprs(args)),
            UnaryOperator::Index(index) => UnaryOperator::Index(Box::new((&**index).clone())),
        }
    }
}

impl Clone for Expr {
    fn clone(&self) -> (res: Self)
        ensures
            res@ == self@,
        decreases self,
    {
        match self {
            Expr::Literal(literal) => Expr::Literal(literal.clone()),
            Expr::Unary { operand, operator } => Expr::Unary {
                operand: Box::new((&**operand).clone()),
                operator: operator.clone(),
            },
            Expr::Binary { lhs, operator, rhs } => Expr::Binary {
                lhs: Box::new((&**lhs).clone()),
                operator: *operator,
                rhs: Box::new((&**rhs).clone()),
            },
        }
    }
}

impl Clone for Literal {
    fn clone(&self) -> (res: Self)
        ensures
            res@ == self@,
        decreases self,
    {
        match self {
            Literal::Number(n) => Literal::Number(*n),
            Literal::Bool(b) => Literal::Bool(*b),
            Literal::String(s) => Literal::String(s.clone()),
            Literal::Array(items) => Literal::Array(clone_exprs(items)),
            Literal::Ident(ident) => Literal::Ident(ident.clone()),
            Literal::If { condition, expr, or } => Literal::If {
                condition: Box::new((&**condition).clone()),
                expr: Box::new((&**expr).clone()),
                or: match or {
                    Some(e) => Some(Box::new((&**e).clone())),
                    None => None,
                },
            },
            Literal::Block { statements, return_value } => Literal::Block {
                statements: clone_statements(statements),
                return_value: Box::new((&**return_value).clone()),
            },
            Literal::Nothing => Literal::Nothing,
        }
    }
}

impl Clone for Statement {
    fn clone(&self) -> (res: Self)
        ensures
            res@ == self@,
        decreases self,
    {
        match self {
            Statement::Expr(expr) => Statement::Expr(expr.clone()),
            Statement::FuncDef { ident, args, expr } => Statement::FuncDef {
                ident: ident.clone(),
                args: clone_idents(args),
                expr: expr.clone(),
            },
            Statement::Let { ident, value } => Statement::Let {
                ident: ident.clone(),
                value: value.clone(),
            },
            Statement::For { ident, iter, expr } => Statement::For {
                ident: ident.clone(),
                iter: iter.clone(),
                expr: expr.clone(),
            },
        }
    }
}

impl Clone for Program {
    fn clone(&self) -> (res: Self)
        ensures
            res@ == self@,
    {
        Program { statements: clone_statements(&self.statements) }
    }
}

} // verus!
