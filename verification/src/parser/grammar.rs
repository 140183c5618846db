//! The grammar, as functions from a source's tokens to the models of syntax
//! trees.
//!
//! Each function reads one phrase that begins at the token `pos` and answers
//! with the phrase's tree and the number of tokens it is made of, or with the
//! place at which the phrase breaks off. The functions never look behind the
//! `Eof` that ends the tokens.
//!
//! A budget bounds how deeply phrases may nest: each expression within
//! another, and each prefix `-`, takes one level of it, and where none is
//! left reading fails with [`Expected::LessNesting`].
//!
//! Binary operators bind by level, weakest first: `=` (0, groups to the
//! right), `==` (1), `..` (2), `+ -` (3), `* / %` (4); those of levels 1 to 4
//! group to the left. The prefix `-` binds tighter than all of them, and the
//! postfix call and index tighter still.

use vstd::prelude::*;
use crate::ast::{
    BinaryOperator, ExprView, LiteralView, ProgramView, StatementView, UnaryOperatorView,
};
use crate::parser::{Expected, MAX_NESTING, ParseError};
use crate::parser::lexer::{Token, TokenKind, lex_spec};

verus! {

/// A phrase that was read: what it stands for, and how many tokens it has.
pub type Parsed<T> = Result<(T, nat), ParseError>;

/// The kind of the token `pos`; past the end, `Eof`.
pub open spec fn kind_at(toks: Seq<Token>, pos: nat) -> TokenKind {
    if pos < toks.len() {
        toks[pos as int].kind
    } else {
        TokenKind::Eof
    }
}

/// Where in the source the token `pos` begins.
pub open spec fn start_at(toks: Seq<Token>, pos: nat) -> usize {
    if pos < toks.len() {
        toks[pos as int].start
    } else {
        0
    }
}

/// The text that the token `pos` carries: a name's letters, or what stands
/// between a string's quotes.
pub open spec fn text_at(src: Seq<char>, toks: Seq<Token>, pos: nat) -> Seq<char> {
    let token = toks[pos as int];
    if token.kind == TokenKind::Str {
        src.subrange(token.start + 1, token.end - 1)
    } else {
        src.subrange(token.start as int, token.end as int)
    }
}

/// How many tokens stand from `pos` on.
pub open spec fn remaining(toks: Seq<Token>, pos: nat) -> nat {
    if pos < toks.len() {
        (toks.len() - pos) as nat
    } else {
        0
    }
}

/// The failure to find `expected` at the token `pos`.
pub open spec fn fail<T>(toks: Seq<Token>, pos: nat, expected: Expected) -> Parsed<T> {
    Err(ParseError { position: start_at(toks, pos), expected })
}

/// A phrase that was read after `by` tokens of a longer phrase, counted as
/// the longer phrase's end.
pub open spec fn shift<T>(parsed: Parsed<T>, by: nat) -> Parsed<T> {
    match parsed {
        Ok((value, n)) => Ok((value, n + by)),
        Err(e) => Err(e),
    }
}

/// The binary operator that a token writes.
pub open spec fn infix_operator(kind: TokenKind) -> Option<BinaryOperator> {
    match kind {
        TokenKind::Assign => Some(BinaryOperator::Assign),
        TokenKind::EqualEqual => Some(BinaryOperator::Equal),
        TokenKind::DotDot => Some(BinaryOperator::Range),
        TokenKind::Plus => Some(BinaryOperator::Add),
        TokenKind::Minus => Some(BinaryOperator::Subtract),
        TokenKind::Star => Some(BinaryOperator::Multiply),
        TokenKind::Slash => Some(BinaryOperator::Divide),
        TokenKind::Percent => Some(BinaryOperator::Modulo),
        _ => None,
    }
}

/// The level of a binary operator; a higher level binds tighter.
pub open spec fn precedence(operator: BinaryOperator) -> nat {
    match operator {
        BinaryOperator::Assign => 0,
        BinaryOperator::Equal => 1,
        BinaryOperator::Range => 2,
        BinaryOperator::Add | BinaryOperator::Subtract => 3,
        BinaryOperator::Multiply | BinaryOperator::Divide | BinaryOperator::Modulo => 4,
    }
}

/// Whether a binary operator groups to the right.
pub open spec fn right_associative(operator: BinaryOperator) -> bool {
    operator == BinaryOperator::Assign
}

/// The operator of level `level` that the token `pos` writes, if it writes one.
pub open spec fn operator_at(toks: Seq<Token>, pos: nat, level: nat) -> Option<BinaryOperator> {
    match infix_operator(kind_at(toks, pos)) {
        Some(operator) if precedence(operator) == level => Some(operator),
        _ => None,
    }
}

/// The failure to find what closes a list.
pub open spec fn closing(close: TokenKind) -> Expected {
    if close == TokenKind::RParen {
        Expected::CommaOrCloseParen
    } else {
        Expected::CommaOrCloseBracket
    }
}

/// A primary expression as a tree.
pub open spec fn primary(literal: LiteralView) -> ExprView {
    ExprView::Literal(literal)
}

/// How the functions of one place are ordered for the reading of a binary
/// expression of `level`.
pub open spec fn binary_rank(level: nat) -> int {
    if level >= 5 {
        4
    } else {
        9 - level
    }
}

/// Reads a primary expression: a constant, a name, an array, an `if`, a
/// block, or an expression in parentheses, which stands for itself.
#[verifier::opaque]
pub open spec fn parse_primary(
    src: Seq<char>,
    toks: Seq<Token>,
    pos: nat,
    depth: nat,
) -> Parsed<ExprView>
    decreases remaining(toks, pos), 1int,
{
    match kind_at(toks, pos) {
        TokenKind::Nothing => Ok((primary(LiteralView::Nothing), 1)),
        TokenKind::Number(n) => Ok((primary(LiteralView::Number(n)), 1)),
        TokenKind::True => Ok((primary(LiteralView::Bool(true)), 1)),
        TokenKind::False => Ok((primary(LiteralView::Bool(false)), 1)),
        TokenKind::Str => Ok((primary(LiteralView::String(text_at(src, toks, pos))), 1)),
        TokenKind::Ident => Ok((primary(LiteralView::Ident(text_at(src, toks, pos))), 1)),
        TokenKind::LBracket => match parse_list(src, toks, pos + 1, TokenKind::RBracket, depth) {
            Ok((items, n)) => Ok((primary(LiteralView::Array(items)), 1 + n)),
            Err(e) => Err(e),
        },
        TokenKind::LParen => match parse_expr(src, toks, pos + 1, depth) {
            Ok((inner, n)) => if kind_at(toks, pos + 1 + n) == TokenKind::RParen {
                Ok((inner, 2 + n))
            } else {
                fail(toks, pos + 1 + n, Expected::CloseParen)
            },
            Err(e) => Err(e),
        },
        TokenKind::LBrace => match parse_block(src, toks, pos + 1, Seq::empty(), depth) {
            Ok(((statements, tail), n)) => Ok(
                (
                    primary(LiteralView::Block { statements, return_value: Box::new(tail) }),
                    1 + n,
                ),
            ),
            Err(e) => Err(e),
        },
        TokenKind::If => match parse_expr(src, toks, pos + 1, depth) {
            Err(e) => Err(e),
            Ok((condition, n1)) => match parse_braced(src, toks, pos + 1 + n1, depth) {
                Err(e) => Err(e),
                Ok((expr, n2)) => if kind_at(toks, pos + 1 + n1 + n2) == TokenKind::Else {
                    match parse_braced(src, toks, pos + 2 + n1 + n2, depth) {
                        Err(e) => Err(e),
                        Ok((other, n3)) => Ok(
                            (
                                primary(
                                    LiteralView::If {
                                        condition: Box::new(condition),
                                        expr: Box::new(expr),
                                        or: Some(Box::new(other)),
                                    },
                                ),
                                2 + n1 + n2 + n3,
                            ),
                        ),
                    }
                } else {
                    Ok(
                        (
                            primary(
                                LiteralView::If {
                                    condition: Box::new(condition),
                                    expr: Box::new(expr),
                                    or: None,
                                },
                            ),
                            1 + n1 + n2,
                        ),
                    )
                },
            },
        },
        _ => fail(toks, pos, Expected::Expression),
    }
}

/// Reads `{`, an expression and `}`: a branch of an `if`.
#[verifier::opaque]
pub open spec fn parse_braced(
    src: Seq<char>,
    toks: Seq<Token>,
    pos: nat,
    depth: nat,
) -> Parsed<ExprView>
    decreases remaining(toks, pos), 0int,
{
    if kind_at(toks, pos) != TokenKind::LBrace {
        fail(toks, pos, Expected::OpenBrace)
    } else {
        match parse_expr(src, toks, pos + 1, depth) {
            Err(e) => Err(e),
            Ok((inner, n)) => if kind_at(toks, pos + 1 + n) == TokenKind::RBrace {
                Ok((inner, 2 + n))
            } else {
                fail(toks, pos + 1 + n, Expected::CloseBrace)
            },
        }
    }
}

/// Reads the items of a list and what closes it: nothing but `close`, or
/// expressions with a `,` between each two and `close` after the last.
#[verifier::opaque]
pub open spec fn parse_list(
    src: Seq<char>,
    toks: Seq<Token>,
    pos: nat,
    close: TokenKind,
    depth: nat,
) -> Parsed<
    Seq<ExprView>,
>
    decreases remaining(toks, pos), 12int,
{
    if kind_at(toks, pos) == close {
        Ok((Seq::empty(), 1))
    } else {
        parse_list_rest(src, toks, pos, close, Seq::empty(), depth)
    }
}

/// Reads the items of a list from one that must be there, after `done`.
#[verifier::opaque]
pub open spec fn parse_list_rest(
    src: Seq<char>,
    toks: Seq<Token>,
    pos: nat,
    close: TokenKind,
    done: Seq<ExprView>,
    depth: nat,
) -> Parsed<Seq<ExprView>>
    decreases remaining(toks, pos), 11int,
{
    match parse_expr(src, toks, pos, depth) {
        Err(e) => Err(e),
        Ok((item, n)) => if kind_at(toks, pos + n) == TokenKind::Comma {
            shift(parse_list_rest(src, toks, pos + n + 1, close, done.push(item), depth), n + 1)
        } else if kind_at(toks, pos + n) == close {
            Ok((done.push(item), n + 1))
        } else {
            fail(toks, pos + n, closing(close))
        },
    }
}

/// Reads the inside of a block and its `}`, after the statements `done`:
/// statements, each with a `;` after it, then an expression or nothing. The
/// block's value is that of the expression, or nothing's.
#[verifier::opaque]
pub open spec fn parse_block(
    src: Seq<char>,
    toks: Seq<Token>,
    pos: nat,
    done: Seq<StatementView>,
    depth: nat,
) -> Parsed<
    (Seq<StatementView>, ExprView),
>
    decreases remaining(toks, pos), 12int,
{
    if kind_at(toks, pos) == TokenKind::RBrace {
        Ok(((done, primary(LiteralView::Nothing)), 1))
    } else {
        match parse_statement(src, toks, pos, depth) {
            Err(e) => Err(e),
            Ok((statement, n)) => if kind_at(toks, pos + n) == TokenKind::Semicolon {
                shift(parse_block(src, toks, pos + n + 1, done.push(statement), depth), n + 1)
            } else {
                match statement {
                    StatementView::Expr(tail) if kind_at(toks, pos + n) == TokenKind::RBrace => Ok(
                        ((done, tail), n + 1),
                    ),
                    StatementView::Expr(_) => fail(toks, pos + n, Expected::CloseBrace),
                    _ => fail(toks, pos + n, Expected::Semicolon),
                }
            },
        }
    }
}

/// Reads a primary expression and the calls and indexings that follow it.
#[verifier::opaque]
pub open spec fn parse_postfix(
    src: Seq<char>,
    toks: Seq<Token>,
    pos: nat,
    depth: nat,
) -> Parsed<ExprView>
    decreases remaining(toks, pos), 2int,
{
    match parse_primary(src, toks, pos, depth) {
        Err(e) => Err(e),
        Ok((operand, n)) => shift(postfix_chain(src, toks, pos + n, operand, depth), n),
    }
}

/// Reads the calls and indexings that follow `operand`, the nearest first.
#[verifier::opaque]
pub open spec fn postfix_chain(
    src: Seq<char>,
    toks: Seq<Token>,
    pos: nat,
    operand: ExprView,
    depth: nat,
) -> Parsed<
    ExprView,
>
    decreases remaining(toks, pos), 0int,
{
    match kind_at(toks, pos) {
        TokenKind::LParen => match parse_list(src, toks, pos + 1, TokenKind::RParen, depth) {
            Err(e) => Err(e),
            Ok((args, n)) => shift(
                postfix_chain(
                    src,
                    toks,
                    pos + 1 + n,
                    ExprView::Unary {
                        operand: Box::new(operand),
                        operator: UnaryOperatorView::Call(args),
                    },
                    depth,
                ),
                1 + n,
            ),
        },
        TokenKind::LBracket => match parse_expr(src, toks, pos + 1, depth) {
            Err(e) => Err(e),
            Ok((index, n)) => if kind_at(toks, pos + 1 + n) == TokenKind::RBracket {
                shift(
                    postfix_chain(
                        src,
                        toks,
                        pos + 2 + n,
                        ExprView::Unary {
                            operand: Box::new(operand),
                            operator: UnaryOperatorView::Index(Box::new(index)),
                        },
                        depth,
                    ),
                    2 + n,
                )
            } else {
                fail(toks, pos + 1 + n, Expected::CloseBracket)
            },
        },
        _ => Ok((operand, 0)),
    }
}

/// Reads any number of prefix `-` and the postfix expression that they negate.
#[verifier::opaque]
pub open spec fn parse_unary(
    src: Seq<char>,
    toks: Seq<Token>,
    pos: nat,
    depth: nat,
) -> Parsed<ExprView>
    decreases remaining(toks, pos), 3int,
{
    if kind_at(toks, pos) != TokenKind::Minus {
        parse_postfix(src, toks, pos, depth)
    } else if depth == 0 {
        fail(toks, pos, Expected::LessNesting)
    } else {
        match parse_unary(src, toks, pos + 1, (depth - 1) as nat) {
            Err(e) => Err(e),
            Ok((operand, n)) => Ok(
                (
                    ExprView::Unary {
                        operand: Box::new(operand),
                        operator: UnaryOperatorView::Minus,
                    },
                    1 + n,
                ),
            ),
        }
    }
}

/// Reads an expression whose binary operators are all of `level` or above.
#[verifier::opaque]
pub open spec fn parse_binary(
    src: Seq<char>,
    toks: Seq<Token>,
    pos: nat,
    level: nat,
    depth: nat,
) -> Parsed<
    ExprView,
>
    decreases remaining(toks, pos), binary_rank(level),
{
    if level >= 5 {
        parse_unary(src, toks, pos, depth)
    } else {
        match parse_binary(src, toks, pos, level + 1, depth) {
            Err(e) => Err(e),
            Ok((lhs, n)) => match operator_at(toks, pos + n, level) {
                Some(operator) if right_associative(operator) => match parse_expr(
                    src,
                    toks,
                    pos + n + 1,
                    depth,
                ) {
                    Err(e) => Err(e),
                    Ok((rhs, m)) => Ok(
                        (
                            ExprView::Binary { lhs: Box::new(lhs), operator, rhs: Box::new(rhs) },
                            n + 1 + m,
                        ),
                    ),
                },
                _ => shift(binary_chain(src, toks, pos + n, level, lhs, depth), n),
            },
        }
    }
}

/// Reads the operators of `level` that follow `lhs`, each with its right
/// operand, and groups them to the left.
#[verifier::opaque]
pub open spec fn binary_chain(
    src: Seq<char>,
    toks: Seq<Token>,
    pos: nat,
    level: nat,
    lhs: ExprView,
    depth: nat,
) -> Parsed<ExprView>
    decreases remaining(toks, pos), 0int,
{
    match operator_at(toks, pos, level) {
        Some(operator) => match parse_binary(src, toks, pos + 1, level + 1, depth) {
            Err(e) => Err(e),
            Ok((rhs, n)) => shift(
                binary_chain(
                    src,
                    toks,
                    pos + 1 + n,
                    level,
                    ExprView::Binary { lhs: Box::new(lhs), operator, rhs: Box::new(rhs) },
                    depth,
                ),
                1 + n,
            ),
        },
        None => Ok((lhs, 0)),
    }
}

/// Reads an expression. With no nesting to spare there is none to read.
#[verifier::opaque]
pub open spec fn parse_expr(
    src: Seq<char>,
    toks: Seq<Token>,
    pos: nat,
    depth: nat,
) -> Parsed<ExprView>
    decreases remaining(toks, pos), 10int,
{
    if depth == 0 {
        fail(toks, pos, Expected::LessNesting)
    } else {
        parse_binary(src, toks, pos, 0, (depth - 1) as nat)
    }
}

/// Reads the parameters of a function and the `)` after them.
pub open spec fn parse_params(
    src: Seq<char>,
    toks: Seq<Token>,
    pos: nat,
) -> Parsed<Seq<Seq<char>>> {
    if kind_at(toks, pos) == TokenKind::RParen {
        Ok((Seq::empty(), 1))
    } else {
        parse_params_rest(src, toks, pos, Seq::empty())
    }
}

/// Reads the parameters from one that must be there, after `done`.
#[verifier::opaque]
pub open spec fn parse_params_rest(
    src: Seq<char>,
    toks: Seq<Token>,
    pos: nat,
    done: Seq<Seq<char>>,
) -> Parsed<Seq<Seq<char>>>
    decreases remaining(toks, pos),
{
    if kind_at(toks, pos) != TokenKind::Ident {
        fail(toks, pos, Expected::Identifier)
    } else if kind_at(toks, pos + 1) == TokenKind::Comma {
        shift(parse_params_rest(src, toks, pos + 2, done.push(text_at(src, toks, pos))), 2)
    } else if kind_at(toks, pos + 1) == TokenKind::RParen {
        Ok((done.push(text_at(src, toks, pos)), 2))
    } else {
        fail(toks, pos + 1, Expected::CommaOrCloseParen)
    }
}

/// Reads a statement: `let name = value`, `for name in source body`,
/// `func name(parameters) = body`, or an expression.
#[verifier::opaque]
pub open spec fn parse_statement(src: Seq<char>, toks: Seq<Token>, pos: nat, depth: nat) -> Parsed<
    StatementView,
>
    decreases remaining(toks, pos), 11int,
{
    match kind_at(toks, pos) {
        TokenKind::Let => if kind_at(toks, pos + 1) != TokenKind::Ident {
            fail(toks, pos + 1, Expected::Identifier)
        } else if kind_at(toks, pos + 2) != TokenKind::Assign {
            fail(toks, pos + 2, Expected::Assign)
        } else {
            match parse_expr(src, toks, pos + 3, depth) {
                Err(e) => Err(e),
                Ok((value, n)) => Ok(
                    (StatementView::Let { ident: text_at(src, toks, pos + 1), value }, 3 + n),
                ),
            }
        },
        TokenKind::For => if kind_at(toks, pos + 1) != TokenKind::Ident {
            fail(toks, pos + 1, Expected::Identifier)
        } else if kind_at(toks, pos + 2) != TokenKind::In {
            fail(toks, pos + 2, Expected::In)
        } else {
            match parse_expr(src, toks, pos + 3, depth) {
                Err(e) => Err(e),
                Ok((iter, n1)) => match parse_expr(src, toks, pos + 3 + n1, depth) {
                    Err(e) => Err(e),
                    Ok((expr, n2)) => Ok(
                        (
                            StatementView::For { ident: text_at(src, toks, pos + 1), iter, expr },
                            3 + n1 + n2,
                        ),
                    ),
                },
            }
        },
        TokenKind::Func => if kind_at(toks, pos + 1) != TokenKind::Ident {
            fail(toks, pos + 1, Expected::Identifier)
        } else if kind_at(toks, pos + 2) != TokenKind::LParen {
            fail(toks, pos + 2, Expected::OpenParen)
        } else {
            match parse_params(src, toks, pos + 3) {
                Err(e) => Err(e),
                Ok((args, k)) => if kind_at(toks, pos + 3 + k) != TokenKind::Assign {
                    fail(toks, pos + 3 + k, Expected::Assign)
                } else {
                    match parse_expr(src, toks, pos + 4 + k, depth) {
                        Err(e) => Err(e),
                        Ok((expr, n)) => Ok(
                            (
                                StatementView::FuncDef {
                                    ident: text_at(src, toks, pos + 1),
                                    args,
                                    expr,
                                },
                                4 + k + n,
                            ),
                        ),
                    }
                },
            }
        },
        _ => match parse_expr(src, toks, pos, depth) {
            Err(e) => Err(e),
            Ok((expr, n)) => Ok((StatementView::Expr(expr), n)),
        },
    }
}

/// A primary expression has at least one token.
#[verifier::spinoff_prover]
proof fn lemma_primary_has_tokens(src: Seq<char>, toks: Seq<Token>, pos: nat, depth: nat)
    ensures
        parse_primary(src, toks, pos, depth) matches Ok((_, n)) ==> n >= 1,
{
    reveal(parse_primary);
}

/// A primary expression with what follows it has at least one token.
#[verifier::spinoff_prover]
proof fn lemma_postfix_has_tokens(src: Seq<char>, toks: Seq<Token>, pos: nat, depth: nat)
    ensures
        parse_postfix(src, toks, pos, depth) matches Ok((_, n)) ==> n >= 1,
{
    reveal(parse_postfix);
    lemma_primary_has_tokens(src, toks, pos, depth);
}

/// An expression without binary operators has at least one token.
#[verifier::spinoff_prover]
proof fn lemma_unary_has_tokens(src: Seq<char>, toks: Seq<Token>, pos: nat, depth: nat)
    ensures
        parse_unary(src, toks, pos, depth) matches Ok((_, n)) ==> n >= 1,
{
    reveal(parse_unary);
    lemma_postfix_has_tokens(src, toks, pos, depth);
}

/// An expression of any level has at least one token.
#[verifier::spinoff_prover]
proof fn lemma_binary_has_tokens(src: Seq<char>, toks: Seq<Token>, pos: nat, level: nat, depth: nat)
    ensures
        parse_binary(src, toks, pos, level, depth) matches Ok((_, n)) ==> n >= 1,
    decreases binary_rank(level),
{
    reveal(parse_binary);
    if level >= 5 {
        lemma_unary_has_tokens(src, toks, pos, depth);
    } else {
        lemma_binary_has_tokens(src, toks, pos, level + 1, depth);
    }
}

/// An expression has at least one token.
#[verifier::spinoff_prover]
proof fn lemma_expr_has_tokens(src: Seq<char>, toks: Seq<Token>, pos: nat, depth: nat)
    ensures
        parse_expr(src, toks, pos, depth) matches Ok((_, n)) ==> n >= 1,
{
    reveal(parse_expr);
    if depth > 0 {
        lemma_binary_has_tokens(src, toks, pos, 0, (depth - 1) as nat);
    }
}

/// Every statement has at least one token: reading goes on.
#[verifier::spinoff_prover]
pub proof fn lemma_statement_has_tokens(src: Seq<char>, toks: Seq<Token>, pos: nat, depth: nat)
    ensures
        parse_statement(src, toks, pos, depth) matches Ok((_, n)) ==> n >= 1,
{
    reveal(parse_statement);
    lemma_expr_has_tokens(src, toks, pos, depth);
}

/// Reads the statements of a program from the token `pos` to the end, after
/// `done`. A `;` may follow a statement.
#[verifier::opaque]
pub open spec fn parse_program(
    src: Seq<char>,
    toks: Seq<Token>,
    pos: nat,
    done: Seq<StatementView>,
    depth: nat,
) -> Result<
    Seq<StatementView>,
    ParseError,
>
    decreases remaining(toks, pos),
{
    if kind_at(toks, pos) == TokenKind::Eof {
        Ok(done)
    } else {
        match parse_statement(src, toks, pos, depth) {
            Err(e) => Err(e),
            Ok((statement, n)) => {
                proof {
                    lemma_statement_has_tokens(src, toks, pos, depth);
                }
                if kind_at(toks, pos + n) == TokenKind::Semicolon {
                    parse_program(src, toks, pos + n + 1, done.push(statement), depth)
                } else {
                    parse_program(src, toks, pos + n, done.push(statement), depth)
                }
            },
        }
    }
}

/// The program that a source text writes, or where and why it writes none.
pub open spec fn parse_spec(src: Seq<char>) -> Result<ProgramView, ParseError> {
    match lex_spec(src) {
        Err(e) => Err(e),
        Ok(toks) => match parse_program(src, toks, 0, Seq::empty(), MAX_NESTING as nat) {
            Err(e) => Err(e),
            Ok(statements) => Ok(ProgramView { statements }),
        },
    }
}

} // verus!
