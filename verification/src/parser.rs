//! The parser: source text to syntax tree.

use vstd::prelude::*;
use vstd::std_specs::iter::IteratorSpec;
use vstd::string::StringExecFns;
use crate::ast::{
    BinaryOperator, Expr, ExprView, Ident, Literal, Program, Statement, StatementView,
    UnaryOperator, exprs_view, idents_view, statements_view,
};
use crate::parser::grammar::{Parsed, closing, primary, shift, text_at};
use crate::parser::lexer::{Token, TokenKind, lex, tokens_ok};

pub mod grammar;
pub mod laws;
pub mod lexer;

verus! {

/// What the parser looked for where it gave up.
#[derive(Debug, Clone, Copy, PartialEq, Eq, Structural)]
pub enum Expected {
    /// A character with which a token begins.
    Token,
    /// The `"` that closes a string.
    StringEnd,
    /// A number literal of at most `i32::MAX`.
    NumberInRange,
    /// The first token of an expression.
    Expression,
    /// A name.
    Identifier,
    /// `=`
    Assign,
    /// The word `in`.
    In,
    /// `(`
    OpenParen,
    /// `)`
    CloseParen,
    /// `]`
    CloseBracket,
    /// `,` before another argument or parameter, or `)` after the last.
    CommaOrCloseParen,
    /// `,` before another item of an array, or `]` after the last.
    CommaOrCloseBracket,
    /// `{`
    OpenBrace,
    /// `}`
    CloseBrace,
    /// `;` after a statement in a block.
    Semicolon,
    /// An expression that nests no deeper than [`MAX_NESTING`].
    LessNesting,
}

/// How deeply expressions may nest in a source text.
pub const MAX_NESTING: usize = 256;

impl Expected {
    /// What was looked for, in words.
    pub open spec fn description(self) -> Seq<char> {
        match self {
            Expected::Token => "expected a token"@,
            Expected::StringEnd => "expected the end of the string"@,
            Expected::NumberInRange => "expected a number of at most 2147483647"@,
            Expected::Expression => "expected an expression"@,
            Expected::Identifier => "expected a name"@,
            Expected::Assign => "expected `=`"@,
            Expected::In => "expected `in`"@,
            Expected::OpenParen => "expected `(`"@,
            Expected::CloseParen => "expected `)`"@,
            Expected::CloseBracket => "expected `]`"@,
            Expected::CommaOrCloseParen => "expected `,` or `)`"@,
            Expected::CommaOrCloseBracket => "expected `,` or `]`"@,
            Expected::OpenBrace => "expected `{`"@,
            Expected::CloseBrace => "expected `}`"@,
            Expected::Semicolon => "expected `;`"@,
            Expected::LessNesting => "expected less nesting"@,
        }
    }
}

/// A parse failure: where in the source, counted in characters from 0, and
/// what was looked for there.
#[derive(Debug, Clone, Copy, PartialEq, Eq, Structural)]
pub struct ParseError {
    pub position: usize,
    pub expected: Expected,
}

impl ParseError {
    /// What was looked for at [`ParseError::position`], in words.
    pub fn message(&self) -> (text: String)
        ensures
            text@ == self.expected.description(),
    {
        match self.expected {
            Expected::Token => String::from_str("expected a token"),
            Expected::StringEnd => String::from_str("expected the end of the string"),
            Expected::NumberInRange => String::from_str("expected a number of at most 2147483647"),
            Expected::Expression => String::from_str("expected an expression"),
            Expected::Identifier => String::from_str("expected a name"),
            Expected::Assign => String::from_str("expected `=`"),
            Expected::In => String::from_str("expected `in`"),
            Expected::OpenParen => String::from_str("expected `(`"),
            Expected::CloseParen => String::from_str("expected `)`"),
            Expected::CloseBracket => String::from_str("expected `]`"),
            Expected::CommaOrCloseParen => String::from_str("expected `,` or `)`"),
            Expected::CommaOrCloseBracket => String::from_str("expected `,` or `]`"),
            Expected::OpenBrace => String::from_str("expected `{`"),
            Expected::CloseBrace => String::from_str("expected `}`"),
            Expected::Semicolon => String::from_str("expected `;`"),
            Expected::LessNesting => String::from_str("expected less nesting"),
        }
    }
}

/// The characters of a text, in order.
pub fn chars_of(text: &str) -> (chars: Vec<char>)
    ensures
        chars@ == text@,
{
    let mut chars: Vec<char> = Vec::new();
    for c in it: text.chars()
        invariant
            chars@ == it.seq().take(it.index() as int),
            it.seq() == text@,
    {
        chars.push(c);
    }
    chars
}

/// `String::push` appends the character to the end of the string.
pub assume_specification[ std::string::String::push ](s: &mut std::string::String, ch: char)
    ensures
        final(s)@ == old(s)@.push(ch),
;

/// The text of the source from `start` to `end`.
fn text_of(src: &Vec<char>, start: usize, end: usize) -> (text: String)
    requires
        start <= end <= src.len(),
    ensures
        text@ == src@.subrange(start as int, end as int),
{
    let mut text = String::new();
    let mut i = start;
    while i < end
        invariant
            start <= i <= end <= src.len(),
            text@ == src@.subrange(start as int, i as int),
        decreases end - i,
    {
        text.push(src[i]);
        i += 1;
        assert(text@ =~= src@.subrange(start as int, i as int));
    }
    text
}

/// The text that a name or a string token carries.
fn token_text(src: &Vec<char>, toks: &Vec<Token>, pos: usize) -> (text: String)
    requires
        tokens_ok(src@, toks@),
        pos < toks.len() - 1,
    ensures
        text@ == text_at(src@, toks@, pos as nat),
{
    let token = toks[pos];
    if token.kind == TokenKind::Str {
        text_of(src, token.start + 1, token.end - 1)
    } else {
        text_of(src, token.start, token.end)
    }
}

/// The model of what reading an expression gave: the tree's model, and the
/// number of tokens from `pos` to where reading stopped.
pub open spec fn expr_at(res: Result<(Expr, usize), ParseError>, pos: usize) -> Parsed<ExprView> {
    match res {
        Ok((expr, next)) => Ok((expr@, (next - pos) as nat)),
        Err(e) => Err(e),
    }
}

/// The model of what reading a list gave.
pub open spec fn exprs_at(res: Result<(Vec<Expr>, usize), ParseError>, pos: usize) -> Parsed<
    Seq<ExprView>,
> {
    match res {
        Ok((exprs, next)) => Ok((exprs_view(exprs@), (next - pos) as nat)),
        Err(e) => Err(e),
    }
}

/// The model of what reading parameters gave.
pub open spec fn idents_at(res: Result<(Vec<Ident>, usize), ParseError>, pos: usize) -> Parsed<
    Seq<Seq<char>>,
> {
    match res {
        Ok((idents, next)) => Ok((idents_view(idents@), (next - pos) as nat)),
        Err(e) => Err(e),
    }
}

/// The model of what reading a statement gave.
pub open spec fn statement_at(res: Result<(Statement, usize), ParseError>, pos: usize) -> Parsed<
    StatementView,
> {
    match res {
        Ok((statement, next)) => Ok((statement@, (next - pos) as nat)),
        Err(e) => Err(e),
    }
}

/// The model of what reading a block gave.
pub open spec fn block_at(
    res: Result<(Vec<Statement>, Expr, usize), ParseError>,
    pos: usize,
) -> Parsed<
    (Seq<StatementView>, ExprView),
> {
    match res {
        Ok((statements, tail, next)) => Ok(
            ((statements_view(statements@), tail@), (next - pos) as nat),
        ),
        Err(e) => Err(e),
    }
}

/// Reading that succeeded went on by at least one token and stopped before
/// the end of the tokens.
pub open spec fn advanced<T>(res: Result<(T, usize), ParseError>, pos: usize, len: nat) -> bool {
    res matches Ok((_, next)) ==> pos < next < len
}

/// A primary expression as a tree.
fn lit(literal: Literal) -> (expr: Expr)
    ensures
        expr@ == primary(literal@),
{
    Expr::Literal(literal)
}

/// The failure to find `expected` at the token `pos`.
fn fail_at(toks: &Vec<Token>, pos: usize, expected: Expected) -> (e: ParseError)
    requires
        pos < toks.len(),
    ensures
        Err::<(ExprView, nat), ParseError>(e) == grammar::fail::<ExprView>(
            toks@,
            pos as nat,
            expected,
        ),
        e == (ParseError { position: grammar::start_at(toks@, pos as nat), expected }),
{
    ParseError { position: toks[pos].start, expected }
}

/// The binary operator that a token writes.
fn infix_operator_of(kind: TokenKind) -> (operator: Option<BinaryOperator>)
    ensures
        operator == grammar::infix_operator(kind),
{
    match kind {
        TokenKind::Assign => Some(BinaryOperator::Assign),
        TokenKind::EqualEqual => Some(BinaryOperator::Equal),
        TokenKind::DotDot => Some(BinaryOperator::Range),
        TokenKind::Plus => Some(BinaryOperator::Add),
        TokenKind::Minus => Some(BinaryOperator::Subtract),
        TokenKind::Star => Some(BinaryOperator::Multiply),
        TokenKind::Slash => Some(BinaryOperator::Divide),
        TokenKind::Percent => Some(BinaryOperator::Modulo),
        _ => None,
    }
}

/// The level of a binary operator.
fn precedence_of(operator: BinaryOperator) -> (level: usize)
    ensures
        level == grammar::precedence(operator),
{
    match operator {
        BinaryOperator::Assign => 0,
        BinaryOperator::Equal => 1,
        BinaryOperator::Range => 2,
        BinaryOperator::Add | BinaryOperator::Subtract => 3,
        BinaryOperator::Multiply | BinaryOperator::Divide | BinaryOperator::Modulo => 4,
    }
}

/// Whether a binary operator groups to the right.
fn groups_to_the_right(operator: BinaryOperator) -> (right: bool)
    ensures
        right == grammar::right_associative(operator),
{
    match operator {
        BinaryOperator::Assign => true,
        _ => false,
    }
}

/// The operator of `level` that a token writes, if it writes one.
fn operator_of(toks: &Vec<Token>, pos: usize, level: usize) -> (operator: Option<BinaryOperator>)
    requires
        pos < toks.len(),
    ensures
        operator == grammar::operator_at(toks@, pos as nat, level as nat),
{
    match infix_operator_of(toks[pos].kind) {
        Some(operator) => if precedence_of(operator) == level {
            Some(operator)
        } else {
            None
        },
        None => None,
    }
}

/// Reads a primary expression that begins at the token `pos`.
#[verifier::spinoff_prover]
fn parse_primary(src: &Vec<char>, toks: &Vec<Token>, pos: usize, depth: usize) -> (res: Result<
    (Expr, usize),
    ParseError,
>)
    requires
        tokens_ok(src@, toks@),
        pos < toks.len(),
    ensures
        expr_at(res, pos) == grammar::parse_primary(src@, toks@, pos as nat, depth as nat),
        advanced(res, pos, toks@.len()),
    decreases toks.len() - pos, 1int,
{
    proof {
        reveal(grammar::parse_primary);
    }
    match toks[pos].kind {
        TokenKind::Nothing => Ok((lit(Literal::Nothing), pos + 1)),
        TokenKind::Number(n) => Ok((lit(Literal::Number(n)), pos + 1)),
        TokenKind::True => Ok((lit(Literal::Bool(true)), pos + 1)),
        TokenKind::False => Ok((lit(Literal::Bool(false)), pos + 1)),
        TokenKind::Str => Ok((lit(Literal::String(token_text(src, toks, pos))), pos + 1)),
        TokenKind::Ident => Ok((lit(Literal::Ident(Ident(token_text(src, toks, pos)))), pos + 1)),
        TokenKind::LBracket => match parse_list(src, toks, pos + 1, TokenKind::RBracket, depth) {
            Ok((items, next)) => Ok((lit(Literal::Array(items)), next)),
            Err(e) => Err(e),
        },
        TokenKind::LParen => match parse_expr(src, toks, pos + 1, depth) {
            Ok((inner, next)) => if toks[next].kind == TokenKind::RParen {
                Ok((inner, next + 1))
            } else {
                Err(fail_at(toks, next, Expected::CloseParen))
            },
            Err(e) => Err(e),
        },
        TokenKind::LBrace => match parse_block(src, toks, pos + 1, depth) {
            Ok((statements, tail, next)) => Ok(
                (lit(Literal::Block { statements, return_value: Box::new(tail) }), next),
            ),
            Err(e) => Err(e),
        },
        TokenKind::If => {
            let (condition, p1) = match parse_expr(src, toks, pos + 1, depth) {
                Ok(parsed) => parsed,
                Err(e) => {
                    return Err(e);
                },
            };
            let (expr, p2) = match parse_braced(src, toks, p1, depth) {
                Ok(parsed) => parsed,
                Err(e) => {
                    return Err(e);
                },
            };
            if toks[p2].kind == TokenKind::Else {
                match parse_braced(src, toks, p2 + 1, depth) {
                    Ok((other, p3)) => Ok(
                        (
                            lit(
                                Literal::If {
                                    condition: Box::new(condition),
                                    expr: Box::new(expr),
                                    or: Some(Box::new(other)),
                                },
                            ),
                            p3,
                        ),
                    ),
                    Err(e) => Err(e),
                }
            } else {
                Ok(
                    (
                        lit(
                            Literal::If {
                                condition: Box::new(condition),
                                expr: Box::new(expr),
                                or: None,
                            },
                        ),
                        p2,
                    ),
                )
            }
        },
        _ => Err(fail_at(toks, pos, Expected::Expression)),
    }
}

/// Reads `{`, an expression and `}`.
#[verifier::spinoff_prover]
fn parse_braced(src: &Vec<char>, toks: &Vec<Token>, pos: usize, depth: usize) -> (res: Result<
    (Expr, usize),
    ParseError,
>)
    requires
        tokens_ok(src@, toks@),
        pos < toks.len(),
    ensures
        expr_at(res, pos) == grammar::parse_braced(src@, toks@, pos as nat, depth as nat),
        advanced(res, pos, toks@.len()),
    decreases toks.len() - pos, 0int,
{
    proof {
        reveal(grammar::parse_braced);
    }
    if toks[pos].kind != TokenKind::LBrace {
        return Err(fail_at(toks, pos, Expected::OpenBrace));
    }
    match parse_expr(src, toks, pos + 1, depth) {
        Ok((inner, next)) => if toks[next].kind == TokenKind::RBrace {
            Ok((inner, next + 1))
        } else {
            Err(fail_at(toks, next, Expected::CloseBrace))
        },
        Err(e) => Err(e),
    }
}

/// Reads the items of a list and what closes it.
#[verifier::spinoff_prover]
fn parse_list(
    src: &Vec<char>,
    toks: &Vec<Token>,
    pos: usize,
    close: TokenKind,
    depth: usize,
) -> (res: Result<
    (Vec<Expr>, usize),
    ParseError,
>)
    requires
        tokens_ok(src@, toks@),
        pos < toks.len(),
        close == TokenKind::RParen || close == TokenKind::RBracket,
    ensures
        exprs_at(res, pos) == grammar::parse_list(src@, toks@, pos as nat, close, depth as nat),
        advanced(res, pos, toks@.len()),
    decreases toks.len() - pos, 12int,
{
    proof {
        reveal(grammar::parse_list);
        reveal(grammar::parse_list_rest);
    }
    let mut items: Vec<Expr> = Vec::new();
    assert(exprs_view(items@) =~= Seq::empty());
    if toks[pos].kind == close {
        return Ok((items, pos + 1));
    }
    let ghost whole = grammar::parse_list_rest(
        src@,
        toks@,
        pos as nat,
        close,
        Seq::empty(),
        depth as nat,
    );
    let mut p = pos;
    loop
        invariant
            tokens_ok(src@, toks@),
            pos <= p < toks.len(),
            close == TokenKind::RParen || close == TokenKind::RBracket,
            whole == grammar::parse_list(src@, toks@, pos as nat, close, depth as nat),
            whole == shift(
                grammar::parse_list_rest(
                    src@,
                    toks@,
                    p as nat,
                    close,
                    exprs_view(items@),
                    depth as nat,
                ),
                (p - pos) as nat,
            ),
        decreases toks.len() - p,
    {
        proof {
            reveal(grammar::parse_list);
            reveal(grammar::parse_list_rest);
        }
        let ghost done = exprs_view(items@);
        let (item, next) = match parse_expr(src, toks, p, depth) {
            Ok(parsed) => parsed,
            Err(e) => {
                return Err(e);
            },
        };
        items.push(item);
        assert(exprs_view(items@) =~= done.push(item@));
        let kind = toks[next].kind;
        if kind == TokenKind::Comma {
            p = next + 1;
        } else if kind == close {
            return Ok((items, next + 1));
        } else {
            return Err(fail_at(toks, next, closing_of(close)));
        }
    }
}

/// What is missing where a list does not close.
fn closing_of(close: TokenKind) -> (expected: Expected)
    ensures
        expected == closing(close),
{
    if close == TokenKind::RParen {
        Expected::CommaOrCloseParen
    } else {
        Expected::CommaOrCloseBracket
    }
}

/// Reads the inside of a block and its `}`.
#[verifier::spinoff_prover]
fn parse_block(src: &Vec<char>, toks: &Vec<Token>, pos: usize, depth: usize) -> (res: Result<
    (Vec<Statement>, Expr, usize),
    ParseError,
>)
    requires
        tokens_ok(src@, toks@),
        pos < toks.len(),
    ensures
        block_at(res, pos) == grammar::parse_block(
            src@,
            toks@,
            pos as nat,
            Seq::empty(),
            depth as nat,
        ),
        res matches Ok((_, _, next)) ==> pos < next < toks.len(),
    decreases toks.len() - pos, 12int,
{
    proof {
        reveal(grammar::parse_block);
    }
    let mut statements: Vec<Statement> = Vec::new();
    assert(statements_view(statements@) =~= Seq::empty());
    let ghost whole = grammar::parse_block(src@, toks@, pos as nat, Seq::empty(), depth as nat);
    let mut p = pos;
    loop
        invariant
            tokens_ok(src@, toks@),
            pos <= p < toks.len(),
            whole == grammar::parse_block(src@, toks@, pos as nat, Seq::empty(), depth as nat),
            whole == shift(
                grammar::parse_block(
                    src@,
                    toks@,
                    p as nat,
                    statements_view(statements@),
                    depth as nat,
                ),
                (p - pos) as nat,
            ),
        decreases toks.len() - p,
    {
        proof {
            reveal(grammar::parse_block);
        }
        if toks[p].kind == TokenKind::RBrace {
            return Ok((statements, lit(Literal::Nothing), p + 1));
        }
        let ghost done = statements_view(statements@);
        let (statement, next) = match parse_statement(src, toks, p, depth) {
            Ok(parsed) => parsed,
            Err(e) => {
                return Err(e);
            },
        };
        if toks[next].kind == TokenKind::Semicolon {
            statements.push(statement);
            assert(statements_view(statements@) =~= done.push(statement@));
            p = next + 1;
        } else {
            match statement {
                Statement::Expr(tail) => {
                    if toks[next].kind == TokenKind::RBrace {
                        return Ok((statements, tail, next + 1));
                    } else {
                        return Err(fail_at(toks, next, Expected::CloseBrace));
                    }
                },
                _ => {
                    return Err(fail_at(toks, next, Expected::Semicolon));
                },
            }
        }
    }
}

/// Reads a primary expression and the calls and indexings that follow it.
#[verifier::spinoff_prover]
fn parse_postfix(src: &Vec<char>, toks: &Vec<Token>, pos: usize, depth: usize) -> (res: Result<
    (Expr, usize),
    ParseError,
>)
    requires
        tokens_ok(src@, toks@),
        pos < toks.len(),
    ensures
        expr_at(res, pos) == grammar::parse_postfix(src@, toks@, pos as nat, depth as nat),
        advanced(res, pos, toks@.len()),
    decreases toks.len() - pos, 2int,
{
    proof {
        reveal(grammar::parse_postfix);
        reveal(grammar::postfix_chain);
    }
    let (first, start) = match parse_primary(src, toks, pos, depth) {
        Ok(parsed) => parsed,
        Err(e) => {
            return Err(e);
        },
    };
    let ghost whole = grammar::parse_postfix(src@, toks@, pos as nat, depth as nat);
    let mut operand = first;
    let mut p = start;
    loop
        invariant
            tokens_ok(src@, toks@),
            pos < p < toks.len(),
            whole == grammar::parse_postfix(src@, toks@, pos as nat, depth as nat),
            whole == shift(
                grammar::postfix_chain(src@, toks@, p as nat, operand@, depth as nat),
                (p - pos) as nat,
            ),
        decreases toks.len() - p,
    {
        proof {
            reveal(grammar::parse_postfix);
            reveal(grammar::postfix_chain);
        }
        match toks[p].kind {
            TokenKind::LParen => {
                let (args, next) = match parse_list(src, toks, p + 1, TokenKind::RParen, depth) {
                    Ok(parsed) => parsed,
                    Err(e) => {
                        return Err(e);
                    },
                };
                let operator = UnaryOperator::Call(args);
                assert(operator@ == crate::ast::UnaryOperatorView::Call(exprs_view(args@)));
                operand = Expr::Unary { operand: Box::new(operand), operator };
                p = next;
            },
            TokenKind::LBracket => {
                let (index, next) = match parse_expr(src, toks, p + 1, depth) {
                    Ok(parsed) => parsed,
                    Err(e) => {
                        return Err(e);
                    },
                };
                if toks[next].kind != TokenKind::RBracket {
                    return Err(fail_at(toks, next, Expected::CloseBracket));
                }
                let operator = UnaryOperator::Index(Box::new(index));
                assert(operator@ == crate::ast::UnaryOperatorView::Index(Box::new(index@)));
                operand = Expr::Unary { operand: Box::new(operand), operator };
                p = next + 1;
            },
            _ => {
                return Ok((operand, p));
            },
        }
    }
}

/// Reads any number of prefix `-` and what they negate.
#[verifier::spinoff_prover]
fn parse_unary(src: &Vec<char>, toks: &Vec<Token>, pos: usize, depth: usize) -> (res: Result<
    (Expr, usize),
    ParseError,
>)
    requires
        tokens_ok(src@, toks@),
        pos < toks.len(),
    ensures
        expr_at(res, pos) == grammar::parse_unary(src@, toks@, pos as nat, depth as nat),
        advanced(res, pos, toks@.len()),
    decreases toks.len() - pos, 3int,
{
    proof {
        reveal(grammar::parse_unary);
    }
    if toks[pos].kind != TokenKind::Minus {
        parse_postfix(src, toks, pos, depth)
    } else if depth == 0 {
        Err(fail_at(toks, pos, Expected::LessNesting))
    } else {
        match parse_unary(src, toks, pos + 1, depth - 1) {
            Ok((operand, next)) => {
                let operator = UnaryOperator::Minus;
                assert(operator@ == crate::ast::UnaryOperatorView::Minus);
                Ok((Expr::Unary { operand: Box::new(operand), operator }, next))
            },
            Err(e) => Err(e),
        }
    }
}

/// Reads an expression whose binary operators are all of `level` or above.
#[verifier::spinoff_prover]
fn parse_binary(
    src: &Vec<char>,
    toks: &Vec<Token>,
    pos: usize,
    level: usize,
    depth: usize,
) -> (res: Result<
    (Expr, usize),
    ParseError,
>)
    requires
        tokens_ok(src@, toks@),
        pos < toks.len(),
    ensures
        expr_at(res, pos) == grammar::parse_binary(
            src@,
            toks@,
            pos as nat,
            level as nat,
            depth as nat,
        ),
        advanced(res, pos, toks@.len()),
    decreases toks.len() - pos, grammar::binary_rank(level as nat),
{
    proof {
        reveal(grammar::parse_binary);
        reveal(grammar::binary_chain);
    }
    if level >= 5 {
        return parse_unary(src, toks, pos, depth);
    }
    let (first, start) = match parse_binary(src, toks, pos, level + 1, depth) {
        Ok(parsed) => parsed,
        Err(e) => {
            return Err(e);
        },
    };
    if let Some(operator) = operator_of(toks, start, level) {
        if groups_to_the_right(operator) {
            return match parse_expr(src, toks, start + 1, depth) {
                Ok((rhs, next)) => Ok(
                    (Expr::Binary { lhs: Box::new(first), operator, rhs: Box::new(rhs) }, next),
                ),
                Err(e) => Err(e),
            };
        }
    }
    let ghost whole = grammar::parse_binary(src@, toks@, pos as nat, level as nat, depth as nat);
    let mut lhs = first;
    let mut p = start;
    loop
        invariant
            tokens_ok(src@, toks@),
            pos < p < toks.len(),
            level < 5,
            whole == grammar::parse_binary(src@, toks@, pos as nat, level as nat, depth as nat),
            whole == shift(
                grammar::binary_chain(src@, toks@, p as nat, level as nat, lhs@, depth as nat),
                (p - pos) as nat,
            ),
        decreases toks.len() - p,
    {
        proof {
            reveal(grammar::parse_binary);
            reveal(grammar::binary_chain);
        }
        match operator_of(toks, p, level) {
            Some(operator) => {
                let (rhs, next) = match parse_binary(src, toks, p + 1, level + 1, depth) {
                    Ok(parsed) => parsed,
                    Err(e) => {
                        return Err(e);
                    },
                };
                lhs = Expr::Binary { lhs: Box::new(lhs), operator, rhs: Box::new(rhs) };
                p = next;
            },
            None => {
                return Ok((lhs, p));
            },
        }
    }
}

/// Reads an expression that begins at the token `pos`.
#[verifier::spinoff_prover]
fn parse_expr(src: &Vec<char>, toks: &Vec<Token>, pos: usize, depth: usize) -> (res: Result<
    (Expr, usize),
    ParseError,
>)
    requires
        tokens_ok(src@, toks@),
        pos < toks.len(),
    ensures
        expr_at(res, pos) == grammar::parse_expr(src@, toks@, pos as nat, depth as nat),
        advanced(res, pos, toks@.len()),
    decreases toks.len() - pos, 10int,
{
    proof {
        reveal(grammar::parse_expr);
    }
    if depth == 0 {
        Err(fail_at(toks, pos, Expected::LessNesting))
    } else {
        parse_binary(src, toks, pos, 0, depth - 1)
    }
}

/// Reads the parameters of a function and the `)` after them.
#[verifier::spinoff_prover]
fn parse_params(src: &Vec<char>, toks: &Vec<Token>, pos: usize) -> (res: Result<
    (Vec<Ident>, usize),
    ParseError,
>)
    requires
        tokens_ok(src@, toks@),
        pos < toks.len(),
    ensures
        idents_at(res, pos) == grammar::parse_params(src@, toks@, pos as nat),
        advanced(res, pos, toks@.len()),
{
    proof {
        reveal(grammar::parse_params_rest);
    }
    let mut names: Vec<Ident> = Vec::new();
    assert(idents_view(names@) =~= Seq::empty());
    if toks[pos].kind == TokenKind::RParen {
        return Ok((names, pos + 1));
    }
    let ghost whole = grammar::parse_params(src@, toks@, pos as nat);
    let mut p = pos;
    loop
        invariant
            tokens_ok(src@, toks@),
            pos <= p < toks.len(),
            whole == grammar::parse_params(src@, toks@, pos as nat),
            whole == shift(
                grammar::parse_params_rest(src@, toks@, p as nat, idents_view(names@)),
                (p - pos) as nat,
            ),
        decreases toks.len() - p,
    {
        proof {
            reveal(grammar::parse_params_rest);
        }
        if toks[p].kind != TokenKind::Ident {
            return Err(fail_at(toks, p, Expected::Identifier));
        }
        let ghost done = idents_view(names@);
        let name = Ident(token_text(src, toks, p));
        names.push(name);
        assert(idents_view(names@) =~= done.push(text_at(src@, toks@, p as nat)));
        let kind = toks[p + 1].kind;
        if kind == TokenKind::Comma {
            p = p + 2;
        } else if kind == TokenKind::RParen {
            return Ok((names, p + 2));
        } else {
            return Err(fail_at(toks, p + 1, Expected::CommaOrCloseParen));
        }
    }
}

/// Reads a statement that begins at the token `pos`.
#[verifier::spinoff_prover]
fn parse_statement(src: &Vec<char>, toks: &Vec<Token>, pos: usize, depth: usize) -> (res: Result<
    (Statement, usize),
    ParseError,
>)
    requires
        tokens_ok(src@, toks@),
        pos < toks.len(),
    ensures
        statement_at(res, pos) == grammar::parse_statement(src@, toks@, pos as nat, depth as nat),
        advanced(res, pos, toks@.len()),
    decreases toks.len() - pos, 11int,
{
    proof {
        reveal(grammar::parse_statement);
    }
    match toks[pos].kind {
        TokenKind::Let => {
            if toks[pos + 1].kind != TokenKind::Ident {
                return Err(fail_at(toks, pos + 1, Expected::Identifier));
            }
            if toks[pos + 2].kind != TokenKind::Assign {
                return Err(fail_at(toks, pos + 2, Expected::Assign));
            }
            let ident = Ident(token_text(src, toks, pos + 1));
            match parse_expr(src, toks, pos + 3, depth) {
                Ok((value, next)) => Ok((Statement::Let { ident, value }, next)),
                Err(e) => Err(e),
            }
        },
        TokenKind::For => {
            if toks[pos + 1].kind != TokenKind::Ident {
                return Err(fail_at(toks, pos + 1, Expected::Identifier));
            }
            if toks[pos + 2].kind != TokenKind::In {
                return Err(fail_at(toks, pos + 2, Expected::In));
            }
            let ident = Ident(token_text(src, toks, pos + 1));
            let (iter, p1) = match parse_expr(src, toks, pos + 3, depth) {
                Ok(parsed) => parsed,
                Err(e) => {
                    return Err(e);
                },
            };
            match parse_expr(src, toks, p1, depth) {
                Ok((expr, next)) => Ok((Statement::For { ident, iter, expr }, next)),
                Err(e) => Err(e),
            }
        },
        TokenKind::Func => {
            if toks[pos + 1].kind != TokenKind::Ident {
                return Err(fail_at(toks, pos + 1, Expected::Identifier));
            }
            if toks[pos + 2].kind != TokenKind::LParen {
                return Err(fail_at(toks, pos + 2, Expected::OpenParen));
            }
            let ident = Ident(token_text(src, toks, pos + 1));
            let (args, p1) = match parse_params(src, toks, pos + 3) {
                Ok(parsed) => parsed,
                Err(e) => {
                    return Err(e);
                },
            };
            if toks[p1].kind != TokenKind::Assign {
                return Err(fail_at(toks, p1, Expected::Assign));
            }
            match parse_expr(src, toks, p1 + 1, depth) {
                Ok((expr, next)) => Ok((Statement::FuncDef { ident, args, expr }, next)),
                Err(e) => Err(e),
            }
        },
        _ => match parse_expr(src, toks, pos, depth) {
            Ok((expr, next)) => Ok((Statement::Expr(expr), next)),
            Err(e) => Err(e),
        },
    }
}

/// The model of what parsing gave.
pub open spec fn program_view(res: Result<Program, ParseError>) -> Result<
    crate::ast::ProgramView,
    ParseError,
> {
    match res {
        Ok(program) => Ok(program@),
        Err(e) => Err(e),
    }
}

/// Reads a program from the tokens of its source.
#[verifier::spinoff_prover]
pub fn parse_tokens(src: &Vec<char>, toks: &Vec<Token>) -> (res: Result<Program, ParseError>)
    requires
        tokens_ok(src@, toks@),
    ensures
        match grammar::parse_program(src@, toks@, 0, Seq::empty(), MAX_NESTING as nat) {
            Ok(statements) => program_view(res) == Ok::<crate::ast::ProgramView, ParseError>(
                crate::ast::ProgramView { statements },
            ),
            Err(e) => program_view(res) == Err::<crate::ast::ProgramView, ParseError>(e),
        },
{
    proof {
        reveal(grammar::parse_program);
    }
    let mut statements: Vec<Statement> = Vec::new();
    assert(statements_view(statements@) =~= Seq::empty());
    let mut p: usize = 0;
    while toks[p].kind != TokenKind::Eof
        invariant
            tokens_ok(src@, toks@),
            p < toks.len(),
            grammar::parse_program(src@, toks@, 0, Seq::empty(), MAX_NESTING as nat)
                == grammar::parse_program(
                src@,
                toks@,
                p as nat,
                statements_view(statements@),
                MAX_NESTING as nat,
            ),
        decreases toks.len() - p,
    {
        proof {
            reveal(grammar::parse_program);
        }
        let ghost done = statements_view(statements@);
        let (statement, next) = match parse_statement(src, toks, p, MAX_NESTING) {
            Ok(parsed) => parsed,
            Err(e) => {
                return Err(e);
            },
        };
        statements.push(statement);
        assert(statements_view(statements@) =~= done.push(statement@));
        if toks[next].kind == TokenKind::Semicolon {
            p = next + 1;
        } else {
            p = next;
        }
    }
    Ok(Program { statements })
}

/// Parses a source text into a program. A text that the grammar does not
/// admit gives the place of the first token that does not fit, and what was
/// looked for there.
pub fn parse(code: &str) -> (res: Result<Program, ParseError>)
    ensures
        program_view(res) == grammar::parse_spec(code@),
{
    let src = chars_of(code);
    match lex(&src) {
        Ok(toks) => parse_tokens(&src, &toks),
        Err(e) => Err(e),
    }
}

} // verus!
