//! What holds of every source text that the grammar admits.

use vstd::prelude::*;
use crate::ast::{BinaryOperator, ExprView};
use crate::parser::ParseError;
use crate::parser::grammar::{
    Parsed, binary_chain, infix_operator, kind_at, operator_at, parse_binary, parse_expr,
    parse_unary, precedence, right_associative, shift,
};
use crate::parser::lexer::{Token, TokenKind};

verus! {

/// Whether a token writes no binary operator of `level` or above: it writes
/// none at all, or one that binds more loosely.
pub open spec fn binds_below(kind: TokenKind, level: nat) -> bool {
    match infix_operator(kind) {
        Some(operator) => precedence(operator) < level,
        None => true,
    }
}

/// The tree of a binary operator between two operands.
pub open spec fn binary(lhs: ExprView, operator: BinaryOperator, rhs: ExprView) -> ExprView {
    ExprView::Binary { lhs: Box::new(lhs), operator, rhs: Box::new(rhs) }
}

/// An expression of one level is an expression of every lower level down to
/// the one of the operator that follows it.
#[verifier::spinoff_prover]
proof fn lemma_level_down(
    src: Seq<char>,
    toks: Seq<Token>,
    pos: nat,
    high: nat,
    low: nat,
    depth: nat,
    tree: ExprView,
    n: nat,
)
    requires
        low <= high <= 5,
        parse_binary(src, toks, pos, high, depth) == Ok::<(ExprView, nat), ParseError>((tree, n)),
        binds_below(kind_at(toks, pos + n), low),
    ensures
        parse_binary(src, toks, pos, low, depth) == Ok::<(ExprView, nat), ParseError>((tree, n)),
    decreases high - low,
{
    if low < high {
        lemma_level_down(src, toks, pos, high, low + 1, depth, tree, n);
        assert(operator_at(toks, pos + n, low) is None);
        lemma_chain_end(src, toks, pos + n, low, depth, tree);
        lemma_level_start(src, toks, pos, low, depth, tree, n);
    }
}

/// An operand is an expression of every level above that of the operator
/// that follows it.
#[verifier::spinoff_prover]
proof fn lemma_operand(
    src: Seq<char>,
    toks: Seq<Token>,
    pos: nat,
    level: nat,
    depth: nat,
    tree: ExprView,
    n: nat,
)
    requires
        level <= 5,
        parse_unary(src, toks, pos, depth) == Ok::<(ExprView, nat), ParseError>((tree, n)),
        binds_below(kind_at(toks, pos + n), level),
    ensures
        parse_binary(src, toks, pos, level, depth) == Ok::<(ExprView, nat), ParseError>((tree, n)),
{
    assert(parse_binary(src, toks, pos, 5, depth) == parse_unary(src, toks, pos, depth)) by {
        reveal(parse_binary);
    }
    lemma_level_down(src, toks, pos, 5, level, depth, tree, n);
}

/// An operator of a level takes the expression of the next level that
/// follows it as its right operand, and the chain goes on behind that.
#[verifier::spinoff_prover]
proof fn lemma_chain_step(
    src: Seq<char>,
    toks: Seq<Token>,
    pos: nat,
    level: nat,
    depth: nat,
    lhs: ExprView,
    operator: BinaryOperator,
    rhs: ExprView,
    n: nat,
)
    requires
        operator_at(toks, pos, level) == Some(operator),
        parse_binary(src, toks, pos + 1, level + 1, depth) == Ok::<(ExprView, nat), ParseError>(
            (rhs, n),
        ),
    ensures
        binary_chain(src, toks, pos, level, lhs, depth) == shift(
            binary_chain(src, toks, pos + 1 + n, level, binary(lhs, operator, rhs), depth),
            1 + n,
        ),
{
    reveal(binary_chain);
}

/// A chain ends where no operator of its level follows.
#[verifier::spinoff_prover]
proof fn lemma_chain_end(
    src: Seq<char>,
    toks: Seq<Token>,
    pos: nat,
    level: nat,
    depth: nat,
    lhs: ExprView,
)
    requires
        operator_at(toks, pos, level) is None,
    ensures
        binary_chain(src, toks, pos, level, lhs, depth) == Ok::<(ExprView, nat), ParseError>(
            (lhs, 0),
        ),
{
    reveal(binary_chain);
}

/// An expression of a level is the expression of the next level that stands
/// first, with the chain of the level's operators behind it.
#[verifier::spinoff_prover]
proof fn lemma_level_start(
    src: Seq<char>,
    toks: Seq<Token>,
    pos: nat,
    level: nat,
    depth: nat,
    lhs: ExprView,
    n: nat,
)
    requires
        level < 5,
        parse_binary(src, toks, pos, level + 1, depth) == Ok::<(ExprView, nat), ParseError>(
            (lhs, n),
        ),
        operator_at(toks, pos + n, level) matches Some(operator) ==> !right_associative(operator),
    ensures
        parse_binary(src, toks, pos, level, depth) == shift(
            binary_chain(src, toks, pos + n, level, lhs, depth),
            n,
        ),
{
    reveal(parse_binary);
}

/// Two operands with an operator between them that groups to the left, and
/// no operator of its level or above behind them, are one expression of the
/// operator's level.
#[verifier::spinoff_prover]
proof fn lemma_one_operator(
    src: Seq<char>,
    toks: Seq<Token>,
    pos: nat,
    depth: nat,
    a: ExprView,
    na: nat,
    operator: BinaryOperator,
    b: ExprView,
    nb: nat,
)
    requires
        parse_unary(src, toks, pos, depth) == Ok::<(ExprView, nat), ParseError>((a, na)),
        infix_operator(kind_at(toks, pos + na)) == Some(operator),
        !right_associative(operator),
        parse_unary(src, toks, pos + na + 1, depth) == Ok::<(ExprView, nat), ParseError>((b, nb)),
        binds_below(kind_at(toks, pos + na + 1 + nb), precedence(operator)),
    ensures
        parse_binary(src, toks, pos, precedence(operator), depth) == Ok::<
            (ExprView, nat),
            ParseError,
        >((binary(a, operator, b), na + 1 + nb)),
{
    let level = precedence(operator);
    lemma_operand(src, toks, pos, level + 1, depth, a, na);
    lemma_operand(src, toks, pos + na + 1, level + 1, depth, b, nb);
    lemma_level_start(src, toks, pos, level, depth, a, na);
    lemma_chain_step(src, toks, pos + na, level, depth, a, operator, b, nb);
    lemma_chain_end(src, toks, pos + na + 1 + nb, level, depth, binary(a, operator, b));
}

/// Of two binary operators in a row the one that binds tighter takes the
/// operand between them, and where both bind alike the left one does.
///
/// Let three operands stand at the token `pos` with an operator between each
/// two, both operators of those that group to the left, and let no binary
/// operator follow the third operand. Then the five are one expression. It is
/// `a op1 (b op2 c)` where `op2` is of a higher level than `op1`, and
/// `(a op1 b) op2 c` where it is not. An operand is whatever stands between
/// binary operators: a constant, a name, a call, a negation, an expression in
/// parentheses.
#[verifier::spinoff_prover]
pub proof fn lemma_two_operators(
    src: Seq<char>,
    toks: Seq<Token>,
    pos: nat,
    depth: nat,
    a: ExprView,
    na: nat,
    first: BinaryOperator,
    b: ExprView,
    nb: nat,
    second: BinaryOperator,
    c: ExprView,
    nc: nat,
)
    requires
        parse_unary(src, toks, pos, depth) == Ok::<(ExprView, nat), ParseError>((a, na)),
        infix_operator(kind_at(toks, pos + na)) == Some(first),
        parse_unary(src, toks, pos + na + 1, depth) == Ok::<(ExprView, nat), ParseError>((b, nb)),
        infix_operator(kind_at(toks, pos + na + 1 + nb)) == Some(second),
        parse_unary(src, toks, pos + na + nb + 2, depth) == Ok::<(ExprView, nat), ParseError>(
            (c, nc),
        ),
        infix_operator(kind_at(toks, pos + na + nb + nc + 2)) is None,
        !right_associative(first),
        !right_associative(second),
    ensures
        parse_expr(src, toks, pos, depth + 1) == Ok::<(ExprView, nat), ParseError>(
            (
                if precedence(second) > precedence(first) {
                    binary(a, first, binary(b, second, c))
                } else {
                    binary(binary(a, first, b), second, c)
                },
                na + nb + nc + 2,
            ),
        ),
{
    let p1 = precedence(first);
    let p2 = precedence(second);
    let end = pos + na + nb + nc + 2;
    let total = na + nb + nc + 2;
    assert(parse_expr(src, toks, pos, depth + 1) == parse_binary(src, toks, pos, 0, depth)) by {
        reveal(parse_expr);
    }
    if p2 > p1 {
        // The second operator and its operands are the right operand of the first.
        lemma_one_operator(src, toks, pos + na + 1, depth, b, nb, second, c, nc);
        lemma_level_down(
            src,
            toks,
            pos + na + 1,
            p2,
            p1 + 1,
            depth,
            binary(b, second, c),
            nb + 1 + nc,
        );
        lemma_operand(src, toks, pos, p1 + 1, depth, a, na);
        lemma_level_start(src, toks, pos, p1, depth, a, na);
        lemma_chain_step(
            src,
            toks,
            pos + na,
            p1,
            depth,
            a,
            first,
            binary(b, second, c),
            nb + 1 + nc,
        );
        let tree = binary(a, first, binary(b, second, c));
        lemma_chain_end(src, toks, end, p1, depth, tree);
        lemma_level_down(src, toks, pos, p1, 0, depth, tree, total);
    } else if p2 == p1 {
        // Both are links of one chain, which groups to the left.
        lemma_operand(src, toks, pos, p1 + 1, depth, a, na);
        lemma_operand(src, toks, pos + na + 1, p1 + 1, depth, b, nb);
        lemma_operand(src, toks, pos + na + nb + 2, p1 + 1, depth, c, nc);
        lemma_level_start(src, toks, pos, p1, depth, a, na);
        lemma_chain_step(src, toks, pos + na, p1, depth, a, first, b, nb);
        lemma_chain_step(
            src,
            toks,
            pos + na + 1 + nb,
            p1,
            depth,
            binary(a, first, b),
            second,
            c,
            nc,
        );
        let tree = binary(binary(a, first, b), second, c);
        lemma_chain_end(src, toks, end, p1, depth, tree);
        lemma_level_down(src, toks, pos, p1, 0, depth, tree, total);
    } else {
        // The first operator and its operands are the left operand of the second.
        lemma_one_operator(src, toks, pos, depth, a, na, first, b, nb);
        let left = binary(a, first, b);
        lemma_level_down(src, toks, pos, p1, p2 + 1, depth, left, na + 1 + nb);
        lemma_operand(src, toks, pos + na + nb + 2, p2 + 1, depth, c, nc);
        lemma_level_start(src, toks, pos, p2, depth, left, na + 1 + nb);
        lemma_chain_step(src, toks, pos + na + 1 + nb, p2, depth, left, second, c, nc);
        let tree = binary(left, second, c);
        lemma_chain_end(src, toks, end, p2, depth, tree);
        lemma_level_down(src, toks, pos, p2, 0, depth, tree, total);
    }
}

/// An assignment takes the whole expression behind its `=` as its right
/// operand: `=` binds more loosely than every other operator, and groups to
/// the right.
#[verifier::spinoff_prover]
pub proof fn lemma_assignment_takes_the_rest(
    src: Seq<char>,
    toks: Seq<Token>,
    pos: nat,
    depth: nat,
    target: ExprView,
    n: nat,
    value: ExprView,
    m: nat,
)
    requires
        parse_unary(src, toks, pos, depth) == Ok::<(ExprView, nat), ParseError>((target, n)),
        kind_at(toks, pos + n) == TokenKind::Assign,
        parse_expr(src, toks, pos + n + 1, depth) == Ok::<(ExprView, nat), ParseError>((value, m)),
    ensures
        parse_expr(src, toks, pos, depth + 1) == Ok::<(ExprView, nat), ParseError>(
            (binary(target, BinaryOperator::Assign, value), n + 1 + m),
        ),
{
    lemma_operand(src, toks, pos, 1, depth, target, n);
    reveal(parse_expr);
    reveal(parse_binary);
}

} // verus!
