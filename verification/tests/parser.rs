use exp_lang::ast::{
    BinaryOperator, Expr, Ident, Literal, Program, Statement, UnaryOperator,
};
use exp_lang::parser::lexer::{char_in_class, lex, CharClass, Token, TokenKind};
use exp_lang::parser::{chars_of, parse, parse_tokens, Expected, ParseError, MAX_NESTING};

fn num(n: i32) -> Expr {
    Expr::Literal(Literal::Number(n))
}

fn var(text: &str) -> Expr {
    Expr::Literal(Literal::Ident(Ident(text.to_string())))
}

fn binary(lhs: Expr, operator: BinaryOperator, rhs: Expr) -> Expr {
    Expr::Binary { lhs: Box::new(lhs), operator, rhs: Box::new(rhs) }
}

fn unary(operand: Expr, operator: UnaryOperator) -> Expr {
    Expr::Unary { operand: Box::new(operand), operator }
}

fn expression(source: &str) -> Expr {
    let mut program = parse(source).unwrap();
    assert_eq!(program.statements.len(), 1, "{:?}", source);
    match program.statements.pop() {
        Some(Statement::Expr(expr)) => expr,
        other => panic!("{:?}", other),
    }
}

fn failure(source: &str) -> ParseError {
    match parse(source) {
        Err(e) => e,
        Ok(program) => panic!("{:?} gave {:?}", source, program),
    }
}

fn kinds(source: &str) -> Vec<TokenKind> {
    lex(&chars_of(source)).unwrap().into_iter().map(|token| token.kind).collect()
}

#[test]
fn chars_of_gives_the_characters_in_order() {
    assert_eq!(chars_of("a\u{e9}\u{1f600}b"), vec!['a', '\u{e9}', '\u{1f600}', 'b']);
    assert_eq!(chars_of(""), Vec::<char>::new());
}

#[test]
fn character_classes() {
    for c in ['0', '5', '9'] {
        assert!(char_in_class(c, CharClass::Digit));
        assert!(char_in_class(c, CharClass::Word));
    }
    for c in ['a', 'z', 'A', 'Z', '_'] {
        assert!(char_in_class(c, CharClass::Word));
        assert!(!char_in_class(c, CharClass::Digit));
    }
    for c in ['/', ':', '@', '[', '`', '{', '\u{e9}', ' '] {
        assert!(!char_in_class(c, CharClass::Word), "{:?}", c);
        assert!(!char_in_class(c, CharClass::Digit), "{:?}", c);
    }
    for c in [' ', '\t', '\n', '\r'] {
        assert!(char_in_class(c, CharClass::Blank));
    }
    assert!(!char_in_class('a', CharClass::Blank));
    assert!(!char_in_class('"', CharClass::Quoted));
    assert!(char_in_class('a', CharClass::Quoted));
    assert!(char_in_class('\n', CharClass::Quoted));
}

#[test]
fn empty_source_has_the_end_token_only() {
    assert_eq!(
        lex(&chars_of("")).unwrap(),
        vec![Token { kind: TokenKind::Eof, start: 0, end: 0 }]
    );
    assert_eq!(
        lex(&chars_of(" \n\t ")).unwrap(),
        vec![Token { kind: TokenKind::Eof, start: 4, end: 4 }]
    );
}

#[test]
fn tokens_carry_their_place() {
    assert_eq!(
        lex(&chars_of("let ab = 12;")).unwrap(),
        vec![
            Token { kind: TokenKind::Let, start: 0, end: 3 },
            Token { kind: TokenKind::Ident, start: 4, end: 6 },
            Token { kind: TokenKind::Assign, start: 7, end: 8 },
            Token { kind: TokenKind::Number(12), start: 9, end: 11 },
            Token { kind: TokenKind::Semicolon, start: 11, end: 12 },
            Token { kind: TokenKind::Eof, start: 12, end: 12 },
        ]
    );
}

#[test]
fn places_are_counted_in_characters() {
    assert_eq!(
        lex(&chars_of("\"\u{e9}\u{e9}\" x")).unwrap(),
        vec![
            Token { kind: TokenKind::Str, start: 0, end: 4 },
            Token { kind: TokenKind::Ident, start: 5, end: 6 },
            Token { kind: TokenKind::Eof, start: 6, end: 6 },
        ]
    );
}

#[test]
fn every_reserved_word_and_sign_is_a_token() {
    assert_eq!(
        kinds("let for in func if else true false none"),
        vec![
            TokenKind::Let,
            TokenKind::For,
            TokenKind::In,
            TokenKind::Func,
            TokenKind::If,
            TokenKind::Else,
            TokenKind::True,
            TokenKind::False,
            TokenKind::Nothing,
            TokenKind::Eof,
        ]
    );
    assert_eq!(
        kinds("( ) { } [ ] , ; = == .. + - * / %"),
        vec![
            TokenKind::LParen,
            TokenKind::RParen,
            TokenKind::LBrace,
            TokenKind::RBrace,
            TokenKind::LBracket,
            TokenKind::RBracket,
            TokenKind::Comma,
            TokenKind::Semicolon,
            TokenKind::Assign,
            TokenKind::EqualEqual,
            TokenKind::DotDot,
            TokenKind::Plus,
            TokenKind::Minus,
            TokenKind::Star,
            TokenKind::Slash,
            TokenKind::Percent,
            TokenKind::Eof,
        ]
    );
}

#[test]
fn words_that_only_begin_like_reserved_words_are_names() {
    assert_eq!(
        kinds("lets fo i iff truee False nonee _ a1 in_ func2 els"),
        vec![
            TokenKind::Ident,
            TokenKind::Ident,
            TokenKind::Ident,
            TokenKind::Ident,
            TokenKind::Ident,
            TokenKind::Ident,
            TokenKind::Ident,
            TokenKind::Ident,
            TokenKind::Ident,
            TokenKind::Ident,
            TokenKind::Ident,
            TokenKind::Ident,
            TokenKind::Eof,
        ]
    );
}

#[test]
fn tokens_need_no_blank_between_them() {
    assert_eq!(
        kinds("1+2==3..4"),
        vec![
            TokenKind::Number(1),
            TokenKind::Plus,
            TokenKind::Number(2),
            TokenKind::EqualEqual,
            TokenKind::Number(3),
            TokenKind::DotDot,
            TokenKind::Number(4),
            TokenKind::Eof,
        ]
    );
    assert_eq!(
        kinds("==="),
        vec![TokenKind::EqualEqual, TokenKind::Assign, TokenKind::Eof]
    );
    assert_eq!(
        kinds("12ab"),
        vec![TokenKind::Number(12), TokenKind::Ident, TokenKind::Eof]
    );
}

#[test]
fn number_literals() {
    assert_eq!(kinds("0"), vec![TokenKind::Number(0), TokenKind::Eof]);
    assert_eq!(kinds("007"), vec![TokenKind::Number(7), TokenKind::Eof]);
    assert_eq!(
        kinds("2147483647"),
        vec![TokenKind::Number(i32::MAX), TokenKind::Eof]
    );
    assert_eq!(
        kinds("0000000000002147483647"),
        vec![TokenKind::Number(i32::MAX), TokenKind::Eof]
    );
}

#[test]
fn number_literal_too_large_is_refused_where_it_begins() {
    assert_eq!(
        lex(&chars_of("  2147483648")),
        Err(ParseError { position: 2, expected: Expected::NumberInRange })
    );
    assert_eq!(
        lex(&chars_of("x 99999999999999999999999999999999")),
        Err(ParseError { position: 2, expected: Expected::NumberInRange })
    );
}

#[test]
fn string_without_end_is_refused_where_it_begins() {
    assert_eq!(
        lex(&chars_of("x \"abc")),
        Err(ParseError { position: 2, expected: Expected::StringEnd })
    );
    assert_eq!(
        lex(&chars_of("\"")),
        Err(ParseError { position: 0, expected: Expected::StringEnd })
    );
}

#[test]
fn character_that_begins_no_token_is_refused() {
    for source in ["a ? b", "a . b", "a # b", "a \u{e9} b", "a ! b"] {
        assert_eq!(
            lex(&chars_of(source)),
            Err(ParseError { position: 2, expected: Expected::Token }),
            "{:?}",
            source
        );
    }
}

#[test]
fn empty_source_is_the_empty_program() {
    assert_eq!(parse(""), Ok(Program { statements: vec![] }));
    assert_eq!(parse("  \n "), Ok(Program { statements: vec![] }));
}

#[test]
fn parse_tokens_reads_what_lex_gave() {
    let src = chars_of("let x = 1");
    let tokens = lex(&src).unwrap();
    assert_eq!(
        parse_tokens(&src, &tokens),
        Ok(Program {
            statements: vec![Statement::Let { ident: Ident("x".to_string()), value: num(1) }],
        })
    );
}

#[test]
fn primary_expressions() {
    assert_eq!(expression("42"), num(42));
    assert_eq!(expression("true"), Expr::Literal(Literal::Bool(true)));
    assert_eq!(expression("false"), Expr::Literal(Literal::Bool(false)));
    assert_eq!(expression("none"), Expr::Literal(Literal::Nothing));
    assert_eq!(expression("abc_1"), var("abc_1"));
    assert_eq!(
        expression("\"let x = 1; // \u{e9}\""),
        Expr::Literal(Literal::String("let x = 1; // \u{e9}".to_string()))
    );
    assert_eq!(expression("\"\""), Expr::Literal(Literal::String(String::new())));
}

#[test]
fn parentheses_leave_no_trace() {
    assert_eq!(expression("(1)"), num(1));
    assert_eq!(expression("((x))"), var("x"));
}

#[test]
fn array_literals() {
    assert_eq!(expression("[]"), Expr::Literal(Literal::Array(vec![])));
    assert_eq!(expression("[1]"), Expr::Literal(Literal::Array(vec![num(1)])));
    assert_eq!(
        expression("[1, x, [2]]"),
        Expr::Literal(Literal::Array(vec![
            num(1),
            var("x"),
            Expr::Literal(Literal::Array(vec![num(2)])),
        ]))
    );
}

#[test]
fn product_binds_tighter_than_sum() {
    assert_eq!(
        expression("1 + 2 * 3"),
        binary(
            num(1),
            BinaryOperator::Add,
            binary(num(2), BinaryOperator::Multiply, num(3))
        )
    );
    assert_eq!(
        expression("1 * 2 + 3"),
        binary(
            binary(num(1), BinaryOperator::Multiply, num(2)),
            BinaryOperator::Add,
            num(3)
        )
    );
    assert_eq!(
        expression("(1 + 2) * 3"),
        binary(
            binary(num(1), BinaryOperator::Add, num(2)),
            BinaryOperator::Multiply,
            num(3)
        )
    );
}

#[test]
fn operators_of_one_level_group_to_the_left() {
    assert_eq!(
        expression("2 - 3 + 4"),
        binary(
            binary(num(2), BinaryOperator::Subtract, num(3)),
            BinaryOperator::Add,
            num(4)
        )
    );
    assert_eq!(
        expression("8 / 4 % 3 * 2"),
        binary(
            binary(
                binary(num(8), BinaryOperator::Divide, num(4)),
                BinaryOperator::Modulo,
                num(3)
            ),
            BinaryOperator::Multiply,
            num(2)
        )
    );
    assert_eq!(
        expression("1 .. 2 .. 3"),
        binary(
            binary(num(1), BinaryOperator::Range, num(2)),
            BinaryOperator::Range,
            num(3)
        )
    );
    assert_eq!(
        expression("1 == 2 == 3"),
        binary(
            binary(num(1), BinaryOperator::Equal, num(2)),
            BinaryOperator::Equal,
            num(3)
        )
    );
}

#[test]
fn assignment_groups_to_the_right() {
    assert_eq!(
        expression("a = b = 1"),
        binary(
            var("a"),
            BinaryOperator::Assign,
            binary(var("b"), BinaryOperator::Assign, num(1))
        )
    );
}

#[test]
fn the_five_levels_nest_in_order() {
    assert_eq!(
        expression("a = 1 == 2 .. 3 + 4 * 5"),
        binary(
            var("a"),
            BinaryOperator::Assign,
            binary(
                num(1),
                BinaryOperator::Equal,
                binary(
                    num(2),
                    BinaryOperator::Range,
                    binary(
                        num(3),
                        BinaryOperator::Add,
                        binary(num(4), BinaryOperator::Multiply, num(5))
                    )
                )
            )
        )
    );
    assert_eq!(
        expression("5 * 4 + 3 .. 2 == 1"),
        binary(
            binary(
                binary(
                    binary(num(5), BinaryOperator::Multiply, num(4)),
                    BinaryOperator::Add,
                    num(3)
                ),
                BinaryOperator::Range,
                num(2)
            ),
            BinaryOperator::Equal,
            num(1)
        )
    );
}

#[test]
fn prefix_minus() {
    assert_eq!(expression("-1"), unary(num(1), UnaryOperator::Minus));
    assert_eq!(
        expression("--x"),
        unary(unary(var("x"), UnaryOperator::Minus), UnaryOperator::Minus)
    );
    assert_eq!(
        expression("-a * b"),
        binary(
            unary(var("a"), UnaryOperator::Minus),
            BinaryOperator::Multiply,
            var("b")
        )
    );
    assert_eq!(
        expression("a - -b"),
        binary(
            var("a"),
            BinaryOperator::Subtract,
            unary(var("b"), UnaryOperator::Minus)
        )
    );
    assert_eq!(
        expression("-a = b"),
        binary(
            unary(var("a"), UnaryOperator::Minus),
            BinaryOperator::Assign,
            var("b")
        )
    );
}

#[test]
fn calls_and_indexings_chain_from_left_to_right() {
    assert_eq!(
        expression("f()[0]()"),
        unary(
            unary(
                unary(var("f"), UnaryOperator::Call(vec![])),
                UnaryOperator::Index(Box::new(num(0)))
            ),
            UnaryOperator::Call(vec![])
        )
    );
    assert_eq!(
        expression("f(1, a + 2)"),
        unary(
            var("f"),
            UnaryOperator::Call(vec![num(1), binary(var("a"), BinaryOperator::Add, num(2))])
        )
    );
    assert_eq!(
        expression("-f(1)[2]"),
        unary(
            unary(
                unary(var("f"), UnaryOperator::Call(vec![num(1)])),
                UnaryOperator::Index(Box::new(num(2)))
            ),
            UnaryOperator::Minus
        )
    );
    assert_eq!(
        expression("(a + b)(c)"),
        unary(
            binary(var("a"), BinaryOperator::Add, var("b")),
            UnaryOperator::Call(vec![var("c")])
        )
    );
}

#[test]
fn if_with_and_without_else() {
    assert_eq!(
        expression("if a == 1 { 2 } else { 3 }"),
        Expr::Literal(Literal::If {
            condition: Box::new(binary(var("a"), BinaryOperator::Equal, num(1))),
            expr: Box::new(num(2)),
            or: Some(Box::new(num(3))),
        })
    );
    assert_eq!(
        expression("if a { 2 }"),
        Expr::Literal(Literal::If {
            condition: Box::new(var("a")),
            expr: Box::new(num(2)),
            or: None,
        })
    );
    assert_eq!(
        expression("if a { 2 } + 1"),
        binary(
            Expr::Literal(Literal::If {
                condition: Box::new(var("a")),
                expr: Box::new(num(2)),
                or: None,
            }),
            BinaryOperator::Add,
            num(1)
        )
    );
}

#[test]
fn blocks() {
    assert_eq!(
        expression("{ }"),
        Expr::Literal(Literal::Block {
            statements: vec![],
            return_value: Box::new(Expr::Literal(Literal::Nothing)),
        })
    );
    assert_eq!(
        expression("{ 1 }"),
        Expr::Literal(Literal::Block { statements: vec![], return_value: Box::new(num(1)) })
    );
    assert_eq!(
        expression("{ 1; }"),
        Expr::Literal(Literal::Block {
            statements: vec![Statement::Expr(num(1))],
            return_value: Box::new(Expr::Literal(Literal::Nothing)),
        })
    );
    assert_eq!(
        expression("{ let x = 2; f(x); x + 1 }"),
        Expr::Literal(Literal::Block {
            statements: vec![
                Statement::Let { ident: Ident("x".to_string()), value: num(2) },
                Statement::Expr(unary(var("f"), UnaryOperator::Call(vec![var("x")]))),
            ],
            return_value: Box::new(binary(var("x"), BinaryOperator::Add, num(1))),
        })
    );
}

#[test]
fn statements() {
    assert_eq!(
        parse("let x = 1 + 2"),
        Ok(Program {
            statements: vec![Statement::Let {
                ident: Ident("x".to_string()),
                value: binary(num(1), BinaryOperator::Add, num(2)),
            }],
        })
    );
    assert_eq!(
        parse("for i in 0..3 { i }"),
        Ok(Program {
            statements: vec![Statement::For {
                ident: Ident("i".to_string()),
                iter: binary(num(0), BinaryOperator::Range, num(3)),
                expr: Expr::Literal(Literal::Block {
                    statements: vec![],
                    return_value: Box::new(var("i")),
                }),
            }],
        })
    );
    assert_eq!(
        parse("func add(a, b) = a + b"),
        Ok(Program {
            statements: vec![Statement::FuncDef {
                ident: Ident("add".to_string()),
                args: vec![Ident("a".to_string()), Ident("b".to_string())],
                expr: binary(var("a"), BinaryOperator::Add, var("b")),
            }],
        })
    );
    assert_eq!(
        parse("func main() = none"),
        Ok(Program {
            statements: vec![Statement::FuncDef {
                ident: Ident("main".to_string()),
                args: vec![],
                expr: Expr::Literal(Literal::Nothing),
            }],
        })
    );
}

#[test]
fn top_level_statements_may_end_with_a_semicolon() {
    let with = parse("let x = 1; let y = 2; x;").unwrap();
    let without = parse("let x = 1 let y = 2 x").unwrap();
    assert_eq!(with, without);
    assert_eq!(with.statements.len(), 3);
}

#[test]
fn loop_body_may_be_any_expression() {
    assert_eq!(
        parse("for x in xs f(x)"),
        Ok(Program {
            statements: vec![Statement::For {
                ident: Ident("x".to_string()),
                iter: var("xs"),
                expr: unary(var("f"), UnaryOperator::Call(vec![var("x")])),
            }],
        })
    );
}

#[test]
fn failures_name_the_place_and_what_was_missing() {
    let cases = [
        ("let", 3, Expected::Identifier),
        ("let 1 = 2", 4, Expected::Identifier),
        ("let x 1", 6, Expected::Assign),
        ("let x = ", 8, Expected::Expression),
        ("let x = ;", 8, Expected::Expression),
        ("for", 3, Expected::Identifier),
        ("for i of xs { }", 6, Expected::In),
        ("for i in xs", 11, Expected::Expression),
        ("func", 4, Expected::Identifier),
        ("func f = 1", 7, Expected::OpenParen),
        ("func f(1) = 1", 7, Expected::Identifier),
        ("func f(a b) = 1", 9, Expected::CommaOrCloseParen),
        ("func f(a,) = 1", 9, Expected::Identifier),
        ("func f(a) 1", 10, Expected::Assign),
        ("func f(a) = ", 12, Expected::Expression),
        ("(1", 2, Expected::CloseParen),
        ("(1 2", 3, Expected::CloseParen),
        ("()", 1, Expected::Expression),
        ("[1 2]", 3, Expected::CommaOrCloseBracket),
        ("[1, ]", 4, Expected::Expression),
        ("[1", 2, Expected::CommaOrCloseBracket),
        ("f(1 2)", 4, Expected::CommaOrCloseParen),
        ("f(1", 3, Expected::CommaOrCloseParen),
        ("a[1 2]", 4, Expected::CloseBracket),
        ("f(1,)", 4, Expected::Expression),
        ("a[1", 3, Expected::CloseBracket),
        ("a[]", 2, Expected::Expression),
        ("if a 1", 5, Expected::OpenBrace),
        ("if a { 1", 8, Expected::CloseBrace),
        ("if a { }", 7, Expected::Expression),
        ("if a { 1 } else 2", 16, Expected::OpenBrace),
        ("if a { 1 } else { 2", 19, Expected::CloseBrace),
        ("{ 1 2 }", 4, Expected::CloseBrace),
        ("{ let x = 1 }", 12, Expected::Semicolon),
        ("{ let x = 1 x }", 12, Expected::Semicolon),
        ("{ 1;", 4, Expected::Expression),
        ("1 +", 3, Expected::Expression),
        ("1 + * 2", 4, Expected::Expression),
        ("-", 1, Expected::Expression),
        (")", 0, Expected::Expression),
        ("1 )", 2, Expected::Expression),
        ("else", 0, Expected::Expression),
        ("x = ", 4, Expected::Expression),
    ];
    for (source, position, expected) in cases {
        assert_eq!(failure(source), ParseError { position, expected }, "{:?}", source);
    }
}

#[test]
fn lexical_failures_come_before_grammatical_ones() {
    assert_eq!(
        failure("let = \"abc"),
        ParseError { position: 6, expected: Expected::StringEnd }
    );
}

#[test]
fn parse_errors_have_a_message() {
    let cases = [
        (Expected::Token, "expected a token"),
        (Expected::StringEnd, "expected the end of the string"),
        (Expected::NumberInRange, "expected a number of at most 2147483647"),
        (Expected::Expression, "expected an expression"),
        (Expected::Identifier, "expected a name"),
        (Expected::Assign, "expected `=`"),
        (Expected::In, "expected `in`"),
        (Expected::OpenParen, "expected `(`"),
        (Expected::CloseParen, "expected `)`"),
        (Expected::CloseBracket, "expected `]`"),
        (Expected::CommaOrCloseParen, "expected `,` or `)`"),
        (Expected::CommaOrCloseBracket, "expected `,` or `]`"),
        (Expected::OpenBrace, "expected `{`"),
        (Expected::CloseBrace, "expected `}`"),
        (Expected::Semicolon, "expected `;`"),
        (Expected::LessNesting, "expected less nesting"),
    ];
    for (expected, text) in cases {
        assert_eq!(ParseError { position: 0, expected }.message(), text);
    }
}

#[test]
fn clone_gives_an_equal_tree() {
    let program = parse(
        "let a = [1, \"s\", none]
         func f(x, y) = if x == y { -x } else { { let z = f(y, x)[0]; z = 2; z } }
         for i in 0..10 { a = [i] }",
    )
    .unwrap();
    let copy = program.clone();
    assert_eq!(copy, program);
    let statement = program.statements[1].clone();
    assert_eq!(statement, program.statements[1]);
    let ident = Ident("abc".to_string());
    assert_eq!(ident.clone(), ident);
}

#[test]
fn deep_nesting_is_parsed() {
    let depth = 200;
    let source = format!("{}1{}", "(".repeat(depth), ")".repeat(depth));
    assert_eq!(expression(&source), num(1));
    let source = format!("{}1", "-".repeat(depth));
    let mut expected = num(1);
    for _ in 0..depth {
        expected = unary(expected, UnaryOperator::Minus);
    }
    assert_eq!(expression(&source), expected);
}

#[test]
fn long_chains_are_parsed() {
    let count = 20000;
    let source = format!("0{}", " + 1".repeat(count));
    let mut expr = expression(&source);
    let mut seen = 0;
    while let Expr::Binary { lhs, operator, rhs } = expr {
        assert_eq!(operator, BinaryOperator::Add);
        assert_eq!(*rhs, num(1));
        seen += 1;
        // Unlink the rest before it is dropped, so that dropping does not nest.
        expr = *lhs;
    }
    assert_eq!(seen, count);
    assert_eq!(expr, num(0));
}

#[test]
fn nesting_up_to_the_limit_is_parsed() {
    assert_eq!(MAX_NESTING, 256);
    let most = MAX_NESTING - 1;
    assert_eq!(expression(&format!("{}1{}", "(".repeat(most), ")".repeat(most))), num(1));
    assert!(parse(&format!("{}1{}", "[".repeat(most), "]".repeat(most))).is_ok());
    assert!(parse(&format!("{}1{}", "{".repeat(most), "}".repeat(most))).is_ok());
    assert!(parse(&format!("{}1{}", "{ let x = ".repeat(most), "; }".repeat(most))).is_ok());
    assert!(parse(&format!("{}1{}", "f(".repeat(most), ")".repeat(most))).is_ok());
    assert!(parse(&format!("a{}1{}", "[".repeat(most), "]".repeat(most))).is_ok());
    assert!(parse(&format!("{}1{}", "if true {".repeat(most), "}".repeat(most))).is_ok());
    assert!(parse(&format!("{}1{}", "if ".repeat(most), "{ 2 }".repeat(most))).is_ok());
    assert!(parse(&format!("{}1{}", "for i in 0..1 { ".repeat(most), "; }".repeat(most))).is_ok());
    assert!(parse(&format!("{}1", "-".repeat(most))).is_ok());
    assert!(parse(&format!("{}1", "a = ".repeat(most))).is_ok());
}

#[test]
fn nesting_beyond_the_limit_is_refused_where_it_goes_too_deep() {
    let cases = [
        ("(", ")", MAX_NESTING),
        ("[", "]", MAX_NESTING),
        ("{", "}", MAX_NESTING),
        ("f(", ")", 2 * MAX_NESTING),
        ("a = ", "", 4 * MAX_NESTING),
        // The condition of the innermost `if` is what nests too deep.
        ("if true {", "}", 9 * (MAX_NESTING - 1) + 3),
    ];
    for (open, close, position) in cases {
        let source = format!("{}1{}", open.repeat(MAX_NESTING), close.repeat(MAX_NESTING));
        assert_eq!(
            failure(&source),
            ParseError { position, expected: Expected::LessNesting },
            "{:?}",
            open
        );
    }
    assert_eq!(
        failure(&format!("{}1", "-".repeat(MAX_NESTING))),
        ParseError { position: MAX_NESTING - 1, expected: Expected::LessNesting }
    );
    let endless = "(".repeat(1_000_000);
    assert_eq!(
        failure(&endless),
        ParseError { position: MAX_NESTING, expected: Expected::LessNesting }
    );
}
