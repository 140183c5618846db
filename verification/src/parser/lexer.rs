//! The lexer: characters to tokens.
//!
//! A token is a kind and the place of its text in the source. Blanks separate
//! tokens and are dropped. The token sequence of a source always ends with
//! one [`TokenKind::Eof`], which stands at the end of the text.

use vstd::prelude::*;
use crate::parser::{Expected, ParseError};

verus! {

/// What a token is.
#[derive(Debug, Clone, Copy, PartialEq, Eq, Structural)]
pub enum TokenKind {
    /// A number literal, with its value.
    Number(i32),
    /// A name. Its text is the token's text.
    Ident,
    /// A string literal. Its text is the token's text without the two quotes.
    Str,
    Let,
    For,
    In,
    Func,
    If,
    Else,
    True,
    False,
    /// The word `none`.
    Nothing,
    LParen,
    RParen,
    LBrace,
    RBrace,
    LBracket,
    RBracket,
    Comma,
    Semicolon,
    /// `=`
    Assign,
    /// `==`
    EqualEqual,
    /// `..`
    DotDot,
    Plus,
    Minus,
    Star,
    Slash,
    Percent,
    /// The end of the source.
    Eof,
}

/// A token: its kind, and where its text starts and ends, counted in characters.
#[derive(Debug, Clone, Copy, PartialEq, Eq, Structural)]
pub struct Token {
    pub kind: TokenKind,
    pub start: usize,
    pub end: usize,
}

/// The classes of characters that tokens are made of.
#[derive(Debug, Clone, Copy, PartialEq, Eq, Structural)]
pub enum CharClass {
    /// Space, tab, line feed, carriage return.
    Blank,
    /// `0` to `9`.
    Digit,
    /// A letter of ASCII, a digit or `_`.
    Word,
    /// Anything but `"`.
    Quoted,
}

/// Whether `c` is a letter of ASCII or `_`, with which a name may begin.
pub open spec fn starts_word(c: char) -> bool {
    ||| 'a' <= c <= 'z'
    ||| 'A' <= c <= 'Z'
    ||| c == '_'
}

/// Whether `c` belongs to `class`.
pub open spec fn in_class(c: char, class: CharClass) -> bool {
    match class {
        CharClass::Blank => c == ' ' || c == '\t' || c == '\n' || c == '\r',
        CharClass::Digit => '0' <= c <= '9',
        CharClass::Word => starts_word(c) || '0' <= c <= '9',
        CharClass::Quoted => c != '"',
    }
}

/// How many characters of `class` stand in a row from `pos` on.
pub open spec fn run_len(src: Seq<char>, pos: nat, class: CharClass) -> nat
    decreases src.len() - pos,
{
    if pos < src.len() && in_class(src[pos as int], class) {
        1 + run_len(src, pos + 1, class)
    } else {
        0
    }
}

/// The number that a row of digits writes in base ten.
pub open spec fn decimal_value(digits: Seq<char>) -> nat
    decreases digits.len(),
{
    if digits.len() == 0 {
        0
    } else {
        (decimal_value(digits.drop_last()) * 10 + (digits.last() as nat - '0' as nat)) as nat
    }
}

/// The kind of a word: one of the nine reserved words, or a name.
pub open spec fn word_kind(word: Seq<char>) -> TokenKind {
    if word == seq!['l', 'e', 't'] {
        TokenKind::Let
    } else if word == seq!['f', 'o', 'r'] {
        TokenKind::For
    } else if word == seq!['i', 'n'] {
        TokenKind::In
    } else if word == seq!['f', 'u', 'n', 'c'] {
        TokenKind::Func
    } else if word == seq!['i', 'f'] {
        TokenKind::If
    } else if word == seq!['e', 'l', 's', 'e'] {
        TokenKind::Else
    } else if word == seq!['t', 'r', 'u', 'e'] {
        TokenKind::True
    } else if word == seq!['f', 'a', 'l', 's', 'e'] {
        TokenKind::False
    } else if word == seq!['n', 'o', 'n', 'e'] {
        TokenKind::Nothing
    } else {
        TokenKind::Ident
    }
}

/// The token of one character that `c` is, where it is one.
pub open spec fn single_kind(c: char) -> Option<TokenKind> {
    if c == '(' {
        Some(TokenKind::LParen)
    } else if c == ')' {
        Some(TokenKind::RParen)
    } else if c == '{' {
        Some(TokenKind::LBrace)
    } else if c == '}' {
        Some(TokenKind::RBrace)
    } else if c == '[' {
        Some(TokenKind::LBracket)
    } else if c == ']' {
        Some(TokenKind::RBracket)
    } else if c == ',' {
        Some(TokenKind::Comma)
    } else if c == ';' {
        Some(TokenKind::Semicolon)
    } else if c == '+' {
        Some(TokenKind::Plus)
    } else if c == '-' {
        Some(TokenKind::Minus)
    } else if c == '*' {
        Some(TokenKind::Star)
    } else if c == '/' {
        Some(TokenKind::Slash)
    } else if c == '%' {
        Some(TokenKind::Percent)
    } else {
        None
    }
}

/// The token that begins at `pos`, as its kind and its length in characters.
/// `pos` is a place in the source at which no blank stands.
///
/// A number is the longest row of digits and must not exceed `i32::MAX`. A
/// word is the longest row of letters, digits and `_` that begins with no
/// digit. A string runs from one `"` to the next and has no escapes.
pub open spec fn scan_token(src: Seq<char>, pos: nat) -> Result<(TokenKind, nat), ParseError> {
    let c = src[pos as int];
    if in_class(c, CharClass::Digit) {
        let len = 1 + run_len(src, pos + 1, CharClass::Digit);
        let value = decimal_value(src.subrange(pos as int, (pos + len) as int));
        if value <= i32::MAX {
            Ok((TokenKind::Number(value as i32), len))
        } else {
            Err(ParseError { position: pos as usize, expected: Expected::NumberInRange })
        }
    } else if starts_word(c) {
        let len = 1 + run_len(src, pos + 1, CharClass::Word);
        Ok((word_kind(src.subrange(pos as int, (pos + len) as int)), len))
    } else if c == '"' {
        let inside = run_len(src, pos + 1, CharClass::Quoted);
        if pos + 1 + inside < src.len() {
            Ok((TokenKind::Str, 2 + inside))
        } else {
            Err(ParseError { position: pos as usize, expected: Expected::StringEnd })
        }
    } else if c == '=' {
        if pos + 1 < src.len() && src[pos + 1 as int] == '=' {
            Ok((TokenKind::EqualEqual, 2))
        } else {
            Ok((TokenKind::Assign, 1))
        }
    } else if c == '.' && pos + 1 < src.len() && src[pos + 1 as int] == '.' {
        Ok((TokenKind::DotDot, 2))
    } else {
        match single_kind(c) {
            Some(kind) => Ok((kind, 1)),
            None => Err(ParseError { position: pos as usize, expected: Expected::Token }),
        }
    }
}

/// How many characters stand from `pos` on.
pub open spec fn left(src: Seq<char>, pos: nat) -> nat {
    if pos < src.len() {
        (src.len() - pos) as nat
    } else {
        0
    }
}

/// The tokens of the source from `pos` on, appended to `done`.
pub open spec fn lex_from(src: Seq<char>, pos: nat, done: Seq<Token>) -> Result<
    Seq<Token>,
    ParseError,
>
    decreases left(src, pos),
{
    if pos >= src.len() {
        Ok(
            done.push(
                Token { kind: TokenKind::Eof, start: src.len() as usize, end: src.len() as usize },
            ),
        )
    } else if in_class(src[pos as int], CharClass::Blank) {
        lex_from(src, pos + 1, done)
    } else {
        match scan_token(src, pos) {
            Ok((kind, len)) => lex_from(
                src,
                pos + len,
                done.push(Token { kind, start: pos as usize, end: (pos + len) as usize }),
            ),
            Err(e) => Err(e),
        }
    }
}

/// The tokens of a source.
pub open spec fn lex_spec(src: Seq<char>) -> Result<Seq<Token>, ParseError> {
    lex_from(src, 0, Seq::empty())
}

/// What holds of every token but the last of a source's tokens: it is not the
/// end, its text lies in the source, and a string has its two quotes.
pub open spec fn token_ok(src: Seq<char>, token: Token) -> bool {
    &&& token.kind != TokenKind::Eof
    &&& token.start < token.end <= src.len()
    &&& token.kind == TokenKind::Str ==> token.start + 2 <= token.end
}

/// What holds of the tokens of a source: they end with the one `Eof`, and
/// each of the others is a token of that source.
pub open spec fn tokens_ok(src: Seq<char>, tokens: Seq<Token>) -> bool {
    &&& tokens.len() > 0
    &&& tokens.last().kind == TokenKind::Eof
    &&& tokens.last().start == src.len()
    &&& forall|i: int| 0 <= i < tokens.len() - 1 ==> token_ok(src, #[trigger] tokens[i])
}

/// Whether `c` belongs to `class`.
pub fn char_in_class(c: char, class: CharClass) -> (res: bool)
    ensures
        res == in_class(c, class),
{
    match class {
        CharClass::Blank => c == ' ' || c == '\t' || c == '\n' || c == '\r',
        CharClass::Digit => '0' <= c && c <= '9',
        CharClass::Word => ('a' <= c && c <= 'z') || ('A' <= c && c <= 'Z') || c == '_' || ('0'
            <= c && c <= '9'),
        CharClass::Quoted => c != '"',
    }
}

/// The end of the row of characters of `class` that begins at `from`.
fn scan_run(src: &Vec<char>, from: usize, class: CharClass) -> (end: usize)
    requires
        from <= src.len(),
    ensures
        end == from + run_len(src@, from as nat, class),
        from <= end <= src.len(),
{
    let mut i = from;
    while i < src.len() && char_in_class(src[i], class)
        invariant
            from <= i <= src.len(),
            from + run_len(src@, from as nat, class) == i + run_len(src@, i as nat, class),
        decreases src.len() - i,
    {
        i += 1;
    }
    i
}

/// The value of the digits from `start` to `end`, unless it exceeds `i32::MAX`.
fn decimal(src: &Vec<char>, start: usize, end: usize) -> (value: Option<i32>)
    requires
        start <= end <= src.len(),
        forall|i: int| start <= i < end ==> in_class(#[trigger] src[i], CharClass::Digit),
    ensures
        match value {
            Some(v) => decimal_value(src@.subrange(start as int, end as int)) == v,
            None => decimal_value(src@.subrange(start as int, end as int)) > i32::MAX,
        },
{
    let mut acc: u64 = 0;
    let mut too_big = false;
    let mut i = start;
    assert(src@.subrange(start as int, start as int) =~= Seq::empty());
    while i < end
        invariant
            start <= i <= end <= src.len(),
            forall|j: int| start <= j < end ==> in_class(#[trigger] src[j], CharClass::Digit),
            !too_big ==> acc == decimal_value(src@.subrange(start as int, i as int)),
            !too_big ==> acc <= i32::MAX,
            too_big ==> decimal_value(src@.subrange(start as int, i as int)) > i32::MAX,
        decreases end - i,
    {
        let c = src[i];
        assert(in_class(src[i as int], CharClass::Digit));
        let digit: u64 = (c as u32 - '0' as u32) as u64;
        assert(src@.subrange(start as int, i + 1).drop_last() =~= src@.subrange(
            start as int,
            i as int,
        ));
        if !too_big {
            acc = acc * 10 + digit;
            if acc > 0x7fff_ffff {
                too_big = true;
            }
        }
        i += 1;
    }
    if too_big {
        None
    } else {
        Some(acc as i32)
    }
}

/// A text is a given word of two to five letters just when it has as many
/// characters and each is the word's.
proof fn lemma_word_eq(w: Seq<char>, a: char, b: char, c: char, d: char, e: char)
    ensures
        w == seq![a, b] <==> w.len() == 2 && w[0] == a && w[1] == b,
        w == seq![a, b, c] <==> w.len() == 3 && w[0] == a && w[1] == b && w[2] == c,
        w == seq![a, b, c, d] <==> w.len() == 4 && w[0] == a && w[1] == b && w[2] == c && w[3]
            == d,
        w == seq![a, b, c, d, e] <==> w.len() == 5 && w[0] == a && w[1] == b && w[2] == c
            && w[3] == d && w[4] == e,
{
    if w.len() == 2 && w[0] == a && w[1] == b {
        assert(w =~= seq![a, b]);
    }
    if w.len() == 3 && w[0] == a && w[1] == b && w[2] == c {
        assert(w =~= seq![a, b, c]);
    }
    if w.len() == 4 && w[0] == a && w[1] == b && w[2] == c && w[3] == d {
        assert(w =~= seq![a, b, c, d]);
    }
    if w.len() == 5 && w[0] == a && w[1] == b && w[2] == c && w[3] == d && w[4] == e {
        assert(w =~= seq![a, b, c, d, e]);
    }
}

/// The kind of the word from `start` to `end`.
fn word_kind_of(src: &Vec<char>, start: usize, end: usize) -> (kind: TokenKind)
    requires
        start <= end <= src.len(),
    ensures
        kind == word_kind(src@.subrange(start as int, end as int)),
{
    let ghost w = src@.subrange(start as int, end as int);
    proof {
        lemma_word_eq(w, 'l', 'e', 't', ' ', ' ');
        lemma_word_eq(w, 'f', 'o', 'r', ' ', ' ');
        lemma_word_eq(w, 'i', 'n', ' ', ' ', ' ');
        lemma_word_eq(w, 'f', 'u', 'n', 'c', ' ');
        lemma_word_eq(w, 'i', 'f', ' ', ' ', ' ');
        lemma_word_eq(w, 'e', 'l', 's', 'e', ' ');
        lemma_word_eq(w, 't', 'r', 'u', 'e', ' ');
        lemma_word_eq(w, 'f', 'a', 'l', 's', 'e');
        lemma_word_eq(w, 'n', 'o', 'n', 'e', ' ');
    }
    let n = end - start;
    if n == 2 {
        let a = src[start];
        let b = src[start + 1];
        if a == 'i' && b == 'n' {
            TokenKind::In
        } else if a == 'i' && b == 'f' {
            TokenKind::If
        } else {
            TokenKind::Ident
        }
    } else if n == 3 {
        let a = src[start];
        let b = src[start + 1];
        let c = src[start + 2];
        if a == 'l' && b == 'e' && c == 't' {
            TokenKind::Let
        } else if a == 'f' && b == 'o' && c == 'r' {
            TokenKind::For
        } else {
            TokenKind::Ident
        }
    } else if n == 4 {
        let a = src[start];
        let b = src[start + 1];
        let c = src[start + 2];
        let d = src[start + 3];
        if a == 'f' && b == 'u' && c == 'n' && d == 'c' {
            TokenKind::Func
        } else if a == 'e' && b == 'l' && c == 's' && d == 'e' {
            TokenKind::Else
        } else if a == 't' && b == 'r' && c == 'u' && d == 'e' {
            TokenKind::True
        } else if a == 'n' && b == 'o' && c == 'n' && d == 'e' {
            TokenKind::Nothing
        } else {
            TokenKind::Ident
        }
    } else if n == 5 {
        if src[start] == 'f' && src[start + 1] == 'a' && src[start + 2] == 'l' && src[start + 3]
            == 's' && src[start + 4] == 'e' {
            TokenKind::False
        } else {
            TokenKind::Ident
        }
    } else {
        TokenKind::Ident
    }
}

/// The token of one character that `c` is, where it is one.
fn single_kind_of(c: char) -> (kind: Option<TokenKind>)
    ensures
        kind == single_kind(c),
{
    if c == '(' {
        Some(TokenKind::LParen)
    } else if c == ')' {
        Some(TokenKind::RParen)
    } else if c == '{' {
        Some(TokenKind::LBrace)
    } else if c == '}' {
        Some(TokenKind::RBrace)
    } else if c == '[' {
        Some(TokenKind::LBracket)
    } else if c == ']' {
        Some(TokenKind::RBracket)
    } else if c == ',' {
        Some(TokenKind::Comma)
    } else if c == ';' {
        Some(TokenKind::Semicolon)
    } else if c == '+' {
        Some(TokenKind::Plus)
    } else if c == '-' {
        Some(TokenKind::Minus)
    } else if c == '*' {
        Some(TokenKind::Star)
    } else if c == '/' {
        Some(TokenKind::Slash)
    } else if c == '%' {
        Some(TokenKind::Percent)
    } else {
        None
    }
}

/// Every character of a row belongs to the row's class.
proof fn lemma_run_in_class(src: Seq<char>, pos: nat, class: CharClass)
    ensures
        pos + run_len(src, pos, class) <= src.len() || run_len(src, pos, class) == 0,
        forall|i: int|
            pos <= i < pos + run_len(src, pos, class) ==> in_class(#[trigger] src[i], class),
    decreases src.len() - pos,
{
    if pos < src.len() && in_class(src[pos as int], class) {
        lemma_run_in_class(src, pos + 1, class);
    }
}

/// The token that begins at `pos`: its kind and where it ends.
fn scan(src: &Vec<char>, pos: usize) -> (res: Result<(TokenKind, usize), ParseError>)
    requires
        pos < src.len(),
    ensures
        match scan_token(src@, pos as nat) {
            Ok((kind, len)) => {
                &&& res == Ok::<(TokenKind, usize), ParseError>((kind, (pos + len) as usize))
                &&& 0 < len
                &&& pos + len <= src.len()
            },
            Err(e) => res == Err::<(TokenKind, usize), ParseError>(e),
        },
{
    let c = src[pos];
    if char_in_class(c, CharClass::Digit) {
        let end = scan_run(src, pos + 1, CharClass::Digit);
        proof {
            lemma_run_in_class(src@, (pos + 1) as nat, CharClass::Digit);
        }
        match decimal(src, pos, end) {
            Some(value) => Ok((TokenKind::Number(value), end)),
            None => Err(ParseError { position: pos, expected: Expected::NumberInRange }),
        }
    } else if ('a' <= c && c <= 'z') || ('A' <= c && c <= 'Z') || c == '_' {
        let end = scan_run(src, pos + 1, CharClass::Word);
        Ok((word_kind_of(src, pos, end), end))
    } else if c == '"' {
        let end = scan_run(src, pos + 1, CharClass::Quoted);
        if end < src.len() {
            Ok((TokenKind::Str, end + 1))
        } else {
            Err(ParseError { position: pos, expected: Expected::StringEnd })
        }
    } else if c == '=' {
        if pos + 1 < src.len() && src[pos + 1] == '=' {
            Ok((TokenKind::EqualEqual, pos + 2))
        } else {
            Ok((TokenKind::Assign, pos + 1))
        }
    } else if c == '.' && pos + 1 < src.len() && src[pos + 1] == '.' {
        Ok((TokenKind::DotDot, pos + 2))
    } else {
        match single_kind_of(c) {
            Some(kind) => Ok((kind, pos + 1)),
            None => Err(ParseError { position: pos, expected: Expected::Token }),
        }
    }
}

/// Splits a source into its tokens.
pub fn lex(src: &Vec<char>) -> (res: Result<Vec<Token>, ParseError>)
    ensures
        match res {
            Ok(tokens) => lex_spec(src@) == Ok::<Seq<Token>, ParseError>(tokens@) && tokens_ok(
                src@,
                tokens@,
            ),
            Err(e) => lex_spec(src@) == Err::<Seq<Token>, ParseError>(e),
        },
{
    let mut tokens: Vec<Token> = Vec::new();
    let mut pos: usize = 0;
    while pos < src.len()
        invariant
            pos <= src.len(),
            lex_spec(src@) == lex_from(src@, pos as nat, tokens@),
            forall|i: int| 0 <= i < tokens.len() ==> token_ok(src@, #[trigger] tokens[i]),
        decreases src.len() - pos,
    {
        if char_in_class(src[pos], CharClass::Blank) {
            pos += 1;
        } else {
            match scan(src, pos) {
                Ok((kind, end)) => {
                    tokens.push(Token { kind, start: pos, end });
                    pos = end;
                },
                Err(e) => {
                    return Err(e);
                },
            }
        }
    }
    tokens.push(Token { kind: TokenKind::Eof, start: src.len(), end: src.len() });
    Ok(tokens)
}

} // verus!
