//! The lexer: source text to tokens.
//!
//! The tokens of a text are defined by `lex`; `lexer` computes them.

use crate::error::{CompileError, Fault};
use crate::representations::{token_views, Token, TokenType, TokenView, Type};
use crate::text::{chars_of, is_digit, str_equal, string_of};
use std::collections::VecDeque;
use vstd::prelude::*;

verus! {

/// Whether `c` can stand in an identifier, a keyword or a number.
pub open spec fn is_word_char(c: char) -> bool {
    is_digit(c) || 'a' <= c <= 'z' || 'A' <= c <= 'Z' || c == '_'
}

/// Whether `c` alone is a punctuation token.
pub open spec fn is_terminal_char(c: char) -> bool {
    c == ';' || c == '(' || c == ')' || c == '{' || c == '}' || c == '[' || c == ']' || c == ','
}

/// Whether `c` alone is an operator that no following character extends.
pub open spec fn is_operator_char(c: char) -> bool {
    c == '+' || c == '-' || c == '*' || c == '/' || c == '%' || c == '&'
}

/// Whether `word` is reserved by the language.
pub open spec fn is_keyword(word: Seq<char>) -> bool {
    word == "const"@ || word == "mut"@ || word == "if"@ || word == "else"@ || word == "while"@
        || word == "break"@ || word == "int"@ || word == "bool"@
}

/// Whether `word` is a boolean literal.
pub open spec fn is_boolean(word: Seq<char>) -> bool {
    word == "true"@ || word == "false"@
}

/// The length of the longest run of word characters that `s` starts with.
pub open spec fn word_run(s: Seq<char>) -> nat
    decreases s.len(),
{
    if s.len() > 0 && is_word_char(s[0]) {
        1 + word_run(s.skip(1))
    } else {
        0
    }
}

/// The class, intrinsic type and length of a token.
pub struct Scanned {
    pub kind: TokenType,
    pub ty: Type,
    pub len: nat,
}

/// The token that the non-empty text `s` starts with, where `s` starts with
/// neither a blank nor a newline. A word is the longest run of word
/// characters; a word that starts with a digit is an integer literal,
/// whatever follows the digit.
pub open spec fn scan(s: Seq<char>) -> Result<Scanned, Fault>
    recommends
        s.len() > 0,
{
    let c = s[0];
    let equals_follows = s.len() > 1 && s[1] == '=';
    if is_terminal_char(c) {
        Ok(Scanned { kind: TokenType::Terminal, ty: Type::Untyped, len: 1 })
    } else if is_operator_char(c) {
        Ok(Scanned { kind: TokenType::Operator, ty: Type::Untyped, len: 1 })
    } else if c == '<' || c == '>' {
        Ok(
            Scanned {
                kind: TokenType::Operator,
                ty: Type::Untyped,
                len: if equals_follows {
                    2
                } else {
                    1
                },
            },
        )
    } else if c == '=' {
        if equals_follows {
            Ok(Scanned { kind: TokenType::Operator, ty: Type::Untyped, len: 2 })
        } else {
            Ok(Scanned { kind: TokenType::Assignment, ty: Type::Untyped, len: 1 })
        }
    } else if c == '!' {
        if equals_follows {
            Ok(Scanned { kind: TokenType::Operator, ty: Type::Untyped, len: 2 })
        } else {
            Err(Fault::UnterminatedOperator)
        }
    } else if is_digit(c) {
        Ok(Scanned { kind: TokenType::Literal, ty: Type::Int, len: 1 + word_run(s.skip(1)) })
    } else if is_word_char(c) {
        let len = 1 + word_run(s.skip(1));
        let word = s.take(len as int);
        if is_boolean(word) {
            Ok(Scanned { kind: TokenType::Literal, ty: Type::Bool, len })
        } else if is_keyword(word) {
            Ok(Scanned { kind: TokenType::Keyword, ty: Type::Untyped, len })
        } else {
            Ok(Scanned { kind: TokenType::Identifier, ty: Type::Untyped, len })
        }
    } else {
        Err(Fault::BadCharacter)
    }
}

/// The token that `found` describes at the start of `s`, placed at `line` and
/// `column`.
pub open spec fn token_at(s: Seq<char>, found: Scanned, line: nat, column: nat) -> TokenView {
    TokenView {
        ty: found.ty,
        kind: found.kind,
        lexeme: s.take(found.len as int),
        line: line as usize,
        column: column as usize,
    }
}

/// The tokens of the text `s`, whose first character stands at `line` and
/// `column`; or the first error, with the place of the character at which no
/// token starts. Blanks and newlines separate tokens; a newline starts a new
/// line at column 1.
pub open spec fn lex_from(s: Seq<char>, line: nat, column: nat) -> Result<
    Seq<TokenView>,
    CompileError,
>
    decreases s.len(),
{
    if s.len() == 0 {
        Ok(Seq::empty())
    } else if s[0] == ' ' {
        lex_from(s.skip(1), line, column + 1)
    } else if s[0] == '\n' {
        lex_from(s.skip(1), line + 1, 1)
    } else {
        match scan(s) {
            Err(fault) => Err(
                CompileError { fault, line: line as usize, column: column as usize },
            ),
            Ok(found) => {
                proof {
                    lemma_scan_length(s);
                }
                match lex_from(s.skip(found.len as int), line, column + found.len) {
                    Err(e) => Err(e),
                    Ok(rest) => Ok(seq![token_at(s, found, line, column)] + rest),
                }
            },
        }
    }
}

/// The tokens of a whole source text.
pub open spec fn lex(source: Seq<char>) -> Result<Seq<TokenView>, CompileError> {
    lex_from(source, 1, 1)
}

/// A run of word characters is no longer than the text it starts.
pub proof fn lemma_word_run_bound(s: Seq<char>)
    ensures
        word_run(s) <= s.len(),
    decreases s.len(),
{
    if s.len() > 0 && is_word_char(s[0]) {
        lemma_word_run_bound(s.skip(1));
    }
}

/// A token holds at least one character and lies within the text.
pub proof fn lemma_scan_length(s: Seq<char>)
    requires
        s.len() > 0,
    ensures
        scan(s) matches Ok(found) ==> 1 <= found.len <= s.len(),
{
    lemma_word_run_bound(s.skip(1));
}

/// `tokens` in front of the tokens of `rest`, or the error of `rest`.
pub open spec fn prepend(tokens: Seq<TokenView>, rest: Result<Seq<TokenView>, CompileError>)
    -> Result<Seq<TokenView>, CompileError> {
    match rest {
        Ok(more) => Ok(tokens + more),
        Err(e) => Err(e),
    }
}

fn is_valid_identifier_char(c: &char) -> (r: bool)
    ensures
        r == is_word_char(*c),
{
    let c = *c;
    ('0' <= c && c <= '9') || ('a' <= c && c <= 'z') || ('A' <= c && c <= 'Z') || c == '_'
}

fn is_digit_char(c: char) -> (r: bool)
    ensures
        r == is_digit(c),
{
    '0' <= c && c <= '9'
}

/// Whether the character after the one at `at` is `to_match`.
fn look_ahead(chars: &Vec<char>, at: usize, to_match: char) -> (r: bool)
    requires
        at < chars.len(),
    ensures
        r == (chars@.skip(at as int).len() > 1 && chars@.skip(at as int)[1] == to_match),
{
    if at + 1 < chars.len() {
        chars[at + 1] == to_match
    } else {
        false
    }
}

/// Makes the token that holds `chars[start..start + chars_to_consume]`.
fn consume_token(
    chars: &Vec<char>,
    start: usize,
    chars_to_consume: usize,
    _type: Type,
    token_type: TokenType,
    line_number: usize,
    line_index: usize,
) -> (token: Token)
    requires
        start + chars_to_consume <= chars.len(),
    ensures
        token@ == token_at(
            chars@.skip(start as int),
            Scanned { kind: token_type, ty: _type, len: chars_to_consume as nat },
            line_number as nat,
            line_index as nat,
        ),
{
    let lexeme = string_of(chars, start, start + chars_to_consume);
    assert(chars@.subrange(start as int, start + chars_to_consume) =~= chars@.skip(
        start as int,
    ).take(chars_to_consume as int));
    Token::new(_type, token_type, lexeme, line_number, line_index)
}

/// The end of the run of word characters that starts at `from`.
fn word_end(chars: &Vec<char>, from: usize) -> (end: usize)
    requires
        from <= chars.len(),
    ensures
        from <= end <= chars.len(),
        end - from == word_run(chars@.skip(from as int)),
{
    let mut end = from;
    while end < chars.len() && is_valid_identifier_char(&chars[end])
        invariant
            from <= end <= chars.len(),
            word_run(chars@.skip(from as int)) == (end - from) + word_run(
                chars@.skip(end as int),
            ),
        decreases chars.len() - end,
    {
        assert(chars@.skip(end as int).skip(1) =~= chars@.skip(end + 1));
        end += 1;
    }
    end
}

/// What a scanning function found at `chars[at..]`: the token and its length,
/// matching `scan`, or the error at the given place.
pub open spec fn scanned_as(
    r: Result<(Token, usize), CompileError>,
    s: Seq<char>,
    line: usize,
    column: usize,
) -> bool {
    match r {
        Ok((token, len)) => scan(s) matches Ok(found) && found.len == len && token@ == token_at(
            s,
            found,
            line as nat,
            column as nat,
        ),
        Err(e) => scan(s) == Err::<Scanned, Fault>(e.fault) && e.line == line && e.column
            == column,
    }
}

/// Scans an operator that `to_match` may extend by one character: `=`, `!`,
/// `<` or `>` at `chars[at]`.
fn check_multi_char_operator(
    chars: &Vec<char>,
    at: usize,
    line_number: usize,
    line_index: usize,
    to_match: char,
) -> (r: Result<(Token, usize), CompileError>)
    requires
        at < chars.len(),
        to_match == '=',
        chars@[at as int] == '=' || chars@[at as int] == '!' || chars@[at as int] == '<'
            || chars@[at as int] == '>',
    ensures
        scanned_as(r, chars@.skip(at as int), line_number, line_index),
{
    let first = chars[at];
    if look_ahead(chars, at, to_match) {
        Ok(
            (
                consume_token(
                    chars,
                    at,
                    2,
                    Type::Untyped,
                    TokenType::Operator,
                    line_number,
                    line_index,
                ),
                2,
            ),
        )
    } else if first == '=' {
        Ok(
            (
                consume_token(
                    chars,
                    at,
                    1,
                    Type::Untyped,
                    TokenType::Assignment,
                    line_number,
                    line_index,
                ),
                1,
            ),
        )
    } else if first == '!' {
        Err(
            CompileError {
                fault: Fault::UnterminatedOperator,
                line: line_number,
                column: line_index,
            },
        )
    } else {
        Ok(
            (
                consume_token(
                    chars,
                    at,
                    1,
                    Type::Untyped,
                    TokenType::Operator,
                    line_number,
                    line_index,
                ),
                1,
            ),
        )
    }
}

/// Scans a number, a boolean, a keyword or an identifier at `chars[at]`.
fn check_literal_identifier_or_keyword(
    chars: &Vec<char>,
    at: usize,
    line_number: usize,
    line_index: usize,
) -> (r: Result<(Token, usize), CompileError>)
    requires
        at < chars.len(),
        is_word_char(chars@[at as int]),
    ensures
        scanned_as(r, chars@.skip(at as int), line_number, line_index),
{
    let ghost s = chars@.skip(at as int);
    assert(s.skip(1) =~= chars@.skip(at + 1));
    if is_digit_char(chars[at]) {
        let end = word_end(chars, at + 1);
        let length = end - at;
        Ok(
            (
                consume_token(
                    chars,
                    at,
                    length,
                    Type::Int,
                    TokenType::Literal,
                    line_number,
                    line_index,
                ),
                length,
            ),
        )
    } else {
        let end = word_end(chars, at + 1);
        let length = end - at;
        let token = consume_token(
            chars,
            at,
            length,
            Type::Untyped,
            TokenType::Identifier,
            line_number,
            line_index,
        );
        let word = token.lexeme();
        if str_equal(word, "true") || str_equal(word, "false") {
            Ok(
                (
                    consume_token(
                        chars,
                        at,
                        length,
                        Type::Bool,
                        TokenType::Literal,
                        line_number,
                        line_index,
                    ),
                    length,
                ),
            )
        } else if str_equal(word, "const") || str_equal(word, "mut") || str_equal(word, "if")
            || str_equal(word, "else") || str_equal(word, "while") || str_equal(word, "break")
            || str_equal(word, "int") || str_equal(word, "bool") {
            Ok(
                (
                    consume_token(
                        chars,
                        at,
                        length,
                        Type::Untyped,
                        TokenType::Keyword,
                        line_number,
                        line_index,
                    ),
                    length,
                ),
            )
        } else {
            Ok((token, length))
        }
    }
}

/// Scans the token at `chars[at]`, which is neither a blank nor a newline.
fn scan_token(chars: &Vec<char>, at: usize, line_number: usize, line_index: usize) -> (r: Result<
    (Token, usize),
    CompileError,
>)
    requires
        at < chars.len(),
    ensures
        scanned_as(r, chars@.skip(at as int), line_number, line_index),
{
    let c = chars[at];
    if c == ';' || c == '(' || c == ')' || c == '{' || c == '}' || c == '[' || c == ']' || c
        == ',' {
        Ok(
            (
                consume_token(
                    chars,
                    at,
                    1,
                    Type::Untyped,
                    TokenType::Terminal,
                    line_number,
                    line_index,
                ),
                1,
            ),
        )
    } else if c == '+' || c == '-' || c == '*' || c == '/' || c == '%' || c == '&' {
        Ok(
            (
                consume_token(
                    chars,
                    at,
                    1,
                    Type::Untyped,
                    TokenType::Operator,
                    line_number,
                    line_index,
                ),
                1,
            ),
        )
    } else if c == '<' || c == '>' || c == '=' || c == '!' {
        check_multi_char_operator(chars, at, line_number, line_index, '=')
    } else if is_valid_identifier_char(&c) {
        check_literal_identifier_or_keyword(chars, at, line_number, line_index)
    } else {
        Err(CompileError { fault: Fault::BadCharacter, line: line_number, column: line_index })
    }
}

/// Splits a source text into its tokens, or reports the first character at
/// which no token starts.
pub fn lexer(src: String) -> (r: Result<VecDeque<Token>, CompileError>)
    ensures
        match r {
            Ok(tokens) => lex(src@) == Ok::<Seq<TokenView>, CompileError>(token_views(tokens@)),
            Err(e) => lex(src@) == Err::<Seq<TokenView>, CompileError>(e),
        },
{
    let chars = chars_of(src.as_str());
    let mut tokens = VecDeque::<Token>::new();
    // `at` is the place in the source; `lines` and `columns` count the
    // newlines before it and the characters since the last of them.
    let mut at: usize = 0;
    let mut lines: usize = 0;
    let mut columns: usize = 0;
    assert(chars@.skip(0) =~= chars@);
    while at < chars.len()
        invariant
            at <= chars.len(),
            lines <= at,
            columns <= at,
            chars@ == src@,
            lex(src@) == prepend(
                token_views(tokens@),
                lex_from(chars@.skip(at as int), (lines + 1) as nat, (columns + 1) as nat),
            ),
        decreases chars.len() - at,
    {
        let ghost here = chars@.skip(at as int);
        assert(here.skip(1) =~= chars@.skip(at + 1));
        let c = chars[at];
        if c == ' ' {
            at += 1;
            columns += 1;
        } else if c == '\n' {
            at += 1;
            lines += 1;
            columns = 0;
        } else {
            match scan_token(&chars, at, lines + 1, columns + 1) {
                Err(e) => {
                    return Err(e);
                },
                Ok((token, length)) => {
                    proof {
                        lemma_scan_length(here);
                        let rest = lex_from(
                            here.skip(length as int),
                            (lines + 1) as nat,
                            (columns + 1 + length) as nat,
                        );
                        assert(here.skip(length as int) =~= chars@.skip(at + length));
                        assert(token_views(tokens@.push(token)) =~= token_views(
                            tokens@,
                        ).push(token@));
                        if rest is Ok {
                            assert(token_views(tokens@) + (seq![token@] + rest->Ok_0)
                                =~= token_views(tokens@).push(token@) + rest->Ok_0);
                        }
                    }
                    tokens.push_back(token);
                    at += length;
                    columns += length;
                },
            }
        }
    }
    Ok(tokens)
}

} // verus!
