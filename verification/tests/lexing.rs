use ttc::error::{ErrorKind, Fault};
use ttc::lexer::lexer;
use ttc::representations::{Token, TokenType, Type};

fn words(src: &str) -> Vec<(String, TokenType, Type)> {
    lexer(src.to_string())
        .unwrap()
        .iter()
        .map(|t| (t.lexeme().to_string(), *t.token_type(), t._type().clone()))
        .collect()
}

fn check(src: &str, want: &[(&str, TokenType, Type)]) {
    let got = words(src);
    assert_eq!(got.len(), want.len(), "{:?}", got);
    for (g, w) in got.iter().zip(want.iter()) {
        assert_eq!(g.0, w.0);
        assert_eq!(g.1, w.1);
        assert_eq!(g.2, w.2);
    }
}

#[test]
fn lexes_a_declaration() {
    check(
        "const int x = 3 + 4 * 2;",
        &[
            ("const", TokenType::Keyword, Type::Untyped),
            ("int", TokenType::Keyword, Type::Untyped),
            ("x", TokenType::Identifier, Type::Untyped),
            ("=", TokenType::Assignment, Type::Untyped),
            ("3", TokenType::Literal, Type::Int),
            ("+", TokenType::Operator, Type::Untyped),
            ("4", TokenType::Literal, Type::Int),
            ("*", TokenType::Operator, Type::Untyped),
            ("2", TokenType::Literal, Type::Int),
            (";", TokenType::Terminal, Type::Untyped),
        ],
    );
}

#[test]
fn every_keyword_is_a_keyword() {
    for word in ["const", "mut", "if", "else", "while", "break", "int", "bool"] {
        check(word, &[(word, TokenType::Keyword, Type::Untyped)]);
    }
}

#[test]
fn booleans_are_literals_of_type_bool() {
    check(
        "true false",
        &[("true", TokenType::Literal, Type::Bool), ("false", TokenType::Literal, Type::Bool)],
    );
}

#[test]
fn words_that_only_start_like_keywords_are_identifiers() {
    check(
        "iff constant _x truely x1 mutable",
        &[
            ("iff", TokenType::Identifier, Type::Untyped),
            ("constant", TokenType::Identifier, Type::Untyped),
            ("_x", TokenType::Identifier, Type::Untyped),
            ("truely", TokenType::Identifier, Type::Untyped),
            ("x1", TokenType::Identifier, Type::Untyped),
            ("mutable", TokenType::Identifier, Type::Untyped),
        ],
    );
}

#[test]
fn punctuation_is_terminal() {
    for word in [";", "(", ")", "{", "}", "[", "]", ","] {
        check(word, &[(word, TokenType::Terminal, Type::Untyped)]);
    }
}

#[test]
fn single_character_operators() {
    for word in ["+", "-", "*", "/", "%", "<", ">", "&"] {
        check(word, &[(word, TokenType::Operator, Type::Untyped)]);
    }
}

#[test]
fn two_character_operators_need_one_character_of_lookahead() {
    check(
        "== != <= >= = < >",
        &[
            ("==", TokenType::Operator, Type::Untyped),
            ("!=", TokenType::Operator, Type::Untyped),
            ("<=", TokenType::Operator, Type::Untyped),
            (">=", TokenType::Operator, Type::Untyped),
            ("=", TokenType::Assignment, Type::Untyped),
            ("<", TokenType::Operator, Type::Untyped),
            (">", TokenType::Operator, Type::Untyped),
        ],
    );
    check(
        "a<=b",
        &[
            ("a", TokenType::Identifier, Type::Untyped),
            ("<=", TokenType::Operator, Type::Untyped),
            ("b", TokenType::Identifier, Type::Untyped),
        ],
    );
    check(
        "===",
        &[("==", TokenType::Operator, Type::Untyped), ("=", TokenType::Assignment, Type::Untyped)],
    );
}

#[test]
fn tokens_need_no_blank_between_them() {
    check(
        "x=y-1;",
        &[
            ("x", TokenType::Identifier, Type::Untyped),
            ("=", TokenType::Assignment, Type::Untyped),
            ("y", TokenType::Identifier, Type::Untyped),
            ("-", TokenType::Operator, Type::Untyped),
            ("1", TokenType::Literal, Type::Int),
            (";", TokenType::Terminal, Type::Untyped),
        ],
    );
}

#[test]
fn empty_and_blank_sources_have_no_tokens() {
    assert_eq!(lexer(String::new()).unwrap().len(), 0);
    assert_eq!(lexer("  \n \n".to_string()).unwrap().len(), 0);
}

#[test]
fn positions_are_one_based_and_reset_on_newline() {
    let tokens = lexer("a\n  bb ==\n\nc".to_string()).unwrap();
    let places: Vec<(usize, usize)> =
        tokens.iter().map(|t| (*t.line_number(), *t.line_index())).collect();
    assert_eq!(places, vec![(1, 1), (2, 3), (2, 6), (4, 1)]);
}

#[test]
fn lone_bang_is_a_lex_error() {
    let e = lexer("x ! y".to_string()).unwrap_err();
    assert_eq!(e.fault, Fault::UnterminatedOperator);
    assert_eq!(e.kind(), ErrorKind::LexError);
    assert_eq!((e.line, e.column), (1, 3));
    let e = lexer("!".to_string()).unwrap_err();
    assert_eq!(e.fault, Fault::UnterminatedOperator);
}

#[test]
fn unknown_character_is_a_lex_error_with_its_place() {
    let e = lexer("const int x = 1;\n  x # 2".to_string()).unwrap_err();
    assert_eq!(e.fault, Fault::BadCharacter);
    assert_eq!(e.kind(), ErrorKind::LexError);
    assert_eq!((e.line, e.column), (2, 5));
    for src in ["\t", "\r\n", "x.y", "é", "\"s\"", "a|b", "a^b"] {
        assert_eq!(lexer(src.to_string()).unwrap_err().fault, Fault::BadCharacter, "{}", src);
    }
}

#[test]
fn a_word_that_starts_with_a_digit_is_one_integer_literal() {
    check(
        "y = 12ab;",
        &[
            ("y", TokenType::Identifier, Type::Untyped),
            ("=", TokenType::Assignment, Type::Untyped),
            ("12ab", TokenType::Literal, Type::Int),
            (";", TokenType::Terminal, Type::Untyped),
        ],
    );
    check("1a", &[("1a", TokenType::Literal, Type::Int)]);
    check("1_000", &[("1_000", TokenType::Literal, Type::Int)]);
    check("0true", &[("0true", TokenType::Literal, Type::Int)]);
    check("7int", &[("7int", TokenType::Literal, Type::Int)]);
    check(
        "1a+b2",
        &[
            ("1a", TokenType::Literal, Type::Int),
            ("+", TokenType::Operator, Type::Untyped),
            ("b2", TokenType::Identifier, Type::Untyped),
        ],
    );
    let tokens = lexer("x 12ab".to_string()).unwrap();
    assert_eq!((*tokens[1].line_number(), *tokens[1].line_index()), (1, 3));
}

#[test]
fn long_digit_runs_are_one_literal() {
    check(
        "123456789012345678901234567890",
        &[("123456789012345678901234567890", TokenType::Literal, Type::Int)],
    );
}

#[test]
fn lexemes_spelled_out_again_lex_to_the_same_words() {
    for src in [
        "const int x = 3 + 4 * 2;",
        "mut int y=x;y=y-1;if y>5{y=y*2;}else{y=0;}",
        "while y >= 1 { y = y - 1; break; }\nconst int[3] xs = [7,8,9];",
        "a<=b==c!=d>=e<f>g&h%i/j",
        "const int* p = &a; const int b = *p;",
        "x = 12ab + 1_000 - 7int;",
    ] {
        let first = words(src);
        let mut spelled = String::new();
        for (lexeme, _, _) in &first {
            spelled.push_str(lexeme);
            spelled.push(' ');
        }
        assert_eq!(first, words(&spelled), "{}", src);
    }
}

#[test]
fn token_getters_give_what_the_token_was_made_of() {
    let token = Token::new(Type::Bool, TokenType::Literal, "true".to_string(), 3, 9);
    assert_eq!(token.lexeme(), "true");
    assert_eq!(*token._type(), Type::Bool);
    assert_eq!(*token.token_type(), TokenType::Literal);
    assert_eq!(*token.line_number(), 3);
    assert_eq!(*token.line_index(), 9);
    let copy = token.clone();
    assert_eq!(copy.lexeme(), "true");
    assert_eq!((*copy.line_number(), *copy.line_index()), (3, 9));
}
