//! Acceptance: the parser accepts every well-typed expression, however it
//! is placed among the tokens, and gives back the tree that was written.
//!
//! An expression tree is *spelled* by tokens where its tokens stand in order
//! and the tree follows the precedence of its operators: the operands of an
//! operator bind at least as tightly on the left and tighter on the right.

use crate::grammar::{
    binary_tail, binary_type, loosest, operator_level, parse_binary, parse_expression,
    parse_list_literal, parse_primary, parse_unary, word_at,
};
use crate::representations::{ExpressionView, ListView, LiteralView, TokenType, TokenView, Type};
use crate::symbols::Binding;
use crate::theorems::typing::{expression_type, list_type, literal_type};
use vstd::prelude::*;

verus! {

/// The number of tokens of a literal.
pub open spec fn literal_size(literal: LiteralView) -> nat
    decreases literal,
{
    match literal {
        LiteralView::List(list) => list_size(*list) + 2,
        _ => 1,
    }
}

/// The number of tokens of the elements of a list literal and the commas
/// between them.
pub open spec fn list_size(list: ListView) -> nat
    decreases list,
{
    match list {
        ListView::Literal(only) => literal_size(only),
        ListView::List(first, rest) => literal_size(first) + 1 + list_size(*rest),
    }
}

/// The number of tokens of an expression.
pub open spec fn expression_size(e: ExpressionView) -> nat
    decreases e,
{
    match e {
        ExpressionView::Binary(left, _, right) => expression_size(*left) + 1 + expression_size(
            *right,
        ),
        ExpressionView::Unary(_, operand) => 1 + expression_size(*operand),
        ExpressionView::Literal(literal) => literal_size(literal),
        ExpressionView::Group(_, inner, _) => expression_size(*inner) + 2,
    }
}

/// Whether `word` is one of the unary operators.
pub open spec fn is_unary_operator(word: Seq<char>) -> bool {
    word == "-"@ || word == "&"@ || word == "*"@
}

/// Whether `token` is the bracket `word`: punctuation that carries no value.
pub open spec fn is_bracket(token: TokenView, word: Seq<char>) -> bool {
    &&& token.kind == TokenType::Literal || token.kind == TokenType::Terminal
    &&& token.ty != Type::Bool
    &&& token.ty != Type::Int
    &&& token.lexeme == word
}

/// Whether the tokens from `pos` on spell the literal: a number or boolean
/// token of its intrinsic type, an identifier, or a list in brackets.
pub open spec fn literal_spelled(tokens: Seq<TokenView>, pos: nat, literal: LiteralView) -> bool
    decreases literal,
{
    &&& pos < tokens.len()
    &&& match literal {
        LiteralView::Int(token) => {
            &&& tokens[pos as int] == token
            &&& token.kind == TokenType::Literal || token.kind == TokenType::Terminal
            &&& token.ty == Type::Int
        },
        LiteralView::Bool(token) => {
            &&& tokens[pos as int] == token
            &&& token.kind == TokenType::Literal || token.kind == TokenType::Terminal
            &&& token.ty == Type::Bool
        },
        LiteralView::Symbol(token) => {
            &&& tokens[pos as int] == token
            &&& token.kind == TokenType::Identifier
        },
        LiteralView::List(list) => {
            &&& is_bracket(tokens[pos as int], "["@)
            &&& list_spelled(tokens, pos + 1, *list)
            &&& word_at(tokens, pos + 1 + list_size(*list), "]"@)
        },
    }
}

/// Whether the tokens from `pos` on spell the elements of the list, with a
/// comma between one and the next.
pub open spec fn list_spelled(tokens: Seq<TokenView>, pos: nat, list: ListView) -> bool
    decreases list,
{
    match list {
        ListView::Literal(only) => literal_spelled(tokens, pos, only),
        ListView::List(first, rest) => {
            &&& literal_spelled(tokens, pos, first)
            &&& word_at(tokens, pos + literal_size(first), ","@)
            &&& list_spelled(tokens, pos + literal_size(first) + 1, *rest)
        },
    }
}

/// Whether the tokens from `pos` on spell the expression as one of binary
/// precedence `level`: every binary operator in it is of a level up to
/// `level` or stands in parentheses, with a left operand of its own level
/// and a right operand of the next tighter one.
pub open spec fn expression_spelled(
    tokens: Seq<TokenView>,
    pos: nat,
    e: ExpressionView,
    level: nat,
) -> bool
    decreases e,
{
    match e {
        ExpressionView::Binary(left, op, right) => {
            let own = operator_level(op.lexeme);
            let middle = pos + expression_size(*left);
            &&& 1 <= own <= level
            &&& expression_spelled(tokens, pos, *left, own)
            &&& middle < tokens.len()
            &&& tokens[middle as int] == op
            &&& expression_spelled(tokens, middle + 1, *right, (own - 1) as nat)
        },
        ExpressionView::Unary(op, operand) => {
            &&& pos < tokens.len()
            &&& tokens[pos as int] == op
            &&& is_unary_operator(op.lexeme)
            &&& expression_spelled(tokens, pos + 1, *operand, 0)
        },
        ExpressionView::Literal(literal) => {
            &&& literal_spelled(tokens, pos, literal)
            &&& !is_unary_operator(tokens[pos as int].lexeme)
        },
        ExpressionView::Group(open, inner, close) => {
            let end = pos + 1 + expression_size(*inner);
            &&& pos < tokens.len()
            &&& tokens[pos as int] == open
            &&& is_bracket(open, "("@)
            &&& expression_spelled(tokens, pos + 1, *inner, loosest())
            &&& end < tokens.len()
            &&& tokens[end as int] == close
            &&& close.lexeme == ")"@
        },
    }
}

/// Whether an expression of binary precedence `level` that ends before
/// `end` cannot go on: no token follows, or one that is no binary operator,
/// or an operator that binds no tighter than `level`.
pub open spec fn closes(tokens: Seq<TokenView>, end: nat, level: nat) -> bool {
    end < tokens.len() ==> operator_level(tokens[end as int].lexeme) == 0 || operator_level(
        tokens[end as int].lexeme,
    ) >= level
}

/// The brackets, the comma and the operators are different words, and the
/// brackets and the comma are no operators.
pub proof fn lemma_words()
    ensures
        "("@ != "["@,
        "]"@ != ","@,
        !is_unary_operator("("@),
        !is_unary_operator("["@),
        operator_level(")"@) == 0,
{
    reveal_strlit("(");
    reveal_strlit(")");
    reveal_strlit("[");
    reveal_strlit("]");
    reveal_strlit(",");
    reveal_strlit("-");
    reveal_strlit("&");
    reveal_strlit("*");
    reveal_strlit("/");
    reveal_strlit("%");
    reveal_strlit("+");
    reveal_strlit("<");
    reveal_strlit(">");
    reveal_strlit("<=");
    reveal_strlit(">=");
    reveal_strlit("==");
    reveal_strlit("!=");
    assert("("@[0] != "["@[0]);
    assert("]"@[0] != ","@[0]);
    assert(")"@[0] == ')');
}

/// A spelled expression lies within the tokens.
pub proof fn lemma_spelled_within(tokens: Seq<TokenView>, pos: nat, e: ExpressionView, level: nat)
    requires
        expression_spelled(tokens, pos, e, level),
    ensures
        pos + expression_size(e) <= tokens.len(),
    decreases e,
{
    match e {
        ExpressionView::Binary(left, op, right) => {
            lemma_spelled_within(
                tokens,
                pos + expression_size(*left) + 1,
                *right,
                (operator_level(op.lexeme) - 1) as nat,
            );
        },
        ExpressionView::Unary(_, operand) => {
            lemma_spelled_within(tokens, pos + 1, *operand, 0);
        },
        ExpressionView::Literal(literal) => {},
        ExpressionView::Group(_, inner, _) => {},
    }
}

/// The parser accepts a spelled literal of some type as a primary
/// expression: it gives back the literal, its type, and the place after it.
pub proof fn lemma_literal_accepted(
    tokens: Seq<TokenView>,
    pos: nat,
    table: Seq<Binding>,
    literal: LiteralView,
)
    requires
        literal_spelled(tokens, pos, literal),
        literal_type(literal, table) is Some,
    ensures
        parse_primary(tokens, pos, table) == Ok::<
            ((ExpressionView, Type), nat),
            crate::error::CompileError,
        >(
            (
                (ExpressionView::Literal(literal), literal_type(literal, table)->0),
                pos + literal_size(literal),
            ),
        ),
    decreases literal,
{
    lemma_words();
    match literal {
        LiteralView::List(list) => {
            lemma_list_accepted(tokens, pos + 1, table, *list);
        },
        _ => {},
    }
}

/// The parser accepts the spelled elements of a list literal of one type
/// that a closing bracket follows.
pub proof fn lemma_list_accepted(
    tokens: Seq<TokenView>,
    pos: nat,
    table: Seq<Binding>,
    list: ListView,
)
    requires
        list_spelled(tokens, pos, list),
        word_at(tokens, pos + list_size(list), "]"@),
        list_type(list, table) is Some,
    ensures
        ({
            let found = list_type(list, table)->0;
            parse_list_literal(tokens, pos, table) == Ok::<
                ((ListView, Type, nat), nat),
                crate::error::CompileError,
            >(((list, found.0, found.1), pos + list_size(list)))
        }),
    decreases list,
{
    lemma_words();
    match list {
        ListView::Literal(only) => {
            lemma_literal_accepted(tokens, pos, table, only);
        },
        ListView::List(first, rest) => {
            lemma_literal_accepted(tokens, pos, table, first);
            lemma_list_accepted(tokens, pos + literal_size(first) + 1, table, *rest);
        },
    }
}

/// Whether `e` applies a binary operator of precedence `level`.
pub open spec fn is_application(e: ExpressionView, level: nat) -> bool {
    e is Binary && operator_level(e->Binary_1.lexeme) == level
}

/// Parsing a spelled, well-typed expression at its level comes to the
/// point behind it with the expression in hand, ready to grow by further
/// operators of that level.
pub proof fn lemma_spelled_parse(
    tokens: Seq<TokenView>,
    pos: nat,
    table: Seq<Binding>,
    e: ExpressionView,
    level: nat,
)
    requires
        level <= loosest(),
        expression_spelled(tokens, pos, e, level),
        expression_type(e, table) is Some,
        closes(tokens, pos + expression_size(e), level),
    ensures
        parse_binary(tokens, pos, table, level) == binary_tail(
            tokens,
            pos + expression_size(e),
            table,
            level,
            e,
            expression_type(e, table)->0,
        ),
    decreases e, level,
{
    lemma_words();
    lemma_spelled_within(tokens, pos, e, level);
    let end = pos + expression_size(e);
    let ty = expression_type(e, table)->0;
    if level == 0 {
        match e {
            ExpressionView::Binary(_, _, _) => {},
            ExpressionView::Unary(op, operand) => {
                lemma_spelled_parse(tokens, pos + 1, table, *operand, 0);
                assert(parse_unary(tokens, pos, table) == Ok::<
                    ((ExpressionView, Type), nat),
                    crate::error::CompileError,
                >(((e, ty), end)));
            },
            ExpressionView::Literal(literal) => {
                lemma_literal_accepted(tokens, pos, table, literal);
            },
            ExpressionView::Group(open, inner, close) => {
                lemma_spelled_parse(tokens, pos + 1, table, *inner, loosest());
            },
        }
    } else if is_application(e, level) {
        let left = e->Binary_0;
        let right = e->Binary_2;
        let middle = pos + expression_size(*left);
        lemma_spelled_parse(tokens, pos, table, *left, level);
        lemma_spelled_parse(tokens, middle + 1, table, *right, (level - 1) as nat);
    } else {
        lemma_spelled_parse(tokens, pos, table, e, (level - 1) as nat);
    }
}

/// The parser accepts every spelled, well-typed expression that no binary
/// operator follows: it gives back the expression as it was written, the
/// type that the rules give it, and the place after it.
pub proof fn lemma_expression_accepted(
    tokens: Seq<TokenView>,
    pos: nat,
    table: Seq<Binding>,
    e: ExpressionView,
)
    requires
        expression_spelled(tokens, pos, e, loosest()),
        expression_type(e, table) is Some,
        closes(tokens, pos + expression_size(e), 5),
    ensures
        parse_expression(tokens, pos, table) == Ok::<
            ((ExpressionView, Type), nat),
            crate::error::CompileError,
        >(((e, expression_type(e, table)->0), pos + expression_size(e))),
{
    lemma_spelled_parse(tokens, pos, table, e, loosest());
}

/// What the parser gives back as an expression of some level is spelled
/// at that level by the tokens that it read.
pub proof fn lemma_binary_spelled(tokens: Seq<TokenView>, pos: nat, table: Seq<Binding>, level: nat)
    ensures
        parse_binary(tokens, pos, table, level) matches Ok(((e, _), next)) ==> expression_spelled(
            tokens,
            pos,
            e,
            level,
        ) && next == pos + expression_size(e),
    decreases tokens.len() - pos, level, 3nat,
{
    if level == 0 {
        lemma_unary_spelled(tokens, pos, table);
    } else {
        lemma_binary_spelled(tokens, pos, table, (level - 1) as nat);
        match parse_binary(tokens, pos, table, (level - 1) as nat) {
            Ok(((left, ty), next)) => {
                if crate::grammar::advanced(tokens, pos, next) {
                    lemma_tail_spelled(tokens, pos, next, table, level, left, ty);
                }
            },
            Err(_) => {},
        }
    }
}

/// What the parser gives back after further operators and operands is
/// spelled by the tokens from the start of the first operand on.
pub proof fn lemma_tail_spelled(
    tokens: Seq<TokenView>,
    start: nat,
    pos: nat,
    table: Seq<Binding>,
    level: nat,
    left: ExpressionView,
    ty: Type,
)
    requires
        expression_spelled(tokens, start, left, level),
        pos == start + expression_size(left),
    ensures
        binary_tail(tokens, pos, table, level, left, ty) matches Ok(((e, _), next))
            ==> expression_spelled(tokens, start, e, level) && next == start + expression_size(
            e,
        ),
    decreases tokens.len() - pos, level, 0nat,
{
    if level >= 1 && pos < tokens.len() && operator_level(tokens[pos as int].lexeme) == level {
        let op = tokens[pos as int];
        lemma_binary_spelled(tokens, pos + 1, table, (level - 1) as nat);
        match parse_binary(tokens, pos + 1, table, (level - 1) as nat) {
            Ok(((right, right_ty), next)) => {
                match binary_type(op.lexeme, ty, right_ty) {
                    Some(joined_ty) => {
                        if crate::grammar::advanced(tokens, pos, next) {
                            let joined = ExpressionView::Binary(
                                Box::new(left),
                                op,
                                Box::new(right),
                            );
                            lemma_tail_spelled(
                                tokens,
                                start,
                                next,
                                table,
                                level,
                                joined,
                                joined_ty,
                            );
                        }
                    },
                    None => {},
                }
            },
            Err(_) => {},
        }
    }
}

/// What the parser gives back as a unary expression is spelled by the
/// tokens that it read.
pub proof fn lemma_unary_spelled(tokens: Seq<TokenView>, pos: nat, table: Seq<Binding>)
    ensures
        parse_unary(tokens, pos, table) matches Ok(((e, _), next)) ==> expression_spelled(
            tokens,
            pos,
            e,
            0,
        ) && next == pos + expression_size(e),
    decreases tokens.len() - pos, 0nat, 2nat,
{
    if word_at(tokens, pos, "-"@) || word_at(tokens, pos, "&"@) || word_at(tokens, pos, "*"@) {
        lemma_unary_spelled(tokens, pos + 1, table);
    } else {
        lemma_primary_spelled(tokens, pos, table);
    }
}

/// What the parser gives back as a primary expression is a literal or a
/// group that the tokens it read spell.
pub proof fn lemma_primary_spelled(tokens: Seq<TokenView>, pos: nat, table: Seq<Binding>)
    ensures
        parse_primary(tokens, pos, table) matches Ok(((e, _), next)) ==> {
            &&& next == pos + expression_size(e)
            &&& match e {
                ExpressionView::Literal(literal) => literal_spelled(tokens, pos, literal),
                ExpressionView::Group(_, _, _) => expression_spelled(tokens, pos, e, 0),
                _ => false,
            }
        },
    decreases tokens.len() - pos, 0nat, 0nat,
{
    if pos < tokens.len() {
        lemma_binary_spelled(tokens, pos + 1, table, loosest());
        lemma_list_spelled(tokens, pos + 1, table);
    }
}

/// What the parser gives back as the elements of a list literal is spelled
/// by the tokens that it read, and a closing bracket follows.
pub proof fn lemma_list_spelled(tokens: Seq<TokenView>, pos: nat, table: Seq<Binding>)
    ensures
        parse_list_literal(tokens, pos, table) matches Ok(((list, _, _), next)) ==> {
            &&& list_spelled(tokens, pos, list)
            &&& next == pos + list_size(list)
            &&& word_at(tokens, next, "]"@)
        },
    decreases tokens.len() - pos, 0nat, 1nat,
{
    lemma_primary_spelled(tokens, pos, table);
    match parse_primary(tokens, pos, table) {
        Ok(((element, ty), next)) => {
            if !word_at(tokens, next, "]"@) && word_at(tokens, next, ","@)
                && crate::grammar::advanced(tokens, pos, next) {
                lemma_list_spelled(tokens, next + 1, table);
            }
        },
        Err(_) => {},
    }
}

/// Behind a parsed expression of some level stands no operator of that
/// level or a tighter one.
pub proof fn lemma_binary_closes(tokens: Seq<TokenView>, pos: nat, table: Seq<Binding>, level: nat)
    ensures
        parse_binary(tokens, pos, table, level) matches Ok((_, next)) ==> closes(
            tokens,
            next,
            level + 1,
        ),
    decreases tokens.len() - pos, level, 3nat,
{
    if level > 0 {
        lemma_binary_closes(tokens, pos, table, (level - 1) as nat);
        match parse_binary(tokens, pos, table, (level - 1) as nat) {
            Ok(((left, ty), next)) => {
                if crate::grammar::advanced(tokens, pos, next) {
                    lemma_tail_closes(tokens, next, table, level, left, ty);
                }
            },
            Err(_) => {},
        }
    }
}

/// Behind an expression grown by operators of some level stands no operator
/// of that level or a tighter one, if none of a tighter level stood behind
/// the expression that it grew from.
pub proof fn lemma_tail_closes(
    tokens: Seq<TokenView>,
    pos: nat,
    table: Seq<Binding>,
    level: nat,
    left: ExpressionView,
    ty: Type,
)
    requires
        closes(tokens, pos, level),
    ensures
        binary_tail(tokens, pos, table, level, left, ty) matches Ok((_, next)) ==> closes(
            tokens,
            next,
            level + 1,
        ),
    decreases tokens.len() - pos, level, 0nat,
{
    if level >= 1 && pos < tokens.len() && operator_level(tokens[pos as int].lexeme) == level {
        let op = tokens[pos as int];
        lemma_binary_closes(tokens, pos + 1, table, (level - 1) as nat);
        match parse_binary(tokens, pos + 1, table, (level - 1) as nat) {
            Ok(((right, right_ty), next)) => {
                match binary_type(op.lexeme, ty, right_ty) {
                    Some(joined_ty) => {
                        if crate::grammar::advanced(tokens, pos, next) {
                            lemma_tail_closes(
                                tokens,
                                next,
                                table,
                                level,
                                ExpressionView::Binary(Box::new(left), op, Box::new(right)),
                                joined_ty,
                            );
                        }
                    },
                    None => {},
                }
            },
            Err(_) => {},
        }
    }
}

/// The parser accepts only spelled, well-typed expressions: what it gives
/// back is spelled by the tokens that it read and has the type that the
/// rules give it, and no binary operator follows it.
pub proof fn lemma_accepted_is_spelled(tokens: Seq<TokenView>, pos: nat, table: Seq<Binding>)
    ensures
        parse_expression(tokens, pos, table) matches Ok(((e, ty), next)) ==> {
            &&& expression_spelled(tokens, pos, e, loosest())
            &&& expression_type(e, table) == Some(ty)
            &&& next == pos + expression_size(e)
            &&& closes(tokens, next, 5)
        },
{
    lemma_binary_spelled(tokens, pos, table, loosest());
    lemma_binary_closes(tokens, pos, table, loosest());
    crate::theorems::typing::lemma_binary_typed(tokens, pos, table, loosest());
}

} // verus!
