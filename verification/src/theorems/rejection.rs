//! Rejection: an expression that is written by the grammar but breaks a
//! type rule is refused with a type error, wherever the broken rule stands in
//! it.

use crate::error::ErrorKind;
use crate::grammar::{
    binary_tail, binary_type, loosest, parse_binary, parse_expression, parse_list_literal,
    parse_primary, parse_unary, Parse,
};
use crate::representations::{ExpressionView, ListView, LiteralView, TokenView};
use crate::symbols::Binding;
use crate::theorems::acceptance::{
    closes, expression_size, expression_spelled, is_application, lemma_list_accepted,
    lemma_literal_accepted, lemma_spelled_parse, lemma_spelled_within, lemma_words, list_size,
    list_spelled, literal_size, literal_spelled,
};
use crate::theorems::scope::{expression_known, list_known, literal_known};
use crate::theorems::typing::{expression_type, list_type, literal_type};
use vstd::prelude::*;

verus! {

/// Whether a parse failed with a type error.
pub open spec fn type_error<T>(parse: Parse<T>) -> bool {
    parse matches Err(e) && e.fault.spec_kind() == ErrorKind::TypeError
}

/// A spelled literal without a type, whose variables are all declared, is
/// refused with a type error.
pub proof fn lemma_literal_rejected(
    tokens: Seq<TokenView>,
    pos: nat,
    table: Seq<Binding>,
    literal: LiteralView,
)
    requires
        literal_spelled(tokens, pos, literal),
        literal_known(literal, table),
        literal_type(literal, table) is None,
    ensures
        type_error(parse_primary(tokens, pos, table)),
    decreases literal,
{
    lemma_words();
    match literal {
        LiteralView::List(list) => {
            lemma_list_rejected(tokens, pos + 1, table, *list);
        },
        _ => {},
    }
}

/// The spelled elements of a list literal that have no common type, and
/// whose variables are all declared, are refused with a type error.
pub proof fn lemma_list_rejected(
    tokens: Seq<TokenView>,
    pos: nat,
    table: Seq<Binding>,
    list: ListView,
)
    requires
        list_spelled(tokens, pos, list),
        crate::grammar::word_at(tokens, pos + list_size(list), "]"@),
        list_known(list, table),
        list_type(list, table) is None,
    ensures
        type_error(parse_list_literal(tokens, pos, table)),
    decreases list,
{
    lemma_words();
    match list {
        ListView::Literal(only) => {
            lemma_literal_rejected(tokens, pos, table, only);
        },
        ListView::List(first, rest) => {
            if literal_type(first, table) is None {
                lemma_literal_rejected(tokens, pos, table, first);
            } else {
                lemma_literal_accepted(tokens, pos, table, first);
                let next = pos + literal_size(first) + 1;
                if list_type(*rest, table) is None {
                    lemma_list_rejected(tokens, next, table, *rest);
                } else {
                    lemma_list_accepted(tokens, next, table, *rest);
                }
            }
        },
    }
}

/// A spelled expression in which a type rule is broken, and whose variables
/// are all declared, is refused with a type error when it is parsed at its
/// level.
pub proof fn lemma_spelled_rejected(
    tokens: Seq<TokenView>,
    pos: nat,
    table: Seq<Binding>,
    e: ExpressionView,
    level: nat,
)
    requires
        level <= loosest(),
        expression_spelled(tokens, pos, e, level),
        expression_known(e, table),
        expression_type(e, table) is None,
        closes(tokens, pos + expression_size(e), level),
    ensures
        type_error(parse_binary(tokens, pos, table, level)),
    decreases e, level,
{
    lemma_words();
    lemma_spelled_within(tokens, pos, e, level);
    if level == 0 {
        match e {
            ExpressionView::Binary(_, _, _) => {},
            ExpressionView::Unary(op, operand) => {
                if expression_type(*operand, table) is None {
                    lemma_spelled_rejected(tokens, pos + 1, table, *operand, 0);
                } else {
                    lemma_spelled_parse(tokens, pos + 1, table, *operand, 0);
                }
                assert(type_error(parse_unary(tokens, pos, table)));
            },
            ExpressionView::Literal(literal) => {
                lemma_literal_rejected(tokens, pos, table, literal);
                assert(parse_unary(tokens, pos, table) == parse_primary(tokens, pos, table));
            },
            ExpressionView::Group(open, inner, close) => {
                lemma_spelled_rejected(tokens, pos + 1, table, *inner, loosest());
                assert(parse_unary(tokens, pos, table) == parse_primary(tokens, pos, table));
            },
        }
    } else if is_application(e, level) {
        let left = e->Binary_0;
        let op = e->Binary_1;
        let right = e->Binary_2;
        let middle = pos + expression_size(*left);
        if expression_type(*left, table) is None {
            lemma_spelled_rejected(tokens, pos, table, *left, level);
        } else {
            lemma_spelled_parse(tokens, pos, table, *left, level);
            let left_ty = expression_type(*left, table)->0;
            if expression_type(*right, table) is None {
                lemma_spelled_rejected(tokens, middle + 1, table, *right, (level - 1) as nat);
            } else {
                lemma_spelled_parse(tokens, middle + 1, table, *right, (level - 1) as nat);
                let right_ty = expression_type(*right, table)->0;
                assert(binary_type(op.lexeme, left_ty, right_ty) is None);
            }
            assert(type_error(binary_tail(tokens, middle, table, level, *left, left_ty)));
        }
    } else {
        lemma_spelled_rejected(tokens, pos, table, e, (level - 1) as nat);
    }
}

/// Every expression that is written by the grammar and names only declared
/// variables, but in which some operator is applied to operands of types
/// that it does not accept, is refused with a type error.
pub proof fn lemma_ill_typed_rejected(
    tokens: Seq<TokenView>,
    pos: nat,
    table: Seq<Binding>,
    e: ExpressionView,
)
    requires
        expression_spelled(tokens, pos, e, loosest()),
        expression_known(e, table),
        expression_type(e, table) is None,
        closes(tokens, pos + expression_size(e), 5),
    ensures
        type_error(parse_expression(tokens, pos, table)),
{
    lemma_spelled_rejected(tokens, pos, table, e, loosest());
}

} // verus!
