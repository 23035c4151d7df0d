//! Progress: every successful parse ends further on than it began, within
//! the tokens. So the grammar never meets the case `stuck`.

use crate::grammar::{
    advanced, binary_tail, binary_type, loosest, operator_level, parse_binary, parse_block,
    parse_declaration, parse_guard, parse_identifier, parse_list_literal, parse_mutation,
    parse_primary, parse_statement, parse_unary, stuck, word_at,
};
use crate::representations::{Context, ExpressionView, TokenType, TokenView, Type};
use crate::symbols::Binding;
use vstd::prelude::*;

verus! {

/// A parsed expression of any precedence level holds at least one token.
pub proof fn lemma_binary_advances(
    tokens: Seq<TokenView>,
    pos: nat,
    table: Seq<Binding>,
    level: nat,
)
    ensures
        parse_binary(tokens, pos, table, level) matches Ok((_, next)) ==> advanced(
            tokens,
            pos,
            next,
        ),
    decreases tokens.len() - pos, level, 3nat,
{
    if level == 0 {
        lemma_unary_advances(tokens, pos, table);
    } else {
        match parse_binary(tokens, pos, table, (level - 1) as nat) {
            Ok(((left, ty), next)) => {
                if advanced(tokens, pos, next) {
                    lemma_tail_advances(tokens, next, table, level, left, ty);
                }
            },
            Err(_) => {},
        }
    }
}

/// Further operators and operands end no earlier than they begin.
pub proof fn lemma_tail_advances(
    tokens: Seq<TokenView>,
    pos: nat,
    table: Seq<Binding>,
    level: nat,
    left: ExpressionView,
    ty: Type,
)
    requires
        pos <= tokens.len(),
    ensures
        binary_tail(tokens, pos, table, level, left, ty) matches Ok((_, next)) ==> pos <= next
            <= tokens.len(),
    decreases tokens.len() - pos, level, 0nat,
{
    if level >= 1 && pos < tokens.len() && operator_level(tokens[pos as int].lexeme) == level {
        let op = tokens[pos as int];
        match parse_binary(tokens, pos + 1, table, (level - 1) as nat) {
            Ok(((right, right_ty), next)) => {
                match binary_type(op.lexeme, ty, right_ty) {
                    Some(joined_ty) => {
                        if advanced(tokens, pos, next) {
                            lemma_tail_advances(
                                tokens,
                                next,
                                table,
                                level,
                                ExpressionView::Binary(Box::new(left), op, Box::new(right)),
                                joined_ty,
                            );
                        }
                    },
                    None => {},
                }
            },
            Err(_) => {},
        }
    }
}

/// A parsed unary expression holds at least one token.
pub proof fn lemma_unary_advances(tokens: Seq<TokenView>, pos: nat, table: Seq<Binding>)
    ensures
        parse_unary(tokens, pos, table) matches Ok((_, next)) ==> advanced(tokens, pos, next),
    decreases tokens.len() - pos, 0nat, 2nat,
{
    if word_at(tokens, pos, "-"@) || word_at(tokens, pos, "&"@) || word_at(tokens, pos, "*"@) {
        lemma_unary_advances(tokens, pos + 1, table);
    } else {
        lemma_primary_advances(tokens, pos, table);
    }
}

/// A parsed primary expression holds at least one token.
pub proof fn lemma_primary_advances(tokens: Seq<TokenView>, pos: nat, table: Seq<Binding>)
    ensures
        parse_primary(tokens, pos, table) matches Ok((_, next)) ==> advanced(tokens, pos, next),
    decreases tokens.len() - pos, 0nat, 0nat,
{
    if pos < tokens.len() {
        lemma_binary_advances(tokens, pos + 1, table, loosest());
        lemma_list_advances(tokens, pos + 1, table);
    }
}

/// A parsed list literal holds at least one token, and no more elements
/// than tokens.
pub proof fn lemma_list_advances(tokens: Seq<TokenView>, pos: nat, table: Seq<Binding>)
    ensures
        parse_list_literal(tokens, pos, table) matches Ok(((_, _, count), next)) ==> advanced(
            tokens,
            pos,
            next,
        ) && count <= next - pos,
    decreases tokens.len() - pos, 0nat, 1nat,
{
    lemma_primary_advances(tokens, pos, table);
    match parse_primary(tokens, pos, table) {
        Ok(((element, ty), next)) => {
            if !word_at(tokens, next, "]"@) && word_at(tokens, next, ","@) && advanced(
                tokens,
                pos,
                next,
            ) {
                lemma_list_advances(tokens, next + 1, table);
            }
        },
        Err(_) => {},
    }
}

/// A parsed declaration ends behind its `;`.
pub proof fn lemma_declaration_advances(
    tokens: Seq<TokenView>,
    pos: nat,
    table: Seq<Binding>,
    mutable: bool,
)
    ensures
        parse_declaration(tokens, pos, table, mutable).result matches Ok((_, next)) ==> advanced(
            tokens,
            pos,
            next,
        ),
{
    match parse_identifier(tokens, pos + 1) {
        Ok(((declared, name), equals)) => {
            lemma_binary_advances(tokens, equals + 1, table, loosest());
        },
        Err(_) => {},
    }
}

/// A parsed assignment ends behind its `;`.
pub proof fn lemma_mutation_advances(tokens: Seq<TokenView>, pos: nat, table: Seq<Binding>)
    ensures
        parse_mutation(tokens, pos, table).result matches Ok((_, next)) ==> advanced(
            tokens,
            pos,
            next,
        ),
{
    lemma_binary_advances(tokens, pos + 2, table, loosest());
}

/// A parsed statement holds at least one token.
pub proof fn lemma_statement_advances(
    tokens: Seq<TokenView>,
    pos: nat,
    table: Seq<Binding>,
    context: Context,
)
    ensures
        parse_statement(tokens, pos, table, context).result matches Ok((_, next)) ==> advanced(
            tokens,
            pos,
            next,
        ),
    decreases tokens.len() - pos, 1nat,
{
    if pos < tokens.len() {
        let first = tokens[pos as int];
        if first.lexeme == "const"@ {
            lemma_declaration_advances(tokens, pos, table, false);
        } else if first.lexeme == "mut"@ {
            lemma_declaration_advances(tokens, pos, table, true);
        } else if first.lexeme == "if"@ {
            lemma_binary_advances(tokens, pos + 1, table, loosest());
            match parse_guard(tokens, pos, table) {
                Ok((guard, next)) => {
                    lemma_statement_advances(tokens, next, table, context);
                    let body = parse_statement(tokens, next, table, context);
                    match body.result {
                        Ok((then, after)) => {
                            if word_at(tokens, after, "else"@) {
                                lemma_statement_advances(tokens, after + 1, body.table, context);
                            }
                        },
                        Err(_) => {},
                    }
                },
                Err(_) => {},
            }
        } else if first.lexeme == "while"@ {
            lemma_binary_advances(tokens, pos + 1, table, loosest());
            match parse_guard(tokens, pos, table) {
                Ok((guard, next)) => {
                    lemma_statement_advances(tokens, next, table, Context::While);
                },
                Err(_) => {},
            }
        } else if first.lexeme == "break"@ {
        } else if first.lexeme == "{"@ {
            lemma_block_advances(tokens, pos + 1, table, context);
        } else if first.kind == TokenType::Identifier {
            lemma_mutation_advances(tokens, pos, table);
        }
    }
}

/// A parsed block holds at least one token.
pub proof fn lemma_block_advances(
    tokens: Seq<TokenView>,
    pos: nat,
    table: Seq<Binding>,
    context: Context,
)
    ensures
        parse_block(tokens, pos, table, context).result matches Ok((_, next)) ==> advanced(
            tokens,
            pos,
            next,
        ),
    decreases tokens.len() - pos, 2nat,
{
    lemma_statement_advances(tokens, pos, table, context);
    let first = parse_statement(tokens, pos, table, context);
    match first.result {
        Ok((statement, next)) => {
            if !word_at(tokens, next, "}"@) {
                lemma_block_advances(tokens, next, first.table, context);
            }
        },
        Err(_) => {},
    }
}

} // verus!
