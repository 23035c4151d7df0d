//! What the parser accepts is written: every program that parses is a
//! sequence of statements written by the grammar that obey the type rules.
//! Together with the acceptance of written programs, this says that the
//! parser accepts the written programs and no others.

use crate::grammar::{
    advanced, parse_block, parse_braces, parse_conditional, parse_declaration, parse_guard,
    parse_identifier, parse_loop, parse_mutation, parse_program, parse_statement, word_at,
};
use crate::representations::{Context, StatementView, TokenType, TokenView};
use crate::symbols::Binding;
use crate::theorems::acceptance::lemma_accepted_is_spelled;
use crate::theorems::programs::{
    block_declares, block_size, block_written, declares, program_declares, program_written,
    statement_size, statement_written,
};
use vstd::prelude::*;

verus! {

/// Whether a statement outcome is that of the written statement that it
/// holds.
pub open spec fn is_written(
    tokens: Seq<TokenView>,
    pos: nat,
    table: Seq<Binding>,
    context: Context,
    outcome: crate::grammar::Outcome<StatementView>,
) -> bool {
    outcome.result matches Ok((s, next)) ==> {
        &&& statement_written(tokens, pos, s, table, context)
        &&& next == pos + statement_size(s)
        &&& outcome.table == declares(tokens, pos, s, table)
    }
}

/// A parsed declaration is written.
proof fn lemma_declaration_written(
    tokens: Seq<TokenView>,
    pos: nat,
    table: Seq<Binding>,
    context: Context,
)
    requires
        pos < tokens.len(),
        tokens[pos as int].lexeme == "const"@ || tokens[pos as int].lexeme == "mut"@,
    ensures
        is_written(
            tokens,
            pos,
            table,
            context,
            parse_declaration(tokens, pos, table, tokens[pos as int].lexeme == "mut"@),
        ),
{
    match parse_identifier(tokens, pos + 1) {
        Ok(((declared, name), equals)) => {
            lemma_accepted_is_spelled(tokens, equals + 1, table);
        },
        Err(_) => {},
    }
}

/// A parsed assignment is written.
proof fn lemma_mutation_written(
    tokens: Seq<TokenView>,
    pos: nat,
    table: Seq<Binding>,
    context: Context,
)
    requires
        pos < tokens.len(),
        tokens[pos as int].kind == TokenType::Identifier,
        !crate::theorems::programs::starts_other_statement(tokens[pos as int].lexeme),
    ensures
        is_written(tokens, pos, table, context, parse_mutation(tokens, pos, table)),
{
    lemma_accepted_is_spelled(tokens, pos + 2, table);
}

/// A parsed `if` statement is written.
proof fn lemma_conditional_written(
    tokens: Seq<TokenView>,
    pos: nat,
    table: Seq<Binding>,
    context: Context,
)
    requires
        pos < tokens.len(),
        tokens[pos as int].lexeme == "if"@,
    ensures
        is_written(tokens, pos, table, context, parse_conditional(tokens, pos, table, context)),
    decreases tokens.len() - pos, 0nat,
{
    lemma_accepted_is_spelled(tokens, pos + 1, table);
    match parse_guard(tokens, pos, table) {
        Ok((guard, next)) => {
            if advanced(tokens, pos, next) {
                lemma_statement_written(tokens, next, table, context);
                let body = parse_statement(tokens, next, table, context);
                match body.result {
                    Ok((then, after)) => {
                        if word_at(tokens, after, "else"@) && advanced(tokens, pos, after) {
                            lemma_statement_written(tokens, after + 1, body.table, context);
                        }
                    },
                    Err(_) => {},
                }
            }
        },
        Err(_) => {},
    }
}

/// A parsed `while` statement is written.
proof fn lemma_loop_written(
    tokens: Seq<TokenView>,
    pos: nat,
    table: Seq<Binding>,
    context: Context,
)
    requires
        pos < tokens.len(),
        tokens[pos as int].lexeme == "while"@,
    ensures
        is_written(tokens, pos, table, context, parse_loop(tokens, pos, table)),
    decreases tokens.len() - pos, 0nat,
{
    lemma_accepted_is_spelled(tokens, pos + 1, table);
    match parse_guard(tokens, pos, table) {
        Ok((guard, next)) => {
            if advanced(tokens, pos, next) {
                lemma_statement_written(tokens, next, table, Context::While);
            }
        },
        Err(_) => {},
    }
}

/// A parsed block statement is written.
proof fn lemma_braces_written(
    tokens: Seq<TokenView>,
    pos: nat,
    table: Seq<Binding>,
    context: Context,
)
    requires
        pos < tokens.len(),
        tokens[pos as int].lexeme == "{"@,
    ensures
        is_written(tokens, pos, table, context, parse_braces(tokens, pos, table, context)),
    decreases tokens.len() - pos, 0nat,
{
    lemma_block_written(tokens, pos + 1, table, context);
}

/// Every statement that the parser accepts is written: it follows the
/// grammar and obeys the type rules, it ends where its tokens end, and the
/// table holds what it declares.
pub proof fn lemma_statement_written(
    tokens: Seq<TokenView>,
    pos: nat,
    table: Seq<Binding>,
    context: Context,
)
    ensures
        is_written(tokens, pos, table, context, parse_statement(tokens, pos, table, context)),
    decreases tokens.len() - pos, 1nat,
{
    if pos < tokens.len() {
        let first = tokens[pos as int];
        if first.lexeme == "const"@ {
            crate::theorems::programs::lemma_statement_words();
            lemma_declaration_written(tokens, pos, table, context);
        } else if first.lexeme == "mut"@ {
            lemma_declaration_written(tokens, pos, table, context);
        } else if first.lexeme == "if"@ {
            lemma_conditional_written(tokens, pos, table, context);
        } else if first.lexeme == "while"@ {
            lemma_loop_written(tokens, pos, table, context);
        } else if first.lexeme == "break"@ {
        } else if first.lexeme == "{"@ {
            lemma_braces_written(tokens, pos, table, context);
        } else if first.kind == TokenType::Identifier {
            lemma_mutation_written(tokens, pos, table, context);
        }
    }
}

/// Every block that the parser accepts is written.
pub proof fn lemma_block_written(
    tokens: Seq<TokenView>,
    pos: nat,
    table: Seq<Binding>,
    context: Context,
)
    ensures
        parse_block(tokens, pos, table, context).result matches Ok((block, next)) ==> {
            &&& block_written(tokens, pos, block, table, context)
            &&& next == pos + block_size(block)
            &&& parse_block(tokens, pos, table, context).table == block_declares(
                tokens,
                pos,
                block,
                table,
            )
        },
    decreases tokens.len() - pos, 2nat,
{
    lemma_statement_written(tokens, pos, table, context);
    let first = parse_statement(tokens, pos, table, context);
    match first.result {
        Ok((statement, next)) => {
            if !word_at(tokens, next, "}"@) && advanced(tokens, pos, next) {
                lemma_block_written(tokens, next, first.table, context);
            }
        },
        Err(_) => {},
    }
}

/// Every program that the parser accepts is written: its statements follow
/// the grammar one after the other up to the last token and obey the type
/// rules, and the symbol table holds what they declare.
pub proof fn lemma_program_written(tokens: Seq<TokenView>, pos: nat, table: Seq<Binding>)
    ensures
        parse_program(tokens, pos, table).result matches Ok(statements) ==> {
            &&& program_written(tokens, pos, statements, 0, table)
            &&& parse_program(tokens, pos, table).table == program_declares(
                tokens,
                pos,
                statements,
                0,
                table,
            )
        },
    decreases tokens.len() - pos,
{
    if pos < tokens.len() {
        lemma_statement_written(tokens, pos, table, Context::TopLevel);
        let first = parse_statement(tokens, pos, table, Context::TopLevel);
        match first.result {
            Ok((statement, next)) => {
                if advanced(tokens, pos, next) {
                    lemma_program_written(tokens, next, first.table);
                    let rest = parse_program(tokens, next, first.table);
                    match rest.result {
                        Ok(more) => {
                            let all = seq![statement] + more;
                            lemma_shifted(tokens, next, more, 0, all, first.table);
                        },
                        Err(_) => {},
                    }
                }
            },
            Err(_) => {},
        }
    }
}

/// Statements written from some place on are written, and declare the same,
/// as the tail of a longer sequence of statements.
proof fn lemma_shifted(
    tokens: Seq<TokenView>,
    pos: nat,
    statements: Seq<StatementView>,
    from: nat,
    longer: Seq<StatementView>,
    table: Seq<Binding>,
)
    requires
        from <= statements.len(),
        longer.len() == statements.len() + 1,
        forall|k: int| 0 <= k < statements.len() ==> longer[k + 1] == statements[k],
        program_written(tokens, pos, statements, from, table),
    ensures
        program_written(tokens, pos, longer, from + 1, table),
        program_declares(tokens, pos, longer, from + 1, table) == program_declares(
            tokens,
            pos,
            statements,
            from,
            table,
        ),
    decreases statements.len() - from,
{
    if from < statements.len() {
        let first = statements[from as int];
        lemma_shifted(
            tokens,
            pos + statement_size(first),
            statements,
            from + 1,
            longer,
            declares(tokens, pos, first, table),
        );
    }
}

/// The parser accepts the written programs and no others: parsing gives
/// back a sequence of statements exactly where the tokens are those
/// statements, written by the grammar one after the other and obeying the
/// type rules.
pub proof fn lemma_accepts_exactly_the_written(
    tokens: Seq<TokenView>,
    table: Seq<Binding>,
    statements: Seq<StatementView>,
)
    ensures
        parse_program(tokens, 0, table).result == Ok::<
            Seq<StatementView>,
            crate::error::CompileError,
        >(statements) <==> program_written(tokens, 0, statements, 0, table),
{
    lemma_program_written(tokens, 0, table);
    if program_written(tokens, 0, statements, 0, table) {
        crate::theorems::programs::lemma_program_accepted(tokens, 0, statements, 0, table);
        assert(statements.skip(0) =~= statements);
    }
}

} // verus!
