//! Scope: a parsed program only names variables that its symbol table holds,
//! and the table holds every name once.

use crate::grammar::{
    advanced, binary_tail, parse_binary, parse_block, parse_braces, parse_conditional,
    parse_declaration, parse_expression, parse_guard, parse_identifier, parse_list_literal,
    parse_loop, parse_mutation, parse_primary, parse_program, parse_statement, parse_unary, word_at,
};
use crate::representations::{
    AssignmentView, BlockView, Context, ExpressionView, ListView, LiteralView, StatementView,
    TokenView, Type,
};
use crate::symbols::{bind, distinct_names, lemma_bind, lookup, Binding};
use vstd::prelude::*;

verus! {

/// Whether `table` holds every variable that a literal names.
pub open spec fn literal_known(literal: LiteralView, table: Seq<Binding>) -> bool
    decreases literal,
{
    match literal {
        LiteralView::Symbol(token) => lookup(table, token.lexeme) is Some,
        LiteralView::List(list) => list_known(*list, table),
        _ => true,
    }
}

/// Whether `table` holds every variable that a list literal names.
pub open spec fn list_known(list: ListView, table: Seq<Binding>) -> bool
    decreases list,
{
    match list {
        ListView::Literal(only) => literal_known(only, table),
        ListView::List(first, rest) => literal_known(first, table) && list_known(*rest, table),
    }
}

/// Whether `table` holds every variable that an expression names.
pub open spec fn expression_known(e: ExpressionView, table: Seq<Binding>) -> bool
    decreases e,
{
    match e {
        ExpressionView::Binary(left, _, right) => expression_known(*left, table)
            && expression_known(*right, table),
        ExpressionView::Unary(_, operand) => expression_known(*operand, table),
        ExpressionView::Literal(literal) => literal_known(literal, table),
        ExpressionView::Group(_, inner, _) => expression_known(*inner, table),
    }
}

/// The variable that an assignment writes to.
pub open spec fn target_name(target: AssignmentView) -> Seq<char> {
    match target {
        AssignmentView::Value(_, name) => name,
        AssignmentView::Pointer(_, name) => name,
        AssignmentView::Mutation(name) => name,
    }
}

/// Whether `table` holds every variable that a statement names, reads or
/// writes.
pub open spec fn statement_known(s: StatementView, table: Seq<Binding>) -> bool
    decreases s,
{
    match s {
        StatementView::Assignment(target, value) => lookup(table, target_name(target)) is Some
            && expression_known(value, table),
        StatementView::If(guard, body) => expression_known(guard, table) && statement_known(
            *body,
            table,
        ),
        StatementView::IfElse(guard, body, otherwise) => expression_known(guard, table)
            && statement_known(*body, table) && statement_known(*otherwise, table),
        StatementView::Block(block) => block_known(*block, table),
        StatementView::While(guard, body) => expression_known(guard, table) && statement_known(
            *body,
            table,
        ),
        StatementView::Break => true,
    }
}

/// Whether `table` holds every variable that the statements of a block name.
pub open spec fn block_known(block: BlockView, table: Seq<Binding>) -> bool
    decreases block,
{
    match block {
        BlockView::Statement(only) => statement_known(only, table),
        BlockView::Block(first, rest) => statement_known(first, table) && block_known(
            *rest,
            table,
        ),
    }
}

/// Whether `after` holds every variable that `before` holds.
pub open spec fn extends(before: Seq<Binding>, after: Seq<Binding>) -> bool {
    forall|name: Seq<char>| #[trigger] lookup(before, name) is Some ==> lookup(after, name) is Some
}

/// Binding a name keeps every variable of the table.
pub proof fn lemma_bind_extends(
    table: Seq<Binding>,
    name: Seq<char>,
    symbol: crate::representations::Symbol,
)
    ensures
        extends(table, bind(table, name, symbol)),
        lookup(bind(table, name, symbol), name) is Some,
        distinct_names(table) ==> distinct_names(bind(table, name, symbol)),
{
    lemma_bind(table, name, symbol, name);
    assert forall|other: Seq<char>| #[trigger] lookup(table, other) is Some implies lookup(
        bind(table, name, symbol),
        other,
    ) is Some by {
        lemma_bind(table, name, symbol, other);
    }
}

/// A literal whose variables a table holds keeps them in a larger table.
pub proof fn lemma_literal_stays_known(
    literal: LiteralView,
    before: Seq<Binding>,
    after: Seq<Binding>,
)
    requires
        literal_known(literal, before),
        extends(before, after),
    ensures
        literal_known(literal, after),
    decreases literal,
{
    match literal {
        LiteralView::List(list) => lemma_list_stays_known(*list, before, after),
        _ => {},
    }
}

/// A list literal whose variables a table holds keeps them in a larger
/// table.
pub proof fn lemma_list_stays_known(list: ListView, before: Seq<Binding>, after: Seq<Binding>)
    requires
        list_known(list, before),
        extends(before, after),
    ensures
        list_known(list, after),
    decreases list,
{
    match list {
        ListView::Literal(only) => lemma_literal_stays_known(only, before, after),
        ListView::List(first, rest) => {
            lemma_literal_stays_known(first, before, after);
            lemma_list_stays_known(*rest, before, after);
        },
    }
}

/// An expression whose variables a table holds keeps them in a larger
/// table.
pub proof fn lemma_expression_stays_known(
    e: ExpressionView,
    before: Seq<Binding>,
    after: Seq<Binding>,
)
    requires
        expression_known(e, before),
        extends(before, after),
    ensures
        expression_known(e, after),
    decreases e,
{
    match e {
        ExpressionView::Binary(left, _, right) => {
            lemma_expression_stays_known(*left, before, after);
            lemma_expression_stays_known(*right, before, after);
        },
        ExpressionView::Unary(_, operand) => lemma_expression_stays_known(
            *operand,
            before,
            after,
        ),
        ExpressionView::Literal(literal) => lemma_literal_stays_known(literal, before, after),
        ExpressionView::Group(_, inner, _) => lemma_expression_stays_known(*inner, before, after),
    }
}

/// A statement whose variables a table holds keeps them in a larger table.
pub proof fn lemma_statement_stays_known(
    s: StatementView,
    before: Seq<Binding>,
    after: Seq<Binding>,
)
    requires
        statement_known(s, before),
        extends(before, after),
    ensures
        statement_known(s, after),
    decreases s,
{
    match s {
        StatementView::Assignment(_, value) => {
            lemma_expression_stays_known(value, before, after);
        },
        StatementView::If(guard, body) => {
            lemma_expression_stays_known(guard, before, after);
            lemma_statement_stays_known(*body, before, after);
        },
        StatementView::IfElse(guard, body, otherwise) => {
            lemma_expression_stays_known(guard, before, after);
            lemma_statement_stays_known(*body, before, after);
            lemma_statement_stays_known(*otherwise, before, after);
        },
        StatementView::Block(block) => lemma_block_stays_known(*block, before, after),
        StatementView::While(guard, body) => {
            lemma_expression_stays_known(guard, before, after);
            lemma_statement_stays_known(*body, before, after);
        },
        StatementView::Break => {},
    }
}

/// A block whose variables a table holds keeps them in a larger table.
pub proof fn lemma_block_stays_known(block: BlockView, before: Seq<Binding>, after: Seq<Binding>)
    requires
        block_known(block, before),
        extends(before, after),
    ensures
        block_known(block, after),
    decreases block,
{
    match block {
        BlockView::Statement(only) => lemma_statement_stays_known(only, before, after),
        BlockView::Block(first, rest) => {
            lemma_statement_stays_known(first, before, after);
            lemma_block_stays_known(*rest, before, after);
        },
    }
}

/// A parsed expression of any precedence level names only variables that
/// the table holds.
pub proof fn lemma_binary_known(tokens: Seq<TokenView>, pos: nat, table: Seq<Binding>, level: nat)
    ensures
        parse_binary(tokens, pos, table, level) matches Ok(((e, _), _)) ==> expression_known(
            e,
            table,
        ),
    decreases tokens.len() - pos, level, 3nat,
{
    if level == 0 {
        lemma_unary_known(tokens, pos, table);
    } else {
        lemma_binary_known(tokens, pos, table, (level - 1) as nat);
        match parse_binary(tokens, pos, table, (level - 1) as nat) {
            Ok(((left, ty), next)) => {
                if advanced(tokens, pos, next) {
                    lemma_tail_known(tokens, next, table, level, left, ty);
                }
            },
            Err(_) => {},
        }
    }
}

/// An expression grown by further operators and operands names only
/// variables that the table holds, if the expression it grew from does.
pub proof fn lemma_tail_known(
    tokens: Seq<TokenView>,
    pos: nat,
    table: Seq<Binding>,
    level: nat,
    left: ExpressionView,
    ty: Type,
)
    requires
        expression_known(left, table),
    ensures
        binary_tail(tokens, pos, table, level, left, ty) matches Ok(((e, _), _))
            ==> expression_known(e, table),
    decreases tokens.len() - pos, level, 0nat,
{
    if level >= 1 && pos < tokens.len() && crate::grammar::operator_level(
        tokens[pos as int].lexeme,
    ) == level {
        let op = tokens[pos as int];
        lemma_binary_known(tokens, pos + 1, table, (level - 1) as nat);
        match parse_binary(tokens, pos + 1, table, (level - 1) as nat) {
            Ok(((right, right_ty), next)) => {
                match crate::grammar::binary_type(op.lexeme, ty, right_ty) {
                    Some(joined_ty) => {
                        if advanced(tokens, pos, next) {
                            lemma_tail_known(
                                tokens,
                                next,
                                table,
                                level,
                                ExpressionView::Binary(Box::new(left), op, Box::new(right)),
                                joined_ty,
                            );
                        }
                    },
                    None => {},
                }
            },
            Err(_) => {},
        }
    }
}

/// A parsed unary expression names only variables that the table holds.
pub proof fn lemma_unary_known(tokens: Seq<TokenView>, pos: nat, table: Seq<Binding>)
    ensures
        parse_unary(tokens, pos, table) matches Ok(((e, _), _)) ==> expression_known(e, table),
    decreases tokens.len() - pos, 0nat, 2nat,
{
    if word_at(tokens, pos, "-"@) || word_at(tokens, pos, "&"@) || word_at(tokens, pos, "*"@) {
        lemma_unary_known(tokens, pos + 1, table);
    } else {
        lemma_primary_known(tokens, pos, table);
    }
}

/// A parsed primary expression names only variables that the table holds.
pub proof fn lemma_primary_known(tokens: Seq<TokenView>, pos: nat, table: Seq<Binding>)
    ensures
        parse_primary(tokens, pos, table) matches Ok(((e, _), _)) ==> expression_known(e, table),
    decreases tokens.len() - pos, 0nat, 0nat,
{
    if pos < tokens.len() {
        lemma_binary_known(tokens, pos + 1, table, crate::grammar::loosest());
        lemma_list_known(tokens, pos + 1, table);
    }
}

/// A parsed list literal names only variables that the table holds.
pub proof fn lemma_list_known(tokens: Seq<TokenView>, pos: nat, table: Seq<Binding>)
    ensures
        parse_list_literal(tokens, pos, table) matches Ok(((list, _, _), _)) ==> list_known(
            list,
            table,
        ),
    decreases tokens.len() - pos, 0nat, 1nat,
{
    lemma_primary_known(tokens, pos, table);
    match parse_primary(tokens, pos, table) {
        Ok(((element, ty), next)) => {
            if !word_at(tokens, next, "]"@) && word_at(tokens, next, ","@) && advanced(
                tokens,
                pos,
                next,
            ) {
                lemma_list_known(tokens, next + 1, table);
            }
        },
        Err(_) => {},
    }
}

/// What parsing a statement does to the symbol table: every variable that
/// it held stays, its names stay distinct, and it holds every variable that
/// the parsed statement names.
pub open spec fn scoped<T>(
    before: Seq<Binding>,
    outcome: crate::grammar::Outcome<T>,
    known: spec_fn(T, Seq<Binding>) -> bool,
) -> bool {
    &&& extends(before, outcome.table)
    &&& distinct_names(before) ==> distinct_names(outcome.table)
    &&& outcome.result matches Ok((parsed, _)) ==> known(parsed, outcome.table)
}

/// A parsed declaration adds its variable and names only variables that the
/// table holds.
pub proof fn lemma_declaration_scoped(
    tokens: Seq<TokenView>,
    pos: nat,
    table: Seq<Binding>,
    mutable: bool,
)
    ensures
        scoped(
            table,
            parse_declaration(tokens, pos, table, mutable),
            |s: StatementView, t: Seq<Binding>| statement_known(s, t),
        ),
{
    let outcome = parse_declaration(tokens, pos, table, mutable);
    match parse_identifier(tokens, pos + 1) {
        Ok(((declared, name), equals)) => {
            lemma_binary_known(tokens, equals + 1, table, crate::grammar::loosest());
            match parse_expression(tokens, equals + 1, table) {
                Ok(((value, ty), end)) => {
                    if outcome.result is Ok {
                        let symbol = crate::representations::Symbol {
                            stack_offset: None,
                            _type: declared,
                            mutable,
                            init_line: tokens[pos as int].line,
                            last_ref: tokens[pos as int].line,
                        };
                        lemma_bind_extends(table, name, symbol);
                        lemma_expression_stays_known(value, table, outcome.table);
                    }
                },
                Err(_) => {},
            }
        },
        Err(_) => {},
    }
}

/// A parsed assignment keeps the variables of the table and names only
/// variables that the table holds.
pub proof fn lemma_mutation_scoped(tokens: Seq<TokenView>, pos: nat, table: Seq<Binding>)
    ensures
        scoped(
            table,
            parse_mutation(tokens, pos, table),
            |s: StatementView, t: Seq<Binding>| statement_known(s, t),
        ),
{
    let outcome = parse_mutation(tokens, pos, table);
    let name = tokens[pos as int].lexeme;
    match lookup(table, name) {
        Some(known) => {
            lemma_binary_known(tokens, pos + 2, table, crate::grammar::loosest());
            match parse_expression(tokens, pos + 2, table) {
                Ok(((value, ty), end)) => {
                    if outcome.result is Ok {
                        let symbol = crate::representations::Symbol {
                            stack_offset: None,
                            _type: known._type,
                            mutable: true,
                            init_line: known.init_line,
                            last_ref: tokens[pos as int].line,
                        };
                        lemma_bind_extends(table, name, symbol);
                        lemma_expression_stays_known(value, table, outcome.table);
                    }
                },
                Err(_) => {},
            }
        },
        None => {},
    }
}

/// A parsed `if` statement keeps the variables of the table, adds those it
/// declares, and names only variables that the table then holds.
pub proof fn lemma_conditional_scoped(
    tokens: Seq<TokenView>,
    pos: nat,
    table: Seq<Binding>,
    context: Context,
)
    ensures
        scoped(
            table,
            parse_conditional(tokens, pos, table, context),
            |s: StatementView, t: Seq<Binding>| statement_known(s, t),
        ),
    decreases tokens.len() - pos, 0nat,
{
    lemma_binary_known(tokens, pos + 1, table, crate::grammar::loosest());
    match parse_guard(tokens, pos, table) {
        Ok((guard, next)) => {
            if advanced(tokens, pos, next) {
                lemma_statement_scoped(tokens, next, table, context);
                let body = parse_statement(tokens, next, table, context);
                match body.result {
                    Ok((then, after)) => {
                        lemma_expression_stays_known(guard, table, body.table);
                        if word_at(tokens, after, "else"@) && advanced(tokens, pos, after) {
                            lemma_statement_scoped(tokens, after + 1, body.table, context);
                            let other = parse_statement(tokens, after + 1, body.table, context);
                            if other.result is Ok {
                                lemma_expression_stays_known(guard, body.table, other.table);
                                lemma_statement_stays_known(then, body.table, other.table);
                            }
                        }
                    },
                    Err(_) => {},
                }
            }
        },
        Err(_) => {},
    }
}

/// A parsed `while` statement keeps the variables of the table, adds those
/// it declares, and names only variables that the table then holds.
pub proof fn lemma_loop_scoped(tokens: Seq<TokenView>, pos: nat, table: Seq<Binding>)
    ensures
        scoped(
            table,
            parse_loop(tokens, pos, table),
            |s: StatementView, t: Seq<Binding>| statement_known(s, t),
        ),
    decreases tokens.len() - pos, 0nat,
{
    lemma_binary_known(tokens, pos + 1, table, crate::grammar::loosest());
    match parse_guard(tokens, pos, table) {
        Ok((guard, next)) => {
            if advanced(tokens, pos, next) {
                lemma_statement_scoped(tokens, next, table, Context::While);
                let body = parse_statement(tokens, next, table, Context::While);
                if body.result is Ok {
                    lemma_expression_stays_known(guard, table, body.table);
                }
            }
        },
        Err(_) => {},
    }
}

/// A parsed block statement keeps the variables of the table, adds those it
/// declares, and names only variables that the table then holds.
pub proof fn lemma_braces_scoped(
    tokens: Seq<TokenView>,
    pos: nat,
    table: Seq<Binding>,
    context: Context,
)
    ensures
        scoped(
            table,
            parse_braces(tokens, pos, table, context),
            |s: StatementView, t: Seq<Binding>| statement_known(s, t),
        ),
    decreases tokens.len() - pos, 0nat,
{
    if pos < tokens.len() {
        lemma_block_scoped(tokens, pos + 1, table, context);
    }
}

/// A parsed statement keeps the variables of the table, adds those it
/// declares, and names only variables that the table then holds.
pub proof fn lemma_statement_scoped(
    tokens: Seq<TokenView>,
    pos: nat,
    table: Seq<Binding>,
    context: Context,
)
    ensures
        scoped(
            table,
            parse_statement(tokens, pos, table, context),
            |s: StatementView, t: Seq<Binding>| statement_known(s, t),
        ),
    decreases tokens.len() - pos, 1nat,
{
    if pos < tokens.len() {
        let first = tokens[pos as int];
        if first.lexeme == "const"@ {
            lemma_declaration_scoped(tokens, pos, table, false);
        } else if first.lexeme == "mut"@ {
            lemma_declaration_scoped(tokens, pos, table, true);
        } else if first.lexeme == "if"@ {
            lemma_conditional_scoped(tokens, pos, table, context);
        } else if first.lexeme == "while"@ {
            lemma_loop_scoped(tokens, pos, table);
        } else if first.lexeme == "break"@ {
        } else if first.lexeme == "{"@ {
            lemma_braces_scoped(tokens, pos, table, context);
        } else if first.kind == crate::representations::TokenType::Identifier {
            lemma_mutation_scoped(tokens, pos, table);
        }
    }
}

/// A parsed block keeps the variables of the table, adds those it declares,
/// and names only variables that the table then holds.
pub proof fn lemma_block_scoped(
    tokens: Seq<TokenView>,
    pos: nat,
    table: Seq<Binding>,
    context: Context,
)
    ensures
        scoped(
            table,
            parse_block(tokens, pos, table, context),
            |b: BlockView, t: Seq<Binding>| block_known(b, t),
        ),
    decreases tokens.len() - pos, 2nat,
{
    lemma_statement_scoped(tokens, pos, table, context);
    let first = parse_statement(tokens, pos, table, context);
    match first.result {
        Ok((statement, next)) => {
            if !word_at(tokens, next, "}"@) && advanced(tokens, pos, next) {
                lemma_block_scoped(tokens, next, first.table, context);
                let rest = parse_block(tokens, next, first.table, context);
                if rest.result is Ok {
                    lemma_statement_stays_known(statement, first.table, rest.table);
                }
            }
        },
        Err(_) => {},
    }
}

/// After parsing, every variable that a statement of the program names,
/// reads or writes stands in the symbol table, the table still holds what
/// it held before, and no name stands in it twice if none did before.
pub proof fn lemma_program_scoped(tokens: Seq<TokenView>, pos: nat, table: Seq<Binding>)
    ensures
        extends(table, parse_program(tokens, pos, table).table),
        distinct_names(table) ==> distinct_names(parse_program(tokens, pos, table).table),
        parse_program(tokens, pos, table).result matches Ok(statements) ==> forall|k: int|
            0 <= k < statements.len() ==> statement_known(
                #[trigger] statements[k],
                parse_program(tokens, pos, table).table,
            ),
    decreases tokens.len() - pos,
{
    if pos < tokens.len() {
        lemma_statement_scoped(tokens, pos, table, Context::TopLevel);
        let first = parse_statement(tokens, pos, table, Context::TopLevel);
        match first.result {
            Ok((statement, next)) => {
                if advanced(tokens, pos, next) {
                    lemma_program_scoped(tokens, next, first.table);
                    let rest = parse_program(tokens, next, first.table);
                    match rest.result {
                        Ok(more) => {
                            lemma_statement_stays_known(statement, first.table, rest.table);
                        },
                        Err(_) => {},
                    }
                }
            },
            Err(_) => {},
        }
    }
}

} // verus!
