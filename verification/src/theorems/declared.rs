//! The symbol table of a parsed program holds exactly the variables that
//! the program declares: each once, in the order of the declarations, with
//! its declared type and without a stack offset.

use crate::grammar::parse_program;
use crate::representations::{
    AssignmentView, BlockView, Context, StatementView, TokenView, Type,
};
use crate::symbols::{
    bind, distinct_names, lemma_position_sound, lookup, position, Binding,
};
use crate::theorems::programs::{
    block_declares, block_written, declares, program_declares, program_written, statement_size,
    statement_written,
};
use crate::theorems::scope::lemma_program_scoped;
use crate::theorems::written::lemma_program_written;
use vstd::prelude::*;

verus! {

/// The name and the type of every variable of a table, in order.
pub open spec fn signature(table: Seq<Binding>) -> Seq<(Seq<char>, Type)> {
    table.map_values(|b: Binding| (b.name, b.symbol._type))
}

/// Whether no variable of the table has a stack offset yet.
pub open spec fn unplaced(table: Seq<Binding>) -> bool {
    forall|k: int| 0 <= k < table.len() ==> (#[trigger] table[k]).symbol.stack_offset is None
}

/// The name and the declared type of every variable that a statement
/// declares, nested statements included, in the order of the declarations.
pub open spec fn declarations(s: StatementView) -> Seq<(Seq<char>, Type)>
    decreases s,
{
    match s {
        StatementView::Assignment(AssignmentView::Value(declared, name), _) => seq![
            (name, declared),
        ],
        StatementView::Assignment(AssignmentView::Pointer(declared, name), _) => seq![
            (name, declared),
        ],
        StatementView::Assignment(AssignmentView::Mutation(_), _) => Seq::empty(),
        StatementView::If(_, body) => declarations(*body),
        StatementView::IfElse(_, body, otherwise) => declarations(*body) + declarations(
            *otherwise,
        ),
        StatementView::Block(block) => block_declarations(*block),
        StatementView::While(_, body) => declarations(*body),
        StatementView::Break => Seq::empty(),
    }
}

/// The name and the declared type of every variable that the statements of
/// a block declare.
pub open spec fn block_declarations(block: BlockView) -> Seq<(Seq<char>, Type)>
    decreases block,
{
    match block {
        BlockView::Statement(only) => declarations(only),
        BlockView::Block(first, rest) => declarations(first) + block_declarations(*rest),
    }
}

/// The name and the declared type of every variable that the statements
/// from `from` on declare.
pub open spec fn program_declarations(statements: Seq<StatementView>, from: nat) -> Seq<
    (Seq<char>, Type),
>
    decreases statements.len() - from,
{
    if from >= statements.len() {
        Seq::empty()
    } else {
        declarations(statements[from as int]) + program_declarations(statements, from + 1)
    }
}

/// Binding a new name adds it at the end of the table; binding a name that
/// the table holds, with the type it has, leaves names and types as they
/// are.
proof fn lemma_bind_signature(
    table: Seq<Binding>,
    name: Seq<char>,
    symbol: crate::representations::Symbol,
)
    requires
        symbol.stack_offset is None,
        lookup(table, name) matches Some(known) ==> known._type == symbol._type,
    ensures
        signature(bind(table, name, symbol)) == if lookup(table, name) is None {
            signature(table).push((name, symbol._type))
        } else {
            signature(table)
        },
        unplaced(table) ==> unplaced(bind(table, name, symbol)),
{
    lemma_position_sound(table, name);
    let after = bind(table, name, symbol);
    match position(table, name) {
        Some(i) => {
            assert(signature(after) =~= signature(table));
        },
        None => {
            assert(signature(after) =~= signature(table).push((name, symbol._type)));
        },
    }
}

/// A written statement adds exactly the variables that it declares to the
/// end of the table, and leaves the table without stack offsets if it was.
pub proof fn lemma_statement_declares(
    tokens: Seq<TokenView>,
    pos: nat,
    s: StatementView,
    table: Seq<Binding>,
    context: Context,
)
    requires
        statement_written(tokens, pos, s, table, context),
    ensures
        signature(declares(tokens, pos, s, table)) == signature(table) + declarations(s),
        unplaced(table) ==> unplaced(declares(tokens, pos, s, table)),
    decreases s,
{
    let after = declares(tokens, pos, s, table);
    let line = tokens[pos as int].line;
    match s {
        StatementView::Assignment(AssignmentView::Value(declared, name), _) => {
            lemma_bind_signature(
                table,
                name,
                crate::representations::Symbol {
                    stack_offset: None,
                    _type: declared,
                    mutable: tokens[pos as int].lexeme == "mut"@,
                    init_line: line,
                    last_ref: line,
                },
            );
            assert(signature(table).push((name, declared)) =~= signature(table) + declarations(s));
        },
        StatementView::Assignment(AssignmentView::Pointer(declared, name), _) => {
            lemma_bind_signature(
                table,
                name,
                crate::representations::Symbol {
                    stack_offset: None,
                    _type: declared,
                    mutable: tokens[pos as int].lexeme == "mut"@,
                    init_line: line,
                    last_ref: line,
                },
            );
            assert(signature(table).push((name, declared)) =~= signature(table) + declarations(s));
        },
        StatementView::Assignment(AssignmentView::Mutation(name), _) => {
            lemma_bind_signature(
                table,
                name,
                crate::representations::Symbol {
                    stack_offset: None,
                    _type: lookup(table, name)->0._type,
                    mutable: true,
                    init_line: lookup(table, name)->0.init_line,
                    last_ref: line,
                },
            );
            assert(signature(table) =~= signature(table) + declarations(s));
        },
        StatementView::If(guard, body) => {
            let first = pos + 1 + crate::theorems::acceptance::expression_size(guard);
            lemma_statement_declares(tokens, first, *body, table, context);
        },
        StatementView::IfElse(guard, body, otherwise) => {
            let first = pos + 1 + crate::theorems::acceptance::expression_size(guard);
            let middle = declares(tokens, first, *body, table);
            lemma_statement_declares(tokens, first, *body, table, context);
            lemma_statement_declares(
                tokens,
                first + statement_size(*body) + 1,
                *otherwise,
                middle,
                context,
            );
            assert(signature(table) + declarations(*body) + declarations(*otherwise)
                =~= signature(table) + (declarations(*body) + declarations(*otherwise)));
        },
        StatementView::Block(block) => {
            lemma_block_declares(tokens, pos + 1, *block, table, context);
        },
        StatementView::While(guard, body) => {
            let first = pos + 1 + crate::theorems::acceptance::expression_size(guard);
            lemma_statement_declares(tokens, first, *body, table, Context::While);
        },
        StatementView::Break => {
            assert(signature(table) =~= signature(table) + declarations(s));
        },
    }
}

/// A written block adds exactly the variables that its statements declare.
pub proof fn lemma_block_declares(
    tokens: Seq<TokenView>,
    pos: nat,
    block: BlockView,
    table: Seq<Binding>,
    context: Context,
)
    requires
        block_written(tokens, pos, block, table, context),
    ensures
        signature(block_declares(tokens, pos, block, table)) == signature(table)
            + block_declarations(block),
        unplaced(table) ==> unplaced(block_declares(tokens, pos, block, table)),
    decreases block,
{
    match block {
        BlockView::Statement(only) => {
            lemma_statement_declares(tokens, pos, only, table, context);
        },
        BlockView::Block(first, rest) => {
            let middle = declares(tokens, pos, first, table);
            lemma_statement_declares(tokens, pos, first, table, context);
            lemma_block_declares(tokens, pos + statement_size(first), *rest, middle, context);
            assert(signature(table) + declarations(first) + block_declarations(*rest)
                =~= signature(table) + (declarations(first) + block_declarations(*rest)));
        },
    }
}

/// Written statements add exactly the variables that they declare.
pub proof fn lemma_statements_declare(
    tokens: Seq<TokenView>,
    pos: nat,
    statements: Seq<StatementView>,
    from: nat,
    table: Seq<Binding>,
)
    requires
        program_written(tokens, pos, statements, from, table),
    ensures
        signature(program_declares(tokens, pos, statements, from, table)) == signature(table)
            + program_declarations(statements, from),
        unplaced(table) ==> unplaced(program_declares(tokens, pos, statements, from, table)),
    decreases statements.len() - from,
{
    if from >= statements.len() {
        assert(signature(table) =~= signature(table) + program_declarations(statements, from));
    } else {
        let first = statements[from as int];
        let middle = declares(tokens, pos, first, table);
        lemma_statement_declares(tokens, pos, first, table, Context::TopLevel);
        lemma_statements_declare(tokens, pos + statement_size(first), statements, from + 1, middle);
        assert(signature(table) + declarations(first) + program_declarations(
            statements,
            from + 1,
        ) =~= signature(table) + (declarations(first) + program_declarations(
            statements,
            from + 1,
        )));
    }
}

/// After parsing, the symbol table holds the variables that it held
/// before, followed by exactly the variables that the program declares,
/// nested declarations included: each with its declared type, in the order
/// of the declarations. No variable has a stack offset if none had one, and
/// no name stands in the table twice if none did. So for a table that was
/// empty, the names of the table are the declared names, each once.
pub proof fn lemma_table_is_the_declared(tokens: Seq<TokenView>, table: Seq<Binding>)
    ensures
        parse_program(tokens, 0, table).result matches Ok(statements) ==> {
            let after = parse_program(tokens, 0, table).table;
            &&& signature(after) == signature(table) + program_declarations(statements, 0)
            &&& unplaced(table) ==> unplaced(after)
            &&& distinct_names(table) ==> distinct_names(after)
            &&& table.len() == 0 ==> signature(after) == program_declarations(statements, 0)
        },
{
    lemma_program_written(tokens, 0, table);
    lemma_program_scoped(tokens, 0, table);
    match parse_program(tokens, 0, table).result {
        Ok(statements) => {
            lemma_statements_declare(tokens, 0, statements, 0, table);
            if table.len() == 0 {
                assert(signature(table) + program_declarations(statements, 0)
                    =~= program_declarations(statements, 0));
            }
        },
        Err(_) => {},
    }
}

} // verus!
