//! Acceptance of programs: the parser accepts every program that is written
//! by the grammar and obeys the type rules, and gives back its statements
//! and the symbols that it declares.

use crate::grammar::{
    operator_level, parse_block, parse_braces, parse_conditional,
    parse_declaration, parse_expression, parse_guard, parse_identifier, parse_loop, parse_mutation,
    parse_program, parse_statement, word_at, Outcome, Program,
};
use crate::representations::{
    AssignmentView, BlockView, Context, ExpressionView, StatementView, Symbol, TokenType, TokenView,
    Type,
};
use crate::symbols::{bind, lookup, Binding};
use crate::theorems::acceptance::{
    closes, expression_size, expression_spelled, lemma_expression_accepted,
};
use crate::theorems::typing::expression_type;
use vstd::prelude::*;

verus! {

/// The number of tokens that declare a variable of type `declared`: the
/// type keyword and the name, and between them nothing, `*`, or a length in
/// brackets.
pub open spec fn declarator_size(declared: Type) -> nat {
    match declared {
        Type::Pointer(target) => if *target is Array {
            5
        } else {
            3
        },
        _ => 2,
    }
}

/// The number of tokens of a statement.
pub open spec fn statement_size(s: StatementView) -> nat
    decreases s,
{
    match s {
        StatementView::Assignment(AssignmentView::Value(declared, _), value) => 1
            + declarator_size(declared) + 1 + expression_size(value) + 1,
        StatementView::Assignment(AssignmentView::Pointer(declared, _), value) => 1
            + declarator_size(declared) + 1 + expression_size(value) + 1,
        StatementView::Assignment(AssignmentView::Mutation(_), value) => 2 + expression_size(
            value,
        ) + 1,
        StatementView::If(guard, body) => 1 + expression_size(guard) + statement_size(*body),
        StatementView::IfElse(guard, body, otherwise) => 1 + expression_size(guard)
            + statement_size(*body) + 1 + statement_size(*otherwise),
        StatementView::Block(block) => 1 + block_size(*block) + 1,
        StatementView::While(guard, body) => 1 + expression_size(guard) + statement_size(*body),
        StatementView::Break => 2,
    }
}

/// The number of tokens of the statements of a block.
pub open spec fn block_size(block: BlockView) -> nat
    decreases block,
{
    match block {
        BlockView::Statement(only) => statement_size(only),
        BlockView::Block(first, rest) => statement_size(first) + block_size(*rest),
    }
}

/// The symbol table after the statement at `pos`: every variable that the
/// statement declares is added with the line of its declaration, and every
/// variable that it assigns to carries the line of the assignment.
pub open spec fn declares(tokens: Seq<TokenView>, pos: nat, s: StatementView, table: Seq<Binding>)
    -> Seq<Binding>
    decreases s,
{
    let line = tokens[pos as int].line;
    match s {
        StatementView::Assignment(AssignmentView::Value(declared, name), _) => bind(
            table,
            name,
            Symbol {
                stack_offset: None,
                _type: declared,
                mutable: tokens[pos as int].lexeme == "mut"@,
                init_line: line,
                last_ref: line,
            },
        ),
        StatementView::Assignment(AssignmentView::Pointer(declared, name), _) => bind(
            table,
            name,
            Symbol {
                stack_offset: None,
                _type: declared,
                mutable: tokens[pos as int].lexeme == "mut"@,
                init_line: line,
                last_ref: line,
            },
        ),
        StatementView::Assignment(AssignmentView::Mutation(name), _) => bind(
            table,
            name,
            Symbol {
                stack_offset: None,
                _type: lookup(table, name)->0._type,
                mutable: true,
                init_line: lookup(table, name)->0.init_line,
                last_ref: line,
            },
        ),
        StatementView::If(guard, body) => declares(
            tokens,
            pos + 1 + expression_size(guard),
            *body,
            table,
        ),
        StatementView::IfElse(guard, body, otherwise) => {
            let first = pos + 1 + expression_size(guard);
            declares(
                tokens,
                first + statement_size(*body) + 1,
                *otherwise,
                declares(tokens, first, *body, table),
            )
        },
        StatementView::Block(block) => block_declares(tokens, pos + 1, *block, table),
        StatementView::While(guard, body) => declares(
            tokens,
            pos + 1 + expression_size(guard),
            *body,
            table,
        ),
        StatementView::Break => table,
    }
}

/// The symbol table after the statements of the block at `pos`.
pub open spec fn block_declares(
    tokens: Seq<TokenView>,
    pos: nat,
    block: BlockView,
    table: Seq<Binding>,
) -> Seq<Binding>
    decreases block,
{
    match block {
        BlockView::Statement(only) => declares(tokens, pos, only, table),
        BlockView::Block(first, rest) => block_declares(
            tokens,
            pos + statement_size(first),
            *rest,
            declares(tokens, pos, first, table),
        ),
    }
}

/// Whether the tokens from `pos` on spell the initialiser or assigned value
/// `value` of type `ty`, with `;` behind it.
pub open spec fn value_written(
    tokens: Seq<TokenView>,
    pos: nat,
    value: ExpressionView,
    ty: Type,
    table: Seq<Binding>,
) -> bool {
    &&& expression_spelled(tokens, pos, value, crate::grammar::loosest())
    &&& expression_type(value, table) == Some(ty)
    &&& word_at(tokens, pos + expression_size(value), ";"@)
}

/// Whether the tokens from `pos + 1` on spell the guard of the `if` or
/// `while` at `pos`: an expression of type `Bool` that no operator follows.
pub open spec fn guard_written(
    tokens: Seq<TokenView>,
    pos: nat,
    guard: ExpressionView,
    table: Seq<Binding>,
) -> bool {
    &&& expression_spelled(tokens, pos + 1, guard, crate::grammar::loosest())
    &&& expression_type(guard, table) == Some(Type::Bool)
    &&& closes(tokens, pos + 1 + expression_size(guard), 5)
}

/// Whether the tokens from `pos` on declare the variable `name` of type
/// `declared` with the initialiser `value`: `const` or `mut`, the type and
/// the name, `=`, a value of the declared type, and `;`, where the name is
/// new.
pub open spec fn declaration_written(
    tokens: Seq<TokenView>,
    pos: nat,
    declared: Type,
    name: Seq<char>,
    value: ExpressionView,
    table: Seq<Binding>,
) -> bool {
    let equals = pos + 1 + declarator_size(declared);
    &&& pos < tokens.len()
    &&& tokens[pos as int].lexeme == "const"@ || tokens[pos as int].lexeme == "mut"@
    &&& parse_identifier(tokens, pos + 1) == Ok::<
        ((Type, Seq<char>), nat),
        crate::error::CompileError,
    >(((declared, name), equals))
    &&& word_at(tokens, equals, "="@)
    &&& value_written(tokens, equals + 1, value, declared, table)
    &&& lookup(table, name) is None
}

/// Whether the tokens from `pos` on are the statement `s`, written by the
/// grammar and obeying the type rules under `table`, inside a loop or not
/// as `context` says.
pub open spec fn statement_written(
    tokens: Seq<TokenView>,
    pos: nat,
    s: StatementView,
    table: Seq<Binding>,
    context: Context,
) -> bool
    decreases s,
{
    &&& pos < tokens.len()
    &&& match s {
        StatementView::Assignment(AssignmentView::Value(declared, name), value) => {
            &&& !(declared is Pointer)
            &&& declaration_written(tokens, pos, declared, name, value, table)
        },
        StatementView::Assignment(AssignmentView::Pointer(declared, name), value) => {
            &&& declared is Pointer
            &&& declaration_written(tokens, pos, declared, name, value, table)
        },
        StatementView::Assignment(AssignmentView::Mutation(name), value) => {
            &&& tokens[pos as int].kind == TokenType::Identifier
            &&& tokens[pos as int].lexeme == name
            &&& !starts_other_statement(name)
            &&& lookup(table, name) is Some
            &&& lookup(table, name)->0.mutable
            &&& word_at(tokens, pos + 1, "="@)
            &&& value_written(tokens, pos + 2, value, lookup(table, name)->0._type, table)
        },
        StatementView::If(guard, body) => {
            let first = pos + 1 + expression_size(guard);
            &&& tokens[pos as int].lexeme == "if"@
            &&& guard_written(tokens, pos, guard, table)
            &&& statement_written(tokens, first, *body, table, context)
            &&& !word_at(tokens, first + statement_size(*body), "else"@)
        },
        StatementView::IfElse(guard, body, otherwise) => {
            let first = pos + 1 + expression_size(guard);
            let second = first + statement_size(*body) + 1;
            &&& tokens[pos as int].lexeme == "if"@
            &&& guard_written(tokens, pos, guard, table)
            &&& statement_written(tokens, first, *body, table, context)
            &&& word_at(tokens, first + statement_size(*body), "else"@)
            &&& statement_written(
                tokens,
                second,
                *otherwise,
                declares(tokens, first, *body, table),
                context,
            )
        },
        StatementView::Block(block) => {
            &&& tokens[pos as int].lexeme == "{"@
            &&& block_written(tokens, pos + 1, *block, table, context)
        },
        StatementView::While(guard, body) => {
            &&& tokens[pos as int].lexeme == "while"@
            &&& guard_written(tokens, pos, guard, table)
            &&& statement_written(
                tokens,
                pos + 1 + expression_size(guard),
                *body,
                table,
                Context::While,
            )
        },
        StatementView::Break => {
            &&& tokens[pos as int].lexeme == "break"@
            &&& context == Context::While
            &&& word_at(tokens, pos + 1, ";"@)
        },
    }
}

/// Whether `word` is the first word of a statement other than an
/// assignment.
pub open spec fn starts_other_statement(word: Seq<char>) -> bool {
    word == "const"@ || word == "mut"@ || word == "if"@ || word == "while"@ || word == "break"@
        || word == "{"@
}

/// Whether the tokens from `pos` on are the statements of the block, written
/// by the grammar and obeying the type rules, with `}` behind the last.
pub open spec fn block_written(
    tokens: Seq<TokenView>,
    pos: nat,
    block: BlockView,
    table: Seq<Binding>,
    context: Context,
) -> bool
    decreases block,
{
    match block {
        BlockView::Statement(only) => {
            &&& statement_written(tokens, pos, only, table, context)
            &&& word_at(tokens, pos + statement_size(only), "}"@)
        },
        BlockView::Block(first, rest) => {
            &&& statement_written(tokens, pos, first, table, context)
            &&& !word_at(tokens, pos + statement_size(first), "}"@)
            &&& block_written(
                tokens,
                pos + statement_size(first),
                *rest,
                declares(tokens, pos, first, table),
                context,
            )
        },
    }
}

/// The words that start the statements are different words, and `;` is no
/// operator.
pub proof fn lemma_statement_words()
    ensures
        "const"@ != "mut"@,
        "if"@ != "const"@,
        "if"@ != "mut"@,
        "while"@ != "const"@,
        "while"@ != "mut"@,
        "while"@ != "if"@,
        "break"@ != "const"@,
        "break"@ != "mut"@,
        "break"@ != "if"@,
        "break"@ != "while"@,
        "{"@ != "const"@,
        "{"@ != "mut"@,
        "{"@ != "if"@,
        "{"@ != "while"@,
        "{"@ != "break"@,
        operator_level(";"@) == 0,
{
    reveal_strlit("const");
    reveal_strlit("mut");
    reveal_strlit("if");
    reveal_strlit("while");
    reveal_strlit("break");
    reveal_strlit("{");
    reveal_strlit(";");
    reveal_strlit("-");
    reveal_strlit("*");
    reveal_strlit("/");
    reveal_strlit("%");
    reveal_strlit("+");
    reveal_strlit("<");
    reveal_strlit(">");
    reveal_strlit("<=");
    reveal_strlit(">=");
    reveal_strlit("==");
    reveal_strlit("!=");
    assert("mut"@.len() == 3 && "if"@.len() == 2 && "{"@.len() == 1);
    assert("const"@[0] != "while"@[0] && "const"@[0] != "break"@[0] && "while"@[0]
        != "break"@[0]);
    assert(";"@[0] == ';');
}

/// The parser accepts a written value.
proof fn lemma_value_accepted(
    tokens: Seq<TokenView>,
    pos: nat,
    value: ExpressionView,
    ty: Type,
    table: Seq<Binding>,
)
    requires
        value_written(tokens, pos, value, ty, table),
    ensures
        parse_expression(tokens, pos, table) == Ok::<
            ((ExpressionView, Type), nat),
            crate::error::CompileError,
        >(((value, ty), pos + expression_size(value))),
{
    lemma_statement_words();
    lemma_expression_accepted(tokens, pos, table, value);
}

/// The parser accepts a written guard.
proof fn lemma_guard_accepted(
    tokens: Seq<TokenView>,
    pos: nat,
    guard: ExpressionView,
    table: Seq<Binding>,
)
    requires
        guard_written(tokens, pos, guard, table),
    ensures
        parse_guard(tokens, pos, table) == Ok::<(ExpressionView, nat), crate::error::CompileError>(
            (guard, pos + 1 + expression_size(guard)),
        ),
{
    lemma_expression_accepted(tokens, pos + 1, table, guard);
}

/// The outcome of a statement that was accepted as written.
pub open spec fn accepted(tokens: Seq<TokenView>, pos: nat, s: StatementView, table: Seq<Binding>)
    -> Outcome<StatementView> {
    Outcome {
        result: Ok((s, pos + statement_size(s))),
        table: declares(tokens, pos, s, table),
    }
}

/// The parser accepts a written declaration.
proof fn lemma_declaration_accepted(
    tokens: Seq<TokenView>,
    pos: nat,
    declared: Type,
    name: Seq<char>,
    value: ExpressionView,
    table: Seq<Binding>,
)
    requires
        declaration_written(tokens, pos, declared, name, value, table),
    ensures
        ({
            let mutable = tokens[pos as int].lexeme == "mut"@;
            let line = tokens[pos as int].line;
            let target = if declared is Pointer {
                AssignmentView::Pointer(declared, name)
            } else {
                AssignmentView::Value(declared, name)
            };
            parse_declaration(tokens, pos, table, mutable) == (Outcome {
                result: Ok(
                    (
                        StatementView::Assignment(target, value),
                        pos + 1 + declarator_size(declared) + 1 + expression_size(value) + 1,
                    ),
                ),
                table: bind(
                    table,
                    name,
                    Symbol {
                        stack_offset: None,
                        _type: declared,
                        mutable,
                        init_line: line,
                        last_ref: line,
                    },
                ),
            })
        }),
{
    let equals = pos + 1 + declarator_size(declared);
    lemma_value_accepted(tokens, equals + 1, value, declared, table);
}

/// The parser accepts a written assignment.
proof fn lemma_mutation_accepted(
    tokens: Seq<TokenView>,
    pos: nat,
    name: Seq<char>,
    value: ExpressionView,
    table: Seq<Binding>,
)
    requires
        pos < tokens.len(),
        tokens[pos as int].lexeme == name,
        lookup(table, name) is Some,
        lookup(table, name)->0.mutable,
        word_at(tokens, pos + 1, "="@),
        value_written(tokens, pos + 2, value, lookup(table, name)->0._type, table),
    ensures
        parse_mutation(tokens, pos, table) == (Outcome {
            result: Ok(
                (
                    StatementView::Assignment(AssignmentView::Mutation(name), value),
                    pos + 2 + expression_size(value) + 1,
                ),
            ),
            table: bind(
                table,
                name,
                Symbol {
                    stack_offset: None,
                    _type: lookup(table, name)->0._type,
                    mutable: true,
                    init_line: lookup(table, name)->0.init_line,
                    last_ref: tokens[pos as int].line,
                },
            ),
        }),
{
    lemma_value_accepted(tokens, pos + 2, value, lookup(table, name)->0._type, table);
}

/// The parser accepts a written `if` statement.
proof fn lemma_conditional_accepted(
    tokens: Seq<TokenView>,
    pos: nat,
    s: StatementView,
    table: Seq<Binding>,
    context: Context,
)
    requires
        s is If || s is IfElse,
        statement_written(tokens, pos, s, table, context),
    ensures
        parse_conditional(tokens, pos, table, context) == accepted(tokens, pos, s, table),
    decreases s, 0nat,
{
    match s {
        StatementView::If(guard, body) => {
            let start = pos + 1 + expression_size(guard);
            lemma_guard_accepted(tokens, pos, guard, table);
            lemma_statement_accepted(tokens, start, *body, table, context);
        },
        StatementView::IfElse(guard, body, otherwise) => {
            let start = pos + 1 + expression_size(guard);
            let second = start + statement_size(*body) + 1;
            lemma_guard_accepted(tokens, pos, guard, table);
            lemma_statement_accepted(tokens, start, *body, table, context);
            lemma_statement_accepted(
                tokens,
                second,
                *otherwise,
                declares(tokens, start, *body, table),
                context,
            );
        },
        _ => {},
    }
}

/// The parser accepts a written `while` statement.
proof fn lemma_loop_accepted(
    tokens: Seq<TokenView>,
    pos: nat,
    s: StatementView,
    table: Seq<Binding>,
    context: Context,
)
    requires
        s is While,
        statement_written(tokens, pos, s, table, context),
    ensures
        parse_loop(tokens, pos, table) == accepted(tokens, pos, s, table),
    decreases s, 0nat,
{
    match s {
        StatementView::While(guard, body) => {
            let start = pos + 1 + expression_size(guard);
            lemma_guard_accepted(tokens, pos, guard, table);
            lemma_statement_accepted(tokens, start, *body, table, Context::While);
        },
        _ => {},
    }
}

/// The parser accepts a written block statement.
proof fn lemma_braces_accepted(
    tokens: Seq<TokenView>,
    pos: nat,
    s: StatementView,
    table: Seq<Binding>,
    context: Context,
)
    requires
        s is Block,
        statement_written(tokens, pos, s, table, context),
    ensures
        parse_braces(tokens, pos, table, context) == accepted(tokens, pos, s, table),
    decreases s, 0nat,
{
    match s {
        StatementView::Block(block) => {
            lemma_block_accepted(tokens, pos + 1, *block, table, context);
        },
        _ => {},
    }
}

/// The parser accepts every written statement: it gives back the statement,
/// the place after it, and the symbol table with what the statement
/// declares.
pub proof fn lemma_statement_accepted(
    tokens: Seq<TokenView>,
    pos: nat,
    s: StatementView,
    table: Seq<Binding>,
    context: Context,
)
    requires
        statement_written(tokens, pos, s, table, context),
    ensures
        parse_statement(tokens, pos, table, context) == accepted(tokens, pos, s, table),
    decreases s, 1nat,
{
    lemma_statement_words();
    match s {
        StatementView::Assignment(AssignmentView::Value(declared, name), value) => {
            lemma_declaration_accepted(tokens, pos, declared, name, value, table);
        },
        StatementView::Assignment(AssignmentView::Pointer(declared, name), value) => {
            lemma_declaration_accepted(tokens, pos, declared, name, value, table);
        },
        StatementView::Assignment(AssignmentView::Mutation(name), value) => {
            lemma_mutation_accepted(tokens, pos, name, value, table);
        },
        StatementView::If(_, _) => {
            lemma_conditional_accepted(tokens, pos, s, table, context);
        },
        StatementView::IfElse(_, _, _) => {
            lemma_conditional_accepted(tokens, pos, s, table, context);
        },
        StatementView::Block(_) => {
            lemma_braces_accepted(tokens, pos, s, table, context);
        },
        StatementView::While(_, _) => {
            lemma_loop_accepted(tokens, pos, s, table, context);
        },
        StatementView::Break => {},
    }
}

/// A written statement lies within the tokens.
pub proof fn lemma_within(
    tokens: Seq<TokenView>,
    pos: nat,
    s: StatementView,
    table: Seq<Binding>,
    context: Context,
)
    requires
        statement_written(tokens, pos, s, table, context),
    ensures
        pos + statement_size(s) <= tokens.len(),
    decreases s,
{
    match s {
        StatementView::If(guard, body) => {
            lemma_within(tokens, pos + 1 + expression_size(guard), *body, table, context);
        },
        StatementView::IfElse(guard, body, otherwise) => {
            let start = pos + 1 + expression_size(guard);
            lemma_within(
                tokens,
                start + statement_size(*body) + 1,
                *otherwise,
                declares(tokens, start, *body, table),
                context,
            );
        },
        StatementView::Block(block) => {
            lemma_block_within(tokens, pos + 1, *block, table, context);
        },
        StatementView::While(guard, body) => {
            lemma_within(tokens, pos + 1 + expression_size(guard), *body, table, Context::While);
        },
        _ => {},
    }
}

/// A written block lies within the tokens, and `}` follows it.
pub proof fn lemma_block_within(
    tokens: Seq<TokenView>,
    pos: nat,
    block: BlockView,
    table: Seq<Binding>,
    context: Context,
)
    requires
        block_written(tokens, pos, block, table, context),
    ensures
        word_at(tokens, pos + block_size(block), "}"@),
    decreases block,
{
    match block {
        BlockView::Statement(only) => {},
        BlockView::Block(first, rest) => {
            lemma_block_within(
                tokens,
                pos + statement_size(first),
                *rest,
                declares(tokens, pos, first, table),
                context,
            );
        },
    }
}

/// The parser accepts every written block.
pub proof fn lemma_block_accepted(
    tokens: Seq<TokenView>,
    pos: nat,
    block: BlockView,
    table: Seq<Binding>,
    context: Context,
)
    requires
        block_written(tokens, pos, block, table, context),
    ensures
        parse_block(tokens, pos, table, context) == (Outcome {
            result: Ok((block, pos + block_size(block))),
            table: block_declares(tokens, pos, block, table),
        }),
        word_at(tokens, pos + block_size(block), "}"@),
    decreases block, 1nat,
{
    match block {
        BlockView::Statement(only) => {
            lemma_statement_accepted(tokens, pos, only, table, context);
        },
        BlockView::Block(first, rest) => {
            lemma_statement_accepted(tokens, pos, first, table, context);
            lemma_block_accepted(
                tokens,
                pos + statement_size(first),
                *rest,
                declares(tokens, pos, first, table),
                context,
            );
        },
    }
}

/// Whether the tokens from `pos` on are the statements `statements` from
/// `from` on, one after the other up to the last token, each written by the
/// grammar and obeying the type rules under the table that the statements
/// before it leave.
pub open spec fn program_written(
    tokens: Seq<TokenView>,
    pos: nat,
    statements: Seq<StatementView>,
    from: nat,
    table: Seq<Binding>,
) -> bool
    decreases statements.len() - from,
{
    if from >= statements.len() {
        pos >= tokens.len()
    } else {
        &&& statement_written(tokens, pos, statements[from as int], table, Context::TopLevel)
        &&& program_written(
            tokens,
            pos + statement_size(statements[from as int]),
            statements,
            from + 1,
            declares(tokens, pos, statements[from as int], table),
        )
    }
}

/// The symbol table after the statements from `from` on.
pub open spec fn program_declares(
    tokens: Seq<TokenView>,
    pos: nat,
    statements: Seq<StatementView>,
    from: nat,
    table: Seq<Binding>,
) -> Seq<Binding>
    decreases statements.len() - from,
{
    if from >= statements.len() {
        table
    } else {
        program_declares(
            tokens,
            pos + statement_size(statements[from as int]),
            statements,
            from + 1,
            declares(tokens, pos, statements[from as int], table),
        )
    }
}

/// The parser accepts every written program: for every run of tokens that
/// is a sequence of statements written by the grammar, whose types all obey
/// the rules, parsing succeeds, and gives back those statements and the
/// symbols that they declare.
pub proof fn lemma_program_accepted(
    tokens: Seq<TokenView>,
    pos: nat,
    statements: Seq<StatementView>,
    from: nat,
    table: Seq<Binding>,
)
    requires
        from <= statements.len(),
        program_written(tokens, pos, statements, from, table),
    ensures
        parse_program(tokens, pos, table) == (Program {
            result: Ok(statements.skip(from as int)),
            table: program_declares(tokens, pos, statements, from, table),
        }),
    decreases statements.len() - from,
{
    if from >= statements.len() {
        assert(statements.skip(from as int) =~= Seq::<StatementView>::empty());
    } else {
        let first = statements[from as int];
        lemma_statement_accepted(tokens, pos, first, table, Context::TopLevel);
        lemma_within(tokens, pos, first, table, Context::TopLevel);
        lemma_program_accepted(
            tokens,
            pos + statement_size(first),
            statements,
            from + 1,
            declares(tokens, pos, first, table),
        );
        assert(seq![first] + statements.skip(from as int + 1) =~= statements.skip(from as int));
    }
}

} // verus!
