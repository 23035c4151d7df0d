//! Typing: the type rules of the language, and that the parser accepts only
//! what they allow and reports what they forbid as a type error.

use crate::error::{ErrorKind, Fault};
use crate::grammar::{
    advanced, binary_tail, binary_type, fault_at, loosest, operator_level,
    parse_binary, parse_block, parse_braces, parse_conditional, parse_declaration, parse_expression,
    parse_guard, parse_identifier, parse_list_literal, parse_loop, parse_mutation, parse_primary,
    parse_program, parse_statement, parse_unary, unary_type, word_at, Outcome,
};
use crate::representations::{
    AssignmentView, BlockView, Context, ExpressionView, ListView, LiteralView, StatementView,
    Symbol, TokenType, TokenView, Type,
};
use crate::symbols::{bind, lemma_bind, lookup, Binding};
use vstd::prelude::*;

verus! {

/// The type of a literal: `Int` for a number, `Bool` for a boolean, the
/// declared type for a variable, and for a list the pointer to an array of
/// its elements, which all have one type.
pub open spec fn literal_type(literal: LiteralView, table: Seq<Binding>) -> Option<Type>
    decreases literal,
{
    match literal {
        LiteralView::Int(_) => Some(Type::Int),
        LiteralView::Bool(_) => Some(Type::Bool),
        LiteralView::Symbol(token) => match lookup(table, token.lexeme) {
            Some(symbol) => Some(symbol._type),
            None => None,
        },
        LiteralView::List(list) => match list_type(*list, table) {
            Some((element, count)) => Some(
                Type::Pointer(Box::new(Type::Array(Box::new(element), count as u64))),
            ),
            None => None,
        },
    }
}

/// The type of the elements of a list literal and their number, where they
/// all have one type.
pub open spec fn list_type(list: ListView, table: Seq<Binding>) -> Option<(Type, nat)>
    decreases list,
{
    match list {
        ListView::Literal(only) => match literal_type(only, table) {
            Some(ty) => Some((ty, 1)),
            None => None,
        },
        ListView::List(first, rest) => match (literal_type(first, table), list_type(*rest, table)) {
            (Some(ty), Some((rest_ty, count))) => if ty == rest_ty {
                Some((ty, count + 1))
            } else {
                None
            },
            _ => None,
        },
    }
}

/// The type of `op operand` by the rules for `-`, `&` and `*`.
pub open spec fn unary_rule(op: Seq<char>, operand: ExpressionView, ty: Type) -> Option<Type> {
    if op == "-"@ || op == "&"@ || op == "*"@ {
        match unary_type(op, operand, ty) {
            Ok(result) => Some(result),
            Err(_) => None,
        }
    } else {
        None
    }
}

/// The type of an expression, where every operator in it is applied to
/// operands of types that it accepts.
pub open spec fn expression_type(e: ExpressionView, table: Seq<Binding>) -> Option<Type>
    decreases e,
{
    match e {
        ExpressionView::Binary(left, op, right) => match (
            expression_type(*left, table),
            expression_type(*right, table),
        ) {
            (Some(left_ty), Some(right_ty)) => binary_type(op.lexeme, left_ty, right_ty),
            _ => None,
        },
        ExpressionView::Unary(op, operand) => match expression_type(*operand, table) {
            Some(ty) => unary_rule(op.lexeme, *operand, ty),
            None => None,
        },
        ExpressionView::Literal(literal) => literal_type(literal, table),
        ExpressionView::Group(_, inner, _) => expression_type(*inner, table),
    }
}

/// Whether a statement obeys the type rules under `table`: an initialiser
/// has the declared type, an assigned value has the type of its mutable
/// variable, and every guard is of type `Bool`.
pub open spec fn statement_typed(s: StatementView, table: Seq<Binding>) -> bool
    decreases s,
{
    match s {
        StatementView::Assignment(AssignmentView::Value(declared, name), value) => {
            &&& !(declared is Pointer)
            &&& expression_type(value, table) == Some(declared)
            &&& lookup(table, name) matches Some(symbol) && symbol._type == declared
        },
        StatementView::Assignment(AssignmentView::Pointer(declared, name), value) => {
            &&& declared is Pointer
            &&& expression_type(value, table) == Some(declared)
            &&& lookup(table, name) matches Some(symbol) && symbol._type == declared
        },
        StatementView::Assignment(AssignmentView::Mutation(name), value) => {
            lookup(table, name) matches Some(symbol) && symbol.mutable && expression_type(
                value,
                table,
            ) == Some(symbol._type)
        },
        StatementView::If(guard, body) => expression_type(guard, table) == Some(Type::Bool)
            && statement_typed(*body, table),
        StatementView::IfElse(guard, body, otherwise) => expression_type(guard, table) == Some(
            Type::Bool,
        ) && statement_typed(*body, table) && statement_typed(*otherwise, table),
        StatementView::Block(block) => block_typed(*block, table),
        StatementView::While(guard, body) => expression_type(guard, table) == Some(Type::Bool)
            && statement_typed(*body, table),
        StatementView::Break => true,
    }
}

/// Whether the statements of a block obey the type rules under `table`.
pub open spec fn block_typed(block: BlockView, table: Seq<Binding>) -> bool
    decreases block,
{
    match block {
        BlockView::Statement(only) => statement_typed(only, table),
        BlockView::Block(first, rest) => statement_typed(first, table) && block_typed(
            *rest,
            table,
        ),
    }
}

/// Whether `after` holds every variable of `before` with the same type and
/// the same mutability.
pub open spec fn agrees(before: Seq<Binding>, after: Seq<Binding>) -> bool {
    forall|name: Seq<char>| #[trigger]
        lookup(before, name) is Some ==> same_variable(lookup(before, name), lookup(after, name))
}

/// Whether two looked-up variables both exist, with the same type and the
/// same mutability.
pub open spec fn same_variable(one: Option<Symbol>, other: Option<Symbol>) -> bool {
    &&& one is Some
    &&& other is Some
    &&& one->0._type == other->0._type
    &&& one->0.mutable == other->0.mutable
}

/// Binding a new name, or an old one with its type and mutability, leaves
/// the table in agreement with what it was.
pub proof fn lemma_bind_agrees(table: Seq<Binding>, name: Seq<char>, symbol: Symbol)
    requires
        lookup(table, name) is Some ==> same_variable(lookup(table, name), Some(symbol)),
    ensures
        agrees(table, bind(table, name, symbol)),
        lookup(bind(table, name, symbol), name) == Some(symbol),
{
    lemma_bind(table, name, symbol, name);
    assert forall|other: Seq<char>| #[trigger] lookup(table, other) is Some implies same_variable(
        lookup(table, other),
        lookup(bind(table, name, symbol), other),
    ) by {
        lemma_bind(table, name, symbol, other);
    }
}

/// The type of a literal stays what it is in a table that agrees.
pub proof fn lemma_literal_type_stays(
    literal: LiteralView,
    before: Seq<Binding>,
    after: Seq<Binding>,
)
    requires
        literal_type(literal, before) is Some,
        agrees(before, after),
    ensures
        literal_type(literal, after) == literal_type(literal, before),
    decreases literal,
{
    match literal {
        LiteralView::List(list) => lemma_list_type_stays(*list, before, after),
        _ => {},
    }
}

/// The type of a list literal stays what it is in a table that agrees.
pub proof fn lemma_list_type_stays(list: ListView, before: Seq<Binding>, after: Seq<Binding>)
    requires
        list_type(list, before) is Some,
        agrees(before, after),
    ensures
        list_type(list, after) == list_type(list, before),
    decreases list,
{
    match list {
        ListView::Literal(only) => lemma_literal_type_stays(only, before, after),
        ListView::List(first, rest) => {
            lemma_literal_type_stays(first, before, after);
            lemma_list_type_stays(*rest, before, after);
        },
    }
}

/// The type of an expression stays what it is in a table that agrees.
pub proof fn lemma_expression_type_stays(
    e: ExpressionView,
    before: Seq<Binding>,
    after: Seq<Binding>,
)
    requires
        expression_type(e, before) is Some,
        agrees(before, after),
    ensures
        expression_type(e, after) == expression_type(e, before),
    decreases e,
{
    match e {
        ExpressionView::Binary(left, _, right) => {
            lemma_expression_type_stays(*left, before, after);
            lemma_expression_type_stays(*right, before, after);
        },
        ExpressionView::Unary(_, operand) => lemma_expression_type_stays(*operand, before, after),
        ExpressionView::Literal(literal) => lemma_literal_type_stays(literal, before, after),
        ExpressionView::Group(_, inner, _) => lemma_expression_type_stays(*inner, before, after),
    }
}

/// A statement that obeys the type rules still does in a table that agrees.
pub proof fn lemma_statement_stays_typed(
    s: StatementView,
    before: Seq<Binding>,
    after: Seq<Binding>,
)
    requires
        statement_typed(s, before),
        agrees(before, after),
    ensures
        statement_typed(s, after),
    decreases s,
{
    match s {
        StatementView::Assignment(_, value) => {
            lemma_expression_type_stays(value, before, after);
        },
        StatementView::If(guard, body) => {
            lemma_expression_type_stays(guard, before, after);
            lemma_statement_stays_typed(*body, before, after);
        },
        StatementView::IfElse(guard, body, otherwise) => {
            lemma_expression_type_stays(guard, before, after);
            lemma_statement_stays_typed(*body, before, after);
            lemma_statement_stays_typed(*otherwise, before, after);
        },
        StatementView::Block(block) => lemma_block_stays_typed(*block, before, after),
        StatementView::While(guard, body) => {
            lemma_expression_type_stays(guard, before, after);
            lemma_statement_stays_typed(*body, before, after);
        },
        StatementView::Break => {},
    }
}

/// A block that obeys the type rules still does in a table that agrees.
pub proof fn lemma_block_stays_typed(block: BlockView, before: Seq<Binding>, after: Seq<Binding>)
    requires
        block_typed(block, before),
        agrees(before, after),
    ensures
        block_typed(block, after),
    decreases block,
{
    match block {
        BlockView::Statement(only) => lemma_statement_stays_typed(only, before, after),
        BlockView::Block(first, rest) => {
            lemma_statement_stays_typed(first, before, after);
            lemma_block_stays_typed(*rest, before, after);
        },
    }
}

/// The type that the parser records for an expression of any precedence
/// level is the type that the rules give it.
pub proof fn lemma_binary_typed(tokens: Seq<TokenView>, pos: nat, table: Seq<Binding>, level: nat)
    ensures
        parse_binary(tokens, pos, table, level) matches Ok(((e, ty), _)) ==> expression_type(
            e,
            table,
        ) == Some(ty),
    decreases tokens.len() - pos, level, 3nat,
{
    if level == 0 {
        lemma_unary_typed(tokens, pos, table);
    } else {
        lemma_binary_typed(tokens, pos, table, (level - 1) as nat);
        match parse_binary(tokens, pos, table, (level - 1) as nat) {
            Ok(((left, ty), next)) => {
                if advanced(tokens, pos, next) {
                    lemma_tail_typed(tokens, next, table, level, left, ty);
                }
            },
            Err(_) => {},
        }
    }
}

/// The type recorded for an expression grown by further operators and
/// operands is the type that the rules give it.
pub proof fn lemma_tail_typed(
    tokens: Seq<TokenView>,
    pos: nat,
    table: Seq<Binding>,
    level: nat,
    left: ExpressionView,
    ty: Type,
)
    requires
        expression_type(left, table) == Some(ty),
    ensures
        binary_tail(tokens, pos, table, level, left, ty) matches Ok(((e, joined), _))
            ==> expression_type(e, table) == Some(joined),
    decreases tokens.len() - pos, level, 0nat,
{
    if level >= 1 && pos < tokens.len() && operator_level(tokens[pos as int].lexeme) == level {
        let op = tokens[pos as int];
        lemma_binary_typed(tokens, pos + 1, table, (level - 1) as nat);
        match parse_binary(tokens, pos + 1, table, (level - 1) as nat) {
            Ok(((right, right_ty), next)) => {
                match binary_type(op.lexeme, ty, right_ty) {
                    Some(joined_ty) => {
                        if advanced(tokens, pos, next) {
                            lemma_tail_typed(
                                tokens,
                                next,
                                table,
                                level,
                                ExpressionView::Binary(Box::new(left), op, Box::new(right)),
                                joined_ty,
                            );
                        }
                    },
                    None => {},
                }
            },
            Err(_) => {},
        }
    }
}

/// The type recorded for a unary expression is the type that the rules give
/// it.
pub proof fn lemma_unary_typed(tokens: Seq<TokenView>, pos: nat, table: Seq<Binding>)
    ensures
        parse_unary(tokens, pos, table) matches Ok(((e, ty), _)) ==> expression_type(e, table)
            == Some(ty),
    decreases tokens.len() - pos, 0nat, 2nat,
{
    if word_at(tokens, pos, "-"@) || word_at(tokens, pos, "&"@) || word_at(tokens, pos, "*"@) {
        lemma_unary_typed(tokens, pos + 1, table);
    } else {
        lemma_primary_typed(tokens, pos, table);
    }
}

/// The type recorded for a primary expression is the type that the rules
/// give it.
pub proof fn lemma_primary_typed(tokens: Seq<TokenView>, pos: nat, table: Seq<Binding>)
    ensures
        parse_primary(tokens, pos, table) matches Ok(((e, ty), _)) ==> expression_type(e, table)
            == Some(ty),
    decreases tokens.len() - pos, 0nat, 0nat,
{
    if pos < tokens.len() {
        lemma_binary_typed(tokens, pos + 1, table, loosest());
        lemma_list_typed(tokens, pos + 1, table);
    }
}

/// The element type and count recorded for a list literal are those that
/// the rules give it.
pub proof fn lemma_list_typed(tokens: Seq<TokenView>, pos: nat, table: Seq<Binding>)
    ensures
        parse_list_literal(tokens, pos, table) matches Ok(((list, ty, count), _)) ==> list_type(
            list,
            table,
        ) == Some((ty, count)),
    decreases tokens.len() - pos, 0nat, 1nat,
{
    lemma_primary_typed(tokens, pos, table);
    match parse_primary(tokens, pos, table) {
        Ok(((element, ty), next)) => {
            if !word_at(tokens, next, "]"@) && word_at(tokens, next, ","@) && advanced(
                tokens,
                pos,
                next,
            ) {
                lemma_list_typed(tokens, next + 1, table);
            }
        },
        Err(_) => {},
    }
}

/// What parsing a statement does with respect to types: the table it
/// leaves agrees with the one it found, and the parsed statement obeys the
/// type rules under it.
pub open spec fn well_typed<T>(
    before: Seq<Binding>,
    outcome: Outcome<T>,
    typed: spec_fn(T, Seq<Binding>) -> bool,
) -> bool {
    &&& agrees(before, outcome.table)
    &&& outcome.result matches Ok((parsed, _)) ==> typed(parsed, outcome.table)
}

/// A parsed declaration obeys the type rules.
pub proof fn lemma_declaration_typed(
    tokens: Seq<TokenView>,
    pos: nat,
    table: Seq<Binding>,
    mutable: bool,
)
    ensures
        well_typed(
            table,
            parse_declaration(tokens, pos, table, mutable),
            |s: StatementView, t: Seq<Binding>| statement_typed(s, t),
        ),
{
    let outcome = parse_declaration(tokens, pos, table, mutable);
    match parse_identifier(tokens, pos + 1) {
        Ok(((declared, name), equals)) => {
            lemma_binary_typed(tokens, equals + 1, table, loosest());
            match parse_expression(tokens, equals + 1, table) {
                Ok(((value, ty), end)) => {
                    if outcome.result is Ok {
                        let symbol = Symbol {
                            stack_offset: None,
                            _type: declared,
                            mutable,
                            init_line: tokens[pos as int].line,
                            last_ref: tokens[pos as int].line,
                        };
                        lemma_bind_agrees(table, name, symbol);
                        lemma_expression_type_stays(value, table, outcome.table);
                    }
                },
                Err(_) => {},
            }
        },
        Err(_) => {},
    }
}

/// A parsed assignment obeys the type rules.
pub proof fn lemma_mutation_typed(tokens: Seq<TokenView>, pos: nat, table: Seq<Binding>)
    ensures
        well_typed(
            table,
            parse_mutation(tokens, pos, table),
            |s: StatementView, t: Seq<Binding>| statement_typed(s, t),
        ),
{
    let outcome = parse_mutation(tokens, pos, table);
    let name = tokens[pos as int].lexeme;
    match lookup(table, name) {
        Some(known) => {
            lemma_binary_typed(tokens, pos + 2, table, loosest());
            match parse_expression(tokens, pos + 2, table) {
                Ok(((value, ty), end)) => {
                    if outcome.result is Ok {
                        let symbol = Symbol {
                            stack_offset: None,
                            _type: known._type,
                            mutable: true,
                            init_line: known.init_line,
                            last_ref: tokens[pos as int].line,
                        };
                        lemma_bind_agrees(table, name, symbol);
                        lemma_expression_type_stays(value, table, outcome.table);
                    }
                },
                Err(_) => {},
            }
        },
        None => {},
    }
}

/// A parsed `if` statement obeys the type rules.
pub proof fn lemma_conditional_typed(
    tokens: Seq<TokenView>,
    pos: nat,
    table: Seq<Binding>,
    context: Context,
)
    ensures
        well_typed(
            table,
            parse_conditional(tokens, pos, table, context),
            |s: StatementView, t: Seq<Binding>| statement_typed(s, t),
        ),
    decreases tokens.len() - pos, 0nat,
{
    lemma_binary_typed(tokens, pos + 1, table, loosest());
    match parse_guard(tokens, pos, table) {
        Ok((guard, next)) => {
            if advanced(tokens, pos, next) {
                lemma_statement_typed(tokens, next, table, context);
                let body = parse_statement(tokens, next, table, context);
                match body.result {
                    Ok((then, after)) => {
                        lemma_expression_type_stays(guard, table, body.table);
                        if word_at(tokens, after, "else"@) && advanced(tokens, pos, after) {
                            lemma_statement_typed(tokens, after + 1, body.table, context);
                            let other = parse_statement(tokens, after + 1, body.table, context);
                            if other.result is Ok {
                                lemma_expression_type_stays(guard, body.table, other.table);
                                lemma_statement_stays_typed(then, body.table, other.table);
                            }
                        }
                    },
                    Err(_) => {},
                }
            }
        },
        Err(_) => {},
    }
}

/// A parsed `while` statement obeys the type rules.
pub proof fn lemma_loop_typed(tokens: Seq<TokenView>, pos: nat, table: Seq<Binding>)
    ensures
        well_typed(
            table,
            parse_loop(tokens, pos, table),
            |s: StatementView, t: Seq<Binding>| statement_typed(s, t),
        ),
    decreases tokens.len() - pos, 0nat,
{
    lemma_binary_typed(tokens, pos + 1, table, loosest());
    match parse_guard(tokens, pos, table) {
        Ok((guard, next)) => {
            if advanced(tokens, pos, next) {
                lemma_statement_typed(tokens, next, table, Context::While);
                let body = parse_statement(tokens, next, table, Context::While);
                if body.result is Ok {
                    lemma_expression_type_stays(guard, table, body.table);
                }
            }
        },
        Err(_) => {},
    }
}

/// A parsed block statement obeys the type rules.
pub proof fn lemma_braces_typed(
    tokens: Seq<TokenView>,
    pos: nat,
    table: Seq<Binding>,
    context: Context,
)
    ensures
        well_typed(
            table,
            parse_braces(tokens, pos, table, context),
            |s: StatementView, t: Seq<Binding>| statement_typed(s, t),
        ),
    decreases tokens.len() - pos, 0nat,
{
    if pos < tokens.len() {
        lemma_block_typed(tokens, pos + 1, table, context);
    }
}

/// A parsed statement obeys the type rules, and the table it leaves agrees
/// with the one it found.
pub proof fn lemma_statement_typed(
    tokens: Seq<TokenView>,
    pos: nat,
    table: Seq<Binding>,
    context: Context,
)
    ensures
        well_typed(
            table,
            parse_statement(tokens, pos, table, context),
            |s: StatementView, t: Seq<Binding>| statement_typed(s, t),
        ),
    decreases tokens.len() - pos, 1nat,
{
    if pos < tokens.len() {
        let first = tokens[pos as int];
        if first.lexeme == "const"@ {
            lemma_declaration_typed(tokens, pos, table, false);
        } else if first.lexeme == "mut"@ {
            lemma_declaration_typed(tokens, pos, table, true);
        } else if first.lexeme == "if"@ {
            lemma_conditional_typed(tokens, pos, table, context);
        } else if first.lexeme == "while"@ {
            lemma_loop_typed(tokens, pos, table);
        } else if first.lexeme == "break"@ {
        } else if first.lexeme == "{"@ {
            lemma_braces_typed(tokens, pos, table, context);
        } else if first.kind == TokenType::Identifier {
            lemma_mutation_typed(tokens, pos, table);
        }
    }
}

/// A parsed block obeys the type rules.
pub proof fn lemma_block_typed(
    tokens: Seq<TokenView>,
    pos: nat,
    table: Seq<Binding>,
    context: Context,
)
    ensures
        well_typed(
            table,
            parse_block(tokens, pos, table, context),
            |b: BlockView, t: Seq<Binding>| block_typed(b, t),
        ),
    decreases tokens.len() - pos, 2nat,
{
    lemma_statement_typed(tokens, pos, table, context);
    let first = parse_statement(tokens, pos, table, context);
    match first.result {
        Ok((statement, next)) => {
            if !word_at(tokens, next, "}"@) && advanced(tokens, pos, next) {
                lemma_block_typed(tokens, next, first.table, context);
                let rest = parse_block(tokens, next, first.table, context);
                if rest.result is Ok {
                    lemma_statement_stays_typed(statement, first.table, rest.table);
                }
            }
        },
        Err(_) => {},
    }
}

/// Every statement of a parsed program obeys the type rules under the
/// symbol table that parsing leaves: the type recorded for every node of
/// the tree is the one that the rules give it from its children.
pub proof fn lemma_program_typed(tokens: Seq<TokenView>, pos: nat, table: Seq<Binding>)
    ensures
        agrees(table, parse_program(tokens, pos, table).table),
        parse_program(tokens, pos, table).result matches Ok(statements) ==> forall|k: int|
            0 <= k < statements.len() ==> statement_typed(
                #[trigger] statements[k],
                parse_program(tokens, pos, table).table,
            ),
    decreases tokens.len() - pos,
{
    if pos < tokens.len() {
        lemma_statement_typed(tokens, pos, table, Context::TopLevel);
        let first = parse_statement(tokens, pos, table, Context::TopLevel);
        match first.result {
            Ok((statement, next)) => {
                if advanced(tokens, pos, next) {
                    lemma_program_typed(tokens, next, first.table);
                    let rest = parse_program(tokens, next, first.table);
                    match rest.result {
                        Ok(more) => {
                            lemma_statement_stays_typed(statement, first.table, rest.table);
                        },
                        Err(_) => {},
                    }
                }
            },
            Err(_) => {},
        }
    }
}

/// A binary operator whose operands have types that it does not accept is
/// reported as a type error at the operator.
pub proof fn lemma_operand_mismatch(
    tokens: Seq<TokenView>,
    pos: nat,
    table: Seq<Binding>,
    level: nat,
    left: ExpressionView,
    ty: Type,
)
    requires
        level >= 1,
        pos < tokens.len(),
        operator_level(tokens[pos as int].lexeme) == level,
        parse_binary(tokens, pos + 1, table, (level - 1) as nat) matches Ok(((_, right_ty), _))
            && binary_type(tokens[pos as int].lexeme, ty, right_ty) is None,
    ensures
        binary_tail(tokens, pos, table, level, left, ty) == Err::<
            ((ExpressionView, Type), nat),
            crate::error::CompileError,
        >(fault_at(tokens, pos, Fault::OperandMismatch)),
        Fault::OperandMismatch.spec_kind() == ErrorKind::TypeError,
{
}

/// A unary operator whose operand it does not accept is reported as a type
/// error at the operator.
pub proof fn lemma_unary_mismatch(tokens: Seq<TokenView>, pos: nat, table: Seq<Binding>)
    requires
        word_at(tokens, pos, "-"@) || word_at(tokens, pos, "&"@) || word_at(tokens, pos, "*"@),
        parse_unary(tokens, pos + 1, table) matches Ok(((operand, ty), _)) && unary_type(
            tokens[pos as int].lexeme,
            operand,
            ty,
        ) is Err,
    ensures
        parse_unary(tokens, pos, table) matches Err(e) && e.fault.spec_kind()
            == ErrorKind::TypeError,
{
}

/// Whether `op` is one of `+ - * / %`.
pub open spec fn is_arithmetic(op: Seq<char>) -> bool {
    op == "+"@ || op == "-"@ || op == "*"@ || op == "/"@ || op == "%"@
}

/// Whether `op` is one of `< > <= >=`.
pub open spec fn is_relation(op: Seq<char>) -> bool {
    op == "<"@ || op == ">"@ || op == "<="@ || op == ">="@
}

/// Whether `op` is one of `== !=`.
pub open spec fn is_equality(op: Seq<char>) -> bool {
    op == "=="@ || op == "!="@
}

/// The rules of the binary operators. Arithmetic takes two `Int` and gives
/// `Int`; a relation takes two `Int` and gives `Bool`; equality takes two
/// `Int` or two `Bool` and gives `Bool`. Every other combination of an
/// operator and operand types has no type.
pub proof fn lemma_binary_rules(op: Seq<char>, left: Type, right: Type)
    ensures
        is_arithmetic(op) ==> binary_type(op, left, right) == if left == Type::Int && right
            == Type::Int {
            Some(Type::Int)
        } else {
            None
        },
        is_relation(op) ==> binary_type(op, left, right) == if left == Type::Int && right
            == Type::Int {
            Some(Type::Bool)
        } else {
            None
        },
        is_equality(op) ==> binary_type(op, left, right) == if (left == Type::Int && right
            == Type::Int) || (left == Type::Bool && right == Type::Bool) {
            Some(Type::Bool)
        } else {
            None
        },
        !is_arithmetic(op) && !is_relation(op) && !is_equality(op) ==> binary_type(
            op,
            left,
            right,
        ) is None,
{
    reveal_strlit("+");
    reveal_strlit("-");
    reveal_strlit("*");
    reveal_strlit("/");
    reveal_strlit("%");
    reveal_strlit("<");
    reveal_strlit(">");
    reveal_strlit("<=");
    reveal_strlit(">=");
    reveal_strlit("==");
    reveal_strlit("!=");
    assert(is_arithmetic(op) || is_relation(op) || is_equality(op) ==> op.len() > 0 && (op[0]
        == '+' || op[0] == '-' || op[0] == '*' || op[0] == '/' || op[0] == '%' || op[0] == '<'
        || op[0] == '>' || op[0] == '=' || op[0] == '!'));
}

} // verus!
