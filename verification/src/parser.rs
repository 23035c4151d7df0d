//! The parser: tokens to statements, with type checking and the symbol table.
//!
//! Each function computes what the function of the same name in `grammar`
//! defines, reading the tokens from a position on.

use crate::error::{CompileError, Fault};
use crate::grammar;
use crate::grammar::{Outcome, Parse, Program};
use crate::representations::{
    statement_views, token_views, Assignment, Block, BlockView, Context, Expression, ExpressionView,
    List, ListView, Literal, Statement, StatementView, Symbol, Token, TokenType, Type,
};
use crate::symbols::{Binding, SymbolTable};
use crate::text::{read_number, str_equal};
use std::collections::VecDeque;
use vstd::prelude::*;

verus! {

/// The token at `pos`, if there is one.
fn peek(tokens: &VecDeque<Token>, pos: usize) -> (r: Option<&Token>)
    ensures
        match r {
            Some(token) => pos < tokens.len() && token@ == token_views(tokens@)[pos as int],
            None => pos >= tokens.len(),
        },
{
    if pos < tokens.len() {
        Some(&tokens[pos])
    } else {
        None
    }
}

/// Whether the token at `pos` exists and reads `match_lexeme`.
fn lookahead(tokens: &VecDeque<Token>, pos: usize, match_lexeme: &str) -> (r: bool)
    ensures
        r == grammar::word_at(token_views(tokens@), pos as nat, match_lexeme@),
{
    match peek(tokens, pos) {
        Some(token) => str_equal(token.lexeme(), match_lexeme),
        None => false,
    }
}

/// `fault` at the token at `pos`, or the end of the tokens where there is none.
fn error_at(tokens: &VecDeque<Token>, pos: usize, fault: Fault) -> (e: CompileError)
    ensures
        e == grammar::fault_at(token_views(tokens@), pos as nat, fault),
{
    match peek(tokens, pos) {
        Some(token) => CompileError {
            fault,
            line: *token.line_number(),
            column: *token.line_index(),
        },
        None => CompileError { fault: Fault::UnexpectedEnd, line: 0, column: 0 },
    }
}

fn operator_level(op: &str) -> (level: u8)
    ensures
        level == grammar::operator_level(op@),
{
    if str_equal(op, "*") || str_equal(op, "/") || str_equal(op, "%") {
        1
    } else if str_equal(op, "+") || str_equal(op, "-") {
        2
    } else if str_equal(op, "<") || str_equal(op, ">") || str_equal(op, "<=") || str_equal(
        op,
        ">=",
    ) {
        3
    } else if str_equal(op, "==") || str_equal(op, "!=") {
        4
    } else {
        0
    }
}

/// Whether an operator of `level` stands at `pos`.
fn operator_follows(tokens: &VecDeque<Token>, pos: usize, level: u8) -> (r: bool)
    ensures
        r == (pos < tokens.len() && grammar::operator_level(
            token_views(tokens@)[pos as int].lexeme,
        ) == level),
{
    match peek(tokens, pos) {
        Some(token) => operator_level(token.lexeme()) == level,
        None => false,
    }
}

fn binary_type(op: &str, left: &Type, right: &Type) -> (r: Option<Type>)
    ensures
        r == grammar::binary_type(op@, *left, *right),
{
    let level = operator_level(op);
    let both_int = *left == Type::Int && *right == Type::Int;
    let both_bool = *left == Type::Bool && *right == Type::Bool;
    if level == 1 || level == 2 {
        if both_int {
            Some(Type::Int)
        } else {
            None
        }
    } else if level == 3 {
        if both_int {
            Some(Type::Bool)
        } else {
            None
        }
    } else if level == 4 {
        if both_int || both_bool {
            Some(Type::Bool)
        } else {
            None
        }
    } else {
        None
    }
}

fn unary_type(op: &str, operand: &Expression, ty: Type) -> (r: Result<Type, Fault>)
    ensures
        r == grammar::unary_type(op@, operand@, ty),
{
    if str_equal(op, "-") {
        if ty == Type::Int {
            Ok(Type::Int)
        } else {
            Err(Fault::OperandMismatch)
        }
    } else if str_equal(op, "&") {
        match operand {
            Expression::Literal(Literal::Symbol(_)) => Ok(Type::Pointer(Box::new(ty))),
            _ => Err(Fault::AddressOfTemporary),
        }
    } else {
        match ty {
            Type::Pointer(target) => Ok(*target),
            _ => Err(Fault::DerefNonPointer),
        }
    }
}

/// What a parsed expression stands for in the grammar.
pub open spec fn typed_view(r: Result<(Expression, Type, usize), CompileError>) -> Parse<
    (ExpressionView, Type),
> {
    match r {
        Ok((expression, ty, next)) => Ok(((expression@, ty), next as nat)),
        Err(e) => Err(e),
    }
}

/// What a parsed list stands for in the grammar.
pub open spec fn list_parse_view(r: Result<(List, Type, u64, usize), CompileError>) -> Parse<
    (ListView, Type, nat),
> {
    match r {
        Ok((list, ty, count, next)) => Ok(((list@, ty, count as nat), next as nat)),
        Err(e) => Err(e),
    }
}

/// What a parsed statement and the table it left stand for in the grammar.
pub open spec fn statement_outcome(
    r: Result<(Statement, usize), CompileError>,
    table: Seq<Binding>,
) -> Outcome<StatementView> {
    match r {
        Ok((statement, next)) => Outcome { result: Ok((statement@, next as nat)), table },
        Err(e) => Outcome { result: Err(e), table },
    }
}

/// What a parsed block and the table it left stand for in the grammar.
pub open spec fn block_outcome(r: Result<(Block, usize), CompileError>, table: Seq<Binding>)
    -> Outcome<BlockView> {
    match r {
        Ok((block, next)) => Outcome { result: Ok((block@, next as nat)), table },
        Err(e) => Outcome { result: Err(e), table },
    }
}

fn parse_binary(tokens: &VecDeque<Token>, pos: usize, table: &SymbolTable, level: u8) -> (r:
    Result<(Expression, Type, usize), CompileError>)
    requires
        level <= 4,
    ensures
        typed_view(r) == grammar::parse_binary(
            token_views(tokens@),
            pos as nat,
            table@,
            level as nat,
        ),
        r matches Ok((_, _, next)) ==> pos < next <= tokens.len(),
    decreases tokens.len() - pos, level, 3nat,
{
    if level == 0 {
        return parse_unary(tokens, pos, table);
    }
    let ghost views = token_views(tokens@);
    match parse_binary(tokens, pos, table, level - 1) {
        Err(e) => Err(e),
        Ok((first, first_ty, next)) => {
            let mut expr = first;
            let mut ty = first_ty;
            let mut at = next;
            while operator_follows(tokens, at, level)
                invariant
                    1 <= level <= 4,
                    pos < at <= tokens.len(),
                    views == token_views(tokens@),
                    grammar::binary_tail(views, at as nat, table@, level as nat, expr@, ty)
                        == grammar::parse_binary(views, pos as nat, table@, level as nat),
                decreases tokens.len() - at,
            {
                let op = tokens[at].clone();
                match parse_binary(tokens, at + 1, table, level - 1) {
                    Err(e) => {
                        return Err(e);
                    },
                    Ok((right, right_ty, after)) => {
                        match binary_type(op.lexeme(), &ty, &right_ty) {
                            None => {
                                return Err(error_at(tokens, at, Fault::OperandMismatch));
                            },
                            Some(joined) => {
                                expr = Expression::Binary(Box::new(expr), op, Box::new(right));
                                ty = joined;
                                at = after;
                            },
                        }
                    },
                }
            }
            Ok((expr, ty, at))
        },
    }
}

fn parse_expression(tokens: &VecDeque<Token>, pos: usize, table: &SymbolTable) -> (r: Result<
    (Expression, Type, usize),
    CompileError,
>)
    ensures
        typed_view(r) == grammar::parse_expression(token_views(tokens@), pos as nat, table@),
        r matches Ok((_, _, next)) ==> pos < next <= tokens.len(),
    decreases tokens.len() - pos, 5nat, 0nat,
{
    parse_binary(tokens, pos, table, 4)
}

fn parse_unary(tokens: &VecDeque<Token>, pos: usize, table: &SymbolTable) -> (r: Result<
    (Expression, Type, usize),
    CompileError,
>)
    ensures
        typed_view(r) == grammar::parse_unary(token_views(tokens@), pos as nat, table@),
        r matches Ok((_, _, next)) ==> pos < next <= tokens.len(),
    decreases tokens.len() - pos, 0nat, 2nat,
{
    if lookahead(tokens, pos, "-") || lookahead(tokens, pos, "&") || lookahead(tokens, pos, "*") {
        let op = tokens[pos].clone();
        match parse_unary(tokens, pos + 1, table) {
            Err(e) => Err(e),
            Ok((operand, ty, next)) => {
                match unary_type(op.lexeme(), &operand, ty) {
                    Err(fault) => Err(error_at(tokens, pos, fault)),
                    Ok(result_ty) => Ok(
                        (Expression::Unary(op, Box::new(operand)), result_ty, next),
                    ),
                }
            },
        }
    } else {
        parse_primary(tokens, pos, table)
    }
}

fn parse_primary(tokens: &VecDeque<Token>, pos: usize, table: &SymbolTable) -> (r: Result<
    (Expression, Type, usize),
    CompileError,
>)
    ensures
        typed_view(r) == grammar::parse_primary(token_views(tokens@), pos as nat, table@),
        r matches Ok((_, _, next)) ==> pos < next <= tokens.len(),
    decreases tokens.len() - pos, 0nat, 0nat,
{
    let token = match peek(tokens, pos) {
        Some(token) => token.clone(),
        None => {
            return Err(CompileError { fault: Fault::UnexpectedEnd, line: 0, column: 0 });
        },
    };
    match token.token_type() {
        TokenType::Identifier => {
            match table.get(token.lexeme()) {
                Some(symbol) => {
                    let ty = symbol._type.clone();
                    Ok((Expression::Literal(Literal::Symbol(token)), ty, pos + 1))
                },
                None => Err(error_at(tokens, pos, Fault::UnknownIdentifier)),
            }
        },
        TokenType::Literal | TokenType::Terminal => {
            if *token._type() == Type::Bool {
                Ok((Expression::Literal(Literal::Bool(token)), Type::Bool, pos + 1))
            } else if *token._type() == Type::Int {
                Ok((Expression::Literal(Literal::Int(token)), Type::Int, pos + 1))
            } else if str_equal(token.lexeme(), "(") {
                match parse_expression(tokens, pos + 1, table) {
                    Err(e) => Err(e),
                    Ok((inner, ty, next)) => {
                        if lookahead(tokens, next, ")") {
                            let close = tokens[next].clone();
                            Ok((Expression::Group(token, Box::new(inner), close), ty, next + 1))
                        } else {
                            Err(error_at(tokens, next, Fault::MissingParen))
                        }
                    },
                }
            } else if str_equal(token.lexeme(), "[") {
                match parse_list_literal(tokens, pos + 1, table) {
                    Err(e) => Err(e),
                    Ok((list, element_ty, count, next)) => {
                        if lookahead(tokens, next, "]") {
                            Ok(
                                (
                                    Expression::Literal(Literal::List(Box::new(list))),
                                    Type::Pointer(
                                        Box::new(Type::Array(Box::new(element_ty), count)),
                                    ),
                                    next + 1,
                                ),
                            )
                        } else {
                            Err(error_at(tokens, next, Fault::MissingBracket))
                        }
                    },
                }
            } else {
                Err(error_at(tokens, pos, Fault::UnexpectedToken))
            }
        },
        _ => Err(error_at(tokens, pos, Fault::UnexpectedToken)),
    }
}

fn parse_list_literal(tokens: &VecDeque<Token>, pos: usize, table: &SymbolTable) -> (r: Result<
    (List, Type, u64, usize),
    CompileError,
>)
    ensures
        list_parse_view(r) == grammar::parse_list_literal(token_views(tokens@), pos as nat, table@),
        r matches Ok((_, _, count, next)) ==> pos < next <= tokens.len() && count <= next - pos,
    decreases tokens.len() - pos, 0nat, 1nat,
{
    match parse_primary(tokens, pos, table) {
        Err(e) => Err(e),
        Ok((element, ty, next)) => {
            match element {
                Expression::Literal(first) => {
                    if lookahead(tokens, next, "]") {
                        Ok((List::Literal(first), ty, 1, next))
                    } else if !lookahead(tokens, next, ",") {
                        Err(error_at(tokens, next, Fault::UnexpectedToken))
                    } else {
                        match parse_list_literal(tokens, next + 1, table) {
                            Err(e) => Err(e),
                            Ok((rest, rest_ty, count, after)) => {
                                if ty == rest_ty {
                                    Ok((List::List(first, Box::new(rest)), ty, count + 1, after))
                                } else {
                                    Err(error_at(tokens, next, Fault::MixedList))
                                }
                            },
                        }
                    }
                },
                _ => Err(error_at(tokens, pos, Fault::UnexpectedToken)),
            }
        },
    }
}

fn parse_type(token: &Token) -> (r: Option<Type>)
    ensures
        r == grammar::parse_type(token@.lexeme),
{
    if str_equal(token.lexeme(), "int") {
        Some(Type::Int)
    } else if str_equal(token.lexeme(), "bool") {
        Some(Type::Bool)
    } else {
        None
    }
}

fn parse_name(tokens: &VecDeque<Token>, pos: usize) -> (r: Result<String, CompileError>)
    ensures
        match r {
            Ok(name) => grammar::parse_name(token_views(tokens@), pos as nat) == Ok::<
                Seq<char>,
                CompileError,
            >(name@),
            Err(e) => grammar::parse_name(token_views(tokens@), pos as nat) == Err::<
                Seq<char>,
                CompileError,
            >(e),
        },
        r is Ok ==> pos < tokens.len(),
{
    match peek(tokens, pos) {
        Some(token) => {
            if *token.token_type() == TokenType::Identifier {
                Ok(token.lexeme().to_owned())
            } else {
                Err(error_at(tokens, pos, Fault::UnexpectedToken))
            }
        },
        None => Err(error_at(tokens, pos, Fault::UnexpectedToken)),
    }
}

/// What a parsed declarator stands for in the grammar.
pub open spec fn declarator_view(r: Result<(Type, String, usize), CompileError>) -> Parse<
    (Type, Seq<char>),
> {
    match r {
        Ok((ty, name, next)) => Ok(((ty, name@), next as nat)),
        Err(e) => Err(e),
    }
}

fn parse_identifier(tokens: &VecDeque<Token>, pos: usize) -> (r: Result<
    (Type, String, usize),
    CompileError,
>)
    ensures
        declarator_view(r) == grammar::parse_identifier(token_views(tokens@), pos as nat),
        r matches Ok((_, _, next)) ==> pos < next <= tokens.len(),
{
    let base = match peek(tokens, pos) {
        None => {
            return Err(CompileError { fault: Fault::UnexpectedEnd, line: 0, column: 0 });
        },
        Some(token) => match parse_type(token) {
            None => {
                return Err(error_at(tokens, pos, Fault::UnexpectedToken));
            },
            Some(base) => base,
        },
    };
    if lookahead(tokens, pos + 1, "*") {
        match parse_name(tokens, pos + 2) {
            Err(e) => Err(e),
            Ok(name) => Ok((Type::Pointer(Box::new(base)), name, pos + 3)),
        }
    } else if lookahead(tokens, pos + 1, "[") {
        let length = match peek(tokens, pos + 2) {
            None => {
                return Err(CompileError { fault: Fault::UnexpectedEnd, line: 0, column: 0 });
            },
            Some(token) => {
                if *token.token_type() != TokenType::Literal {
                    return Err(error_at(tokens, pos + 2, Fault::BadArrayLength));
                }
                match read_number(token.lexeme()) {
                    None => {
                        return Err(error_at(tokens, pos + 2, Fault::BadArrayLength));
                    },
                    Some(length) => length,
                }
            },
        };
        if !lookahead(tokens, pos + 3, "]") {
            return Err(error_at(tokens, pos + 3, Fault::MissingBracket));
        }
        match parse_name(tokens, pos + 4) {
            Err(e) => Err(e),
            Ok(name) => Ok(
                (Type::Pointer(Box::new(Type::Array(Box::new(base), length))), name, pos + 5),
            ),
        }
    } else {
        match parse_name(tokens, pos + 1) {
            Err(e) => Err(e),
            Ok(name) => Ok((base, name, pos + 2)),
        }
    }
}

fn parse_declaration(
    tokens: &VecDeque<Token>,
    pos: usize,
    table: &mut SymbolTable,
    mutable: bool,
) -> (r: Result<(Statement, usize), CompileError>)
    requires
        pos < tokens.len(),
    ensures
        statement_outcome(r, final(table)@) == grammar::parse_declaration(
            token_views(tokens@),
            pos as nat,
            old(table)@,
            mutable,
        ),
        r matches Ok((_, next)) ==> pos < next <= tokens.len(),
{
    let (declared, name, equals) = match parse_identifier(tokens, pos + 1) {
        Err(e) => {
            return Err(e);
        },
        Ok(found) => found,
    };
    if !lookahead(tokens, equals, "=") {
        return Err(error_at(tokens, equals, Fault::UnexpectedToken));
    }
    let (value, ty, end) = match parse_expression(tokens, equals + 1, table) {
        Err(e) => {
            return Err(e);
        },
        Ok(found) => found,
    };
    let is_pointer = match declared {
        Type::Pointer(_) => true,
        _ => false,
    };
    if declared != ty {
        return Err(error_at(tokens, pos, Fault::DeclarationMismatch));
    }
    if !lookahead(tokens, end, ";") {
        return Err(error_at(tokens, end, Fault::MissingSemicolon));
    }
    if table.get(name.as_str()).is_some() {
        return Err(error_at(tokens, pos, Fault::Redeclaration));
    }
    let line = *tokens[pos].line_number();
    table.insert(
        name.clone(),
        Symbol {
            stack_offset: None,
            _type: declared.clone(),
            mutable,
            init_line: line,
            last_ref: line,
        },
    );
    let target = if is_pointer {
        Assignment::Pointer(declared, name)
    } else {
        Assignment::Value(declared, name)
    };
    Ok((Statement::Assignment(target, value), end + 1))
}

fn parse_mutation(tokens: &VecDeque<Token>, pos: usize, table: &mut SymbolTable) -> (r: Result<
    (Statement, usize),
    CompileError,
>)
    requires
        pos < tokens.len(),
    ensures
        statement_outcome(r, final(table)@) == grammar::parse_mutation(
            token_views(tokens@),
            pos as nat,
            old(table)@,
        ),
        r matches Ok((_, next)) ==> pos < next <= tokens.len(),
{
    let name = tokens[pos].lexeme().to_owned();
    let (known_ty, init_line) = match table.get(name.as_str()) {
        None => {
            return Err(error_at(tokens, pos, Fault::UnknownIdentifier));
        },
        Some(known) => {
            if !known.mutable {
                return Err(error_at(tokens, pos, Fault::AssignToConst));
            }
            (known._type.clone(), known.init_line)
        },
    };
    if !lookahead(tokens, pos + 1, "=") {
        return Err(error_at(tokens, pos + 1, Fault::UnexpectedToken));
    }
    let (value, ty, end) = match parse_expression(tokens, pos + 2, table) {
        Err(e) => {
            return Err(e);
        },
        Ok(found) => found,
    };
    if known_ty != ty {
        return Err(error_at(tokens, pos, Fault::DeclarationMismatch));
    }
    if !lookahead(tokens, end, ";") {
        return Err(error_at(tokens, end, Fault::MissingSemicolon));
    }
    table.insert(
        name.clone(),
        Symbol {
            stack_offset: None,
            _type: known_ty,
            mutable: true,
            init_line,
            last_ref: *tokens[pos].line_number(),
        },
    );
    Ok((Statement::Assignment(Assignment::Mutation(name), value), end + 1))
}

/// What a parsed guard stands for in the grammar.
pub open spec fn guard_view(r: Result<(Expression, usize), CompileError>) -> Parse<
    ExpressionView,
> {
    match r {
        Ok((guard, next)) => Ok((guard@, next as nat)),
        Err(e) => Err(e),
    }
}

fn parse_guard(tokens: &VecDeque<Token>, pos: usize, table: &SymbolTable) -> (r: Result<
    (Expression, usize),
    CompileError,
>)
    requires
        pos < tokens.len(),
    ensures
        guard_view(r) == grammar::parse_guard(token_views(tokens@), pos as nat, table@),
        r matches Ok((_, next)) ==> pos < next <= tokens.len(),
{
    match parse_expression(tokens, pos + 1, table) {
        Err(e) => Err(e),
        Ok((guard, ty, next)) => {
            if ty == Type::Bool {
                Ok((guard, next))
            } else {
                Err(error_at(tokens, pos, Fault::GuardNotBool))
            }
        },
    }
}

fn parse_conditional(
    tokens: &VecDeque<Token>,
    pos: usize,
    table: &mut SymbolTable,
    context: &Context,
) -> (r: Result<(Statement, usize), CompileError>)
    requires
        pos < tokens.len(),
    ensures
        statement_outcome(r, final(table)@) == grammar::parse_conditional(
            token_views(tokens@),
            pos as nat,
            old(table)@,
            *context,
        ),
        r matches Ok((_, next)) ==> pos < next <= tokens.len(),
    decreases tokens.len() - pos, 0nat,
{
    let (guard, next) = match parse_guard(tokens, pos, table) {
        Err(e) => {
            return Err(e);
        },
        Ok(found) => found,
    };
    let (then, after) = match parse_statement(tokens, next, table, context) {
        Err(e) => {
            return Err(e);
        },
        Ok(found) => found,
    };
    if !lookahead(tokens, after, "else") {
        return Ok((Statement::If(guard, Box::new(then)), after));
    }
    match parse_statement(tokens, after + 1, table, context) {
        Err(e) => Err(e),
        Ok((otherwise, end)) => Ok(
            (Statement::IfElse(guard, Box::new(then), Box::new(otherwise)), end),
        ),
    }
}

fn parse_loop(tokens: &VecDeque<Token>, pos: usize, table: &mut SymbolTable) -> (r: Result<
    (Statement, usize),
    CompileError,
>)
    requires
        pos < tokens.len(),
    ensures
        statement_outcome(r, final(table)@) == grammar::parse_loop(
            token_views(tokens@),
            pos as nat,
            old(table)@,
        ),
        r matches Ok((_, next)) ==> pos < next <= tokens.len(),
    decreases tokens.len() - pos, 0nat,
{
    let (guard, next) = match parse_guard(tokens, pos, table) {
        Err(e) => {
            return Err(e);
        },
        Ok(found) => found,
    };
    match parse_statement(tokens, next, table, &Context::While) {
        Err(e) => Err(e),
        Ok((inner, after)) => Ok((Statement::While(guard, Box::new(inner)), after)),
    }
}

fn parse_break(tokens: &VecDeque<Token>, pos: usize, table: &SymbolTable, context: &Context) -> (r:
    Result<(Statement, usize), CompileError>)
    requires
        pos < tokens.len(),
    ensures
        statement_outcome(r, table@) == grammar::parse_break(
            token_views(tokens@),
            pos as nat,
            table@,
            *context,
        ),
        r matches Ok((_, next)) ==> pos < next <= tokens.len(),
{
    if *context != Context::While {
        Err(error_at(tokens, pos, Fault::BreakOutsideLoop))
    } else if !lookahead(tokens, pos + 1, ";") {
        Err(error_at(tokens, pos + 1, Fault::MissingSemicolon))
    } else {
        Ok((Statement::Break, pos + 2))
    }
}

fn parse_braces(
    tokens: &VecDeque<Token>,
    pos: usize,
    table: &mut SymbolTable,
    context: &Context,
) -> (r: Result<(Statement, usize), CompileError>)
    requires
        pos < tokens.len(),
    ensures
        statement_outcome(r, final(table)@) == grammar::parse_braces(
            token_views(tokens@),
            pos as nat,
            old(table)@,
            *context,
        ),
        r matches Ok((_, next)) ==> pos < next <= tokens.len(),
    decreases tokens.len() - pos, 0nat,
{
    match parse_block(tokens, pos + 1, table, context) {
        Err(e) => Err(e),
        Ok((inner, next)) => {
            if lookahead(tokens, next, "}") {
                Ok((Statement::Block(Box::new(inner)), next + 1))
            } else {
                Err(error_at(tokens, next, Fault::UnexpectedToken))
            }
        },
    }
}

fn parse_statement(
    tokens: &VecDeque<Token>,
    pos: usize,
    table: &mut SymbolTable,
    context: &Context,
) -> (r: Result<(Statement, usize), CompileError>)
    ensures
        statement_outcome(r, final(table)@) == grammar::parse_statement(
            token_views(tokens@),
            pos as nat,
            old(table)@,
            *context,
        ),
        r matches Ok((_, next)) ==> pos < next <= tokens.len(),
    decreases tokens.len() - pos, 1nat,
{
    let first = match peek(tokens, pos) {
        None => {
            return Err(CompileError { fault: Fault::UnexpectedEnd, line: 0, column: 0 });
        },
        Some(token) => token,
    };
    if str_equal(first.lexeme(), "const") {
        parse_declaration(tokens, pos, table, false)
    } else if str_equal(first.lexeme(), "mut") {
        parse_declaration(tokens, pos, table, true)
    } else if str_equal(first.lexeme(), "if") {
        parse_conditional(tokens, pos, table, context)
    } else if str_equal(first.lexeme(), "while") {
        parse_loop(tokens, pos, table)
    } else if str_equal(first.lexeme(), "break") {
        parse_break(tokens, pos, table, context)
    } else if str_equal(first.lexeme(), "{") {
        parse_braces(tokens, pos, table, context)
    } else if *first.token_type() == TokenType::Identifier {
        parse_mutation(tokens, pos, table)
    } else {
        Err(error_at(tokens, pos, Fault::UnexpectedToken))
    }
}

fn parse_block(
    tokens: &VecDeque<Token>,
    pos: usize,
    table: &mut SymbolTable,
    context: &Context,
) -> (r: Result<(Block, usize), CompileError>)
    ensures
        block_outcome(r, final(table)@) == grammar::parse_block(
            token_views(tokens@),
            pos as nat,
            old(table)@,
            *context,
        ),
        r matches Ok((_, next)) ==> pos < next <= tokens.len(),
    decreases tokens.len() - pos, 2nat,
{
    let (statement, next) = match parse_statement(tokens, pos, table, context) {
        Err(e) => {
            return Err(e);
        },
        Ok(found) => found,
    };
    if lookahead(tokens, next, "}") {
        return Ok((Block::Statement(statement), next));
    }
    match parse_block(tokens, next, table, context) {
        Err(e) => Err(e),
        Ok((more, end)) => Ok((Block::Block(statement, Box::new(more)), end)),
    }
}

/// `statements` in front of the statements of `rest`, or the error of `rest`.
pub open spec fn after(statements: Seq<StatementView>, rest: Program) -> Program {
    match rest.result {
        Ok(more) => Program { result: Ok(statements + more), table: rest.table },
        Err(e) => rest,
    }
}

/// Parses a whole program: the statements that `tokens` stand for, checked
/// for their types, with every declared variable entered in `symbol_table`.
///
/// On success the tokens are used up. On the first error the tokens are left
/// as they were, and the symbol table holds what was declared until then.
pub fn parse_tokens(tokens: &mut VecDeque<Token>, symbol_table: &mut SymbolTable) -> (r: Result<
    VecDeque<Statement>,
    CompileError,
>)
    ensures
        final(symbol_table)@ == grammar::parse_program(
            token_views(old(tokens)@),
            0,
            old(symbol_table)@,
        ).table,
        match r {
            Ok(statements) => grammar::parse_program(
                token_views(old(tokens)@),
                0,
                old(symbol_table)@,
            ).result == Ok::<Seq<StatementView>, CompileError>(statement_views(statements@))
                && final(tokens)@.len() == 0,
            Err(e) => grammar::parse_program(
                token_views(old(tokens)@),
                0,
                old(symbol_table)@,
            ).result == Err::<Seq<StatementView>, CompileError>(e) && final(tokens)@ == old(
                tokens,
            )@,
        },
{
    let mut statement_list = VecDeque::<Statement>::new();
    let mut pos: usize = 0;
    let ghost views = token_views(tokens@);
    let ghost whole = grammar::parse_program(views, 0, symbol_table@);
    while pos < tokens.len()
        invariant
            pos <= tokens.len(),
            tokens@ == old(tokens)@,
            views == token_views(tokens@),
            whole == grammar::parse_program(token_views(old(tokens)@), 0, old(symbol_table)@),
            whole == after(
                statement_views(statement_list@),
                grammar::parse_program(views, pos as nat, symbol_table@),
            ),
        decreases tokens.len() - pos,
    {
        let ghost before = statement_views(statement_list@);
        match parse_statement(tokens, pos, symbol_table, &Context::TopLevel) {
            Err(e) => {
                return Err(e);
            },
            Ok((statement, next)) => {
                proof {
                    let rest = grammar::parse_program(views, next as nat, symbol_table@);
                    assert(statement_views(statement_list@.push(statement)) =~= before.push(
                        statement@,
                    ));
                    if rest.result is Ok {
                        assert(before + (seq![statement@] + rest.result->Ok_0) =~= before.push(
                            statement@,
                        ) + rest.result->Ok_0);
                    }
                }
                statement_list.push_back(statement);
                pos = next;
            },
        }
    }
    tokens.clear();
    Ok(statement_list)
}

} // verus!
