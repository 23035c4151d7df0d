//! The language: which statements a run of tokens stands for, what types its
//! expressions have, and which symbols it declares.
//!
//! Every function here reads the tokens from a position on and gives back
//! what it recognised together with the position after it, or the first error.

use crate::error::{CompileError, Fault};
use crate::representations::{
    AssignmentView, BlockView, Context, ExpressionView, ListView, LiteralView, StatementView,
    Symbol, TokenType, TokenView, Type,
};
use crate::symbols::{bind, lookup, Binding};
use crate::text::parse_number;
use vstd::prelude::*;

verus! {

/// What was recognised and the position after it, or the first error.
pub type Parse<T> = Result<(T, nat), CompileError>;

/// The outcome of parsing statements: the parse, and the symbol table as the
/// statements parsed so far have left it.
pub struct Outcome<T> {
    pub result: Parse<T>,
    pub table: Seq<Binding>,
}

/// `fault` at the token at `pos`, or the end of the tokens where there is none.
pub open spec fn fault_at(tokens: Seq<TokenView>, pos: nat, fault: Fault) -> CompileError {
    if pos < tokens.len() {
        CompileError {
            fault,
            line: tokens[pos as int].line,
            column: tokens[pos as int].column,
        }
    } else {
        CompileError::nowhere(Fault::UnexpectedEnd)
    }
}

/// Whether the token at `pos` exists and reads `word`.
pub open spec fn word_at(tokens: Seq<TokenView>, pos: nat, word: Seq<char>) -> bool {
    pos < tokens.len() && tokens[pos as int].lexeme == word
}

/// The error of a parse that returned without having moved forward. No parse
/// does (see `theorems::progress`); the functions below test for it so that
/// their recursion is well founded.
pub open spec fn stuck() -> CompileError {
    CompileError::nowhere(Fault::UnexpectedEnd)
}

/// Whether a parse that started at `pos` and ended at `next` moved forward
/// and stayed within the tokens.
pub open spec fn advanced(tokens: Seq<TokenView>, pos: nat, next: nat) -> bool {
    pos < next <= tokens.len()
}

/// The loosest binary precedence level, that of a whole expression.
pub open spec fn loosest() -> nat {
    4
}

/// The precedence level of a binary operator, from 1 for `* / %`, which bind
/// tightest, to 4 for `== !=`; 0 for any other word.
pub open spec fn operator_level(op: Seq<char>) -> nat {
    if op == "*"@ || op == "/"@ || op == "%"@ {
        1
    } else if op == "+"@ || op == "-"@ {
        2
    } else if op == "<"@ || op == ">"@ || op == "<="@ || op == ">="@ {
        3
    } else if op == "=="@ || op == "!="@ {
        4
    } else {
        0
    }
}

/// The type of `left op right`, where the operator accepts the operand types.
pub open spec fn binary_type(op: Seq<char>, left: Type, right: Type) -> Option<Type> {
    let level = operator_level(op);
    if level == 1 || level == 2 {
        if left == Type::Int && right == Type::Int {
            Some(Type::Int)
        } else {
            None
        }
    } else if level == 3 {
        if left == Type::Int && right == Type::Int {
            Some(Type::Bool)
        } else {
            None
        }
    } else if level == 4 {
        if (left == Type::Int && right == Type::Int) || (left == Type::Bool && right
            == Type::Bool) {
            Some(Type::Bool)
        } else {
            None
        }
    } else {
        None
    }
}

/// The expression of binary precedence `level` at `pos`: operands of the
/// next tighter level joined, from left to right, by operators of this level.
/// Level 0 is a unary expression.
pub open spec fn parse_binary(
    tokens: Seq<TokenView>,
    pos: nat,
    table: Seq<Binding>,
    level: nat,
) -> Parse<(ExpressionView, Type)>
    decreases tokens.len() - pos, level, 3nat,
{
    if level == 0 {
        parse_unary(tokens, pos, table)
    } else {
        match parse_binary(tokens, pos, table, (level - 1) as nat) {
            Err(e) => Err(e),
            Ok(((left, ty), next)) => {
                if advanced(tokens, pos, next) {
                    binary_tail(tokens, next, table, level, left, ty)
                } else {
                    Err(stuck())
                }
            },
        }
    }
}

/// The expression that `left`, of type `ty`, grows into by the operators of
/// `level` and their right operands that follow at `pos`.
pub open spec fn binary_tail(
    tokens: Seq<TokenView>,
    pos: nat,
    table: Seq<Binding>,
    level: nat,
    left: ExpressionView,
    ty: Type,
) -> Parse<(ExpressionView, Type)>
    decreases tokens.len() - pos, level, 0nat,
{
    if level >= 1 && pos < tokens.len() && operator_level(tokens[pos as int].lexeme) == level {
        let op = tokens[pos as int];
        match parse_binary(tokens, pos + 1, table, (level - 1) as nat) {
            Err(e) => Err(e),
            Ok(((right, right_ty), next)) => {
                match binary_type(op.lexeme, ty, right_ty) {
                    None => Err(fault_at(tokens, pos, Fault::OperandMismatch)),
                    Some(joined_ty) => {
                        if advanced(tokens, pos, next) {
                            binary_tail(
                                tokens,
                                next,
                                table,
                                level,
                                ExpressionView::Binary(Box::new(left), op, Box::new(right)),
                                joined_ty,
                            )
                        } else {
                            Err(stuck())
                        }
                    },
                }
            },
        }
    } else {
        Ok(((left, ty), pos))
    }
}

/// The unary expression at `pos`: `-`, `&` or `*` applied to a unary
/// expression, or a primary expression.
pub open spec fn parse_unary(tokens: Seq<TokenView>, pos: nat, table: Seq<Binding>) -> Parse<
    (ExpressionView, Type),
>
    decreases tokens.len() - pos, 0nat, 2nat,
{
    if word_at(tokens, pos, "-"@) || word_at(tokens, pos, "&"@) || word_at(tokens, pos, "*"@) {
        let op = tokens[pos as int];
        match parse_unary(tokens, pos + 1, table) {
            Err(e) => Err(e),
            Ok(((operand, ty), next)) => {
                match unary_type(op.lexeme, operand, ty) {
                    Err(fault) => Err(fault_at(tokens, pos, fault)),
                    Ok(result_ty) => Ok(
                        ((ExpressionView::Unary(op, Box::new(operand)), result_ty), next),
                    ),
                }
            },
        }
    } else {
        parse_primary(tokens, pos, table)
    }
}

/// The type of `op operand` for a unary operator, or why it has none:
/// `-` takes an `Int`, `&` takes a variable, `*` takes a pointer.
pub open spec fn unary_type(op: Seq<char>, operand: ExpressionView, ty: Type) -> Result<
    Type,
    Fault,
> {
    if op == "-"@ {
        if ty == Type::Int {
            Ok(Type::Int)
        } else {
            Err(Fault::OperandMismatch)
        }
    } else if op == "&"@ {
        if operand is Literal && operand->Literal_0 is Symbol {
            Ok(Type::Pointer(Box::new(ty)))
        } else {
            Err(Fault::AddressOfTemporary)
        }
    } else {
        match ty {
            Type::Pointer(target) => Ok(*target),
            _ => Err(Fault::DerefNonPointer),
        }
    }
}

/// The primary expression at `pos`: a literal, a declared variable, an
/// expression in parentheses or a list literal in brackets.
pub open spec fn parse_primary(tokens: Seq<TokenView>, pos: nat, table: Seq<Binding>) -> Parse<
    (ExpressionView, Type),
>
    decreases tokens.len() - pos, 0nat, 0nat,
{
    if pos >= tokens.len() {
        Err(CompileError::nowhere(Fault::UnexpectedEnd))
    } else {
        let token = tokens[pos as int];
        if token.kind == TokenType::Identifier {
            match lookup(table, token.lexeme) {
                Some(symbol) => Ok(
                    (
                        (ExpressionView::Literal(LiteralView::Symbol(token)), symbol._type),
                        pos + 1,
                    ),
                ),
                None => Err(fault_at(tokens, pos, Fault::UnknownIdentifier)),
            }
        } else if token.kind == TokenType::Literal || token.kind == TokenType::Terminal {
            if token.ty == Type::Bool {
                Ok(((ExpressionView::Literal(LiteralView::Bool(token)), Type::Bool), pos + 1))
            } else if token.ty == Type::Int {
                Ok(((ExpressionView::Literal(LiteralView::Int(token)), Type::Int), pos + 1))
            } else if token.lexeme == "("@ {
                match parse_binary(tokens, pos + 1, table, loosest()) {
                    Err(e) => Err(e),
                    Ok(((inner, ty), next)) => {
                        if word_at(tokens, next, ")"@) {
                            Ok(
                                (
                                    (
                                        ExpressionView::Group(
                                            token,
                                            Box::new(inner),
                                            tokens[next as int],
                                        ),
                                        ty,
                                    ),
                                    next + 1,
                                ),
                            )
                        } else {
                            Err(fault_at(tokens, next, Fault::MissingParen))
                        }
                    },
                }
            } else if token.lexeme == "["@ {
                match parse_list_literal(tokens, pos + 1, table) {
                    Err(e) => Err(e),
                    Ok(((list, element_ty, count), next)) => {
                        if word_at(tokens, next, "]"@) {
                            Ok(
                                (
                                    (
                                        ExpressionView::Literal(
                                            LiteralView::List(Box::new(list)),
                                        ),
                                        Type::Pointer(
                                            Box::new(
                                                Type::Array(Box::new(element_ty), count as u64),
                                            ),
                                        ),
                                    ),
                                    next + 1,
                                ),
                            )
                        } else {
                            Err(fault_at(tokens, next, Fault::MissingBracket))
                        }
                    },
                }
            } else {
                Err(fault_at(tokens, pos, Fault::UnexpectedToken))
            }
        } else {
            Err(fault_at(tokens, pos, Fault::UnexpectedToken))
        }
    }
}

/// The elements of a list literal at `pos`, up to its closing bracket: one
/// or more literals of one type, separated by commas. Gives the list, the
/// type of its elements and their number.
pub open spec fn parse_list_literal(tokens: Seq<TokenView>, pos: nat, table: Seq<Binding>) -> Parse<
    (ListView, Type, nat),
>
    decreases tokens.len() - pos, 0nat, 1nat,
{
    match parse_primary(tokens, pos, table) {
        Err(e) => Err(e),
        Ok(((element, ty), next)) => {
            match element {
                ExpressionView::Literal(first) => {
                    if word_at(tokens, next, "]"@) {
                        Ok(((ListView::Literal(first), ty, 1), next))
                    } else if !word_at(tokens, next, ","@) {
                        Err(fault_at(tokens, next, Fault::UnexpectedToken))
                    } else if advanced(tokens, pos, next) {
                        match parse_list_literal(tokens, next + 1, table) {
                            Err(e) => Err(e),
                            Ok(((rest, rest_ty, count), after)) => {
                                if ty == rest_ty {
                                    Ok(
                                        (
                                            (
                                                ListView::List(first, Box::new(rest)),
                                                ty,
                                                count + 1,
                                            ),
                                            after,
                                        ),
                                    )
                                } else {
                                    Err(fault_at(tokens, next, Fault::MixedList))
                                }
                            },
                        }
                    } else {
                        Err(stuck())
                    }
                },
                _ => Err(fault_at(tokens, pos, Fault::UnexpectedToken)),
            }
        },
    }
}

/// The expression at `pos`.
pub open spec fn parse_expression(tokens: Seq<TokenView>, pos: nat, table: Seq<Binding>)
    -> Parse<(ExpressionView, Type)> {
    parse_binary(tokens, pos, table, loosest())
}

/// The type that a type keyword names.
pub open spec fn parse_type(word: Seq<char>) -> Option<Type> {
    if word == "int"@ {
        Some(Type::Int)
    } else if word == "bool"@ {
        Some(Type::Bool)
    } else {
        None
    }
}

/// The name of a variable at `pos`: an identifier.
pub open spec fn parse_name(tokens: Seq<TokenView>, pos: nat) -> Result<Seq<char>, CompileError> {
    if pos < tokens.len() && tokens[pos as int].kind == TokenType::Identifier {
        Ok(tokens[pos as int].lexeme)
    } else {
        Err(fault_at(tokens, pos, Fault::UnexpectedToken))
    }
}

/// The declared type and name at `pos`: `int` or `bool`, then nothing, `*`
/// for a pointer or `[n]` for a pointer to an array of `n` elements, then
/// the name.
pub open spec fn parse_identifier(tokens: Seq<TokenView>, pos: nat) -> Parse<(Type, Seq<char>)> {
    if pos >= tokens.len() {
        Err(CompileError::nowhere(Fault::UnexpectedEnd))
    } else {
        match parse_type(tokens[pos as int].lexeme) {
            None => Err(fault_at(tokens, pos, Fault::UnexpectedToken)),
            Some(base) => {
                if word_at(tokens, pos + 1, "*"@) {
                    match parse_name(tokens, pos + 2) {
                        Err(e) => Err(e),
                        Ok(name) => Ok(((Type::Pointer(Box::new(base)), name), pos + 3)),
                    }
                } else if word_at(tokens, pos + 1, "["@) {
                    if pos + 2 >= tokens.len() {
                        Err(CompileError::nowhere(Fault::UnexpectedEnd))
                    } else if tokens[(pos + 2) as int].kind != TokenType::Literal {
                        Err(fault_at(tokens, pos + 2, Fault::BadArrayLength))
                    } else {
                        match parse_number(tokens[(pos + 2) as int].lexeme) {
                            None => Err(fault_at(tokens, pos + 2, Fault::BadArrayLength)),
                            Some(length) => {
                                if !word_at(tokens, pos + 3, "]"@) {
                                    Err(fault_at(tokens, pos + 3, Fault::MissingBracket))
                                } else {
                                    match parse_name(tokens, pos + 4) {
                                        Err(e) => Err(e),
                                        Ok(name) => Ok(
                                            (
                                                (
                                                    Type::Pointer(
                                                        Box::new(
                                                            Type::Array(Box::new(base), length),
                                                        ),
                                                    ),
                                                    name,
                                                ),
                                                pos + 5,
                                            ),
                                        ),
                                    }
                                }
                            },
                        }
                    }
                } else {
                    match parse_name(tokens, pos + 1) {
                        Err(e) => Err(e),
                        Ok(name) => Ok(((base, name), pos + 2)),
                    }
                }
            },
        }
    }
}

/// A failed parse that leaves `table` as it is.
pub open spec fn fail<T>(e: CompileError, table: Seq<Binding>) -> Outcome<T> {
    Outcome { result: Err(e), table }
}

/// The declaration at `pos`, which holds `const` or `mut`: the declared type
/// and name, `=`, an expression of the declared type, and `;`. A pointer
/// takes any expression of its pointer type; whether that expression yields
/// an address is for the code generator to tell. The name must be new; it is
/// added to the table with the line of the declaration.
pub open spec fn parse_declaration(
    tokens: Seq<TokenView>,
    pos: nat,
    table: Seq<Binding>,
    mutable: bool,
) -> Outcome<StatementView>
    recommends
        pos < tokens.len(),
{
    match parse_identifier(tokens, pos + 1) {
        Err(e) => fail(e, table),
        Ok(((declared, name), equals)) => {
            if !word_at(tokens, equals, "="@) {
                fail(fault_at(tokens, equals, Fault::UnexpectedToken), table)
            } else {
                match parse_expression(tokens, equals + 1, table) {
                    Err(e) => fail(e, table),
                    Ok(((value, ty), end)) => {
                        if declared != ty {
                            fail(fault_at(tokens, pos, Fault::DeclarationMismatch), table)
                        } else if !word_at(tokens, end, ";"@) {
                            fail(fault_at(tokens, end, Fault::MissingSemicolon), table)
                        } else if lookup(table, name) is Some {
                            fail(fault_at(tokens, pos, Fault::Redeclaration), table)
                        } else {
                            let line = tokens[pos as int].line;
                            let symbol = Symbol {
                                stack_offset: None,
                                _type: declared,
                                mutable,
                                init_line: line,
                                last_ref: line,
                            };
                            let target = if declared is Pointer {
                                AssignmentView::Pointer(declared, name)
                            } else {
                                AssignmentView::Value(declared, name)
                            };
                            Outcome {
                                result: Ok((StatementView::Assignment(target, value), end + 1)),
                                table: bind(table, name, symbol),
                            }
                        }
                    },
                }
            }
        },
    }
}

/// The assignment at `pos`, which holds an identifier: the name of a
/// declared, mutable variable, `=`, an expression of the variable's type,
/// and `;`. The table notes the line as the variable's latest reference.
pub open spec fn parse_mutation(tokens: Seq<TokenView>, pos: nat, table: Seq<Binding>) -> Outcome<
    StatementView,
>
    recommends
        pos < tokens.len(),
{
    let name = tokens[pos as int].lexeme;
    match lookup(table, name) {
        None => fail(fault_at(tokens, pos, Fault::UnknownIdentifier), table),
        Some(known) => {
            if !known.mutable {
                fail(fault_at(tokens, pos, Fault::AssignToConst), table)
            } else if !word_at(tokens, pos + 1, "="@) {
                fail(fault_at(tokens, pos + 1, Fault::UnexpectedToken), table)
            } else {
                match parse_expression(tokens, pos + 2, table) {
                    Err(e) => fail(e, table),
                    Ok(((value, ty), end)) => {
                        if known._type != ty {
                            fail(fault_at(tokens, pos, Fault::DeclarationMismatch), table)
                        } else if !word_at(tokens, end, ";"@) {
                            fail(fault_at(tokens, end, Fault::MissingSemicolon), table)
                        } else {
                            let symbol = Symbol {
                                stack_offset: None,
                                _type: known._type,
                                mutable: true,
                                init_line: known.init_line,
                                last_ref: tokens[pos as int].line,
                            };
                            Outcome {
                                result: Ok(
                                    (
                                        StatementView::Assignment(
                                            AssignmentView::Mutation(name),
                                            value,
                                        ),
                                        end + 1,
                                    ),
                                ),
                                table: bind(table, name, symbol),
                            }
                        }
                    },
                }
            }
        },
    }
}

/// The guard at `pos + 1` of the `if` or `while` at `pos`: an expression of
/// type `Bool`.
pub open spec fn parse_guard(tokens: Seq<TokenView>, pos: nat, table: Seq<Binding>) -> Parse<
    ExpressionView,
> {
    match parse_expression(tokens, pos + 1, table) {
        Err(e) => Err(e),
        Ok(((guard, ty), next)) => {
            if ty == Type::Bool {
                Ok((guard, next))
            } else {
                Err(fault_at(tokens, pos, Fault::GuardNotBool))
            }
        },
    }
}

/// The `if` statement at `pos`: the guard, the statement to run where it
/// holds and, after `else`, the statement to run where it does not.
pub open spec fn parse_conditional(
    tokens: Seq<TokenView>,
    pos: nat,
    table: Seq<Binding>,
    context: Context,
) -> Outcome<StatementView>
    decreases tokens.len() - pos, 0nat,
{
    match parse_guard(tokens, pos, table) {
        Err(e) => fail(e, table),
        Ok((guard, next)) => {
            if advanced(tokens, pos, next) {
                let body = parse_statement(tokens, next, table, context);
                match body.result {
                    Err(e) => fail(e, body.table),
                    Ok((then, after)) => {
                        if !word_at(tokens, after, "else"@) {
                            Outcome {
                                result: Ok((StatementView::If(guard, Box::new(then)), after)),
                                table: body.table,
                            }
                        } else if advanced(tokens, pos, after) {
                            let other = parse_statement(tokens, after + 1, body.table, context);
                            match other.result {
                                Err(e) => fail(e, other.table),
                                Ok((otherwise, end)) => Outcome {
                                    result: Ok(
                                        (
                                            StatementView::IfElse(
                                                guard,
                                                Box::new(then),
                                                Box::new(otherwise),
                                            ),
                                            end,
                                        ),
                                    ),
                                    table: other.table,
                                },
                            }
                        } else {
                            fail(stuck(), body.table)
                        }
                    },
                }
            } else {
                fail(stuck(), table)
            }
        },
    }
}

/// The `while` statement at `pos`: the guard and the statement to repeat,
/// inside which `break` is allowed.
pub open spec fn parse_loop(tokens: Seq<TokenView>, pos: nat, table: Seq<Binding>) -> Outcome<
    StatementView,
>
    decreases tokens.len() - pos, 0nat,
{
    match parse_guard(tokens, pos, table) {
        Err(e) => fail(e, table),
        Ok((guard, next)) => {
            if advanced(tokens, pos, next) {
                let body = parse_statement(tokens, next, table, Context::While);
                match body.result {
                    Err(e) => fail(e, body.table),
                    Ok((inner, after)) => Outcome {
                        result: Ok((StatementView::While(guard, Box::new(inner)), after)),
                        table: body.table,
                    },
                }
            } else {
                fail(stuck(), table)
            }
        },
    }
}

/// The `break` statement at `pos`, which only a loop may hold.
pub open spec fn parse_break(
    tokens: Seq<TokenView>,
    pos: nat,
    table: Seq<Binding>,
    context: Context,
) -> Outcome<StatementView> {
    if context != Context::While {
        fail(fault_at(tokens, pos, Fault::BreakOutsideLoop), table)
    } else if !word_at(tokens, pos + 1, ";"@) {
        fail(fault_at(tokens, pos + 1, Fault::MissingSemicolon), table)
    } else {
        Outcome { result: Ok((StatementView::Break, pos + 2)), table }
    }
}

/// The block statement at `pos`: statements between `{` and `}`.
pub open spec fn parse_braces(
    tokens: Seq<TokenView>,
    pos: nat,
    table: Seq<Binding>,
    context: Context,
) -> Outcome<StatementView>
    decreases tokens.len() - pos, 0nat,
{
    if pos >= tokens.len() {
        fail(CompileError::nowhere(Fault::UnexpectedEnd), table)
    } else {
        let block = parse_block(tokens, pos + 1, table, context);
        match block.result {
            Err(e) => fail(e, block.table),
            Ok((inner, next)) => {
                if word_at(tokens, next, "}"@) {
                    Outcome {
                        result: Ok((StatementView::Block(Box::new(inner)), next + 1)),
                        table: block.table,
                    }
                } else {
                    fail(fault_at(tokens, next, Fault::UnexpectedToken), block.table)
                }
            },
        }
    }
}

/// The statement at `pos`: a declaration, an assignment, an `if` with or
/// without `else`, a `while`, a `break` inside a loop, or a block in braces.
pub open spec fn parse_statement(
    tokens: Seq<TokenView>,
    pos: nat,
    table: Seq<Binding>,
    context: Context,
) -> Outcome<StatementView>
    decreases tokens.len() - pos, 1nat,
{
    if pos >= tokens.len() {
        fail(CompileError::nowhere(Fault::UnexpectedEnd), table)
    } else {
        let first = tokens[pos as int];
        if first.lexeme == "const"@ {
            parse_declaration(tokens, pos, table, false)
        } else if first.lexeme == "mut"@ {
            parse_declaration(tokens, pos, table, true)
        } else if first.lexeme == "if"@ {
            parse_conditional(tokens, pos, table, context)
        } else if first.lexeme == "while"@ {
            parse_loop(tokens, pos, table)
        } else if first.lexeme == "break"@ {
            parse_break(tokens, pos, table, context)
        } else if first.lexeme == "{"@ {
            parse_braces(tokens, pos, table, context)
        } else if first.kind == TokenType::Identifier {
            parse_mutation(tokens, pos, table)
        } else {
            fail(fault_at(tokens, pos, Fault::UnexpectedToken), table)
        }
    }
}

/// The statements at `pos` up to the closing brace of their block: one or
/// more.
pub open spec fn parse_block(
    tokens: Seq<TokenView>,
    pos: nat,
    table: Seq<Binding>,
    context: Context,
) -> Outcome<BlockView>
    decreases tokens.len() - pos, 2nat,
{
    let first = parse_statement(tokens, pos, table, context);
    match first.result {
        Err(e) => fail(e, first.table),
        Ok((statement, next)) => {
            if word_at(tokens, next, "}"@) {
                Outcome { result: Ok((BlockView::Statement(statement), next)), table: first.table }
            } else if advanced(tokens, pos, next) {
                let rest = parse_block(tokens, next, first.table, context);
                match rest.result {
                    Err(e) => fail(e, rest.table),
                    Ok((more, end)) => Outcome {
                        result: Ok((BlockView::Block(statement, Box::new(more)), end)),
                        table: rest.table,
                    },
                }
            } else {
                fail(stuck(), first.table)
            }
        },
    }
}

/// The outcome of parsing a program: its statements or the first error, and
/// the symbol table as the statements parsed have left it.
pub struct Program {
    pub result: Result<Seq<StatementView>, CompileError>,
    pub table: Seq<Binding>,
}

/// The statements that the tokens from `pos` on stand for, outside any loop.
pub open spec fn parse_program(tokens: Seq<TokenView>, pos: nat, table: Seq<Binding>) -> Program
    decreases tokens.len() - pos,
{
    if pos >= tokens.len() {
        Program { result: Ok(Seq::empty()), table }
    } else {
        let first = parse_statement(tokens, pos, table, Context::TopLevel);
        match first.result {
            Err(e) => Program { result: Err(e), table: first.table },
            Ok((statement, next)) => {
                if advanced(tokens, pos, next) {
                    let rest = parse_program(tokens, next, first.table);
                    match rest.result {
                        Err(e) => rest,
                        Ok(more) => Program {
                            result: Ok(seq![statement] + more),
                            table: rest.table,
                        },
                    }
                } else {
                    Program { result: Err(stuck()), table: first.table }
                }
            },
        }
    }
}

} // verus!
