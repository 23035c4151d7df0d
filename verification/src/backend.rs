//! The code generator: statements and symbol table to lines of assembly.
//!
//! Each function computes what `codegen` defines, as a rule under the same
//! name, and appends its lines to the list that it is handed.

use crate::codegen;
use crate::codegen::{Built, Compared, Evaluated};
use crate::error::{CompileError, Fault};
use crate::representations::{
    statement_views, Assignment, Block, Expression, InnerAddrType, List, Literal, Statement, Token,
    Type,
};
use crate::symbols::{Binding, SymbolTable};
use crate::text::{decimal_string, join2, join3, join4, push_line, str_equal, texts};
use crate::theorems::registers::{
    held, lemma_expression_keeps_registers, lemma_statement_returns_registers,
};
use std::collections::VecDeque;
use vstd::prelude::*;

verus! {

fn unary_instruction(mnemonic: &str, operand: &str) -> (line: String)
    ensures
        line@ == codegen::unary_instruction(mnemonic@, operand@),
{
    join3(mnemonic, " ", operand)
}

fn binary_instruction(mnemonic: &str, first: &str, second: &str) -> (line: String)
    ensures
        line@ == codegen::binary_instruction(mnemonic@, first@, second@),
{
    let mut line = join4(mnemonic, " ", first, ", ");
    line.append(second);
    line
}

fn slot(offset: u64) -> (operand: String)
    ensures
        operand@ == codegen::slot(offset),
{
    let digits = decimal_string(offset);
    join3("qword [rbp - ", digits.as_str(), "]")
}

fn label_line(label: &str) -> (line: String)
    ensures
        line@ == codegen::label_line(label@),
{
    join2(label, ":")
}

fn fault_of(token: &Token, fault: Fault) -> (e: CompileError)
    ensures
        e == codegen::fault_of(token@, fault),
{
    CompileError { fault, line: *token.line_number(), column: *token.line_index() }
}

/// Takes the first free scratch register, if one is free.
fn take_register(reg_list: &mut VecDeque<String>) -> (r: Option<String>)
    ensures
        match r {
            Some(register) => texts(old(reg_list)@).len() > 0 && register@ == texts(
                old(reg_list)@,
            )[0] && texts(final(reg_list)@) == texts(old(reg_list)@).drop_first(),
            None => texts(old(reg_list)@).len() == 0 && final(reg_list)@ == old(reg_list)@,
        },
{
    let r = reg_list.pop_front();
    r
}

/// Hands the register of `location`, if it is in one, back to the free list.
fn release(reg_list: &mut VecDeque<String>, location: InnerAddrType)
    ensures
        texts(final(reg_list)@) == codegen::released(texts(old(reg_list)@), location@),
{
    match location {
        InnerAddrType::Reg(register) => {
            reg_list.push_back(register);
            assert(texts(reg_list@) =~= texts(old(reg_list)@).push(register@));
        },
        _ => {},
    }
}

/// Fetches a value into a register: pops or loads it into `default`, or
/// leaves it in the register it is in. Gives the register that holds it.
fn get_inner_register(
    addr: &InnerAddrType,
    default: &str,
    instruction_list: &mut Vec<String>,
) -> (r: String)
    ensures
        r@ == codegen::get_inner_register(addr@, default@),
        texts(final(instruction_list)@) == texts(old(instruction_list)@) + codegen::fetch_lines(
            addr@,
            default@,
        ),
{
    match addr {
        InnerAddrType::Stack => {
            push_line(instruction_list, unary_instruction("pop", default));
            assert(texts(instruction_list@) =~= texts(old(instruction_list)@)
                + codegen::fetch_lines(addr@, default@));
            String::from_str(default)
        },
        InnerAddrType::Reg(register) => {
            assert(texts(instruction_list@) =~= texts(old(instruction_list)@)
                + codegen::fetch_lines(addr@, default@));
            register.clone()
        },
        InnerAddrType::StackOffset(offset) => {
            let from = slot(*offset);
            push_line(instruction_list, binary_instruction("mov", default, from.as_str()));
            assert(texts(instruction_list@) =~= texts(old(instruction_list)@)
                + codegen::fetch_lines(addr@, default@));
            String::from_str(default)
        },
    }
}

/// Moves the value in `rax` to its resting place.
fn settle(reg_list: &mut VecDeque<String>, instruction_list: &mut Vec<String>) -> (r: InnerAddrType)
    ensures
        r@ == codegen::settle(texts(old(reg_list)@)).location,
        texts(final(reg_list)@) == codegen::settle(texts(old(reg_list)@)).free,
        texts(final(instruction_list)@) == texts(old(instruction_list)@) + codegen::settle(
            texts(old(reg_list)@),
        ).lines,
{
    match take_register(reg_list) {
        Some(register) => {
            push_line(instruction_list, binary_instruction("mov", register.as_str(), "rax"));
            assert(texts(instruction_list@) =~= texts(old(instruction_list)@) + codegen::settle(
                texts(old(reg_list)@),
            ).lines);
            InnerAddrType::Reg(register)
        },
        None => {
            push_line(instruction_list, String::from_str("push rax"));
            assert(texts(instruction_list@) =~= texts(old(instruction_list)@) + codegen::settle(
                texts(old(reg_list)@),
            ).lines);
            InnerAddrType::Stack
        },
    }
}

fn set_suffix(op: &str) -> (r: Option<&'static str>)
    ensures
        match r {
            Some(suffix) => codegen::set_suffix(op@) == Some(suffix@),
            None => codegen::set_suffix(op@) is None,
        },
{
    if str_equal(op, "==") {
        Some("e")
    } else if str_equal(op, "!=") {
        Some("ne")
    } else if str_equal(op, "<") {
        Some("b")
    } else if str_equal(op, ">") {
        Some("a")
    } else if str_equal(op, "<=") {
        Some("be")
    } else if str_equal(op, ">=") {
        Some("ae")
    } else {
        None
    }
}

fn jump_mnemonic(op: &str) -> (r: Option<&'static str>)
    ensures
        match r {
            Some(jump) => codegen::jump_mnemonic(op@) == Some(jump@),
            None => codegen::jump_mnemonic(op@) is None,
        },
{
    if str_equal(op, "==") {
        Some("je")
    } else if str_equal(op, "!=") {
        Some("jne")
    } else if str_equal(op, "<") {
        Some("jl")
    } else if str_equal(op, ">") {
        Some("jg")
    } else if str_equal(op, "<=") {
        Some("jle")
    } else if str_equal(op, ">=") {
        Some("jge")
    } else {
        None
    }
}

fn build_comparison_op(
    left_reg: &str,
    right_reg: &str,
    suffix: &str,
    instruction_list: &mut Vec<String>,
)
    ensures
        texts(final(instruction_list)@) == texts(old(instruction_list)@)
            + codegen::build_comparison_op(left_reg@, right_reg@, suffix@),
{
    push_line(instruction_list, binary_instruction("cmp", left_reg, right_reg));
    push_line(instruction_list, join3("set", suffix, " al"));
    push_line(instruction_list, binary_instruction("movzx", left_reg, "al"));
    assert(texts(instruction_list@) =~= texts(old(instruction_list)@)
        + codegen::build_comparison_op(left_reg@, right_reg@, suffix@));
}

fn build_factor_op(
    left_reg: &str,
    right_reg: &str,
    operation: &str,
    instruction_list: &mut Vec<String>,
)
    ensures
        texts(final(instruction_list)@) == texts(old(instruction_list)@)
            + codegen::build_factor_op(left_reg@, right_reg@, operation@),
{
    let in_rax = str_equal(left_reg, "rax");
    if !in_rax {
        push_line(instruction_list, binary_instruction("mov", "rax", left_reg));
    }
    if str_equal(operation, "*") {
        push_line(instruction_list, unary_instruction("mul", right_reg));
    } else {
        push_line(instruction_list, String::from_str("xor rdx, rdx"));
        push_line(instruction_list, unary_instruction("div", right_reg));
    }
    if str_equal(operation, "%") {
        push_line(instruction_list, binary_instruction("mov", left_reg, "rdx"));
    } else if !in_rax {
        push_line(instruction_list, binary_instruction("mov", left_reg, "rax"));
    }
}

/// Whether `op` is a binary operator that the generator has lines for.
fn is_operation(op: &str) -> (r: bool)
    ensures
        forall|left: Seq<char>, right: Seq<char>|
            r == (#[trigger] codegen::operation_lines(op@, left, right) is Some),
{
    str_equal(op, "+") || str_equal(op, "-") || str_equal(op, "*") || str_equal(op, "/")
        || str_equal(op, "%") || set_suffix(op).is_some()
}

fn operation_lines(op: &str, left_reg: &str, right_reg: &str, instruction_list: &mut Vec<String>)
    requires
        codegen::operation_lines(op@, left_reg@, right_reg@) is Some,
    ensures
        texts(final(instruction_list)@) == texts(old(instruction_list)@)
            + codegen::operation_lines(op@, left_reg@, right_reg@)->Some_0,
{
    if str_equal(op, "+") {
        push_line(instruction_list, binary_instruction("add", left_reg, right_reg));
        assert(texts(instruction_list@) =~= texts(old(instruction_list)@)
            + codegen::operation_lines(op@, left_reg@, right_reg@)->Some_0);
    } else if str_equal(op, "-") {
        push_line(instruction_list, binary_instruction("sub", left_reg, right_reg));
        assert(texts(instruction_list@) =~= texts(old(instruction_list)@)
            + codegen::operation_lines(op@, left_reg@, right_reg@)->Some_0);
    } else if str_equal(op, "*") || str_equal(op, "/") || str_equal(op, "%") {
        build_factor_op(left_reg, right_reg, op, instruction_list);
    } else {
        match set_suffix(op) {
            Some(suffix) => {
                build_comparison_op(left_reg, right_reg, suffix, instruction_list);
            },
            None => {},
        }
    }
}

fn bool_to_int(word: &str) -> (r: Option<&'static str>)
    ensures
        match r {
            Some(number) => codegen::bool_to_int(word@) == Some(number@),
            None => codegen::bool_to_int(word@) is None,
        },
{
    if str_equal(word, "true") {
        Some("1")
    } else if str_equal(word, "false") {
        Some("0")
    } else {
        None
    }
}

fn literal_value<'a>(token: &'a Token) -> (r: Option<&'a str>)
    ensures
        match r {
            Some(value) => codegen::literal_value(token@) == Some(value@),
            None => codegen::literal_value(token@) is None,
        },
{
    if *token._type() == Type::Bool {
        match bool_to_int(token.lexeme()) {
            Some(number) => Some(number),
            None => None,
        }
    } else {
        Some(token.lexeme())
    }
}

fn offset_of(token: &Token, symbol_table: &SymbolTable) -> (r: Result<u64, CompileError>)
    ensures
        r == codegen::offset_of(token@, symbol_table@),
{
    match symbol_table.get(token.lexeme()) {
        None => Err(fault_of(token, Fault::UnknownSymbol)),
        Some(symbol) => match symbol.stack_offset {
            None => Err(fault_of(token, Fault::UnassignedOffset)),
            Some(offset) => Ok(offset),
        },
    }
}

/// Whether a generating function returned `Ok` and added `wanted` to the
/// lines, or returned the error `wanted`.
pub open spec fn added(
    r: Result<(), CompileError>,
    before: Seq<String>,
    after: Seq<String>,
    wanted: Result<Seq<Seq<char>>, CompileError>,
) -> bool {
    match wanted {
        Ok(lines) => r is Ok && texts(after) == texts(before) + lines,
        Err(e) => r == Err::<(), CompileError>(e),
    }
}

fn element_lines(element: &Literal, symbol_table: &SymbolTable, instruction_list: &mut Vec<String>)
    -> (r: Result<(), CompileError>)
    ensures
        added(
            r,
            old(instruction_list)@,
            final(instruction_list)@,
            codegen::element_lines(element@, symbol_table@),
        ),
{
    match element {
        Literal::Int(token) | Literal::Bool(token) => match literal_value(token) {
            None => Err(fault_of(token, Fault::BadBoolean)),
            Some(value) => {
                push_line(instruction_list, binary_instruction("mov", "rax", value));
                push_line(instruction_list, String::from_str("push rax"));
                assert(texts(instruction_list@) =~= texts(old(instruction_list)@)
                    + codegen::element_lines(element@, symbol_table@)->Ok_0);
                Ok(())
            },
        },
        Literal::Symbol(token) => match offset_of(token, symbol_table) {
            Err(e) => Err(e),
            Ok(offset) => {
                let from = slot(offset);
                push_line(instruction_list, binary_instruction("mov", "rax", from.as_str()));
                push_line(instruction_list, String::from_str("push rax"));
                assert(texts(instruction_list@) =~= texts(old(instruction_list)@)
                    + codegen::element_lines(element@, symbol_table@)->Ok_0);
                Ok(())
            },
        },
        Literal::List(_) => Err(CompileError { fault: Fault::NestedList, line: 0, column: 0 }),
    }
}

fn build_list(list: &List, symbol_table: &SymbolTable, instruction_list: &mut Vec<String>) -> (r:
    Result<(), CompileError>)
    ensures
        added(
            r,
            old(instruction_list)@,
            final(instruction_list)@,
            codegen::build_list(list@, symbol_table@),
        ),
    decreases *list,
{
    match list {
        List::Literal(only) => element_lines(only, symbol_table, instruction_list),
        List::List(first, rest) => {
            match build_list(rest, symbol_table, instruction_list) {
                Err(e) => Err(e),
                Ok(()) => {
                    match element_lines(first, symbol_table, instruction_list) {
                        Err(e) => Err(e),
                        Ok(()) => {
                            assert(texts(instruction_list@) =~= texts(old(instruction_list)@)
                                + codegen::build_list(list@, symbol_table@)->Ok_0);
                            Ok(())
                        },
                    }
                },
            }
        },
    }
}

/// Whether an evaluation kept the scratch registers: those free afterwards,
/// together with the one that holds the value if one does, are those that
/// were free before, and a register that holds the value was free before.
pub open spec fn keeps_registers(
    r: Result<InnerAddrType, CompileError>,
    free_before: Seq<String>,
    free_after: Seq<String>,
) -> bool {
    r matches Ok(location) ==> {
        &&& texts(free_after).to_multiset().add(held(location@)) == texts(
            free_before,
        ).to_multiset()
        &&& location@ is Reg ==> texts(free_before).contains(location@->Reg_0)
    }
}

/// Whether a statement handed every scratch register back: those free
/// afterwards are those that were free before.
pub open spec fn returns_registers(
    r: Result<(), CompileError>,
    free_before: Seq<String>,
    free_after: Seq<String>,
) -> bool {
    r is Ok ==> texts(free_after).to_multiset() == texts(free_before).to_multiset()
}

/// Whether an evaluating function returned where the value is, left the
/// free list and added the lines as `wanted` says, or returned the error
/// `wanted`.
pub open spec fn evaluated(
    r: Result<InnerAddrType, CompileError>,
    lines_before: Seq<String>,
    lines_after: Seq<String>,
    free_after: Seq<String>,
    wanted: Result<Evaluated, CompileError>,
) -> bool {
    match wanted {
        Ok(out) => {
            &&& r matches Ok(location)
            &&& location@ == out.location
            &&& texts(free_after) == out.free
            &&& texts(lines_after) == texts(lines_before) + out.lines
        },
        Err(e) => r == Err::<InnerAddrType, CompileError>(e),
    }
}

fn build_literal(
    literal: &Literal,
    reg_list: &mut VecDeque<String>,
    instruction_list: &mut Vec<String>,
    symbol_table: &SymbolTable,
) -> (r: Result<InnerAddrType, CompileError>)
    ensures
        evaluated(
            r,
            old(instruction_list)@,
            final(instruction_list)@,
            final(reg_list)@,
            codegen::build_literal(literal@, texts(old(reg_list)@), symbol_table@),
        ),
{
    match literal {
        Literal::Int(token) | Literal::Bool(token) => match literal_value(token) {
            None => Err(fault_of(token, Fault::BadBoolean)),
            Some(value) => match take_register(reg_list) {
                Some(register) => {
                    push_line(
                        instruction_list,
                        binary_instruction("mov", register.as_str(), value),
                    );
                    assert(texts(instruction_list@) =~= texts(old(instruction_list)@)
                        + codegen::build_literal(
                        literal@,
                        texts(old(reg_list)@),
                        symbol_table@,
                    )->Ok_0.lines);
                    Ok(InnerAddrType::Reg(register))
                },
                None => {
                    push_line(instruction_list, binary_instruction("mov", "rax", value));
                    push_line(instruction_list, String::from_str("push rax"));
                    assert(texts(instruction_list@) =~= texts(old(instruction_list)@)
                        + codegen::build_literal(
                        literal@,
                        texts(old(reg_list)@),
                        symbol_table@,
                    )->Ok_0.lines);
                    Ok(InnerAddrType::Stack)
                },
            },
        },
        Literal::Symbol(token) => match offset_of(token, symbol_table) {
            Err(e) => Err(e),
            Ok(offset) => {
                assert(texts(instruction_list@) =~= texts(old(instruction_list)@)
                    + Seq::<Seq<char>>::empty());
                Ok(InnerAddrType::StackOffset(offset))
            },
        },
        Literal::List(list) => match build_list(list, symbol_table, instruction_list) {
            Err(e) => Err(e),
            Ok(()) => Ok(InnerAddrType::Stack),
        },
    }
}

fn join_binary(
    op: &Token,
    left_addr: InnerAddrType,
    right_addr: InnerAddrType,
    reg_list: &mut VecDeque<String>,
    instruction_list: &mut Vec<String>,
) -> (r: Result<InnerAddrType, CompileError>)
    ensures
        evaluated(
            r,
            old(instruction_list)@,
            final(instruction_list)@,
            final(reg_list)@,
            codegen::join_binary(op@, left_addr@, right_addr@, texts(old(reg_list)@)),
        ),
{
    let ghost wanted = codegen::join_binary(op@, left_addr@, right_addr@, texts(old(reg_list)@));
    if !is_operation(op.lexeme()) {
        assert(codegen::operation_lines(
            op@.lexeme,
            codegen::get_inner_register(left_addr@, "rax"@),
            codegen::get_inner_register(right_addr@, "rcx"@),
        ) is None);
        return Err(fault_of(op, Fault::UnknownOperator));
    }
    let right_reg = get_inner_register(&right_addr, "rcx", instruction_list);
    let left_reg = get_inner_register(&left_addr, "rax", instruction_list);
    operation_lines(op.lexeme(), left_reg.as_str(), right_reg.as_str(), instruction_list);
    let ghost joined = instruction_list@;
    let ghost lines = codegen::fetch_lines(right_addr@, "rcx"@) + codegen::fetch_lines(
        left_addr@,
        "rax"@,
    ) + codegen::operation_lines(op@.lexeme, left_reg@, right_reg@)->Some_0;
    assert(texts(joined) =~= texts(old(instruction_list)@) + lines);
    release(reg_list, right_addr);
    match left_addr {
        InnerAddrType::Reg(_) => Ok(left_addr),
        _ => {
            let r = settle(reg_list, instruction_list);
            assert(texts(instruction_list@) =~= texts(old(instruction_list)@)
                + wanted->Ok_0.lines);
            Ok(r)
        },
    }
}

fn join_unary(
    op: &Token,
    operand: InnerAddrType,
    reg_list: &mut VecDeque<String>,
    instruction_list: &mut Vec<String>,
) -> (r: Result<InnerAddrType, CompileError>)
    ensures
        evaluated(
            r,
            old(instruction_list)@,
            final(instruction_list)@,
            final(reg_list)@,
            codegen::join_unary(op@, operand@, texts(old(reg_list)@)),
        ),
{
    let ghost wanted = codegen::join_unary(op@, operand@, texts(old(reg_list)@));
    if str_equal(op.lexeme(), "&") {
        if operand.is_memory() {
            Ok(operand)
        } else {
            Err(fault_of(op, Fault::AddressOfNonMemory))
        }
    } else if str_equal(op.lexeme(), "*") {
        match operand {
            InnerAddrType::Reg(register) => {
                let from = join3("qword [", register.as_str(), "]");
                push_line(
                    instruction_list,
                    binary_instruction("mov", register.as_str(), from.as_str()),
                );
                assert(texts(instruction_list@) =~= texts(old(instruction_list)@)
                    + wanted->Ok_0.lines);
                Ok(InnerAddrType::Reg(register))
            },
            _ => {
                let _ = get_inner_register(&operand, "rax", instruction_list);
                match take_register(reg_list) {
                    Some(register) => {
                        push_line(
                            instruction_list,
                            binary_instruction("mov", register.as_str(), "qword [rax]"),
                        );
                        assert(texts(instruction_list@) =~= texts(old(instruction_list)@)
                            + wanted->Ok_0.lines);
                        Ok(InnerAddrType::Reg(register))
                    },
                    None => {
                        push_line(instruction_list, String::from_str("mov rax, qword [rax]"));
                        push_line(instruction_list, String::from_str("push rax"));
                        Ok(InnerAddrType::Stack)
                    },
                }
            },
        }
    } else if str_equal(op.lexeme(), "-") {
        match operand {
            InnerAddrType::Reg(register) => {
                push_line(instruction_list, unary_instruction("neg", register.as_str()));
                assert(texts(instruction_list@) =~= texts(old(instruction_list)@)
                    + wanted->Ok_0.lines);
                Ok(InnerAddrType::Reg(register))
            },
            _ => {
                let _ = get_inner_register(&operand, "rax", instruction_list);
                push_line(instruction_list, String::from_str("neg rax"));
                let r = settle(reg_list, instruction_list);
                assert(texts(instruction_list@) =~= texts(old(instruction_list)@)
                    + wanted->Ok_0.lines);
                Ok(r)
            },
        }
    } else {
        Err(fault_of(op, Fault::UnknownOperator))
    }
}

fn build_binary(
    expr: &Expression,
    reg_list: &mut VecDeque<String>,
    instruction_list: &mut Vec<String>,
    symbol_table: &SymbolTable,
) -> (r: Result<InnerAddrType, CompileError>)
    requires
        *expr is Binary,
    ensures
        evaluated(
            r,
            old(instruction_list)@,
            final(instruction_list)@,
            final(reg_list)@,
            codegen::build_expr(expr@, texts(old(reg_list)@), symbol_table@),
        ),
    decreases *expr, 0nat,
{
    reveal(codegen::build_expr);
    let (left, op, right) = match expr {
        Expression::Binary(left, op, right) => (left, op, right),
        _ => vstd::pervasive::unreached(),
    };
    let left_addr = match build_expr(left, reg_list, instruction_list, symbol_table) {
        Err(e) => {
            return Err(e);
        },
        Ok(location) => location,
    };
    let right_addr = match build_expr(right, reg_list, instruction_list, symbol_table) {
        Err(e) => {
            return Err(e);
        },
        Ok(location) => location,
    };
    let ghost first = codegen::build_expr(left@, texts(old(reg_list)@), symbol_table@)->Ok_0;
    let ghost second = codegen::build_expr(right@, first.free, symbol_table@)->Ok_0;
    match join_binary(op, left_addr, right_addr, reg_list, instruction_list) {
        Err(e) => Err(e),
        Ok(location) => {
            let ghost joined = codegen::join_binary(
                op@,
                first.location,
                second.location,
                second.free,
            )->Ok_0;
            assert(texts(instruction_list@) =~= texts(old(instruction_list)@) + (first.lines
                + second.lines + joined.lines));
            Ok(location)
        },
    }
}

fn build_unary(
    expr: &Expression,
    reg_list: &mut VecDeque<String>,
    instruction_list: &mut Vec<String>,
    symbol_table: &SymbolTable,
) -> (r: Result<InnerAddrType, CompileError>)
    requires
        *expr is Unary,
    ensures
        evaluated(
            r,
            old(instruction_list)@,
            final(instruction_list)@,
            final(reg_list)@,
            codegen::build_expr(expr@, texts(old(reg_list)@), symbol_table@),
        ),
    decreases *expr, 0nat,
{
    reveal(codegen::build_expr);
    let (op, operand) = match expr {
        Expression::Unary(op, operand) => (op, operand),
        _ => vstd::pervasive::unreached(),
    };
    let inner = match build_expr(operand, reg_list, instruction_list, symbol_table) {
        Err(e) => {
            return Err(e);
        },
        Ok(location) => location,
    };
    let ghost value = codegen::build_expr(operand@, texts(old(reg_list)@), symbol_table@)->Ok_0;
    match join_unary(op, inner, reg_list, instruction_list) {
        Err(e) => Err(e),
        Ok(location) => {
            let ghost joined = codegen::join_unary(op@, value.location, value.free)->Ok_0;
            assert(texts(instruction_list@) =~= texts(old(instruction_list)@) + (value.lines
                + joined.lines));
            Ok(location)
        },
    }
}

/// Generates the lines that evaluate an expression and says where its value
/// is.
fn build_expr(
    expr: &Expression,
    reg_list: &mut VecDeque<String>,
    instruction_list: &mut Vec<String>,
    symbol_table: &SymbolTable,
) -> (r: Result<InnerAddrType, CompileError>)
    ensures
        evaluated(
            r,
            old(instruction_list)@,
            final(instruction_list)@,
            final(reg_list)@,
            codegen::build_expr(expr@, texts(old(reg_list)@), symbol_table@),
        ),
        keeps_registers(r, old(reg_list)@, final(reg_list)@),
    decreases *expr, 1nat,
{
    reveal(codegen::build_expr);
    let r = match expr {
        Expression::Binary(_, _, _) => build_binary(
            expr,
            reg_list,
            instruction_list,
            symbol_table,
        ),
        Expression::Unary(_, _) => build_unary(expr, reg_list, instruction_list, symbol_table),
        Expression::Literal(literal) => build_literal(
            literal,
            reg_list,
            instruction_list,
            symbol_table,
        ),
        Expression::Group(_, inner, _) => build_expr(
            inner,
            reg_list,
            instruction_list,
            symbol_table,
        ),
    };
    proof {
        if r is Ok {
            let before = texts(old(reg_list)@);
            let location = r->Ok_0@;
            lemma_expression_keeps_registers(expr@, before, symbol_table@);
            assert(texts(reg_list@).to_multiset().add(held(location)) == before.to_multiset());
            if location is Reg {
                before.to_multiset_ensures();
                assert(held(location).count(location->Reg_0) == 1);
                assert(before.to_multiset().count(location->Reg_0) > 0);
            }
        }
    }
    r
}

fn literal_token(literal: &Literal) -> (token: &Token)
    ensures
        token@ == codegen::literal_token(literal@),
    decreases *literal,
{
    match literal {
        Literal::Int(token) | Literal::Bool(token) | Literal::Symbol(token) => token,
        Literal::List(list) => list_token(list),
    }
}

fn list_token(list: &List) -> (token: &Token)
    ensures
        token@ == codegen::list_token(list@),
    decreases *list,
{
    match list {
        List::Literal(only) => literal_token(only),
        List::List(first, _) => literal_token(first),
    }
}

/// The first token that an expression holds.
fn leading_token(expr: &Expression) -> (token: &Token)
    ensures
        token@ == codegen::leading_token(expr@),
    decreases *expr,
{
    match expr {
        Expression::Binary(left, _, _) => leading_token(left),
        Expression::Unary(op, _) => op,
        Expression::Literal(literal) => literal_token(literal),
        Expression::Group(open, _, _) => open,
    }
}

/// Whether a generating function returned `Ok`, added the lines and left
/// the free list as `wanted` says, or returned the error `wanted`.
pub open spec fn compared(
    r: Result<(), CompileError>,
    lines_before: Seq<String>,
    lines_after: Seq<String>,
    free_after: Seq<String>,
    wanted: Result<Compared, CompileError>,
) -> bool {
    match wanted {
        Ok(out) => {
            &&& r is Ok
            &&& texts(free_after) == out.free
            &&& texts(lines_after) == texts(lines_before) + out.lines
        },
        Err(e) => r == Err::<(), CompileError>(e),
    }
}

fn compare(
    jump: &str,
    label: &str,
    left_addr: InnerAddrType,
    right_addr: InnerAddrType,
    reg_list: &mut VecDeque<String>,
    instruction_list: &mut Vec<String>,
)
    ensures
        texts(final(reg_list)@) == codegen::compare(
            jump@,
            label@,
            left_addr@,
            right_addr@,
            texts(old(reg_list)@),
        ).free,
        texts(final(instruction_list)@) == texts(old(instruction_list)@) + codegen::compare(
            jump@,
            label@,
            left_addr@,
            right_addr@,
            texts(old(reg_list)@),
        ).lines,
{
    let right_reg = get_inner_register(&right_addr, "rcx", instruction_list);
    let left_reg = get_inner_register(&left_addr, "rax", instruction_list);
    push_line(instruction_list, binary_instruction("cmp", left_reg.as_str(), right_reg.as_str()));
    push_line(instruction_list, unary_instruction(jump, label));
    release(reg_list, right_addr);
    release(reg_list, left_addr);
}

/// Generates the lines that evaluate a guard and jump to `if_label` where it
/// holds.
fn build_compare_instructions(
    expr: &Expression,
    if_label: &str,
    instruction_list: &mut Vec<String>,
    symbol_table: &SymbolTable,
    reg_list: &mut VecDeque<String>,
) -> (r: Result<(), CompileError>)
    ensures
        compared(
            r,
            old(instruction_list)@,
            final(instruction_list)@,
            final(reg_list)@,
            codegen::build_compare_instructions(
                expr@,
                if_label@,
                texts(old(reg_list)@),
                symbol_table@,
            ),
        ),
        !codegen::is_comparison(expr@) ==> {
            &&& r is Err
            &&& final(instruction_list)@ == old(instruction_list)@
            &&& final(reg_list)@ == old(reg_list)@
        },
{
    match expr {
        Expression::Binary(left_expr, op, right_expr) => {
            let jump = match jump_mnemonic(op.lexeme()) {
                None => {
                    return Err(fault_of(op, Fault::GuardNotComparison));
                },
                Some(jump) => jump,
            };
            let left_addr = match build_expr(left_expr, reg_list, instruction_list, symbol_table) {
                Err(e) => {
                    return Err(e);
                },
                Ok(location) => location,
            };
            let right_addr = match build_expr(
                right_expr,
                reg_list,
                instruction_list,
                symbol_table,
            ) {
                Err(e) => {
                    return Err(e);
                },
                Ok(location) => location,
            };
            let ghost first = codegen::build_expr(
                left_expr@,
                texts(old(reg_list)@),
                symbol_table@,
            )->Ok_0;
            let ghost second = codegen::build_expr(right_expr@, first.free, symbol_table@)->Ok_0;
            compare(jump, if_label, left_addr, right_addr, reg_list, instruction_list);
            assert(texts(instruction_list@) =~= texts(old(instruction_list)@) + (first.lines
                + second.lines + codegen::compare(
                jump@,
                if_label@,
                first.location,
                second.location,
                second.free,
            ).lines));
            Ok(())
        },
        _ => Err(fault_of(leading_token(expr), Fault::GuardNotComparison)),
    }
}

fn store_value(
    location: InnerAddrType,
    symbol_offset: u64,
    reg_list: &mut VecDeque<String>,
    instruction_list: &mut Vec<String>,
)
    ensures
        texts(final(reg_list)@) == codegen::store_value(
            location@,
            texts(old(reg_list)@),
            symbol_offset,
        ).free,
        texts(final(instruction_list)@) == texts(old(instruction_list)@) + codegen::store_value(
            location@,
            texts(old(reg_list)@),
            symbol_offset,
        ).lines,
{
    let target = slot(symbol_offset);
    match location {
        InnerAddrType::Stack => {
            push_line(instruction_list, String::from_str("pop rax"));
            push_line(instruction_list, binary_instruction("mov", target.as_str(), "rax"));
        },
        InnerAddrType::Reg(register) => {
            push_line(
                instruction_list,
                binary_instruction("mov", target.as_str(), register.as_str()),
            );
            release(reg_list, InnerAddrType::Reg(register));
        },
        InnerAddrType::StackOffset(offset) => {
            let from = slot(offset);
            push_line(instruction_list, binary_instruction("mov", "rax", from.as_str()));
            push_line(instruction_list, binary_instruction("mov", target.as_str(), "rax"));
        },
    }
}

fn store_address(location: InnerAddrType, symbol_offset: u64, instruction_list: &mut Vec<String>)
    -> (r: Result<(), CompileError>)
    ensures
        added(
            r,
            old(instruction_list)@,
            final(instruction_list)@,
            codegen::store_address(location@, symbol_offset),
        ),
{
    let target = slot(symbol_offset);
    match location {
        InnerAddrType::Stack => {
            push_line(instruction_list, binary_instruction("mov", target.as_str(), "rsp"));
        },
        InnerAddrType::Reg(_) => {
            return Err(CompileError { fault: Fault::PointerToRegister, line: 0, column: 0 });
        },
        InnerAddrType::StackOffset(offset) => {
            let digits = decimal_string(offset);
            push_line(instruction_list, join3("lea rax, [rbp - ", digits.as_str(), "]"));
            push_line(instruction_list, binary_instruction("mov", target.as_str(), "rax"));
        },
    }
    assert(texts(instruction_list@) =~= texts(old(instruction_list)@) + codegen::store_address(
        location@,
        symbol_offset,
    )->Ok_0);
    Ok(())
}

fn target_offset(name: &str, mutation: bool, symbol_table: &SymbolTable) -> (r: Result<
    u64,
    CompileError,
>)
    ensures
        r == codegen::target_offset(name@, mutation, symbol_table@),
{
    match symbol_table.get(name) {
        None => Err(CompileError { fault: Fault::UnknownSymbol, line: 0, column: 0 }),
        Some(symbol_info) => {
            if mutation && !symbol_info.mutable {
                Err(CompileError { fault: Fault::ImmutableTarget, line: 0, column: 0 })
            } else {
                match symbol_info.stack_offset {
                    None => Err(
                        CompileError { fault: Fault::UnassignedOffset, line: 0, column: 0 },
                    ),
                    Some(offset) => Ok(offset),
                }
            }
        },
    }
}

/// Whether a generating function returned `Ok`, added the lines, left the
/// free list and moved the label counter as `wanted` says, or returned the
/// error `wanted`.
pub open spec fn built(
    r: Result<(), CompileError>,
    lines_before: Seq<String>,
    lines_after: Seq<String>,
    free_after: Seq<String>,
    counter_after: u64,
    wanted: Result<Built, CompileError>,
) -> bool {
    match wanted {
        Ok(out) => {
            &&& r is Ok
            &&& texts(free_after) == out.free
            &&& texts(lines_after) == texts(lines_before) + out.lines
            &&& counter_after == out.counter
        },
        Err(e) => r == Err::<(), CompileError>(e),
    }
}

/// The text of a label, if there is one.
pub open spec fn label_view(label: Option<&str>) -> Option<Seq<char>> {
    match label {
        Some(text) => Some(text@),
        None => None,
    }
}

fn build_assignment(
    assign_type: &Assignment,
    expr: &Expression,
    reg_list: &mut VecDeque<String>,
    instruction_list: &mut Vec<String>,
    symbol_table: &SymbolTable,
    label_counter: &u64,
) -> (r: Result<(), CompileError>)
    ensures
        built(
            r,
            old(instruction_list)@,
            final(instruction_list)@,
            final(reg_list)@,
            *label_counter,
            codegen::build_assignment(
                assign_type@,
                expr@,
                texts(old(reg_list)@),
                symbol_table@,
                *label_counter as nat,
            ),
        ),
{
    let final_loc = match build_expr(expr, reg_list, instruction_list, symbol_table) {
        Err(e) => {
            return Err(e);
        },
        Ok(location) => location,
    };
    let ghost value = codegen::build_expr(expr@, texts(old(reg_list)@), symbol_table@)->Ok_0;
    match assign_type {
        Assignment::Value(_, id) => {
            let symbol_offset = match target_offset(id.as_str(), false, symbol_table) {
                Err(e) => {
                    return Err(e);
                },
                Ok(offset) => offset,
            };
            store_value(final_loc, symbol_offset, reg_list, instruction_list);
            assert(texts(instruction_list@) =~= texts(old(instruction_list)@) + (value.lines
                + codegen::store_value(value.location, value.free, symbol_offset).lines));
            Ok(())
        },
        Assignment::Mutation(id) => {
            let symbol_offset = match target_offset(id.as_str(), true, symbol_table) {
                Err(e) => {
                    return Err(e);
                },
                Ok(offset) => offset,
            };
            store_value(final_loc, symbol_offset, reg_list, instruction_list);
            assert(texts(instruction_list@) =~= texts(old(instruction_list)@) + (value.lines
                + codegen::store_value(value.location, value.free, symbol_offset).lines));
            Ok(())
        },
        Assignment::Pointer(_, id) => {
            let symbol_offset = match target_offset(id.as_str(), false, symbol_table) {
                Err(e) => {
                    return Err(e);
                },
                Ok(offset) => offset,
            };
            match store_address(final_loc, symbol_offset, instruction_list) {
                Err(e) => Err(e),
                Ok(()) => {
                    assert(texts(instruction_list@) =~= texts(old(instruction_list)@) + (
                    value.lines + codegen::store_address(value.location, symbol_offset)->Ok_0));
                    Ok(())
                },
            }
        },
    }
}

/// Takes the next label number and gives the label `stem` followed by it.
fn next_label(stem: &str, label_counter: &mut u64) -> (r: Option<String>)
    ensures
        match r {
            Some(label) => *old(label_counter) < u64::MAX && *final(label_counter) == *old(
                label_counter,
            ) + 1 && label@ == codegen::numbered(stem@, *old(label_counter) as nat),
            None => *old(label_counter) == u64::MAX && *final(label_counter) == *old(
                label_counter,
            ),
        },
{
    if *label_counter == u64::MAX {
        None
    } else {
        let number = decimal_string(*label_counter);
        *label_counter = *label_counter + 1;
        Some(join2(stem, number.as_str()))
    }
}

fn build_if(
    statement: &Statement,
    reg_list: &mut VecDeque<String>,
    instruction_list: &mut Vec<String>,
    symbol_table: &SymbolTable,
    label_counter: &mut u64,
    block_end_label: Option<&str>,
) -> (r: Result<(), CompileError>)
    requires
        *statement is If,
    ensures
        built(
            r,
            old(instruction_list)@,
            final(instruction_list)@,
            final(reg_list)@,
            *final(label_counter),
            codegen::build_statement(
                statement@,
                texts(old(reg_list)@),
                symbol_table@,
                *old(label_counter) as nat,
                label_view(block_end_label),
            ),
        ),
    decreases *statement, 0nat,
{
    reveal(codegen::build_statement);
    let (expr, if_block) = match statement {
        Statement::If(expr, if_block) => (expr, if_block),
        _ => vstd::pervasive::unreached(),
    };
    let if_label = match next_label("if_", label_counter) {
        None => {
            return Err(CompileError { fault: Fault::TooManyLabels, line: 0, column: 0 });
        },
        Some(label) => label,
    };
    let end_label = join2("end_", if_label.as_str());
    match build_compare_instructions(
        expr,
        if_label.as_str(),
        instruction_list,
        symbol_table,
        reg_list,
    ) {
        Err(e) => {
            return Err(e);
        },
        Ok(()) => {},
    }
    let ghost test = codegen::build_compare_instructions(
        expr@,
        if_label@,
        texts(old(reg_list)@),
        symbol_table@,
    )->Ok_0;
    push_line(instruction_list, unary_instruction("jmp", end_label.as_str()));
    push_line(instruction_list, label_line(if_label.as_str()));
    match build_statement(
        if_block,
        reg_list,
        instruction_list,
        symbol_table,
        label_counter,
        block_end_label,
    ) {
        Err(e) => {
            return Err(e);
        },
        Ok(()) => {},
    }
    let ghost then = codegen::build_statement(
        if_block@,
        test.free,
        symbol_table@,
        (*old(label_counter) + 1) as nat,
        label_view(block_end_label),
    )->Ok_0;
    push_line(instruction_list, label_line(end_label.as_str()));
    assert(texts(instruction_list@) =~= texts(old(instruction_list)@) + (test.lines.push(
        codegen::unary_instruction("jmp"@, "end_"@ + if_label@),
    ).push(codegen::label_line(if_label@)) + then.lines).push(
        codegen::label_line("end_"@ + if_label@),
    ));
    Ok(())
}

fn build_if_else(
    statement: &Statement,
    reg_list: &mut VecDeque<String>,
    instruction_list: &mut Vec<String>,
    symbol_table: &SymbolTable,
    label_counter: &mut u64,
    block_end_label: Option<&str>,
) -> (r: Result<(), CompileError>)
    requires
        *statement is IfElse,
    ensures
        built(
            r,
            old(instruction_list)@,
            final(instruction_list)@,
            final(reg_list)@,
            *final(label_counter),
            codegen::build_statement(
                statement@,
                texts(old(reg_list)@),
                symbol_table@,
                *old(label_counter) as nat,
                label_view(block_end_label),
            ),
        ),
    decreases *statement, 0nat,
{
    reveal(codegen::build_statement);
    let (expr, if_block, else_block) = match statement {
        Statement::IfElse(expr, if_block, else_block) => (expr, if_block, else_block),
        _ => vstd::pervasive::unreached(),
    };
    let if_else_label = match next_label("if_else_", label_counter) {
        None => {
            return Err(CompileError { fault: Fault::TooManyLabels, line: 0, column: 0 });
        },
        Some(label) => label,
    };
    let end_label = join2("end_", if_else_label.as_str());
    match build_compare_instructions(
        expr,
        if_else_label.as_str(),
        instruction_list,
        symbol_table,
        reg_list,
    ) {
        Err(e) => {
            return Err(e);
        },
        Ok(()) => {},
    }
    let ghost test = codegen::build_compare_instructions(
        expr@,
        if_else_label@,
        texts(old(reg_list)@),
        symbol_table@,
    )->Ok_0;
    match build_statement(
        else_block,
        reg_list,
        instruction_list,
        symbol_table,
        label_counter,
        block_end_label,
    ) {
        Err(e) => {
            return Err(e);
        },
        Ok(()) => {},
    }
    let ghost other = codegen::build_statement(
        else_block@,
        test.free,
        symbol_table@,
        (*old(label_counter) + 1) as nat,
        label_view(block_end_label),
    )->Ok_0;
    push_line(instruction_list, unary_instruction("jmp", end_label.as_str()));
    push_line(instruction_list, label_line(if_else_label.as_str()));
    match build_statement(
        if_block,
        reg_list,
        instruction_list,
        symbol_table,
        label_counter,
        block_end_label,
    ) {
        Err(e) => {
            return Err(e);
        },
        Ok(()) => {},
    }
    let ghost then = codegen::build_statement(
        if_block@,
        other.free,
        symbol_table@,
        other.counter,
        label_view(block_end_label),
    )->Ok_0;
    push_line(instruction_list, label_line(end_label.as_str()));
    assert(texts(instruction_list@) =~= texts(old(instruction_list)@) + ((test.lines
        + other.lines).push(codegen::unary_instruction("jmp"@, "end_"@ + if_else_label@)).push(
        codegen::label_line(if_else_label@),
    ) + then.lines).push(codegen::label_line("end_"@ + if_else_label@)));
    Ok(())
}

fn build_while(
    statement: &Statement,
    reg_list: &mut VecDeque<String>,
    instruction_list: &mut Vec<String>,
    symbol_table: &SymbolTable,
    label_counter: &mut u64,
    block_end_label: Option<&str>,
) -> (r: Result<(), CompileError>)
    requires
        *statement is While,
    ensures
        built(
            r,
            old(instruction_list)@,
            final(instruction_list)@,
            final(reg_list)@,
            *final(label_counter),
            codegen::build_statement(
                statement@,
                texts(old(reg_list)@),
                symbol_table@,
                *old(label_counter) as nat,
                label_view(block_end_label),
            ),
        ),
    decreases *statement, 0nat,
{
    reveal(codegen::build_statement);
    let (expr, while_block) = match statement {
        Statement::While(expr, while_block) => (expr, while_block),
        _ => vstd::pervasive::unreached(),
    };
    let while_label = match next_label("while_", label_counter) {
        None => {
            return Err(CompileError { fault: Fault::TooManyLabels, line: 0, column: 0 });
        },
        Some(label) => label,
    };
    let start_label = join2("start_", while_label.as_str());
    let end_while_label = join2("end_", while_label.as_str());
    push_line(instruction_list, label_line(start_label.as_str()));
    match build_compare_instructions(
        expr,
        while_label.as_str(),
        instruction_list,
        symbol_table,
        reg_list,
    ) {
        Err(e) => {
            return Err(e);
        },
        Ok(()) => {},
    }
    let ghost test = codegen::build_compare_instructions(
        expr@,
        while_label@,
        texts(old(reg_list)@),
        symbol_table@,
    )->Ok_0;
    push_line(instruction_list, unary_instruction("jmp", end_while_label.as_str()));
    push_line(instruction_list, label_line(while_label.as_str()));
    match build_statement(
        while_block,
        reg_list,
        instruction_list,
        symbol_table,
        label_counter,
        Some(end_while_label.as_str()),
    ) {
        Err(e) => {
            return Err(e);
        },
        Ok(()) => {},
    }
    let ghost inner = codegen::build_statement(
        while_block@,
        test.free,
        symbol_table@,
        (*old(label_counter) + 1) as nat,
        Some(end_while_label@),
    )->Ok_0;
    push_line(instruction_list, unary_instruction("jmp", start_label.as_str()));
    push_line(instruction_list, label_line(end_while_label.as_str()));
    assert(texts(instruction_list@) =~= texts(old(instruction_list)@) + ((seq![
        codegen::label_line("start_"@ + while_label@),
    ] + test.lines).push(codegen::unary_instruction("jmp"@, end_while_label@)).push(
        codegen::label_line(while_label@),
    ) + inner.lines).push(codegen::unary_instruction("jmp"@, "start_"@ + while_label@)).push(
        codegen::label_line(end_while_label@),
    ));
    Ok(())
}

/// Generates the lines of one statement.
fn build_statement(
    statement: &Statement,
    reg_list: &mut VecDeque<String>,
    instruction_list: &mut Vec<String>,
    symbol_table: &SymbolTable,
    label_counter: &mut u64,
    block_end_label: Option<&str>,
) -> (r: Result<(), CompileError>)
    ensures
        built(
            r,
            old(instruction_list)@,
            final(instruction_list)@,
            final(reg_list)@,
            *final(label_counter),
            codegen::build_statement(
                statement@,
                texts(old(reg_list)@),
                symbol_table@,
                *old(label_counter) as nat,
                label_view(block_end_label),
            ),
        ),
        statement@ is Break && block_end_label is None ==> {
            &&& r is Err
            &&& final(instruction_list)@ == old(instruction_list)@
            &&& final(reg_list)@ == old(reg_list)@
            &&& *final(label_counter) == *old(label_counter)
        },
        returns_registers(r, old(reg_list)@, final(reg_list)@),
    decreases *statement, 1nat,
{
    reveal(codegen::build_statement);
    let r = match statement {
        Statement::Assignment(assign_type, expr) => build_assignment(
            assign_type,
            expr,
            reg_list,
            instruction_list,
            symbol_table,
            label_counter,
        ),
        Statement::If(_, _) => build_if(
            statement,
            reg_list,
            instruction_list,
            symbol_table,
            label_counter,
            block_end_label,
        ),
        Statement::IfElse(_, _, _) => build_if_else(
            statement,
            reg_list,
            instruction_list,
            symbol_table,
            label_counter,
            block_end_label,
        ),
        Statement::Block(block) => build_block(
            block,
            reg_list,
            instruction_list,
            symbol_table,
            label_counter,
            block_end_label,
        ),
        Statement::While(_, _) => build_while(
            statement,
            reg_list,
            instruction_list,
            symbol_table,
            label_counter,
            block_end_label,
        ),
        Statement::Break => match block_end_label {
            None => Err(CompileError { fault: Fault::BreakWithoutLoop, line: 0, column: 0 }),
            Some(end_label) => {
                push_line(instruction_list, unary_instruction("jmp", end_label));
                assert(texts(instruction_list@) =~= texts(old(instruction_list)@) + seq![
                    codegen::unary_instruction("jmp"@, end_label@),
                ]);
                Ok(())
            },
        },
    };
    proof {
        if r is Ok {
            lemma_statement_returns_registers(
                statement@,
                texts(old(reg_list)@),
                symbol_table@,
                *old(label_counter) as nat,
                label_view(block_end_label),
            );
        }
    }
    r
}

/// Generates the lines of the statements of a block, in order.
fn build_block(
    block: &Block,
    reg_list: &mut VecDeque<String>,
    instruction_list: &mut Vec<String>,
    symbol_table: &SymbolTable,
    label_counter: &mut u64,
    block_end_label: Option<&str>,
) -> (r: Result<(), CompileError>)
    ensures
        built(
            r,
            old(instruction_list)@,
            final(instruction_list)@,
            final(reg_list)@,
            *final(label_counter),
            codegen::build_block(
                block@,
                texts(old(reg_list)@),
                symbol_table@,
                *old(label_counter) as nat,
                label_view(block_end_label),
            ),
        ),
    decreases *block, 1nat,
{
    reveal(codegen::build_statement);
    match block {
        Block::Statement(stmt) => build_statement(
            stmt,
            reg_list,
            instruction_list,
            symbol_table,
            label_counter,
            block_end_label,
        ),
        Block::Block(stmt, rest) => {
            match build_statement(
                stmt,
                reg_list,
                instruction_list,
                symbol_table,
                label_counter,
                block_end_label,
            ) {
                Err(e) => {
                    return Err(e);
                },
                Ok(()) => {},
            }
            let ghost head = codegen::build_statement(
                stmt@,
                texts(old(reg_list)@),
                symbol_table@,
                *old(label_counter) as nat,
                label_view(block_end_label),
            )->Ok_0;
            match build_block(
                rest,
                reg_list,
                instruction_list,
                symbol_table,
                label_counter,
                block_end_label,
            ) {
                Err(e) => Err(e),
                Ok(()) => {
                    let ghost tail = codegen::build_block(
                        rest@,
                        head.free,
                        symbol_table@,
                        head.counter,
                        label_view(block_end_label),
                    )->Ok_0;
                    assert(texts(instruction_list@) =~= texts(old(instruction_list)@) + (
                    head.lines + tail.lines));
                    Ok(())
                },
            }
        },
    }
}

/// The size in bytes of a value of a type, or why it has none that 64 bits
/// can hold.
pub fn get_type_size(type_to_size: &Type) -> (r: Result<u64, Fault>)
    ensures
        match r {
            Ok(size) => codegen::get_type_size(*type_to_size) == Some(size as nat),
            Err(fault) => match codegen::get_type_size(*type_to_size) {
                None => fault == Fault::UnsizedSymbol,
                Some(size) => fault == Fault::FrameTooLarge && size > u64::MAX,
            },
        },
    decreases *type_to_size,
{
    match type_to_size {
        Type::Bool | Type::Int | Type::Pointer(_) => Ok(8),
        Type::Array(inner_type, length) => match get_type_size(inner_type) {
            Err(Fault::UnsizedSymbol) => Err(Fault::UnsizedSymbol),
            Err(_) => {
                if *length == 0 {
                    Ok(0)
                } else {
                    proof {
                        let inner = codegen::get_type_size(**inner_type)->Some_0;
                        assert(inner * (*length as nat) >= inner) by (nonlinear_arith)
                            requires
                                *length >= 1,
                    }
                    Err(Fault::FrameTooLarge)
                }
            },
            Ok(inner_size) => match inner_size.checked_mul(*length) {
                Some(size) => Ok(size),
                None => Err(Fault::FrameTooLarge),
            },
        },
        Type::Untyped => Err(Fault::UnsizedSymbol),
    }
}

/// The bytes that the variables of the table take together.
fn frame_total(symbol_table: &SymbolTable) -> (r: Result<u64, CompileError>)
    ensures
        match r {
            Ok(total) => codegen::frame_size(symbol_table@, symbol_table@.len()) == Ok::<
                nat,
                Fault,
            >(total as nat),
            Err(e) => codegen::frame_size(symbol_table@, symbol_table@.len()) matches Err(fault)
                && e == CompileError::nowhere(fault),
        },
{
    let mut stack_offset_counter: u64 = 0;
    let mut i: usize = 0;
    while i < symbol_table.len()
        invariant
            i <= symbol_table@.len(),
            codegen::frame_size(symbol_table@, i as nat) == Ok::<nat, Fault>(
                stack_offset_counter as nat,
            ),
        decreases symbol_table@.len() - i,
    {
        let fault = match get_type_size(&symbol_table.symbol_at(i)._type) {
            Err(fault) => Some(fault),
            Ok(current_type_size) => match stack_offset_counter.checked_add(current_type_size) {
                None => Some(Fault::FrameTooLarge),
                Some(sum) => {
                    stack_offset_counter = sum;
                    None
                },
            },
        };
        match fault {
            Some(fault) => {
                proof {
                    codegen::lemma_frame_error_stays(
                        symbol_table@,
                        (i + 1) as nat,
                        symbol_table@.len(),
                    );
                }
                return Err(CompileError { fault, line: 0, column: 0 });
            },
            None => {},
        }
        i += 1;
    }
    Ok(stack_offset_counter)
}

/// Lays out the stack frame: gives every variable its stack offset, in the
/// order of the table, and returns the size of the frame. Where the frame
/// cannot be laid out, the table is left as it was.
pub fn allocate_stack_memory(symbol_table: &mut SymbolTable) -> (r: Result<u64, CompileError>)
    ensures
        match r {
            Ok(total) => codegen::allocate_stack_memory(old(symbol_table)@) == Ok::<
                (Seq<Binding>, u64),
                CompileError,
            >((final(symbol_table)@, total)),
            Err(e) => codegen::allocate_stack_memory(old(symbol_table)@) == Err::<
                (Seq<Binding>, u64),
                CompileError,
            >(e) && final(symbol_table)@ == old(symbol_table)@,
        },
{
    let total = match frame_total(symbol_table) {
        Err(e) => {
            return Err(e);
        },
        Ok(total) => total,
    };
    let ghost before = symbol_table@;
    let mut stack_offset_counter: u64 = 0;
    let mut i: usize = 0;
    while i < symbol_table.len()
        invariant
            i <= before.len(),
            symbol_table@.len() == before.len(),
            codegen::frame_size(before, before.len()) == Ok::<nat, Fault>(total as nat),
            codegen::frame_size(before, i as nat) == Ok::<nat, Fault>(stack_offset_counter as nat),
            forall|j: int| 0 <= j < i ==> symbol_table@[j] == codegen::with_offsets(before)[j],
            forall|j: int| i <= j < before.len() ==> symbol_table@[j] == before[j],
        decreases before.len() - i,
    {
        proof {
            codegen::lemma_frame_prefix(before, (i + 1) as nat, before.len());
        }
        let size = match get_type_size(&symbol_table.symbol_at(i)._type) {
            Ok(size) => size,
            Err(_) => 0,
        };
        symbol_table.set_offset(i, stack_offset_counter);
        stack_offset_counter = stack_offset_counter + size;
        i += 1;
    }
    assert(symbol_table@ =~= codegen::with_offsets(before));
    Ok(total)
}

/// The place of the variable referenced last, if there is a variable.
fn last_referenced(symbol_table: &SymbolTable) -> (r: Option<usize>)
    ensures
        match r {
            Some(i) => codegen::last_referenced(symbol_table@, symbol_table@.len()) == Some(
                i as int,
            ) && i < symbol_table@.len(),
            None => codegen::last_referenced(symbol_table@, symbol_table@.len()) is None,
        },
{
    let mut best: Option<usize> = None;
    let mut i: usize = 0;
    while i < symbol_table.len()
        invariant
            i <= symbol_table@.len(),
            match best {
                Some(b) => codegen::last_referenced(symbol_table@, i as nat) == Some(b as int)
                    && b < i,
                None => codegen::last_referenced(symbol_table@, i as nat) is None,
            },
        decreases symbol_table@.len() - i,
    {
        best = match best {
            None => Some(i),
            Some(b) => if symbol_table.symbol_at(i).last_ref >= symbol_table.symbol_at(b).last_ref {
                Some(i)
            } else {
                Some(b)
            },
        };
        i += 1;
    }
    best
}

/// The line that loads the exit code of the program.
fn get_last_var_debug(symbol_table: &SymbolTable) -> (r: Result<String, CompileError>)
    ensures
        match r {
            Ok(line) => codegen::get_last_var_debug(symbol_table@) == Ok::<
                Seq<char>,
                CompileError,
            >(line@),
            Err(e) => codegen::get_last_var_debug(symbol_table@) == Err::<
                Seq<char>,
                CompileError,
            >(e),
        },
{
    match last_referenced(symbol_table) {
        None => Ok(String::from_str("mov rdi, 0")),
        Some(i) => match symbol_table.symbol_at(i).stack_offset {
            None => Err(CompileError { fault: Fault::UnassignedOffset, line: 0, column: 0 }),
            Some(offset) => {
                let from = slot(offset);
                Ok(binary_instruction("mov", "rdi", from.as_str()))
            },
        },
    }
}

/// The statements generated so far followed by those of `rest`, or the
/// error of `rest`.
pub open spec fn continued(lines: Seq<Seq<char>>, rest: Result<Built, CompileError>) -> Result<
    Built,
    CompileError,
> {
    match rest {
        Ok(more) => Ok(Built { lines: lines + more.lines, free: more.free, counter: more.counter }),
        Err(e) => Err(e),
    }
}

/// Generates the assembly of a program: the frame is laid out for the
/// variables of `symbol_table`, the statements follow in order, and the
/// variable referenced last is loaded as the exit code.
///
/// On success the statements are used up. On an error they are left as they
/// were. The symbol table is laid out unless the layout itself failed.
pub fn build(statements: &mut VecDeque<Statement>, symbol_table: &mut SymbolTable) -> (r: Result<
    Vec<String>,
    CompileError,
>)
    ensures
        final(symbol_table)@ == codegen::build(
            statement_views(old(statements)@),
            old(symbol_table)@,
        ).table,
        match r {
            Ok(lines) => {
                &&& codegen::build(
                    statement_views(old(statements)@),
                    old(symbol_table)@,
                ).result == Ok::<Seq<Seq<char>>, CompileError>(texts(lines@))
                &&& final(statements)@.len() == 0
            },
            Err(e) => {
                &&& codegen::build(
                    statement_views(old(statements)@),
                    old(symbol_table)@,
                ).result == Err::<Seq<Seq<char>>, CompileError>(e)
                &&& final(statements)@ == old(statements)@
            },
        },
{
    let ghost views = statement_views(statements@);
    let mut reg_list = VecDeque::<String>::new();
    reg_list.push_back(String::from_str("r8"));
    reg_list.push_back(String::from_str("r9"));
    reg_list.push_back(String::from_str("r10"));
    reg_list.push_back(String::from_str("r11"));
    assert(texts(reg_list@) =~= codegen::scratch_registers());
    let mut program_instruction_list = Vec::<String>::new();
    push_line(&mut program_instruction_list, String::from_str("mov rbp, rsp"));
    let mut label_counter: u64 = 1;
    let stack_offset = match allocate_stack_memory(symbol_table) {
        Err(e) => {
            return Err(e);
        },
        Ok(total) => total,
    };
    let digits = decimal_string(stack_offset);
    push_line(&mut program_instruction_list, join3("lea rsp, [rsp - ", digits.as_str(), "]"));
    let ghost prologue = texts(program_instruction_list@);
    let ghost body = codegen::build_statements(
        views,
        0,
        codegen::scratch_registers(),
        symbol_table@,
        1,
    );
    let ghost done = Seq::<Seq<char>>::empty();
    proof {
        assert(prologue =~= seq![
            "mov rbp, rsp"@,
            "lea rsp, [rsp - "@ + crate::text::decimal(stack_offset as nat) + "]"@,
        ]);
    }
    let mut i: usize = 0;
    while i < statements.len()
        invariant
            i <= statements@.len(),
            statements@ == old(statements)@,
            views == statement_views(statements@),
            views == statement_views(old(statements)@),
            codegen::allocate_stack_memory(old(symbol_table)@) == Ok::<
                (Seq<Binding>, u64),
                CompileError,
            >((symbol_table@, stack_offset)),
            body == codegen::build_statements(
                views,
                0,
                codegen::scratch_registers(),
                symbol_table@,
                1,
            ),
            texts(program_instruction_list@) == prologue + done,
            body == continued(
                done,
                codegen::build_statements(
                    views,
                    i as nat,
                    texts(reg_list@),
                    symbol_table@,
                    label_counter as nat,
                ),
            ),
        decreases statements@.len() - i,
    {
        let ghost free = texts(reg_list@);
        let ghost counter = label_counter;
        match build_statement(
            &statements[i],
            &mut reg_list,
            &mut program_instruction_list,
            symbol_table,
            &mut label_counter,
            None,
        ) {
            Err(e) => {
                return Err(e);
            },
            Ok(()) => {
                proof {
                    let head = codegen::build_statement(
                        views[i as int],
                        free,
                        symbol_table@,
                        counter as nat,
                        None,
                    )->Ok_0;
                    let rest = codegen::build_statements(
                        views,
                        (i + 1) as nat,
                        head.free,
                        symbol_table@,
                        head.counter,
                    );
                    if rest is Ok {
                        assert(done + (head.lines + rest->Ok_0.lines) =~= (done + head.lines)
                            + rest->Ok_0.lines);
                    }
                    done = done + head.lines;
                }
                i += 1;
            },
        }
    }
    let exit = match get_last_var_debug(symbol_table) {
        Err(e) => {
            return Err(e);
        },
        Ok(line) => line,
    };
    push_line(&mut program_instruction_list, exit);
    statements.clear();
    Ok(program_instruction_list)
}

} // verus!
