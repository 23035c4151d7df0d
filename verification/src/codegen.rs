//! The assembly that a program stands for: the lines of x86-64 NASM text of
//! each expression and statement, the layout of the stack frame, and how the
//! scratch registers pass from hand to hand.

use crate::error::{CompileError, Fault};
use crate::representations::{
    AssignmentView, BlockView, ExpressionView, InnerAddrView, ListView, LiteralView, StatementView,
    Symbol, TokenView, Type,
};
use crate::symbols::{lookup, Binding};
use crate::text::decimal;
use vstd::prelude::*;

verus! {

/// The scratch registers that are free when a program starts.
pub open spec fn scratch_registers() -> Seq<Seq<char>> {
    seq!["r8"@, "r9"@, "r10"@, "r11"@]
}

/// An instruction with one operand.
pub open spec fn unary_instruction(mnemonic: Seq<char>, operand: Seq<char>) -> Seq<char> {
    mnemonic + " "@ + operand
}

/// An instruction with two operands.
pub open spec fn binary_instruction(
    mnemonic: Seq<char>,
    first: Seq<char>,
    second: Seq<char>,
) -> Seq<char> {
    mnemonic + " "@ + first + ", "@ + second
}

/// The operand that names the variable slot `offset` bytes below the frame
/// base.
pub open spec fn slot(offset: u64) -> Seq<char> {
    "qword [rbp - "@ + decimal(offset as nat) + "]"@
}

/// The line that defines `label`.
pub open spec fn label_line(label: Seq<char>) -> Seq<char> {
    label + ":"@
}

/// `fault` at the place of `token`.
pub open spec fn fault_of(token: TokenView, fault: Fault) -> CompileError {
    CompileError { fault, line: token.line, column: token.column }
}

/// The size in bytes of a value of type `ty`; none for `Untyped`, which is
/// never stored.
pub open spec fn get_type_size(ty: Type) -> Option<nat>
    decreases ty,
{
    match ty {
        Type::Int | Type::Bool | Type::Pointer(_) => Some(8),
        Type::Array(element, length) => match get_type_size(*element) {
            Some(size) => Some(size * (length as nat)),
            None => None,
        },
        Type::Untyped => None,
    }
}

/// The bytes that the first `upto` variables of `table` take together, or
/// why they cannot be laid out: a variable has no size, or the bytes exceed
/// what 64 bits can count.
pub open spec fn frame_size(table: Seq<Binding>, upto: nat) -> Result<nat, Fault>
    decreases upto,
{
    if upto == 0 {
        Ok(0)
    } else {
        match frame_size(table, (upto - 1) as nat) {
            Err(fault) => Err(fault),
            Ok(below) => match get_type_size(table[upto - 1].symbol._type) {
                None => Err(Fault::UnsizedSymbol),
                Some(size) => if below + size > u64::MAX {
                    Err(Fault::FrameTooLarge)
                } else {
                    Ok(below + size)
                },
            },
        }
    }
}

/// Once the variables up to some place cannot be laid out, no more of them
/// can, for the same reason.
pub proof fn lemma_frame_error_stays(table: Seq<Binding>, failed: nat, upto: nat)
    requires
        failed <= upto,
        frame_size(table, failed) is Err,
    ensures
        frame_size(table, upto) == frame_size(table, failed),
    decreases upto,
{
    if failed < upto {
        lemma_frame_error_stays(table, failed, (upto - 1) as nat);
    }
}

/// Where the variables up to some place can be laid out, so can fewer of
/// them, in no more bytes.
pub proof fn lemma_frame_prefix(table: Seq<Binding>, fewer: nat, upto: nat)
    requires
        fewer <= upto,
        frame_size(table, upto) is Ok,
    ensures
        frame_size(table, fewer) is Ok,
        frame_size(table, fewer)->Ok_0 <= frame_size(table, upto)->Ok_0 <= u64::MAX,
    decreases upto,
{
    if fewer < upto {
        lemma_frame_prefix(table, fewer, (upto - 1) as nat);
    }
}

/// `table` with every variable given its stack offset: the bytes that the
/// variables before it take together.
pub open spec fn with_offsets(table: Seq<Binding>) -> Seq<Binding> {
    Seq::new(
        table.len(),
        |i: int|
            Binding {
                name: table[i].name,
                symbol: Symbol {
                    stack_offset: Some(frame_size(table, i as nat)->Ok_0 as u64),
                    ..table[i].symbol
                },
            },
    )
}

/// The laid-out table and the size of the frame, or why there is no layout.
pub open spec fn allocate_stack_memory(table: Seq<Binding>) -> Result<
    (Seq<Binding>, u64),
    CompileError,
> {
    match frame_size(table, table.len()) {
        Err(fault) => Err(CompileError::nowhere(fault)),
        Ok(total) => Ok((with_offsets(table), total as u64)),
    }
}

/// The place among the first `upto` variables of the one referenced last:
/// the greatest line of latest reference, and the later variable among equals.
pub open spec fn last_referenced(table: Seq<Binding>, upto: nat) -> Option<int>
    decreases upto,
{
    if upto == 0 {
        None
    } else {
        match last_referenced(table, (upto - 1) as nat) {
            None => Some(upto - 1),
            Some(best) => if table[upto - 1].symbol.last_ref >= table[best].symbol.last_ref {
                Some(upto - 1)
            } else {
                Some(best)
            },
        }
    }
}

/// The line that loads the exit code: the value of the variable referenced
/// last, or 0 for a program without variables.
pub open spec fn get_last_var_debug(table: Seq<Binding>) -> Result<Seq<char>, CompileError> {
    match last_referenced(table, table.len()) {
        None => Ok("mov rdi, 0"@),
        Some(i) => match table[i].symbol.stack_offset {
            None => Err(CompileError::nowhere(Fault::UnassignedOffset)),
            Some(offset) => Ok(binary_instruction("mov"@, "rdi"@, slot(offset))),
        },
    }
}

/// The register that holds a value after it was fetched from `location`:
/// its own register, or else `default`.
pub open spec fn get_inner_register(location: InnerAddrView, default: Seq<char>) -> Seq<char> {
    match location {
        InnerAddrView::Reg(register) => register,
        _ => default,
    }
}

/// The lines that fetch a value from `location`: popped or loaded into
/// `default`, or nothing for a value that is in a register already.
pub open spec fn fetch_lines(location: InnerAddrView, default: Seq<char>) -> Seq<Seq<char>> {
    match location {
        InnerAddrView::Stack => seq![unary_instruction("pop"@, default)],
        InnerAddrView::Reg(_) => Seq::empty(),
        InnerAddrView::StackOffset(offset) => seq![
            binary_instruction("mov"@, default, slot(offset)),
        ],
    }
}

/// The free list after the register of `location`, if it is in one, was
/// handed back.
pub open spec fn released(free: Seq<Seq<char>>, location: InnerAddrView) -> Seq<Seq<char>> {
    match location {
        InnerAddrView::Reg(register) => free.push(register),
        _ => free,
    }
}

/// The lines of an evaluation, the free list after it, and where its value
/// is.
pub struct Evaluated {
    pub lines: Seq<Seq<char>>,
    pub free: Seq<Seq<char>>,
    pub location: InnerAddrView,
}

/// Moves the value in `rax` to its resting place: the first free scratch
/// register, or the stack where none is free.
pub open spec fn settle(free: Seq<Seq<char>>) -> Evaluated {
    if free.len() > 0 {
        Evaluated {
            lines: seq![binary_instruction("mov"@, free[0], "rax"@)],
            free: free.drop_first(),
            location: InnerAddrView::Reg(free[0]),
        }
    } else {
        Evaluated { lines: seq!["push rax"@], free, location: InnerAddrView::Stack }
    }
}

/// An evaluation that comes after the lines `before`.
pub open spec fn following(before: Seq<Seq<char>>, then: Evaluated) -> Evaluated {
    Evaluated { lines: before + then.lines, free: then.free, location: then.location }
}

/// The suffix of the `set` instruction for a comparison operator.
pub open spec fn set_suffix(op: Seq<char>) -> Option<Seq<char>> {
    if op == "=="@ {
        Some("e"@)
    } else if op == "!="@ {
        Some("ne"@)
    } else if op == "<"@ {
        Some("b"@)
    } else if op == ">"@ {
        Some("a"@)
    } else if op == "<="@ {
        Some("be"@)
    } else if op == ">="@ {
        Some("ae"@)
    } else {
        None
    }
}

/// The conditional jump that is taken where a comparison holds.
pub open spec fn jump_mnemonic(op: Seq<char>) -> Option<Seq<char>> {
    if op == "=="@ {
        Some("je"@)
    } else if op == "!="@ {
        Some("jne"@)
    } else if op == "<"@ {
        Some("jl"@)
    } else if op == ">"@ {
        Some("jg"@)
    } else if op == "<="@ {
        Some("jle"@)
    } else if op == ">="@ {
        Some("jge"@)
    } else {
        None
    }
}

/// The lines that compare `left` with `right` and leave 1 or 0 in `left`.
pub open spec fn build_comparison_op(left: Seq<char>, right: Seq<char>, suffix: Seq<char>) -> Seq<
    Seq<char>,
> {
    seq![
        binary_instruction("cmp"@, left, right),
        "set"@ + suffix + " al"@,
        binary_instruction("movzx"@, left, "al"@),
    ]
}

/// The lines that multiply or divide `left` by `right` through `rax` and
/// leave the product, the quotient or, for `%`, the remainder in `left`.
pub open spec fn build_factor_op(left: Seq<char>, right: Seq<char>, op: Seq<char>) -> Seq<
    Seq<char>,
> {
    let load = if left == "rax"@ {
        Seq::<Seq<char>>::empty()
    } else {
        seq![binary_instruction("mov"@, "rax"@, left)]
    };
    let compute = if op == "*"@ {
        seq![unary_instruction("mul"@, right)]
    } else {
        seq!["xor rdx, rdx"@, unary_instruction("div"@, right)]
    };
    let store = if op == "%"@ {
        seq![binary_instruction("mov"@, left, "rdx"@)]
    } else if left == "rax"@ {
        Seq::<Seq<char>>::empty()
    } else {
        seq![binary_instruction("mov"@, left, "rax"@)]
    };
    load + compute + store
}

/// The lines of `left op right` on registers, with the result in `left`;
/// none where `op` is no binary operator.
pub open spec fn operation_lines(op: Seq<char>, left: Seq<char>, right: Seq<char>) -> Option<
    Seq<Seq<char>>,
> {
    if op == "+"@ {
        Some(seq![binary_instruction("add"@, left, right)])
    } else if op == "-"@ {
        Some(seq![binary_instruction("sub"@, left, right)])
    } else if op == "*"@ || op == "/"@ || op == "%"@ {
        Some(build_factor_op(left, right, op))
    } else {
        match set_suffix(op) {
            Some(suffix) => Some(build_comparison_op(left, right, suffix)),
            None => None,
        }
    }
}

/// The number that stands for a boolean literal.
pub open spec fn bool_to_int(word: Seq<char>) -> Option<Seq<char>> {
    if word == "true"@ {
        Some("1"@)
    } else if word == "false"@ {
        Some("0"@)
    } else {
        None
    }
}

/// The immediate operand that a literal token stands for.
pub open spec fn literal_value(token: TokenView) -> Option<Seq<char>> {
    if token.ty == Type::Bool {
        bool_to_int(token.lexeme)
    } else {
        Some(token.lexeme)
    }
}

/// The stack offset of the variable that `token` names.
pub open spec fn offset_of(token: TokenView, table: Seq<Binding>) -> Result<u64, CompileError> {
    match lookup(table, token.lexeme) {
        None => Err(fault_of(token, Fault::UnknownSymbol)),
        Some(symbol) => match symbol.stack_offset {
            None => Err(fault_of(token, Fault::UnassignedOffset)),
            Some(offset) => Ok(offset),
        },
    }
}

/// The two lines that push one element of a list literal.
pub open spec fn element_lines(element: LiteralView, table: Seq<Binding>) -> Result<
    Seq<Seq<char>>,
    CompileError,
> {
    match element {
        LiteralView::Int(token) | LiteralView::Bool(token) => match literal_value(token) {
            None => Err(fault_of(token, Fault::BadBoolean)),
            Some(value) => Ok(seq![binary_instruction("mov"@, "rax"@, value), "push rax"@]),
        },
        LiteralView::Symbol(token) => match offset_of(token, table) {
            Err(e) => Err(e),
            Ok(offset) => Ok(seq![binary_instruction("mov"@, "rax"@, slot(offset)), "push rax"@]),
        },
        LiteralView::List(_) => Err(CompileError::nowhere(Fault::NestedList)),
    }
}

/// The lines that push the elements of a list literal, the last element
/// first, so that the first element ends on top of the stack with the others
/// above it in order.
pub open spec fn build_list(list: ListView, table: Seq<Binding>) -> Result<
    Seq<Seq<char>>,
    CompileError,
>
    decreases list,
{
    match list {
        ListView::Literal(only) => element_lines(only, table),
        ListView::List(first, rest) => match build_list(*rest, table) {
            Err(e) => Err(e),
            Ok(later) => match element_lines(first, table) {
                Err(e) => Err(e),
                Ok(mine) => Ok(later + mine),
            },
        },
    }
}

/// The evaluation of a literal: a number moved into a free scratch register
/// or pushed, a variable left where it is, a list pushed element by element.
pub open spec fn build_literal(literal: LiteralView, free: Seq<Seq<char>>, table: Seq<Binding>)
    -> Result<Evaluated, CompileError> {
    match literal {
        LiteralView::Int(token) | LiteralView::Bool(token) => match literal_value(token) {
            None => Err(fault_of(token, Fault::BadBoolean)),
            Some(value) => if free.len() > 0 {
                Ok(
                    Evaluated {
                        lines: seq![binary_instruction("mov"@, free[0], value)],
                        free: free.drop_first(),
                        location: InnerAddrView::Reg(free[0]),
                    },
                )
            } else {
                Ok(
                    Evaluated {
                        lines: seq![binary_instruction("mov"@, "rax"@, value), "push rax"@],
                        free,
                        location: InnerAddrView::Stack,
                    },
                )
            },
        },
        LiteralView::Symbol(token) => match offset_of(token, table) {
            Err(e) => Err(e),
            Ok(offset) => Ok(
                Evaluated {
                    lines: Seq::empty(),
                    free,
                    location: InnerAddrView::StackOffset(offset),
                },
            ),
        },
        LiteralView::List(list) => match build_list(*list, table) {
            Err(e) => Err(e),
            Ok(lines) => Ok(Evaluated { lines, free, location: InnerAddrView::Stack }),
        },
    }
}

/// What joins two evaluated operands into `left op right`, with `free` as
/// the free list after both: the right operand is fetched into `rcx` and the
/// left into `rax` unless they are in registers, the operation leaves its
/// result in the left register, the right register is handed back, and a
/// result in `rax` is settled.
pub open spec fn join_binary(
    op: TokenView,
    left: InnerAddrView,
    right: InnerAddrView,
    free: Seq<Seq<char>>,
) -> Result<Evaluated, CompileError> {
    let right_register = get_inner_register(right, "rcx"@);
    let left_register = get_inner_register(left, "rax"@);
    match operation_lines(op.lexeme, left_register, right_register) {
        None => Err(fault_of(op, Fault::UnknownOperator)),
        Some(operation) => {
            let lines = fetch_lines(right, "rcx"@) + fetch_lines(left, "rax"@) + operation;
            if left is Reg {
                Ok(Evaluated { lines, free: released(free, right), location: left })
            } else {
                Ok(following(lines, settle(released(free, right))))
            }
        },
    }
}

/// What turns an evaluated operand into `op operand`, with `free` as the
/// free list after the operand: `&` passes a variable on, `*` loads what the
/// operand points to, `-` negates.
pub open spec fn join_unary(op: TokenView, operand: InnerAddrView, free: Seq<Seq<char>>) -> Result<
    Evaluated,
    CompileError,
> {
    if op.lexeme == "&"@ {
        if operand is StackOffset {
            Ok(Evaluated { lines: Seq::empty(), free, location: operand })
        } else {
            Err(fault_of(op, Fault::AddressOfNonMemory))
        }
    } else if op.lexeme == "*"@ {
        match operand {
            InnerAddrView::Reg(register) => Ok(
                Evaluated {
                    lines: seq![
                        binary_instruction("mov"@, register, "qword ["@ + register + "]"@),
                    ],
                    free,
                    location: operand,
                },
            ),
            _ => if free.len() > 0 {
                Ok(
                    Evaluated {
                        lines: fetch_lines(operand, "rax"@).push(
                            binary_instruction("mov"@, free[0], "qword [rax]"@),
                        ),
                        free: free.drop_first(),
                        location: InnerAddrView::Reg(free[0]),
                    },
                )
            } else {
                Ok(
                    Evaluated {
                        lines: fetch_lines(operand, "rax"@).push("mov rax, qword [rax]"@).push(
                            "push rax"@,
                        ),
                        free,
                        location: InnerAddrView::Stack,
                    },
                )
            },
        }
    } else if op.lexeme == "-"@ {
        match operand {
            InnerAddrView::Reg(register) => Ok(
                Evaluated {
                    lines: seq![unary_instruction("neg"@, register)],
                    free,
                    location: operand,
                },
            ),
            _ => Ok(following(fetch_lines(operand, "rax"@).push("neg rax"@), settle(free))),
        }
    } else {
        Err(fault_of(op, Fault::UnknownOperator))
    }
}

/// The evaluation of an expression with the scratch registers `free` at
/// hand: its lines, the registers free afterwards, and where its value is.
/// The left operand of a binary operator is evaluated before the right.
#[verifier::opaque]
pub open spec fn build_expr(e: ExpressionView, free: Seq<Seq<char>>, table: Seq<Binding>) -> Result<
    Evaluated,
    CompileError,
>
    decreases e,
{
    match e {
        ExpressionView::Binary(left, op, right) => match build_expr(*left, free, table) {
            Err(e) => Err(e),
            Ok(first) => match build_expr(*right, first.free, table) {
                Err(e) => Err(e),
                Ok(second) => match join_binary(
                    op,
                    first.location,
                    second.location,
                    second.free,
                ) {
                    Err(e) => Err(e),
                    Ok(joined) => Ok(following(first.lines + second.lines, joined)),
                },
            },
        },
        ExpressionView::Unary(op, operand) => match build_expr(*operand, free, table) {
            Err(e) => Err(e),
            Ok(inner) => match join_unary(op, inner.location, inner.free) {
                Err(e) => Err(e),
                Ok(joined) => Ok(following(inner.lines, joined)),
            },
        },
        ExpressionView::Literal(literal) => build_literal(literal, free, table),
        ExpressionView::Group(_, inner, _) => build_expr(*inner, free, table),
    }
}

/// The lines of a guard and the free list after it.
pub struct Compared {
    pub lines: Seq<Seq<char>>,
    pub free: Seq<Seq<char>>,
}

/// What compares two evaluated operands and jumps to `label` by `jump`,
/// with `free` as the free list after both: the operands are fetched as for
/// a binary operator, and their registers are handed back.
pub open spec fn compare(
    jump: Seq<char>,
    label: Seq<char>,
    left: InnerAddrView,
    right: InnerAddrView,
    free: Seq<Seq<char>>,
) -> Compared {
    Compared {
        lines: fetch_lines(right, "rcx"@) + fetch_lines(left, "rax"@) + seq![
            binary_instruction(
                "cmp"@,
                get_inner_register(left, "rax"@),
                get_inner_register(right, "rcx"@),
            ),
            unary_instruction(jump, label),
        ],
        free: released(released(free, right), left),
    }
}

/// The first token that a literal holds. The tree does not keep the brackets
/// of a list, so for a list it is the first token of the first element.
pub open spec fn literal_token(literal: LiteralView) -> TokenView
    decreases literal,
{
    match literal {
        LiteralView::Int(token) => token,
        LiteralView::Bool(token) => token,
        LiteralView::Symbol(token) => token,
        LiteralView::List(list) => list_token(*list),
    }
}

/// The first token that a list of literals holds.
pub open spec fn list_token(list: ListView) -> TokenView
    decreases list,
{
    match list {
        ListView::Literal(only) => literal_token(only),
        ListView::List(first, _) => literal_token(first),
    }
}

/// The first token that an expression holds: where the expression starts in
/// the source.
pub open spec fn leading_token(e: ExpressionView) -> TokenView
    decreases e,
{
    match e {
        ExpressionView::Binary(left, _, _) => leading_token(*left),
        ExpressionView::Unary(op, _) => op,
        ExpressionView::Literal(literal) => literal_token(literal),
        ExpressionView::Group(open, _, _) => open,
    }
}

/// Whether `e` can stand as a guard: it applies a comparison operator.
pub open spec fn is_comparison(e: ExpressionView) -> bool {
    e is Binary && jump_mnemonic(e->Binary_1.lexeme) is Some
}

/// The lines that evaluate the guard `e`, a comparison, and jump to `label`
/// where it holds.
pub open spec fn build_compare_instructions(
    e: ExpressionView,
    label: Seq<char>,
    free: Seq<Seq<char>>,
    table: Seq<Binding>,
) -> Result<Compared, CompileError> {
    match e {
        ExpressionView::Binary(left, op, right) => match jump_mnemonic(op.lexeme) {
            None => Err(fault_of(op, Fault::GuardNotComparison)),
            Some(jump) => match build_expr(*left, free, table) {
                Err(e) => Err(e),
                Ok(first) => match build_expr(*right, first.free, table) {
                    Err(e) => Err(e),
                    Ok(second) => {
                        let test = compare(
                            jump,
                            label,
                            first.location,
                            second.location,
                            second.free,
                        );
                        Ok(
                            Compared {
                                lines: first.lines + second.lines + test.lines,
                                free: test.free,
                            },
                        )
                    },
                },
            },
        },
        _ => Err(fault_of(leading_token(e), Fault::GuardNotComparison)),
    }
}

/// The lines of statements, the free list after them and the next unused
/// label number.
pub struct Built {
    pub lines: Seq<Seq<char>>,
    pub free: Seq<Seq<char>>,
    pub counter: nat,
}

/// The lines that store a value found at `location` in the variable slot at
/// `offset`, and the free list afterwards: a register is handed back.
pub open spec fn store_value(location: InnerAddrView, free: Seq<Seq<char>>, offset: u64)
    -> Compared {
    match location {
        InnerAddrView::Stack => Compared {
            lines: seq!["pop rax"@, binary_instruction("mov"@, slot(offset), "rax"@)],
            free,
        },
        InnerAddrView::Reg(register) => Compared {
            lines: seq![binary_instruction("mov"@, slot(offset), register)],
            free: free.push(register),
        },
        InnerAddrView::StackOffset(from) => Compared {
            lines: seq![
                binary_instruction("mov"@, "rax"@, slot(from)),
                binary_instruction("mov"@, slot(offset), "rax"@),
            ],
            free,
        },
    }
}

/// The lines that store the address of a value found at `location` in the
/// variable slot at `offset`: the address of a variable, or the top of the
/// stack for a list that was just pushed. A value in a register has no
/// address.
pub open spec fn store_address(location: InnerAddrView, offset: u64) -> Result<
    Seq<Seq<char>>,
    CompileError,
> {
    match location {
        InnerAddrView::Stack => Ok(seq![binary_instruction("mov"@, slot(offset), "rsp"@)]),
        InnerAddrView::Reg(_) => Err(CompileError::nowhere(Fault::PointerToRegister)),
        InnerAddrView::StackOffset(from) => Ok(
            seq![
                "lea rax, [rbp - "@ + decimal(from as nat) + "]"@,
                binary_instruction("mov"@, slot(offset), "rax"@),
            ],
        ),
    }
}

/// The slot of the variable `name` that an assignment writes to.
pub open spec fn target_offset(name: Seq<char>, mutation: bool, table: Seq<Binding>) -> Result<
    u64,
    CompileError,
> {
    match lookup(table, name) {
        None => Err(CompileError::nowhere(Fault::UnknownSymbol)),
        Some(symbol) => if mutation && !symbol.mutable {
            Err(CompileError::nowhere(Fault::ImmutableTarget))
        } else {
            match symbol.stack_offset {
                None => Err(CompileError::nowhere(Fault::UnassignedOffset)),
                Some(offset) => Ok(offset),
            }
        },
    }
}

/// The lines of an assignment: the value is evaluated and stored in the
/// variable's slot; for a pointer, its address is.
pub open spec fn build_assignment(
    target: AssignmentView,
    value: ExpressionView,
    free: Seq<Seq<char>>,
    table: Seq<Binding>,
    counter: nat,
) -> Result<Built, CompileError> {
    match build_expr(value, free, table) {
        Err(e) => Err(e),
        Ok(evaluated) => match target {
            AssignmentView::Value(_, name) => match target_offset(name, false, table) {
                Err(e) => Err(e),
                Ok(offset) => {
                    let stored = store_value(evaluated.location, evaluated.free, offset);
                    Ok(Built { lines: evaluated.lines + stored.lines, free: stored.free, counter })
                },
            },
            AssignmentView::Mutation(name) => match target_offset(name, true, table) {
                Err(e) => Err(e),
                Ok(offset) => {
                    let stored = store_value(evaluated.location, evaluated.free, offset);
                    Ok(Built { lines: evaluated.lines + stored.lines, free: stored.free, counter })
                },
            },
            AssignmentView::Pointer(_, name) => match target_offset(name, false, table) {
                Err(e) => Err(e),
                Ok(offset) => match store_address(evaluated.location, offset) {
                    Err(e) => Err(e),
                    Ok(lines) => Ok(
                        Built { lines: evaluated.lines + lines, free: evaluated.free, counter },
                    ),
                },
            },
        },
    }
}

/// The label of a control statement: `stem` and the label number.
pub open spec fn numbered(stem: Seq<char>, counter: nat) -> Seq<char> {
    stem + decimal(counter)
}

/// The lines of a statement, with the scratch registers `free` at hand,
/// `counter` as the next unused label number, and `end_label` as the label
/// behind the innermost enclosing loop.
#[verifier::opaque]
pub open spec fn build_statement(
    s: StatementView,
    free: Seq<Seq<char>>,
    table: Seq<Binding>,
    counter: nat,
    end_label: Option<Seq<char>>,
) -> Result<Built, CompileError>
    decreases s,
{
    match s {
        StatementView::Assignment(target, value) => build_assignment(
            target,
            value,
            free,
            table,
            counter,
        ),
        StatementView::If(guard, body) => {
            if counter >= u64::MAX {
                Err(CompileError::nowhere(Fault::TooManyLabels))
            } else {
                let label = numbered("if_"@, counter);
                match build_compare_instructions(guard, label, free, table) {
                    Err(e) => Err(e),
                    Ok(test) => match build_statement(
                        *body,
                        test.free,
                        table,
                        counter + 1,
                        end_label,
                    ) {
                        Err(e) => Err(e),
                        Ok(then) => Ok(
                            Built {
                                lines: (test.lines.push(
                                    unary_instruction("jmp"@, "end_"@ + label),
                                ).push(label_line(label)) + then.lines).push(
                                    label_line("end_"@ + label),
                                ),
                                free: then.free,
                                counter: then.counter,
                            },
                        ),
                    },
                }
            }
        },
        StatementView::IfElse(guard, body, otherwise) => {
            if counter >= u64::MAX {
                Err(CompileError::nowhere(Fault::TooManyLabels))
            } else {
                let label = numbered("if_else_"@, counter);
                match build_compare_instructions(guard, label, free, table) {
                    Err(e) => Err(e),
                    Ok(test) => match build_statement(
                        *otherwise,
                        test.free,
                        table,
                        counter + 1,
                        end_label,
                    ) {
                        Err(e) => Err(e),
                        Ok(other) => match build_statement(
                            *body,
                            other.free,
                            table,
                            other.counter,
                            end_label,
                        ) {
                            Err(e) => Err(e),
                            Ok(then) => Ok(
                                Built {
                                    lines: ((test.lines + other.lines).push(
                                        unary_instruction("jmp"@, "end_"@ + label),
                                    ).push(label_line(label)) + then.lines).push(
                                        label_line("end_"@ + label),
                                    ),
                                    free: then.free,
                                    counter: then.counter,
                                },
                            ),
                        },
                    },
                }
            }
        },
        StatementView::Block(block) => build_block(*block, free, table, counter, end_label),
        StatementView::While(guard, body) => {
            if counter >= u64::MAX {
                Err(CompileError::nowhere(Fault::TooManyLabels))
            } else {
                let label = numbered("while_"@, counter);
                let end = "end_"@ + label;
                match build_compare_instructions(guard, label, free, table) {
                    Err(e) => Err(e),
                    Ok(test) => match build_statement(
                        *body,
                        test.free,
                        table,
                        counter + 1,
                        Some(end),
                    ) {
                        Err(e) => Err(e),
                        Ok(inner) => Ok(
                            Built {
                                lines: ((seq![label_line("start_"@ + label)] + test.lines).push(
                                    unary_instruction("jmp"@, end),
                                ).push(label_line(label)) + inner.lines).push(
                                    unary_instruction("jmp"@, "start_"@ + label),
                                ).push(label_line(end)),
                                free: inner.free,
                                counter: inner.counter,
                            },
                        ),
                    },
                }
            }
        },
        StatementView::Break => match end_label {
            None => Err(CompileError::nowhere(Fault::BreakWithoutLoop)),
            Some(label) => Ok(
                Built { lines: seq![unary_instruction("jmp"@, label)], free, counter },
            ),
        },
    }
}

/// The lines of the statements of a block, in order.
pub open spec fn build_block(
    block: BlockView,
    free: Seq<Seq<char>>,
    table: Seq<Binding>,
    counter: nat,
    end_label: Option<Seq<char>>,
) -> Result<Built, CompileError>
    decreases block,
{
    match block {
        BlockView::Statement(only) => build_statement(only, free, table, counter, end_label),
        BlockView::Block(first, rest) => match build_statement(
            first,
            free,
            table,
            counter,
            end_label,
        ) {
            Err(e) => Err(e),
            Ok(head) => match build_block(*rest, head.free, table, head.counter, end_label) {
                Err(e) => Err(e),
                Ok(tail) => Ok(
                    Built {
                        lines: head.lines + tail.lines,
                        free: tail.free,
                        counter: tail.counter,
                    },
                ),
            },
        },
    }
}

/// The lines of the statements from `from` on, in order, outside any loop.
pub open spec fn build_statements(
    statements: Seq<StatementView>,
    from: nat,
    free: Seq<Seq<char>>,
    table: Seq<Binding>,
    counter: nat,
) -> Result<Built, CompileError>
    decreases statements.len() - from,
{
    if from >= statements.len() {
        Ok(Built { lines: Seq::empty(), free, counter })
    } else {
        match build_statement(statements[from as int], free, table, counter, None) {
            Err(e) => Err(e),
            Ok(head) => match build_statements(
                statements,
                from + 1,
                head.free,
                table,
                head.counter,
            ) {
                Err(e) => Err(e),
                Ok(tail) => Ok(
                    Built {
                        lines: head.lines + tail.lines,
                        free: tail.free,
                        counter: tail.counter,
                    },
                ),
            },
        }
    }
}

/// The outcome of generating code: the lines or the first error, and the
/// symbol table, laid out unless the layout failed.
pub struct Assembly {
    pub result: Result<Seq<Seq<char>>, CompileError>,
    pub table: Seq<Binding>,
}

/// The assembly of a program: the frame is set up for the variables of
/// `table`, the statements follow, and the variable referenced last is
/// loaded as the exit code.
pub open spec fn build(statements: Seq<StatementView>, table: Seq<Binding>) -> Assembly {
    match allocate_stack_memory(table) {
        Err(e) => Assembly { result: Err(e), table },
        Ok((laid_out, total)) => match build_statements(
            statements,
            0,
            scratch_registers(),
            laid_out,
            1,
        ) {
            Err(e) => Assembly { result: Err(e), table: laid_out },
            Ok(body) => match get_last_var_debug(laid_out) {
                Err(e) => Assembly { result: Err(e), table: laid_out },
                Ok(exit) => Assembly {
                    result: Ok(
                        (seq![
                            "mov rbp, rsp"@,
                            "lea rsp, [rsp - "@ + decimal(total as nat) + "]"@,
                        ] + body.lines).push(exit),
                    ),
                    table: laid_out,
                },
            },
        },
    }
}

} // verus!
