//! Register discipline: the scratch registers are neither lost nor handed
//! out twice. At every point of an evaluation, the registers on the free
//! list together with those that hold a value are the registers that were
//! free when the evaluation began. Label numbers, the other resource that
//! the generator hands out, only grow.

use crate::codegen::{
    build_block, build_compare_instructions, build_expr, build_statement, build_statements,
    join_binary, join_unary, released, scratch_registers, settle,
};
use crate::representations::{BlockView, ExpressionView, InnerAddrView, StatementView};
use crate::symbols::Binding;
use vstd::multiset::Multiset;
use vstd::prelude::*;
use vstd::seq_lib::{to_multiset_build, to_multiset_remove};

verus! {

/// The registers that a value at `location` occupies: its register, if it
/// is in one.
pub open spec fn held(location: InnerAddrView) -> Multiset<Seq<char>> {
    match location {
        InnerAddrView::Reg(register) => Multiset::singleton(register),
        _ => Multiset::empty(),
    }
}

/// The four scratch registers are four different registers.
pub proof fn lemma_scratch_registers_differ()
    ensures
        scratch_registers().no_duplicates(),
        scratch_registers().len() == 4,
{
    reveal_strlit("r8");
    reveal_strlit("r9");
    reveal_strlit("r10");
    reveal_strlit("r11");
    assert("r8"@[1] != "r9"@[1]);
    assert("r10"@[2] != "r11"@[2]);
}

/// Taking the first register off a non-empty free list leaves the others.
proof fn lemma_take_first(free: Seq<Seq<char>>)
    requires
        free.len() > 0,
    ensures
        free.drop_first().to_multiset().add(Multiset::singleton(free[0])) == free.to_multiset(),
{
    to_multiset_remove(free, 0);
    assert(free.to_multiset().count(free[0]) > 0) by {
        free.to_multiset_ensures();
    }
}

/// Handing a value's register back adds it to the free list.
proof fn lemma_released(free: Seq<Seq<char>>, location: InnerAddrView)
    ensures
        released(free, location).to_multiset() == free.to_multiset().add(held(location)),
{
    match location {
        InnerAddrView::Reg(register) => {
            to_multiset_build(free, register);
        },
        _ => {},
    }
}

/// Settling a value takes at most the register that then holds it.
proof fn lemma_settle(free: Seq<Seq<char>>)
    ensures
        settle(free).free.to_multiset().add(held(settle(free).location)) == free.to_multiset(),
{
    if free.len() > 0 {
        lemma_take_first(free);
    }
}

/// Joining two operands keeps the registers: those free or holding the
/// result afterwards are those that were free or held an operand.
proof fn lemma_join_binary(
    op: crate::representations::TokenView,
    left: InnerAddrView,
    right: InnerAddrView,
    free: Seq<Seq<char>>,
)
    requires
        join_binary(op, left, right, free) is Ok,
    ensures
        ({
            let out = join_binary(op, left, right, free)->Ok_0;
            out.free.to_multiset().add(held(out.location)) == free.to_multiset().add(
                held(right),
            ).add(held(left))
        }),
{
    lemma_released(free, right);
    if !(left is Reg) {
        lemma_settle(released(free, right));
    }
}

/// Applying a unary operator keeps the registers.
proof fn lemma_join_unary(
    op: crate::representations::TokenView,
    operand: InnerAddrView,
    free: Seq<Seq<char>>,
)
    requires
        join_unary(op, operand, free) is Ok,
    ensures
        ({
            let out = join_unary(op, operand, free)->Ok_0;
            out.free.to_multiset().add(held(out.location)) == free.to_multiset().add(
                held(operand),
            )
        }),
{
    if !(operand is Reg) {
        lemma_settle(free);
    }
}

/// Evaluating an expression keeps the registers: those free afterwards,
/// together with the one that holds the value if one does, are those that
/// were free before.
pub proof fn lemma_expression_keeps_registers(
    e: ExpressionView,
    free: Seq<Seq<char>>,
    table: Seq<Binding>,
)
    requires
        build_expr(e, free, table) is Ok,
    ensures
        ({
            let out = build_expr(e, free, table)->Ok_0;
            out.free.to_multiset().add(held(out.location)) == free.to_multiset()
        }),
    decreases e,
{
    reveal(build_expr);
    match e {
        ExpressionView::Binary(left, op, right) => {
            let first = build_expr(*left, free, table)->Ok_0;
            let second = build_expr(*right, first.free, table)->Ok_0;
            lemma_expression_keeps_registers(*left, free, table);
            lemma_expression_keeps_registers(*right, first.free, table);
            lemma_join_binary(op, first.location, second.location, second.free);
        },
        ExpressionView::Unary(op, operand) => {
            let inner = build_expr(*operand, free, table)->Ok_0;
            lemma_expression_keeps_registers(*operand, free, table);
            lemma_join_unary(op, inner.location, inner.free);
        },
        ExpressionView::Literal(literal) => {
            if free.len() > 0 {
                lemma_take_first(free);
            }
        },
        ExpressionView::Group(_, inner, _) => {
            lemma_expression_keeps_registers(*inner, free, table);
        },
    }
}

/// Evaluating a guard hands every register back.
pub proof fn lemma_guard_returns_registers(
    e: ExpressionView,
    label: Seq<char>,
    free: Seq<Seq<char>>,
    table: Seq<Binding>,
)
    requires
        build_compare_instructions(e, label, free, table) is Ok,
    ensures
        build_compare_instructions(e, label, free, table)->Ok_0.free.to_multiset()
            == free.to_multiset(),
{
    match e {
        ExpressionView::Binary(left, op, right) => {
            let first = build_expr(*left, free, table)->Ok_0;
            let second = build_expr(*right, first.free, table)->Ok_0;
            lemma_expression_keeps_registers(*left, free, table);
            lemma_expression_keeps_registers(*right, first.free, table);
            lemma_released(second.free, second.location);
            lemma_released(released(second.free, second.location), first.location);
        },
        _ => {},
    }
}

/// A statement hands every register back: the registers free after it are
/// those free before it.
pub proof fn lemma_statement_returns_registers(
    s: StatementView,
    free: Seq<Seq<char>>,
    table: Seq<Binding>,
    counter: nat,
    end_label: Option<Seq<char>>,
)
    requires
        build_statement(s, free, table, counter, end_label) is Ok,
    ensures
        build_statement(s, free, table, counter, end_label)->Ok_0.free.to_multiset()
            == free.to_multiset(),
    decreases s,
{
    reveal(build_statement);
    match s {
        StatementView::Assignment(target, value) => {
            let evaluated = build_expr(value, free, table)->Ok_0;
            lemma_expression_keeps_registers(value, free, table);
            match evaluated.location {
                InnerAddrView::Reg(register) => {
                    to_multiset_build(evaluated.free, register);
                },
                _ => {},
            }
        },
        StatementView::If(guard, body) => {
            let label = crate::codegen::numbered("if_"@, counter);
            let test = build_compare_instructions(guard, label, free, table)->Ok_0;
            lemma_guard_returns_registers(guard, label, free, table);
            lemma_statement_returns_registers(*body, test.free, table, counter + 1, end_label);
        },
        StatementView::IfElse(guard, body, otherwise) => {
            let label = crate::codegen::numbered("if_else_"@, counter);
            let test = build_compare_instructions(guard, label, free, table)->Ok_0;
            lemma_guard_returns_registers(guard, label, free, table);
            let other = build_statement(*otherwise, test.free, table, counter + 1, end_label)->Ok_0;
            lemma_statement_returns_registers(
                *otherwise,
                test.free,
                table,
                counter + 1,
                end_label,
            );
            lemma_statement_returns_registers(*body, other.free, table, other.counter, end_label);
        },
        StatementView::Block(block) => {
            lemma_block_returns_registers(*block, free, table, counter, end_label);
        },
        StatementView::While(guard, body) => {
            let label = crate::codegen::numbered("while_"@, counter);
            let test = build_compare_instructions(guard, label, free, table)->Ok_0;
            lemma_guard_returns_registers(guard, label, free, table);
            lemma_statement_returns_registers(
                *body,
                test.free,
                table,
                counter + 1,
                Some("end_"@ + label),
            );
        },
        StatementView::Break => {},
    }
}

/// A block hands every register back.
pub proof fn lemma_block_returns_registers(
    block: BlockView,
    free: Seq<Seq<char>>,
    table: Seq<Binding>,
    counter: nat,
    end_label: Option<Seq<char>>,
)
    requires
        build_block(block, free, table, counter, end_label) is Ok,
    ensures
        build_block(block, free, table, counter, end_label)->Ok_0.free.to_multiset()
            == free.to_multiset(),
    decreases block,
{
    reveal(build_statement);
    match block {
        BlockView::Statement(only) => {
            lemma_statement_returns_registers(only, free, table, counter, end_label);
        },
        BlockView::Block(first, rest) => {
            let head = build_statement(first, free, table, counter, end_label)->Ok_0;
            lemma_statement_returns_registers(first, free, table, counter, end_label);
            lemma_block_returns_registers(*rest, head.free, table, head.counter, end_label);
        },
    }
}

/// Between the statements of a program, the free registers are the four
/// scratch registers that it started with.
pub proof fn lemma_program_returns_registers(
    statements: Seq<StatementView>,
    from: nat,
    free: Seq<Seq<char>>,
    table: Seq<Binding>,
    counter: nat,
)
    requires
        build_statements(statements, from, free, table, counter) is Ok,
        free.to_multiset() == scratch_registers().to_multiset(),
    ensures
        build_statements(statements, from, free, table, counter)->Ok_0.free.to_multiset()
            == scratch_registers().to_multiset(),
    decreases statements.len() - from,
{
    if from < statements.len() {
        let head = build_statement(statements[from as int], free, table, counter, None)->Ok_0;
        lemma_statement_returns_registers(statements[from as int], free, table, counter, None);
        lemma_program_returns_registers(statements, from + 1, head.free, table, head.counter);
    }
}

/// Label numbers only grow: the next unused label number after a
/// statement is no smaller than before it, so no two control statements
/// take the same number.
pub proof fn lemma_labels_grow(
    s: StatementView,
    free: Seq<Seq<char>>,
    table: Seq<Binding>,
    counter: nat,
    end_label: Option<Seq<char>>,
)
    requires
        build_statement(s, free, table, counter, end_label) is Ok,
    ensures
        build_statement(s, free, table, counter, end_label)->Ok_0.counter >= counter,
        s is If || s is IfElse || s is While ==> build_statement(
            s,
            free,
            table,
            counter,
            end_label,
        )->Ok_0.counter > counter,
    decreases s,
{
    reveal(build_statement);
    match s {
        StatementView::Assignment(target, value) => {},
        StatementView::If(guard, body) => {
            let label = crate::codegen::numbered("if_"@, counter);
            let test = build_compare_instructions(guard, label, free, table)->Ok_0;
            lemma_labels_grow(*body, test.free, table, counter + 1, end_label);
        },
        StatementView::IfElse(guard, body, otherwise) => {
            let label = crate::codegen::numbered("if_else_"@, counter);
            let test = build_compare_instructions(guard, label, free, table)->Ok_0;
            let other = build_statement(*otherwise, test.free, table, counter + 1, end_label)->Ok_0;
            lemma_labels_grow(*otherwise, test.free, table, counter + 1, end_label);
            lemma_labels_grow(*body, other.free, table, other.counter, end_label);
        },
        StatementView::Block(block) => {
            lemma_block_labels_grow(*block, free, table, counter, end_label);
        },
        StatementView::While(guard, body) => {
            let label = crate::codegen::numbered("while_"@, counter);
            let test = build_compare_instructions(guard, label, free, table)->Ok_0;
            lemma_labels_grow(*body, test.free, table, counter + 1, Some("end_"@ + label));
        },
        StatementView::Break => {},
    }
}

/// Label numbers only grow over the statements of a block.
pub proof fn lemma_block_labels_grow(
    block: BlockView,
    free: Seq<Seq<char>>,
    table: Seq<Binding>,
    counter: nat,
    end_label: Option<Seq<char>>,
)
    requires
        build_block(block, free, table, counter, end_label) is Ok,
    ensures
        build_block(block, free, table, counter, end_label)->Ok_0.counter >= counter,
    decreases block,
{
    reveal(build_statement);
    match block {
        BlockView::Statement(only) => {
            lemma_labels_grow(only, free, table, counter, end_label);
        },
        BlockView::Block(first, rest) => {
            let head = build_statement(first, free, table, counter, end_label)->Ok_0;
            lemma_labels_grow(first, free, table, counter, end_label);
            lemma_block_labels_grow(*rest, head.free, table, head.counter, end_label);
        },
    }
}

} // verus!
