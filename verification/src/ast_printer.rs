//! The text of a syntax tree, as an aid when reading what the parser made of
//! a program.

use crate::representations::{
    Assignment, AssignmentView, Block, BlockView, Expression, ExpressionView, List, ListView,
    Literal, LiteralView, Statement, StatementView, Type,
};
use crate::text::{decimal, decimal_string};
use vstd::prelude::*;

verus! {

/// The text of a type: a pointer is `*` before its target, an array its
/// length in brackets behind its elements.
pub open spec fn type_text(ty: Type) -> Seq<char>
    decreases ty,
{
    match ty {
        Type::Bool => "Bool"@,
        Type::Int => "Int"@,
        Type::Untyped => "None"@,
        Type::Pointer(target) => "*"@ + type_text(*target),
        Type::Array(element, length) => type_text(*element) + "["@ + decimal(length as nat)
            + "]"@,
    }
}

/// The text of a literal: its lexeme, or the elements of a list in
/// brackets.
pub open spec fn literal_text(literal: LiteralView) -> Seq<char>
    decreases literal,
{
    match literal {
        LiteralView::Bool(token) => token.lexeme,
        LiteralView::Int(token) => token.lexeme,
        LiteralView::Symbol(token) => token.lexeme,
        LiteralView::List(list) => "["@ + list_text(*list) + "]"@,
    }
}

/// The text of the elements of a list, with `, ` between them.
pub open spec fn list_text(list: ListView) -> Seq<char>
    decreases list,
{
    match list {
        ListView::Literal(only) => literal_text(only),
        ListView::List(first, rest) => literal_text(first) + ", "@ + list_text(*rest),
    }
}

/// The text of an expression, with every operator application in
/// parentheses and every group marked as one.
pub open spec fn expression_text(e: ExpressionView) -> Seq<char>
    decreases e,
{
    match e {
        ExpressionView::Binary(left, op, right) => "("@ + expression_text(*left) + " "@
            + op.lexeme + " "@ + expression_text(*right) + ")"@,
        ExpressionView::Unary(op, operand) => op.lexeme + expression_text(*operand),
        ExpressionView::Literal(literal) => literal_text(literal),
        ExpressionView::Group(_, inner, _) => "group["@ + expression_text(*inner) + "]"@,
    }
}

/// The text of the target of an assignment, up to the value.
pub open spec fn target_text(target: AssignmentView) -> Seq<char> {
    match target {
        AssignmentView::Value(ty, name) => type_text(ty) + " "@ + name + " = "@,
        AssignmentView::Pointer(ty, name) => type_text(ty) + " "@ + name + " = "@,
        AssignmentView::Mutation(name) => name + " = "@,
    }
}

/// The text of a statement.
pub open spec fn statement_text(s: StatementView) -> Seq<char>
    decreases s,
{
    match s {
        StatementView::Assignment(target, value) => target_text(target) + expression_text(value),
        StatementView::If(guard, body) => "if "@ + expression_text(guard) + statement_text(*body),
        StatementView::IfElse(guard, body, otherwise) => "if "@ + expression_text(guard) + " "@
            + statement_text(*body) + "\nelse "@ + statement_text(*otherwise),
        StatementView::Block(block) => match *block {
            BlockView::Statement(only) => statement_text(only),
            BlockView::Block(first, rest) => statement_text(first) + block_text(*rest),
        },
        StatementView::While(guard, body) => "while "@ + expression_text(guard) + " "@
            + statement_text(*body),
        StatementView::Break => "break"@,
    }
}

/// The text of a block: its statements in braces.
pub open spec fn block_text(block: BlockView) -> Seq<char>
    decreases block,
{
    match block {
        BlockView::Statement(only) => " {\n    "@ + statement_text(only) + "\n}\n"@,
        BlockView::Block(first, rest) => "{\n    "@ + statement_text(first) + block_text(*rest)
            + "\n}\n"@,
    }
}

fn type_printer(ttp: &Type, out: &mut String)
    ensures
        final(out)@ == old(out)@ + type_text(*ttp),
    decreases *ttp,
{
    match ttp {
        Type::Bool => out.append("Bool"),
        Type::Int => out.append("Int"),
        Type::Untyped => out.append("None"),
        Type::Pointer(inner_ttp) => {
            out.append("*");
            type_printer(inner_ttp, out);
        },
        Type::Array(inner_ttp, size) => {
            type_printer(inner_ttp, out);
            out.append("[");
            let digits = decimal_string(*size);
            out.append(digits.as_str());
            out.append("]");
        },
    }
}

fn literal_pretty_printer(literal: &Literal, out: &mut String)
    ensures
        final(out)@ == old(out)@ + literal_text(literal@),
    decreases *literal,
{
    match literal {
        Literal::Bool(token) | Literal::Int(token) | Literal::Symbol(token) => {
            out.append(token.lexeme());
        },
        Literal::List(list) => {
            out.append("[");
            list_pretty_printer(list, out);
            out.append("]");
        },
    }
}

fn list_pretty_printer(list: &List, out: &mut String)
    ensures
        final(out)@ == old(out)@ + list_text(list@),
    decreases *list,
{
    match list {
        List::Literal(literal) => literal_pretty_printer(literal, out),
        List::List(literal, rest) => {
            literal_pretty_printer(literal, out);
            out.append(", ");
            list_pretty_printer(rest, out);
        },
    }
}

fn write_expression(expr: &Expression, out: &mut String)
    ensures
        final(out)@ == old(out)@ + expression_text(expr@),
    decreases *expr,
{
    match expr {
        Expression::Binary(left, op, right) => {
            out.append("(");
            write_expression(left, out);
            out.append(" ");
            out.append(op.lexeme());
            out.append(" ");
            write_expression(right, out);
            out.append(")");
        },
        Expression::Unary(op, right) => {
            out.append(op.lexeme());
            write_expression(right, out);
        },
        Expression::Literal(literal) => literal_pretty_printer(literal, out),
        Expression::Group(_, inner_expr, _) => {
            out.append("group[");
            write_expression(inner_expr, out);
            out.append("]");
        },
    }
}

fn write_target(assign: &Assignment, out: &mut String)
    ensures
        final(out)@ == old(out)@ + target_text(assign@),
{
    match assign {
        Assignment::Value(_type, symbol) | Assignment::Pointer(_type, symbol) => {
            type_printer(_type, out);
            out.append(" ");
            out.append(symbol.as_str());
            out.append(" = ");
        },
        Assignment::Mutation(symbol) => {
            out.append(symbol.as_str());
            out.append(" = ");
        },
    }
}

fn write_statement(stmt: &Statement, out: &mut String)
    ensures
        final(out)@ == old(out)@ + statement_text(stmt@),
    decreases *stmt,
{
    match stmt {
        Statement::Assignment(assign, expr) => {
            write_target(assign, out);
            write_expression(expr, out);
        },
        Statement::If(expr, block) => {
            out.append("if ");
            write_expression(expr, out);
            write_statement(block, out);
        },
        Statement::IfElse(expr, if_block, else_block) => {
            out.append("if ");
            write_expression(expr, out);
            out.append(" ");
            write_statement(if_block, out);
            out.append("\nelse ");
            write_statement(else_block, out);
        },
        Statement::Block(block) => match &**block {
            Block::Statement(only) => {
                write_statement(only, out);
                assert(block@ == BlockView::Statement(only@));
            },
            Block::Block(first, rest) => {
                write_statement(first, out);
                write_block(rest, out);
            },
        },
        Statement::While(expr, block) => {
            out.append("while ");
            write_expression(expr, out);
            out.append(" ");
            write_statement(block, out);
        },
        Statement::Break => {
            out.append("break");
        },
    }
}

fn write_block(block: &Block, out: &mut String)
    ensures
        final(out)@ == old(out)@ + block_text(block@),
    decreases *block,
{
    match block {
        Block::Statement(stmt) => {
            out.append(" {\n    ");
            write_statement(stmt, out);
            out.append("\n}\n");
        },
        Block::Block(stmt, rest) => {
            out.append("{\n    ");
            write_statement(stmt, out);
            write_block(rest, out);
            out.append("\n}\n");
        },
    }
}

/// The text of a statement.
pub fn statement_pretty_printer(stmt: &Statement) -> (text: String)
    ensures
        text@ == statement_text(stmt@),
{
    let mut text = String::new();
    write_statement(stmt, &mut text);
    text
}

/// The text of a block.
pub fn block_pretty_printer(block: &Block) -> (text: String)
    ensures
        text@ == block_text(block@),
{
    let mut text = String::new();
    write_block(block, &mut text);
    text
}

/// The text of an expression.
pub fn ast_pretty_printer(expr: &Expression) -> (text: String)
    ensures
        text@ == expression_text(expr@),
{
    let mut text = String::new();
    write_expression(expr, &mut text);
    text
}

} // verus!
