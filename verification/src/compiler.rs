//! The whole compiler: source text to the text of an assembly program.

use crate::backend::build;
use crate::codegen;
use crate::error::CompileError;
use crate::grammar::parse_program;
use crate::lexer::{lex, lexer};
use crate::parser::parse_tokens;
use crate::symbols::{Binding, SymbolTable};
use crate::text::{chars_of, texts};
use vstd::prelude::*;

verus! {

/// Whether a line defines a label: it ends in a colon.
pub open spec fn is_label(line: Seq<char>) -> bool {
    line.len() > 0 && line.last() == ':'
}

/// A line as it stands in the program text: a label at the left margin, any
/// other line behind four blanks, and a newline after it.
pub open spec fn render_line(line: Seq<char>) -> Seq<char> {
    if is_label(line) {
        line + "\n"@
    } else {
        "    "@ + line + "\n"@
    }
}

/// The first `upto` lines as they stand in the program text.
pub open spec fn render_lines(lines: Seq<Seq<char>>, upto: nat) -> Seq<char>
    decreases upto,
{
    if upto == 0 {
        Seq::empty()
    } else {
        render_lines(lines, (upto - 1) as nat) + render_line(lines[upto - 1])
    }
}

/// The text of the assembly program with the body `lines`: the entry point
/// `_start`, the body, and the exit system call.
pub open spec fn render_spec(lines: Seq<Seq<char>>) -> Seq<char> {
    "global _start\nsection .text\n_start:\n"@ + render_lines(lines, lines.len())
        + "    mov rax, 60\n    syscall"@
}

/// The assembly program that a source text compiles to, or the first error.
pub open spec fn compile_spec(source: Seq<char>) -> Result<Seq<char>, CompileError> {
    match lex(source) {
        Err(e) => Err(e),
        Ok(tokens) => {
            let parsed = parse_program(tokens, 0, Seq::<Binding>::empty());
            match parsed.result {
                Err(e) => Err(e),
                Ok(statements) => match codegen::build(statements, parsed.table).result {
                    Err(e) => Err(e),
                    Ok(lines) => Ok(render_spec(lines)),
                },
            }
        },
    }
}

fn ends_in_colon(line: &str) -> (r: bool)
    ensures
        r == is_label(line@),
{
    let chars = chars_of(line);
    chars.len() > 0 && chars[chars.len() - 1] == ':'
}

/// Lays the lines of a program body out as the text of a complete assembly
/// program.
pub fn render(lines: &Vec<String>) -> (text: String)
    ensures
        text@ == render_spec(texts(lines@)),
{
    let mut body = String::new();
    let mut i: usize = 0;
    while i < lines.len()
        invariant
            i <= lines@.len(),
            body@ == render_lines(texts(lines@), i as nat),
        decreases lines@.len() - i,
    {
        let line = lines[i].as_str();
        if !ends_in_colon(line) {
            body.append("    ");
        }
        body.append(line);
        body.append("\n");
        i += 1;
    }
    let mut text = String::from_str("global _start\nsection .text\n_start:\n");
    text.append(body.as_str());
    text.append("    mov rax, 60\n    syscall");
    text
}

/// Compiles a source text to the text of an assembly program whose exit
/// code is the value of the variable referenced last. The result depends on
/// the source text alone.
pub fn compile(src: String) -> (r: Result<String, CompileError>)
    ensures
        match r {
            Ok(text) => compile_spec(src@) == Ok::<Seq<char>, CompileError>(text@),
            Err(e) => compile_spec(src@) == Err::<Seq<char>, CompileError>(e),
        },
{
    let mut tokens = match lexer(src) {
        Err(e) => {
            return Err(e);
        },
        Ok(tokens) => tokens,
    };
    let mut symbol_table = SymbolTable::new();
    let mut statements = match parse_tokens(&mut tokens, &mut symbol_table) {
        Err(e) => {
            return Err(e);
        },
        Ok(statements) => statements,
    };
    match build(&mut statements, &mut symbol_table) {
        Err(e) => Err(e),
        Ok(lines) => Ok(render(&lines)),
    }
}

} // verus!
