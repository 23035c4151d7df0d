use std::collections::VecDeque;
use ttc::backend::{allocate_stack_memory, build, get_type_size};
use ttc::error::{CompileError, ErrorKind, Fault};
use ttc::lexer::lexer;
use ttc::parser::parse_tokens;
use ttc::representations::{
    Assignment, Block, Expression, InnerAddrType, List, Literal, Statement, Symbol, Token,
    TokenType, Type,
};
use ttc::symbols::SymbolTable;

fn lines_of(src: &str) -> Result<Vec<String>, CompileError> {
    let mut tokens = lexer(src.to_string()).unwrap();
    let mut table = SymbolTable::new();
    let mut statements = parse_tokens(&mut tokens, &mut table).unwrap();
    let lines = build(&mut statements, &mut table)?;
    assert_eq!(statements.len(), 0);
    Ok(lines)
}

fn assembly(src: &str) -> Vec<String> {
    lines_of(src).unwrap()
}

fn symbol(ty: Type, mutable: bool, line: usize) -> Symbol {
    Symbol { stack_offset: None, _type: ty, mutable, init_line: line, last_ref: line }
}

fn token(ty: Type, kind: TokenType, lexeme: &str) -> Token {
    Token::new(ty, kind, lexeme.to_string(), 4, 2)
}

fn number(lexeme: &str) -> Expression {
    Expression::Literal(Literal::Int(token(Type::Int, TokenType::Literal, lexeme)))
}

fn variable(name: &str) -> Expression {
    Expression::Literal(Literal::Symbol(token(Type::Untyped, TokenType::Identifier, name)))
}

fn operator(lexeme: &str) -> Token {
    token(Type::Untyped, TokenType::Operator, lexeme)
}

fn binary(l: Expression, op: &str, r: Expression) -> Expression {
    Expression::Binary(Box::new(l), operator(op), Box::new(r))
}

fn declare(name: &str, value: Expression) -> Statement {
    Statement::Assignment(Assignment::Value(Type::Int, name.to_string()), value)
}

fn one_int(name: &str) -> SymbolTable {
    let mut table = SymbolTable::new();
    table.insert(name.to_string(), symbol(Type::Int, true, 1));
    table
}

fn generate(statements: Vec<Statement>, table: &mut SymbolTable) -> Result<Vec<String>, CompileError> {
    let mut queue: VecDeque<Statement> = statements.into();
    build(&mut queue, table)
}

#[test]
fn a_sum_of_a_product_uses_three_scratch_registers() {
    assert_eq!(
        assembly("const int x = 3 + 4 * 2;"),
        vec![
            "mov rbp, rsp",
            "lea rsp, [rsp - 8]",
            "mov r8, 3",
            "mov r9, 4",
            "mov r10, 2",
            "mov rax, r9",
            "mul r10",
            "mov r9, rax",
            "add r8, r9",
            "mov qword [rbp - 0], r8",
            "mov rdi, qword [rbp - 0]",
        ]
    );
}

#[test]
fn groups_only_order_the_evaluation() {
    assert_eq!(
        assembly("const int x = (1 + 2) * (3 + 4);"),
        vec![
            "mov rbp, rsp",
            "lea rsp, [rsp - 8]",
            "mov r8, 1",
            "mov r9, 2",
            "add r8, r9",
            "mov r10, 3",
            "mov r11, 4",
            "add r10, r11",
            "mov rax, r8",
            "mul r10",
            "mov r8, rax",
            "mov qword [rbp - 0], r8",
            "mov rdi, qword [rbp - 0]",
        ]
    );
}

#[test]
fn a_variable_is_read_from_its_slot_into_rax() {
    assert_eq!(
        assembly("const int x = 10; const int y = x - 3;"),
        vec![
            "mov rbp, rsp",
            "lea rsp, [rsp - 16]",
            "mov r8, 10",
            "mov qword [rbp - 0], r8",
            "mov r9, 3",
            "mov rax, qword [rbp - 0]",
            "sub rax, r9",
            "mov r10, rax",
            "mov qword [rbp - 8], r10",
            "mov rdi, qword [rbp - 8]",
        ]
    );
}

#[test]
fn assignments_store_to_the_slot_of_the_variable() {
    assert_eq!(
        assembly("mut int y = 0; y = y + 5; y = y * 2;"),
        vec![
            "mov rbp, rsp",
            "lea rsp, [rsp - 8]",
            "mov r8, 0",
            "mov qword [rbp - 0], r8",
            "mov r9, 5",
            "mov rax, qword [rbp - 0]",
            "add rax, r9",
            "mov r10, rax",
            "mov qword [rbp - 0], r10",
            "mov r11, 2",
            "mov rax, qword [rbp - 0]",
            "mul r11",
            "mov r8, rax",
            "mov qword [rbp - 0], r8",
            "mov rdi, qword [rbp - 0]",
        ]
    );
}

#[test]
fn a_variable_copied_to_a_variable_goes_through_rax() {
    assert_eq!(
        assembly("const int x = 1; mut int y = x;"),
        vec![
            "mov rbp, rsp",
            "lea rsp, [rsp - 16]",
            "mov r8, 1",
            "mov qword [rbp - 0], r8",
            "mov rax, qword [rbp - 0]",
            "mov qword [rbp - 8], rax",
            "mov rdi, qword [rbp - 8]",
        ]
    );
}

#[test]
fn if_else_emits_the_else_branch_first() {
    assert_eq!(
        assembly("const int x = 3; if x > 1 { mut int y = 42; } else { mut int z = 0; }"),
        vec![
            "mov rbp, rsp",
            "lea rsp, [rsp - 24]",
            "mov r8, 3",
            "mov qword [rbp - 0], r8",
            "mov r9, 1",
            "mov rax, qword [rbp - 0]",
            "cmp rax, r9",
            "jg if_else_1",
            "mov r10, 0",
            "mov qword [rbp - 16], r10",
            "jmp end_if_else_1",
            "if_else_1:",
            "mov r11, 42",
            "mov qword [rbp - 8], r11",
            "end_if_else_1:",
            "mov rdi, qword [rbp - 16]",
        ]
    );
}

#[test]
fn if_jumps_over_its_body() {
    assert_eq!(
        assembly("mut int y = 1; if y <= 1 y = 2;"),
        vec![
            "mov rbp, rsp",
            "lea rsp, [rsp - 8]",
            "mov r8, 1",
            "mov qword [rbp - 0], r8",
            "mov r9, 1",
            "mov rax, qword [rbp - 0]",
            "cmp rax, r9",
            "jle if_1",
            "jmp end_if_1",
            "if_1:",
            "mov r10, 2",
            "mov qword [rbp - 0], r10",
            "end_if_1:",
            "mov rdi, qword [rbp - 0]",
        ]
    );
}

#[test]
fn while_tests_at_the_top_and_break_jumps_behind_the_loop() {
    assert_eq!(
        assembly("mut int n = 3; while n > 0 { n = n - 1; break; }"),
        vec![
            "mov rbp, rsp",
            "lea rsp, [rsp - 8]",
            "mov r8, 3",
            "mov qword [rbp - 0], r8",
            "start_while_1:",
            "mov r9, 0",
            "mov rax, qword [rbp - 0]",
            "cmp rax, r9",
            "jg while_1",
            "jmp end_while_1",
            "while_1:",
            "mov r10, 1",
            "mov rax, qword [rbp - 0]",
            "sub rax, r10",
            "mov r11, rax",
            "mov qword [rbp - 0], r11",
            "jmp end_while_1",
            "jmp start_while_1",
            "end_while_1:",
            "mov rdi, qword [rbp - 0]",
        ]
    );
}

#[test]
fn nested_control_statements_get_labels_of_their_own() {
    let lines = assembly(
        "mut int n = 1; while n < 9 { if n == 2 { n = 5; } while n != 7 { n = n + 1; break; } if n >= 8 break; else n = n + 1; }",
    );
    let mut labels: Vec<&String> = lines.iter().filter(|l| l.ends_with(':')).collect();
    assert_eq!(labels.len(), 10);
    labels.sort();
    labels.dedup();
    assert_eq!(labels.len(), 10);
    for label in ["while_1:", "if_2:", "while_3:", "if_else_4:", "end_while_1:", "end_while_3:"] {
        assert!(lines.iter().any(|l| l == label), "{}", label);
    }
    let inner_break = lines.iter().position(|l| l == "jmp end_while_3").unwrap();
    let outer_break = lines.iter().rposition(|l| l == "jmp end_while_1").unwrap();
    assert!(inner_break < outer_break);
}

#[test]
fn every_comparison_has_its_jump_and_its_set_instruction() {
    for (op, jump, set) in [
        ("==", "je", "sete"),
        ("!=", "jne", "setne"),
        ("<", "jl", "setb"),
        (">", "jg", "seta"),
        ("<=", "jle", "setbe"),
        (">=", "jge", "setae"),
    ] {
        let lines = assembly(&format!("mut int y = 1; if y {} 2 y = 3;", op));
        assert_eq!(lines[7], format!("{} if_1", jump));
        let lines = assembly(&format!("const bool b = 1 {} 2;", op));
        assert_eq!(
            lines[2..],
            [
                "mov r8, 1".to_string(),
                "mov r9, 2".to_string(),
                "cmp r8, r9".to_string(),
                format!("{} al", set),
                "movzx r8, al".to_string(),
                "mov qword [rbp - 0], r8".to_string(),
                "mov rdi, qword [rbp - 0]".to_string(),
            ]
        );
    }
}

#[test]
fn division_and_remainder_go_through_rax_and_rdx() {
    assert_eq!(
        assembly("const int q = 7 / 2;")[2..7],
        ["mov r8, 7", "mov r9, 2", "mov rax, r8", "xor rdx, rdx", "div r9"]
    );
    assert_eq!(assembly("const int q = 7 / 2;")[7], "mov r8, rax");
    assert_eq!(
        assembly("const int q = 7 % 2;")[2..8],
        ["mov r8, 7", "mov r9, 2", "mov rax, r8", "xor rdx, rdx", "div r9", "mov r8, rdx"]
    );
    assert_eq!(
        assembly("const int a = 7; const int q = a % 2;")[4..10],
        [
            "mov r9, 2",
            "mov rax, qword [rbp - 0]",
            "xor rdx, rdx",
            "div r9",
            "mov rax, rdx",
            "mov r10, rax"
        ]
    );
    assert_eq!(
        assembly("const int a = 7; const int q = a * 2;")[4..8],
        ["mov r9, 2", "mov rax, qword [rbp - 0]", "mul r9", "mov r10, rax"]
    );
}

#[test]
fn booleans_are_stored_as_one_and_zero() {
    assert_eq!(assembly("const bool t = true; const bool f = false;")[2..6], [
        "mov r8, 1",
        "mov qword [rbp - 0], r8",
        "mov r9, 0",
        "mov qword [rbp - 8], r9"
    ]);
}

#[test]
fn a_pointer_holds_the_address_of_a_variable() {
    assert_eq!(
        assembly("const int a = 5; const int* p = &a; const int b = *p;"),
        vec![
            "mov rbp, rsp",
            "lea rsp, [rsp - 24]",
            "mov r8, 5",
            "mov qword [rbp - 0], r8",
            "lea rax, [rbp - 0]",
            "mov qword [rbp - 8], rax",
            "mov rax, qword [rbp - 8]",
            "mov r9, qword [rax]",
            "mov qword [rbp - 16], r9",
            "mov rdi, qword [rbp - 16]",
        ]
    );
}

#[test]
fn a_list_is_pushed_last_element_first_and_its_pointer_is_the_stack_top() {
    assert_eq!(
        assembly("const int a = 8; const int[3] xs = [7,a,9];"),
        vec![
            "mov rbp, rsp",
            "lea rsp, [rsp - 16]",
            "mov r8, 8",
            "mov qword [rbp - 0], r8",
            "mov rax, 9",
            "push rax",
            "mov rax, qword [rbp - 0]",
            "push rax",
            "mov rax, 7",
            "push rax",
            "mov qword [rbp - 8], rsp",
            "mov rdi, qword [rbp - 8]",
        ]
    );
}

#[test]
fn negation_negates_in_place_or_through_rax() {
    assert_eq!(assembly("const int x = -3;")[2..4], ["mov r8, 3", "neg r8"]);
    assert_eq!(
        assembly("const int a = 3; const int x = -a;")[4..8],
        ["mov rax, qword [rbp - 0]", "neg rax", "mov r9, rax", "mov qword [rbp - 8], r9"]
    );
}

#[test]
fn results_spill_to_the_stack_when_no_register_is_free() {
    assert_eq!(
        assembly("const int x = 1 + (2 + (3 + (4 + (5 + 6))));"),
        vec![
            "mov rbp, rsp",
            "lea rsp, [rsp - 8]",
            "mov r8, 1",
            "mov r9, 2",
            "mov r10, 3",
            "mov r11, 4",
            "mov rax, 5",
            "push rax",
            "mov rax, 6",
            "push rax",
            "pop rcx",
            "pop rax",
            "add rax, rcx",
            "push rax",
            "pop rcx",
            "add r11, rcx",
            "add r10, r11",
            "add r9, r10",
            "add r8, r9",
            "mov qword [rbp - 0], r8",
            "mov rdi, qword [rbp - 0]",
        ]
    );
}

#[test]
fn registers_are_handed_back_after_every_statement() {
    let lines = assembly(
        "const int a = 1; const int b = 2; const int c = 3; const int d = 4; const int e = 5; const int f = 6 + 7;",
    );
    assert!(!lines.iter().any(|l| l.starts_with("push") || l.starts_with("pop")));
    assert_eq!(lines[10..14], ["mov r8, 5", "mov qword [rbp - 32], r8", "mov r9, 6", "mov r10, 7"]);
    let lines = assembly("mut int n = 0; while n < 1 n = 1; while n < 2 n = 2; while n < 3 n = 3;");
    assert!(!lines.iter().any(|l| l.starts_with("push") || l.starts_with("pop")));
}

#[test]
fn the_exit_code_is_the_variable_referenced_last() {
    assert_eq!(
        assembly("mut int a = 1;\nconst int b = 2;\na = 5;").last().unwrap(),
        "mov rdi, qword [rbp - 0]"
    );
    assert_eq!(
        assembly("mut int a = 1;\nconst int b = 2;").last().unwrap(),
        "mov rdi, qword [rbp - 8]"
    );
    assert_eq!(
        assembly("mut int a = 1; const int b = 2; a = 5;").last().unwrap(),
        "mov rdi, qword [rbp - 8]"
    );
}

#[test]
fn an_integer_literal_is_emitted_as_it_was_written() {
    assert_eq!(assembly("const int x = 007;")[2], "mov r8, 007");
    assert_eq!(assembly("const int x = 1a;")[2], "mov r8, 1a");
}

#[test]
fn a_program_without_variables_exits_with_zero() {
    assert_eq!(assembly(""), vec!["mov rbp, rsp", "lea rsp, [rsp - 0]", "mov rdi, 0"]);
}

#[test]
fn a_guard_that_is_no_comparison_is_a_generator_error() {
    let e = lines_of("const bool b = true; if b { mut int y = 1; }").unwrap_err();
    assert_eq!((e.fault, e.kind()), (Fault::GuardNotComparison, ErrorKind::GenError));
    assert_eq!((e.line, e.column), (1, 25));
    let e = lines_of("mut int y = 1;\nwhile (y < 2) { y = 2; }").unwrap_err();
    assert_eq!((e.fault, e.line, e.column), (Fault::GuardNotComparison, 2, 7));
    let e = lines_of("const bool b = true;\n  if true == b == b { mut int y = 1; }");
    assert!(e.is_ok());
    let e = lines_of("const bool b = true;\n  while -1 < 2 == b break;");
    assert!(e.is_ok());
    let mut table = one_int("y");
    let e = generate(
        vec![Statement::If(
            binary(variable("y"), "+", number("1")),
            Box::new(Statement::Block(Box::new(Block::Statement(Statement::Break)))),
        )],
        &mut table,
    )
    .unwrap_err();
    assert_eq!((e.fault, e.line, e.column), (Fault::GuardNotComparison, 4, 2));
}

#[test]
fn a_pointer_to_a_value_in_a_register_is_a_generator_error() {
    let e = lines_of("const int a = 1; const int* p = &a; const int* q = (p);");
    assert!(e.is_ok());
    let e = lines_of("const int a = 1; const int* p = &a; const int* q = *&p;").unwrap_err();
    assert_eq!((e.fault, e.kind()), (Fault::PointerToRegister, ErrorKind::GenError));
    let mut table = one_int("p");
    let e = generate(
        vec![Statement::Assignment(
            Assignment::Pointer(Type::Pointer(Box::new(Type::Int)), "p".to_string()),
            number("1"),
        )],
        &mut table,
    )
    .unwrap_err();
    assert_eq!((e.fault, e.kind()), (Fault::PointerToRegister, ErrorKind::GenError));
}

#[test]
fn inconsistent_trees_are_generator_errors() {
    let mut table = one_int("y");
    let e = generate(vec![declare("y", binary(number("1"), "^", number("2")))], &mut table)
        .unwrap_err();
    assert_eq!((e.fault, e.kind()), (Fault::UnknownOperator, ErrorKind::GenError));
    assert_eq!((e.line, e.column), (4, 2));

    let mut table = one_int("y");
    let e = generate(
        vec![declare("y", Expression::Unary(operator("!"), Box::new(number("1"))))],
        &mut table,
    )
    .unwrap_err();
    assert_eq!(e.fault, Fault::UnknownOperator);

    let mut table = one_int("y");
    let e = generate(
        vec![declare(
            "y",
            Expression::Literal(Literal::Bool(token(Type::Bool, TokenType::Literal, "maybe"))),
        )],
        &mut table,
    )
    .unwrap_err();
    assert_eq!((e.fault, e.kind()), (Fault::BadBoolean, ErrorKind::GenError));

    let mut table = one_int("y");
    let e = generate(vec![declare("y", variable("nowhere"))], &mut table).unwrap_err();
    assert_eq!((e.fault, e.kind()), (Fault::UnknownSymbol, ErrorKind::GenError));

    let mut table = one_int("y");
    let e = generate(vec![declare("z", number("1"))], &mut table).unwrap_err();
    assert_eq!((e.fault, e.line), (Fault::UnknownSymbol, 0));

    let mut table = SymbolTable::new();
    table.insert("c".to_string(), symbol(Type::Int, false, 1));
    let e = generate(
        vec![Statement::Assignment(Assignment::Mutation("c".to_string()), number("1"))],
        &mut table,
    )
    .unwrap_err();
    assert_eq!((e.fault, e.kind()), (Fault::ImmutableTarget, ErrorKind::GenError));

    let mut table = one_int("y");
    let e = generate(
        vec![declare("y", Expression::Unary(operator("&"), Box::new(number("1"))))],
        &mut table,
    )
    .unwrap_err();
    assert_eq!((e.fault, e.kind()), (Fault::AddressOfNonMemory, ErrorKind::GenError));

    let mut table = one_int("y");
    let inner = Literal::List(Box::new(List::Literal(Literal::Int(token(
        Type::Int,
        TokenType::Literal,
        "1",
    )))));
    let e = generate(
        vec![declare("y", Expression::Literal(Literal::List(Box::new(List::Literal(inner)))))],
        &mut table,
    )
    .unwrap_err();
    assert_eq!((e.fault, e.kind()), (Fault::NestedList, ErrorKind::GenError));

    let mut table = one_int("y");
    let e = generate(vec![Statement::Break], &mut table).unwrap_err();
    assert_eq!((e.fault, e.kind()), (Fault::BreakWithoutLoop, ErrorKind::GenError));
}

#[test]
fn a_failed_generation_leaves_the_statements() {
    let mut table = one_int("y");
    let mut queue: VecDeque<Statement> =
        vec![declare("y", number("1")), Statement::Break, declare("y", number("2"))].into();
    assert!(build(&mut queue, &mut table).is_err());
    assert_eq!(queue.len(), 3);
    assert_eq!(table.get("y").unwrap().stack_offset, Some(0));
}

#[test]
fn sizes_of_types() {
    assert_eq!(get_type_size(&Type::Int), Ok(8));
    assert_eq!(get_type_size(&Type::Bool), Ok(8));
    assert_eq!(get_type_size(&Type::Pointer(Box::new(Type::Untyped))), Ok(8));
    assert_eq!(get_type_size(&Type::Array(Box::new(Type::Int), 3)), Ok(24));
    assert_eq!(get_type_size(&Type::Array(Box::new(Type::Int), 0)), Ok(0));
    assert_eq!(
        get_type_size(&Type::Array(Box::new(Type::Array(Box::new(Type::Bool), 5)), 4)),
        Ok(160)
    );
    assert_eq!(get_type_size(&Type::Untyped), Err(Fault::UnsizedSymbol));
    assert_eq!(
        get_type_size(&Type::Array(Box::new(Type::Untyped), 0)),
        Err(Fault::UnsizedSymbol)
    );
    assert_eq!(
        get_type_size(&Type::Array(Box::new(Type::Int), u64::MAX / 8)),
        Ok(u64::MAX - 7)
    );
    assert_eq!(
        get_type_size(&Type::Array(Box::new(Type::Int), u64::MAX / 8 + 1)),
        Err(Fault::FrameTooLarge)
    );
    let huge = Type::Array(Box::new(Type::Int), u64::MAX);
    assert_eq!(get_type_size(&Type::Array(Box::new(huge.clone()), 2)), Err(Fault::FrameTooLarge));
    assert_eq!(get_type_size(&Type::Array(Box::new(huge), 0)), Ok(0));
}

#[test]
fn slots_follow_each_other_without_overlap() {
    let mut table = SymbolTable::new();
    table.insert("a".to_string(), symbol(Type::Int, false, 1));
    table.insert("xs".to_string(), symbol(Type::Array(Box::new(Type::Int), 3), false, 2));
    table.insert("b".to_string(), symbol(Type::Bool, true, 3));
    table.insert("p".to_string(), symbol(Type::Pointer(Box::new(Type::Int)), true, 4));
    table.insert("e".to_string(), symbol(Type::Array(Box::new(Type::Int), 0), true, 5));
    table.insert("z".to_string(), symbol(Type::Int, true, 6));
    assert_eq!(allocate_stack_memory(&mut table), Ok(56));
    let offsets: Vec<u64> =
        (0..table.len()).map(|i| table.symbol_at(i).stack_offset.unwrap()).collect();
    assert_eq!(offsets, vec![0, 8, 32, 40, 48, 48]);
    for i in 0..table.len() {
        let (start, size) = (offsets[i], get_type_size(&table.symbol_at(i)._type).unwrap());
        assert_eq!(start % 8, 0);
        assert!(start + size <= 56);
        for j in 0..i {
            let (other, other_size) =
                (offsets[j], get_type_size(&table.symbol_at(j)._type).unwrap());
            assert!(start + size <= other || other + other_size <= start);
        }
    }
    assert_eq!(table.get("b").unwrap().last_ref, 3);
    assert!(table.get("b").unwrap().mutable);
}

#[test]
fn a_frame_that_cannot_be_laid_out_leaves_the_table() {
    let mut table = SymbolTable::new();
    table.insert("a".to_string(), symbol(Type::Int, false, 1));
    table.insert("u".to_string(), symbol(Type::Untyped, false, 2));
    let e = allocate_stack_memory(&mut table).unwrap_err();
    assert_eq!((e.fault, e.kind()), (Fault::UnsizedSymbol, ErrorKind::GenError));
    assert_eq!(table.get("a").unwrap().stack_offset, None);

    let mut table = SymbolTable::new();
    table.insert("a".to_string(), symbol(Type::Array(Box::new(Type::Int), u64::MAX / 8), false, 1));
    table.insert("b".to_string(), symbol(Type::Int, false, 2));
    let e = allocate_stack_memory(&mut table).unwrap_err();
    assert_eq!((e.fault, e.kind()), (Fault::FrameTooLarge, ErrorKind::GenError));
    assert_eq!(table.get("a").unwrap().stack_offset, None);
    let mut queue = VecDeque::new();
    assert_eq!(build(&mut queue, &mut table).unwrap_err().fault, Fault::FrameTooLarge);
}

#[test]
fn only_a_variable_slot_is_memory() {
    assert!(InnerAddrType::StackOffset(16).is_memory());
    assert!(!InnerAddrType::Stack.is_memory());
    assert!(!InnerAddrType::Reg("r8".to_string()).is_memory());
}
