use ttc::compiler::{compile, render};
use ttc::error::{ErrorKind, Fault};
use ttc::symbols::SymbolTable;
use ttc::representations::{Symbol, Type};
use ttc::text::{decimal_string, read_number};

#[test]
fn a_program_is_framed_by_entry_point_and_exit_call() {
    assert_eq!(
        compile("const int x = 3 + 4 * 2;".to_string()).unwrap(),
        "global _start\n\
         section .text\n\
         _start:\n\
         \x20   mov rbp, rsp\n\
         \x20   lea rsp, [rsp - 8]\n\
         \x20   mov r8, 3\n\
         \x20   mov r9, 4\n\
         \x20   mov r10, 2\n\
         \x20   mov rax, r9\n\
         \x20   mul r10\n\
         \x20   mov r9, rax\n\
         \x20   add r8, r9\n\
         \x20   mov qword [rbp - 0], r8\n\
         \x20   mov rdi, qword [rbp - 0]\n\
         \x20   mov rax, 60\n\
         \x20   syscall"
    );
}

#[test]
fn labels_stand_at_the_left_margin() {
    let text = compile("mut int n = 3; while n > 0 { n = n - 1; }".to_string()).unwrap();
    let lines: Vec<&str> = text.lines().collect();
    for line in &lines[3..] {
        if line.ends_with(':') {
            assert!(!line.starts_with(' '), "{}", line);
        } else {
            assert!(line.starts_with("    ") && !line.starts_with("     "), "{}", line);
        }
    }
    assert!(lines.contains(&"start_while_1:"));
    assert!(lines.contains(&"while_1:"));
    assert!(lines.contains(&"end_while_1:"));
    assert!(lines.contains(&"    jmp start_while_1"));
}

#[test]
fn render_indents_by_the_last_character_of_a_line() {
    let lines = vec!["a:".to_string(), "b: c".to_string(), String::new(), ":".to_string()];
    assert_eq!(
        render(&lines),
        "global _start\nsection .text\n_start:\na:\n    b: c\n    \n:\n    mov rax, 60\n    syscall"
    );
    assert_eq!(
        render(&Vec::new()),
        "global _start\nsection .text\n_start:\n    mov rax, 60\n    syscall"
    );
}

#[test]
fn the_same_source_gives_the_same_assembly() {
    let src = "const int a = 5; mut int b = a * 2; const int* p = &a; \
               while b > 1 { b = b - *p; if b == 3 { break; } } const int[2] xs = [a, b];";
    let first = compile(src.to_string()).unwrap();
    for _ in 0..5 {
        assert_eq!(compile(src.to_string()).unwrap(), first);
    }
}

#[test]
fn every_stage_reports_its_own_kind_of_error() {
    let e = compile("const int x = 1 # 2;".to_string()).unwrap_err();
    assert_eq!((e.fault, e.kind(), e.line, e.column), (Fault::BadCharacter, ErrorKind::LexError, 1, 17));
    let e = compile("const int x = 1 2;".to_string()).unwrap_err();
    assert_eq!((e.fault, e.kind()), (Fault::MissingSemicolon, ErrorKind::ParseError));
    let e = compile("const int x = true;".to_string()).unwrap_err();
    assert_eq!((e.fault, e.kind()), (Fault::DeclarationMismatch, ErrorKind::TypeError));
    let e = compile("const bool b = true; while b { }".to_string());
    assert_eq!(e.unwrap_err().kind(), ErrorKind::ParseError);
    let e = compile("const bool b = true; while b { break; }".to_string()).unwrap_err();
    assert_eq!((e.fault, e.kind()), (Fault::GuardNotComparison, ErrorKind::GenError));
}

#[test]
fn faults_belong_to_their_kinds() {
    for fault in [Fault::BadCharacter, Fault::UnterminatedOperator] {
        assert_eq!(fault.kind(), ErrorKind::LexError);
    }
    for fault in [
        Fault::UnexpectedToken,
        Fault::UnexpectedEnd,
        Fault::MissingSemicolon,
        Fault::MissingParen,
        Fault::MissingBracket,
        Fault::BreakOutsideLoop,
        Fault::Redeclaration,
        Fault::UnknownIdentifier,
        Fault::AssignToConst,
        Fault::BadArrayLength,
    ] {
        assert_eq!(fault.kind(), ErrorKind::ParseError);
    }
    for fault in [
        Fault::OperandMismatch,
        Fault::DeclarationMismatch,
        Fault::GuardNotBool,
        Fault::MixedList,
        Fault::AddressOfTemporary,
        Fault::DerefNonPointer,
    ] {
        assert_eq!(fault.kind(), ErrorKind::TypeError);
    }
    for fault in [
        Fault::GuardNotComparison,
        Fault::UnknownOperator,
        Fault::BadBoolean,
        Fault::UnknownSymbol,
        Fault::UnassignedOffset,
        Fault::ImmutableTarget,
        Fault::PointerToRegister,
        Fault::AddressOfNonMemory,
        Fault::NestedList,
        Fault::BreakWithoutLoop,
        Fault::UnsizedSymbol,
        Fault::FrameTooLarge,
        Fault::TooManyLabels,
    ] {
        assert_eq!(fault.kind(), ErrorKind::GenError);
    }
}

#[test]
fn decimal_numerals() {
    assert_eq!(decimal_string(0), "0");
    assert_eq!(decimal_string(7), "7");
    assert_eq!(decimal_string(10), "10");
    assert_eq!(decimal_string(1234567890), "1234567890");
    assert_eq!(decimal_string(u64::MAX), "18446744073709551615");
}

#[test]
fn reading_decimal_numerals() {
    assert_eq!(read_number("0"), Some(0));
    assert_eq!(read_number("007"), Some(7));
    assert_eq!(read_number("1234567890"), Some(1234567890));
    assert_eq!(read_number("18446744073709551615"), Some(u64::MAX));
    assert_eq!(read_number("18446744073709551616"), None);
    assert_eq!(read_number("99999999999999999999999"), None);
    assert_eq!(read_number(""), None);
    assert_eq!(read_number("12a"), None);
    assert_eq!(read_number("-1"), None);
    assert_eq!(read_number("١"), None);
    for n in [0u64, 9, 10, 99, 100, 4096, u64::MAX - 1] {
        assert_eq!(read_number(&decimal_string(n)), Some(n));
    }
}

#[test]
fn the_symbol_table_keeps_the_order_of_declaration() {
    let mut table = SymbolTable::new();
    assert_eq!(table.len(), 0);
    assert!(table.get("a").is_none());
    assert_eq!(table.find("a"), None);
    let symbol = |line| Symbol {
        stack_offset: None,
        _type: Type::Int,
        mutable: true,
        init_line: line,
        last_ref: line,
    };
    table.insert("a".to_string(), symbol(1));
    table.insert("b".to_string(), symbol(2));
    table.insert("a".to_string(), symbol(3));
    assert_eq!(table.len(), 2);
    assert_eq!(table.find("a"), Some(0));
    assert_eq!(table.find("b"), Some(1));
    assert_eq!(table.find("ab"), None);
    assert_eq!(table.get("a").unwrap().init_line, 3);
    assert_eq!(table.symbol_at(1).init_line, 2);
    assert_eq!(table.name_at(0), "a");
    assert_eq!(table.name_at(1), "b");
    let copy = table.get("b").unwrap().clone();
    assert_eq!((copy.init_line, copy.last_ref, copy.mutable), (2, 2, true));
}

#[test]
fn types_compare_by_structure() {
    let pointer = |inner: Type| Type::Pointer(Box::new(inner));
    let array = |inner: Type, n: u64| Type::Array(Box::new(inner), n);
    assert_eq!(Type::Int, Type::Int);
    assert_ne!(Type::Int, Type::Bool);
    assert_ne!(Type::Untyped, Type::Int);
    assert_eq!(pointer(array(Type::Int, 3)), pointer(array(Type::Int, 3)));
    assert_ne!(pointer(array(Type::Int, 3)), pointer(array(Type::Int, 4)));
    assert_ne!(pointer(array(Type::Int, 3)), pointer(array(Type::Bool, 3)));
    assert_ne!(pointer(Type::Int), array(Type::Int, 1));
    assert_eq!(pointer(array(Type::Int, 3)).clone(), pointer(array(Type::Int, 3)));
}
