use std::collections::VecDeque;
use ttc::error::{CompileError, ErrorKind, Fault};
use ttc::lexer::lexer;
use ttc::parser::parse_tokens;
use ttc::representations::{
    Assignment, Block, Expression, List, Literal, Statement, Token, TokenType, Type,
};
use ttc::symbols::SymbolTable;

fn parse(src: &str) -> Result<(VecDeque<Statement>, SymbolTable), CompileError> {
    let mut tokens = lexer(src.to_string()).unwrap();
    let mut table = SymbolTable::new();
    let statements = parse_tokens(&mut tokens, &mut table)?;
    assert_eq!(tokens.len(), 0);
    Ok((statements, table))
}

fn fails(src: &str) -> CompileError {
    match parse(src) {
        Ok(_) => panic!("accepted: {}", src),
        Err(e) => e,
    }
}

/// An expression written out with every operator application in brackets.
fn show(e: &Expression) -> String {
    match e {
        Expression::Binary(l, op, r) => format!("({} {} {})", show(l), op.lexeme(), show(r)),
        Expression::Unary(op, x) => format!("({}{})", op.lexeme(), show(x)),
        Expression::Literal(l) => show_literal(l),
        Expression::Group(open, x, close) => {
            format!("{}{}{}", open.lexeme(), show(x), close.lexeme())
        }
    }
}

fn show_literal(l: &Literal) -> String {
    match l {
        Literal::Int(t) => format!("i{}", t.lexeme()),
        Literal::Bool(t) => format!("b{}", t.lexeme()),
        Literal::Symbol(t) => format!("${}", t.lexeme()),
        Literal::List(list) => format!("[{}]", show_list(list)),
    }
}

fn show_list(list: &List) -> String {
    match list {
        List::Literal(l) => show_literal(l),
        List::List(l, rest) => format!("{},{}", show_literal(l), show_list(rest)),
    }
}

fn value_of(src: &str) -> String {
    let (statements, _) = parse(src).unwrap();
    match statements.back().unwrap() {
        Statement::Assignment(_, e) => show(e),
        other => panic!("{:?}", other),
    }
}

#[test]
fn multiplication_binds_tighter_than_addition() {
    assert_eq!(value_of("const int x = 3 + 4 * 2;"), "(i3 + (i4 * i2))");
    assert_eq!(value_of("const int x = 3 * 4 + 2;"), "((i3 * i4) + i2)");
    assert_eq!(value_of("const int x = 8 / 4 % 3 - 1;"), "(((i8 / i4) % i3) - i1)");
}

#[test]
fn binary_operators_associate_to_the_left() {
    assert_eq!(value_of("const int x = 1 - 2 - 3;"), "((i1 - i2) - i3)");
    assert_eq!(value_of("const int x = 8 / 4 / 2;"), "((i8 / i4) / i2)");
    assert_eq!(value_of("const bool b = 1 == 2 == true;"), "((i1 == i2) == btrue)");
}

#[test]
fn comparison_binds_tighter_than_equality_and_looser_than_terms() {
    assert_eq!(value_of("const bool b = 1 + 2 < 3 * 4;"), "((i1 + i2) < (i3 * i4))");
    assert_eq!(value_of("const bool b = 1 < 2 == 3 >= 4;"), "((i1 < i2) == (i3 >= i4))");
    assert_eq!(value_of("const bool b = true != 1 <= 2;"), "(btrue != (i1 <= i2))");
}

#[test]
fn groups_are_kept_in_the_tree() {
    assert_eq!(value_of("const int x = (1 + 2) * (3 + 4);"), "(((i1 + i2)) * ((i3 + i4)))");
    assert_eq!(value_of("const int x = ((7));"), "((i7))");
}

#[test]
fn unary_operators_nest_and_bind_tightest() {
    assert_eq!(value_of("const int x = -1 + 2;"), "((-i1) + i2)");
    assert_eq!(value_of("const int x = - - 1;"), "(-(-i1))");
    assert_eq!(value_of("const int a = 1; const int* p = &a; const int x = *p * 2;"), "((*$p) * i2)");
    assert_eq!(value_of("const int a = 1; const int x = *&a;"), "(*(&$a))");
}

#[test]
fn declarations_fill_the_symbol_table() {
    let (statements, table) =
        parse("const int x = 3;\nmut bool b = true;\nconst int* p = &x;\nmut int[2] xs = [1, 2];")
            .unwrap();
    assert_eq!(statements.len(), 4);
    assert_eq!(table.len(), 4);
    let x = table.get("x").unwrap();
    assert_eq!(x._type, Type::Int);
    assert!(!x.mutable);
    assert_eq!((x.init_line, x.last_ref), (1, 1));
    assert_eq!(x.stack_offset, None);
    let b = table.get("b").unwrap();
    assert_eq!(b._type, Type::Bool);
    assert!(b.mutable);
    assert_eq!((b.init_line, b.last_ref), (2, 2));
    assert_eq!(table.get("p").unwrap()._type, Type::Pointer(Box::new(Type::Int)));
    assert_eq!(
        table.get("xs").unwrap()._type,
        Type::Pointer(Box::new(Type::Array(Box::new(Type::Int), 2)))
    );
    assert!(table.get("y").is_none());
    assert_eq!(table.name_at(0), "x");
    assert_eq!(table.name_at(3), "xs");
}

#[test]
fn value_and_pointer_declarations_are_told_apart() {
    let (statements, _) = parse("const int x = 3; const int* p = &x; mut int[1] xs = [x];").unwrap();
    match &statements[0] {
        Statement::Assignment(Assignment::Value(ty, name), _) => {
            assert_eq!(*ty, Type::Int);
            assert_eq!(name, "x");
        }
        other => panic!("{:?}", other),
    }
    match &statements[1] {
        Statement::Assignment(Assignment::Pointer(ty, name), _) => {
            assert_eq!(*ty, Type::Pointer(Box::new(Type::Int)));
            assert_eq!(name, "p");
        }
        other => panic!("{:?}", other),
    }
    match &statements[2] {
        Statement::Assignment(Assignment::Pointer(ty, name), value) => {
            assert_eq!(*ty, Type::Pointer(Box::new(Type::Array(Box::new(Type::Int), 1))));
            assert_eq!(name, "xs");
            assert_eq!(show(value), "[$x]");
        }
        other => panic!("{:?}", other),
    }
}

#[test]
fn assignment_updates_the_line_of_last_reference() {
    let (statements, table) = parse("mut int y = 0;\nconst int z = 1;\n\ny = y + 5;").unwrap();
    match &statements[2] {
        Statement::Assignment(Assignment::Mutation(name), value) => {
            assert_eq!(name, "y");
            assert_eq!(show(value), "($y + i5)");
        }
        other => panic!("{:?}", other),
    }
    let y = table.get("y").unwrap();
    assert_eq!((y.init_line, y.last_ref), (1, 4));
    assert!(y.mutable);
    assert_eq!(table.len(), 2);
    assert_eq!(table.name_at(0), "y");
    assert_eq!(table.get("z").unwrap().last_ref, 2);
}

#[test]
fn control_statements_nest() {
    let (statements, table) = parse(
        "mut int y = 9; if y > 5 { y = y * 2; } else { y = 0; } while y > 1 { y = y - 1; break; }",
    )
    .unwrap();
    assert_eq!(statements.len(), 3);
    match &statements[1] {
        Statement::IfElse(guard, then, otherwise) => {
            assert_eq!(show(guard), "($y > i5)");
            assert!(matches!(**then, Statement::Block(_)));
            assert!(matches!(**otherwise, Statement::Block(_)));
        }
        other => panic!("{:?}", other),
    }
    match &statements[2] {
        Statement::While(guard, body) => {
            assert_eq!(show(guard), "($y > i1)");
            match &**body {
                Statement::Block(block) => match &**block {
                    Block::Block(first, rest) => {
                        assert!(matches!(first, Statement::Assignment(_, _)));
                        assert!(matches!(**rest, Block::Statement(Statement::Break)));
                    }
                    other => panic!("{:?}", other),
                },
                other => panic!("{:?}", other),
            }
        }
        other => panic!("{:?}", other),
    }
    assert_eq!(table.len(), 1);
}

#[test]
fn if_without_else_and_unbraced_bodies() {
    let (statements, _) = parse("mut int y = 1; if y == 1 y = 2; while y < 9 y = y + 1;").unwrap();
    assert!(matches!(&statements[1], Statement::If(_, body) if matches!(**body, Statement::Assignment(_, _))));
    assert!(matches!(&statements[2], Statement::While(_, _)));
}

#[test]
fn break_is_allowed_anywhere_inside_a_loop_body() {
    assert!(parse("mut int n = 1; while n > 0 break;").is_ok());
    assert!(parse("mut int n = 1; while n > 0 { break; }").is_ok());
    assert!(parse("mut int n = 1; while n > 0 { { n = 0; break; } }").is_ok());
}

#[test]
fn break_outside_a_loop_is_a_parse_error() {
    let e = fails("mut int n = 1;\nbreak;");
    assert_eq!(e.fault, Fault::BreakOutsideLoop);
    assert_eq!(e.kind(), ErrorKind::ParseError);
    assert_eq!((e.line, e.column), (2, 1));
    assert_eq!(fails("mut int n = 1; if n > 0 { break; }").fault, Fault::BreakOutsideLoop);
}

#[test]
fn break_inside_an_if_inside_a_loop_follows_the_context_of_the_if() {
    assert!(parse("mut int n = 1; while n > 0 { if n == 1 { break; } }").is_ok());
}

#[test]
fn list_literals_have_pointer_to_array_type() {
    assert_eq!(value_of("const int[3] xs = [7,8,9];"), "[i7,i8,i9]");
    assert_eq!(value_of("const bool[2] bs = [true, false];"), "[btrue,bfalse]");
    assert_eq!(fails("const int[2] xs = [7,8,9];").fault, Fault::DeclarationMismatch);
    assert_eq!(fails("const int[3] xs = [true,false,true];").fault, Fault::DeclarationMismatch);
    assert_eq!(fails("const int* xs = [7,8,9];").fault, Fault::DeclarationMismatch);
}

#[test]
fn empty_and_malformed_lists_are_rejected() {
    assert_eq!(fails("const int[0] xs = [];").fault, Fault::UnexpectedToken);
    assert_eq!(fails("const int[2] xs = [1 2];").fault, Fault::UnexpectedToken);
    assert_eq!(fails("const int[2] xs = [1, (2)];").fault, Fault::UnexpectedToken);
    assert_eq!(fails("const int[2] xs = [1, 2").fault, Fault::UnexpectedEnd);
    assert_eq!(fails("const int[2] xs = [1,").fault, Fault::UnexpectedEnd);
}

#[test]
fn mixed_lists_are_a_type_error() {
    let e = fails("const int[2] xs = [1, true];");
    assert_eq!(e.fault, Fault::MixedList);
    assert_eq!(e.kind(), ErrorKind::TypeError);
    assert_eq!((e.line, e.column), (1, 21));
}

#[test]
fn arithmetic_needs_integers() {
    for op in ["+", "-", "*", "/", "%"] {
        for (l, r) in [("1", "true"), ("true", "1"), ("true", "false")] {
            let e = fails(&format!("const int x = {} {} {};", l, op, r));
            assert_eq!(e.fault, Fault::OperandMismatch, "{} {} {}", l, op, r);
            assert_eq!(e.kind(), ErrorKind::TypeError);
        }
        assert!(parse(&format!("const int x = 6 {} 3;", op)).is_ok());
    }
}

#[test]
fn relations_need_integers() {
    for op in ["<", ">", "<=", ">="] {
        for (l, r) in [("1", "true"), ("true", "1"), ("true", "false")] {
            let e = fails(&format!("const bool b = {} {} {};", l, op, r));
            assert_eq!(e.fault, Fault::OperandMismatch, "{} {} {}", l, op, r);
            assert_eq!(e.kind(), ErrorKind::TypeError);
        }
        assert!(parse(&format!("const bool b = 6 {} 3;", op)).is_ok());
    }
}

#[test]
fn equality_needs_operands_of_one_scalar_type() {
    for op in ["==", "!="] {
        for (l, r) in [("1", "true"), ("true", "1")] {
            let e = fails(&format!("const bool b = {} {} {};", l, op, r));
            assert_eq!(e.fault, Fault::OperandMismatch);
            assert_eq!(e.kind(), ErrorKind::TypeError);
        }
        assert!(parse(&format!("const bool b = 6 {} 3;", op)).is_ok());
        assert!(parse(&format!("const bool b = true {} false;", op)).is_ok());
        let e = fails(&format!("const int a = 1; const int* p = &a; const bool b = p {} p;", op));
        assert_eq!(e.fault, Fault::OperandMismatch);
    }
}

#[test]
fn operand_mismatch_is_reported_at_the_operator() {
    let e = fails("const int x = 1 +\n  2 * true;");
    assert_eq!(e.fault, Fault::OperandMismatch);
    assert_eq!((e.line, e.column), (2, 5));
}

#[test]
fn unary_operators_check_their_operand() {
    let e = fails("const int x = -true;");
    assert_eq!((e.fault, e.kind()), (Fault::OperandMismatch, ErrorKind::TypeError));
    let e = fails("const int* p = &1;");
    assert_eq!((e.fault, e.kind()), (Fault::AddressOfTemporary, ErrorKind::TypeError));
    assert_eq!(fails("const int a = 1; const int* p = &(a);").fault, Fault::AddressOfTemporary);
    assert_eq!(fails("const int a = 1; const int* p = &-a;").fault, Fault::AddressOfTemporary);
    let e = fails("const int a = 1; const int b = *a;");
    assert_eq!((e.fault, e.kind()), (Fault::DerefNonPointer, ErrorKind::TypeError));
    assert_eq!((e.line, e.column), (1, 32));
}

#[test]
fn dereferencing_a_pointer_to_an_array_yields_the_array() {
    let e = fails("const int[3] xs = [7,8,9]; const int y = *xs;");
    assert_eq!((e.fault, e.kind()), (Fault::DeclarationMismatch, ErrorKind::TypeError));
}

#[test]
fn initialiser_must_have_the_declared_type() {
    let e = fails("const int x = true;");
    assert_eq!((e.fault, e.kind()), (Fault::DeclarationMismatch, ErrorKind::TypeError));
    assert_eq!((e.line, e.column), (1, 1));
    assert_eq!(fails("mut bool b = 1 + 2;").fault, Fault::DeclarationMismatch);
    assert_eq!(fails("const int a = 1; const int p = &a;").fault, Fault::DeclarationMismatch);
    assert_eq!(fails("const int a = 1; const bool* p = &a;").fault, Fault::DeclarationMismatch);
}

#[test]
fn assigned_value_must_have_the_type_of_the_variable() {
    let e = fails("mut int y = 0;\ny = true;");
    assert_eq!((e.fault, e.kind()), (Fault::DeclarationMismatch, ErrorKind::TypeError));
    assert_eq!((e.line, e.column), (2, 1));
}

#[test]
fn guards_must_be_boolean() {
    let e = fails("mut int y = 0; if y + 1 { y = 1; }");
    assert_eq!((e.fault, e.kind()), (Fault::GuardNotBool, ErrorKind::TypeError));
    assert_eq!((e.line, e.column), (1, 16));
    assert_eq!(fails("mut int y = 0; while y { y = 1; }").fault, Fault::GuardNotBool);
}

#[test]
fn a_pointer_takes_any_expression_of_its_type() {
    assert!(parse("const int a = 1; const int* p = &a; const int* q = p;").is_ok());
    assert!(parse("const int a = 1; const int* p = (&a);").is_ok());
    let (statements, table) =
        parse("const int a = 1;\nconst int* p = &a;\nmut int* q = *&p;").unwrap();
    match &statements[2] {
        Statement::Assignment(Assignment::Pointer(ty, name), value) => {
            assert_eq!(*ty, Type::Pointer(Box::new(Type::Int)));
            assert_eq!(name, "q");
            assert_eq!(show(value), "(*(&$p))");
        }
        other => panic!("{:?}", other),
    }
    let q = table.get("q").unwrap();
    assert_eq!(q._type, Type::Pointer(Box::new(Type::Int)));
    assert!(q.mutable);
    assert_eq!((q.init_line, q.last_ref, q.stack_offset), (3, 3, None));
    assert_eq!(table.len(), 3);
    assert_eq!(
        fails("const int a = 1; const int* p = &a; const int* q = *p;").fault,
        Fault::DeclarationMismatch
    );
}

#[test]
fn names_are_declared_once() {
    let e = fails("const int x = 1;\nmut int x = 2;");
    assert_eq!((e.fault, e.kind()), (Fault::Redeclaration, ErrorKind::ParseError));
    assert_eq!((e.line, e.column), (2, 1));
    let e = fails("const int x = 3; if x > 1 { mut int y = 42; } else { mut int y = 0; }");
    assert_eq!(e.fault, Fault::Redeclaration);
}

#[test]
fn names_are_declared_before_use() {
    let e = fails("const int x = y;");
    assert_eq!((e.fault, e.kind()), (Fault::UnknownIdentifier, ErrorKind::ParseError));
    assert_eq!((e.line, e.column), (1, 15));
    assert_eq!(fails("const int x = x;").fault, Fault::UnknownIdentifier);
    let e = fails("y = 1;");
    assert_eq!((e.fault, e.kind()), (Fault::UnknownIdentifier, ErrorKind::ParseError));
}

#[test]
fn constants_are_not_assigned_to() {
    let e = fails("const int x = 1; x = 2;");
    assert_eq!((e.fault, e.kind()), (Fault::AssignToConst, ErrorKind::ParseError));
    assert_eq!((e.line, e.column), (1, 18));
}

#[test]
fn syntax_errors_name_the_offending_token() {
    let e = fails("const int x = 1 const");
    assert_eq!((e.fault, e.kind()), (Fault::MissingSemicolon, ErrorKind::ParseError));
    assert_eq!((e.line, e.column), (1, 17));
    let e = fails("const int x = (1 + 2;");
    assert_eq!((e.fault, e.kind()), (Fault::MissingParen, ErrorKind::ParseError));
    assert_eq!((e.line, e.column), (1, 21));
    let e = fails("const int[3 xs = [1,2,3];");
    assert_eq!((e.fault, e.kind()), (Fault::MissingBracket, ErrorKind::ParseError));
    let e = fails("const int[n] xs = [1];");
    assert_eq!((e.fault, e.kind()), (Fault::BadArrayLength, ErrorKind::ParseError));
    assert_eq!(fails("const int[true] xs = [1];").fault, Fault::BadArrayLength);
    let e = fails("const int[3a] xs = [1, 2, 3];");
    assert_eq!((e.fault, e.line, e.column), (Fault::BadArrayLength, 1, 11));
    assert_eq!(
        fails("const int[99999999999999999999] xs = [1];").fault,
        Fault::BadArrayLength
    );
    for src in [
        ";",
        "const x = 1;",
        "const int 1 = 1;",
        "const int x 1;",
        "const int x = ;",
        "const int x = 1 + ;",
        "mut int y = 0; y 1;",
        "1 = 2;",
        "const int x = const;",
        "}",
    ] {
        let e = fails(src);
        assert_eq!((e.fault, e.kind()), (Fault::UnexpectedToken, ErrorKind::ParseError), "{}", src);
    }
}

#[test]
fn running_out_of_tokens_is_a_parse_error_without_a_place() {
    for src in [
        "const",
        "const int",
        "const int x",
        "const int x =",
        "const int x = 1",
        "const int x = 1 +",
        "const int x = (1",
        "mut int y = 0; y",
        "mut int y = 0; y = 1",
        "mut int y = 0; if y > 0",
        "mut int y = 0; if y > 0 {",
        "mut int y = 0; if y > 0 { y = 1;",
        "mut int y = 0; if y > 0 { y = 1; } else",
        "mut int y = 0; while y > 0",
        "mut int y = 0; while y > 0 break",
        "const int[",
        "const int*",
    ] {
        let e = fails(src);
        assert_eq!((e.fault, e.kind()), (Fault::UnexpectedEnd, ErrorKind::ParseError), "{}", src);
        assert_eq!((e.line, e.column), (0, 0));
    }
}

#[test]
fn the_first_error_wins() {
    assert_eq!(fails("const int x = true + 1 +;").fault, Fault::OperandMismatch);
    assert_eq!(fails("const int x = ; const int y = true + 1;").fault, Fault::UnexpectedToken);
}

#[test]
fn a_failed_parse_leaves_the_tokens_and_keeps_earlier_declarations() {
    let mut tokens = lexer("const int x = 1; const int y = true;".to_string()).unwrap();
    let before = tokens.len();
    let mut table = SymbolTable::new();
    assert!(parse_tokens(&mut tokens, &mut table).is_err());
    assert_eq!(tokens.len(), before);
    assert_eq!(table.len(), 1);
    assert!(table.get("x").is_some());
}

#[test]
fn a_digit_led_word_is_an_integer_in_an_expression() {
    assert_eq!(value_of("const int x = 1a + 2;"), "(i1a + i2)");
    assert_eq!(fails("const bool b = 1a;").fault, Fault::DeclarationMismatch);
}

#[test]
fn the_table_holds_exactly_the_declared_names_in_order() {
    let (_, table) = parse(
        "mut int a = 1; if a > 0 { const bool b = true; a = 2; } else { const int* c = &a; } \
         while a < 9 { mut int[2] d = [a, a]; a = a + 1; } const int e = a;",
    )
    .unwrap();
    let names: Vec<&str> = (0..table.len()).map(|i| table.name_at(i)).collect();
    assert_eq!(names, vec!["a", "b", "c", "d", "e"]);
    let types: Vec<Type> = (0..table.len()).map(|i| table.symbol_at(i)._type.clone()).collect();
    assert_eq!(
        types,
        vec![
            Type::Int,
            Type::Bool,
            Type::Pointer(Box::new(Type::Int)),
            Type::Pointer(Box::new(Type::Array(Box::new(Type::Int), 2))),
            Type::Int,
        ]
    );
    for i in 0..table.len() {
        assert_eq!(table.symbol_at(i).stack_offset, None);
    }
}

#[test]
fn no_tokens_parse_to_no_statements() {
    let (statements, table) = parse("").unwrap();
    assert_eq!(statements.len(), 0);
    assert_eq!(table.len(), 0);
}

#[test]
fn every_symbol_in_the_tree_is_in_the_table_and_names_are_unique() {
    fn names(e: &Expression, out: &mut Vec<String>) {
        match e {
            Expression::Binary(l, _, r) => {
                names(l, out);
                names(r, out);
            }
            Expression::Unary(_, x) => names(x, out),
            Expression::Group(_, x, _) => names(x, out),
            Expression::Literal(Literal::Symbol(t)) => out.push(t.lexeme().to_string()),
            Expression::Literal(_) => {}
        }
    }
    let (statements, table) = parse(
        "const int a = 1; mut int b = a + 2; const int* p = &a; b = *p * (a - b); const int c = -b;",
    )
    .unwrap();
    let mut used = Vec::new();
    for s in &statements {
        if let Statement::Assignment(_, e) = s {
            names(e, &mut used);
        }
    }
    assert_eq!(used, vec!["a", "a", "p", "a", "b", "b"]);
    for name in &used {
        assert!(table.get(name).is_some());
    }
    assert_eq!(table.len(), 4);
    for i in 0..table.len() {
        for j in 0..i {
            assert_ne!(table.name_at(i), table.name_at(j));
        }
    }
}

#[test]
fn the_parser_goes_by_lexemes_and_token_types_as_given() {
    let mut tokens = VecDeque::new();
    for (ty, kind, lexeme) in [
        (Type::Untyped, TokenType::Keyword, "mut"),
        (Type::Untyped, TokenType::Keyword, "int"),
        (Type::Untyped, TokenType::Identifier, "v"),
        (Type::Untyped, TokenType::Assignment, "="),
        (Type::Int, TokenType::Terminal, "forty"),
        (Type::Untyped, TokenType::Terminal, ";"),
    ] {
        tokens.push_back(Token::new(ty, kind, lexeme.to_string(), 7, 1));
    }
    let mut table = SymbolTable::new();
    let statements = parse_tokens(&mut tokens, &mut table).unwrap();
    assert_eq!(statements.len(), 1);
    assert_eq!(table.get("v").unwrap().init_line, 7);
    match &statements[0] {
        Statement::Assignment(_, e) => assert_eq!(show(e), "iforty"),
        other => panic!("{:?}", other),
    }
}
