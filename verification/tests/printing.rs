use ttc::ast_printer::{ast_pretty_printer, block_pretty_printer, statement_pretty_printer};
use ttc::lexer::lexer;
use ttc::parser::parse_tokens;
use ttc::representations::{Block, Statement};
use ttc::symbols::SymbolTable;

fn statements(src: &str) -> Vec<Statement> {
    let mut tokens = lexer(src.to_string()).unwrap();
    let mut table = SymbolTable::new();
    parse_tokens(&mut tokens, &mut table).unwrap().into()
}

fn printed(src: &str) -> String {
    statement_pretty_printer(statements(src).last().unwrap())
}

#[test]
fn prints_declarations_with_their_types() {
    assert_eq!(printed("const int x = 3 + 4 * 2;"), "Int x = (3 + (4 * 2))");
    assert_eq!(printed("mut bool b = true;"), "Bool b = true");
    assert_eq!(printed("const int a = 1; const int* p = &a;"), "*Int p = &a");
    assert_eq!(printed("const int[3] xs = [7,8,9];"), "*Int[3] xs = [7, 8, 9]");
    assert_eq!(printed("mut int y = 0; y = (y - 1) * -y;"), "y = (group[(y - 1)] * -y)");
}

#[test]
fn prints_control_statements() {
    assert_eq!(printed("mut int y = 0; if y > 5 y = 1;"), "if (y > 5)y = 1");
    assert_eq!(
        printed("mut int y = 0; if y > 5 { y = y * 2; } else { y = 0; }"),
        "if (y > 5) y = (y * 2)\nelse y = 0"
    );
    assert_eq!(
        printed("mut int y = 0; while y > 1 { y = y - 1; break; }"),
        "while (y > 1) y = (y - 1) {\n    break\n}\n"
    );
    assert_eq!(
        printed("mut int y = 0; while y > 1 { y = 1; y = 2; y = 3; }"),
        "while (y > 1) y = 1{\n    y = 2 {\n    y = 3\n}\n\n}\n"
    );
}

#[test]
fn prints_blocks_and_expressions_on_their_own() {
    let all = statements("mut int y = 0; { y = 1; y = 2; }");
    match &all[1] {
        Statement::Block(block) => {
            assert_eq!(block_pretty_printer(block), "{\n    y = 1 {\n    y = 2\n}\n\n}\n");
            match &**block {
                Block::Block(Statement::Assignment(_, value), rest) => {
                    assert_eq!(ast_pretty_printer(value), "1");
                    assert_eq!(block_pretty_printer(rest), " {\n    y = 2\n}\n");
                }
                other => panic!("{:?}", other),
            }
        }
        other => panic!("{:?}", other),
    }
}
