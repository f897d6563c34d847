use sophia::error::SyntaxError;
use sophia::instructions::Instruction;
use sophia::parser::Parser;

fn listing(ops: &Vec<Instruction>) -> Vec<String> {
    ops.iter().map(|op| op.to_string()).collect()
}

fn compile(source: &str) -> Vec<String> {
    let mut parser = Parser::new();
    parser.parse(source).unwrap();
    listing(&parser.instructions)
}

fn optimise(source: &str) -> Vec<String> {
    let mut parser = Parser::new();
    parser.parse(source).unwrap();
    listing(&parser.analyse().unwrap())
}

#[test]
fn lowering_of_a_binding() {
    assert_eq!(
        compile("x: 2 + 3"),
        vec!["START;", "+ 1 -2 -3", "BIND;", ".check 1 1 any;", ".bind 0; x", "return 0 1", "END;"]
    );
}

#[test]
fn folding_of_a_binding() {
    assert_eq!(
        optimise("x: 2 + 3"),
        vec!["START;", "+ 1 -2 -3", ".check 1 1 any;", ".bind 0 1; x", "return 0 1", "END;"]
    );
}

#[test]
fn lowering_of_a_return() {
    assert_eq!(compile("return 7"), vec!["START;", "return 0 -2", "return 0 1", "END;"]);
}

#[test]
fn lowering_of_a_branch() {
    assert_eq!(
        compile("if 1 = 1:\n\ty: 1\nelse:\n\ty: 2"),
        vec![
            "START;",
            "START;",
            "= 1 -2 -3",
            "if 1 1",
            "BIND;",
            ".check 2 -4 any;",
            ".bind 0; y",
            "if 1",
            "END;",
            "START;",
            "BIND;",
            ".check 2 -5 any;",
            ".bind 0; y",
            "END;",
            "return 0 2",
            "END;",
        ]
    );
}

#[test]
fn lowering_of_a_loop_in_a_branch() {
    assert_eq!(
        compile("else for i in xs:\n\tbreak"),
        vec![
            "START;",
            "ELSE;",
            ".iterator 1 xs;",
            "ELSE;",
            ".next i 1;",
            ".break 0;",
            ".loop 0;",
            "END;",
            "return 0 1",
            "END;",
        ]
    );
}

#[test]
fn lowering_of_a_function() {
    assert_eq!(
        compile("f number (integer x, y) => x + y"),
        vec![
            "START;",
            ".function f number integer any; f x y",
            "START;",
            "+ 1 x y",
            "return 0 1",
            "END;",
            "return 0 1",
            "END;",
        ]
    );
}

#[test]
fn lowering_of_links() {
    assert_eq!(
        compile("link a, b\nuse c, d from e\nuse f"),
        vec!["START;", ".link 0; a b", ".use e; c d", ".use 0; f", "return 0 3", "END;"]
    );
}

#[test]
fn compile_errors() {
    let mut parser = Parser::new();
    assert_eq!(parser.parse("  // nothing\n"), Err(SyntaxError::Empty));
    assert_eq!(parser.parse("x: 'a"), Err(SyntaxError::Quotes));
    assert_eq!(parser.parse("x: (1"), Err(SyntaxError::Brackets));
    assert_eq!(parser.parse("x: 1.5"), Err(SyntaxError::Number));
    assert_eq!(parser.parse("x: a[]"), Err(SyntaxError::Shape));
    assert!(parser.instructions.is_empty());
}
