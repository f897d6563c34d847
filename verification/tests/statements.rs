use sophia::nodes::Node;
use sophia::tokens::Token;

fn head(text: &str) -> Token {
    Node::statement(text).unwrap().token
}

fn children(text: &str) -> usize {
    Node::statement(text).unwrap().nodes.len()
}

fn pairs(items: &[(&str, &str)]) -> Vec<(String, String)> {
    items.iter().map(|(a, b)| (a.to_string(), b.to_string())).collect()
}

#[test]
fn statement_type() {
    match head("type positive extends number with 1 => x > 0") {
        Token::Type { name, supertype, prototype } => {
            assert_eq!(name, "positive");
            assert_eq!(supertype, "number");
            assert!(prototype);
        }
        other => panic!("{:?}", other),
    }
    assert_eq!(children("type positive extends number with 1 => x > 0"), 2);
    match head("type thing:") {
        Token::Type { name, supertype, prototype } => {
            assert_eq!(name, "thing");
            assert_eq!(supertype, "any");
            assert!(!prototype);
        }
        other => panic!("{:?}", other),
    }
    assert_eq!(children("type thing:"), 0);
    assert_eq!(children("type thing with 0:"), 1);
    assert_eq!(children("type thing extends number => x > 0"), 1);
}

#[test]
fn statement_function() {
    match head("add number (integer x, y) => x + y") {
        Token::Function { name, signature } => {
            assert_eq!(name, "add");
            assert_eq!(signature, pairs(&[("add", "number"), ("x", "integer"), ("y", "any")]));
        }
        other => panic!("{:?}", other),
    }
    assert_eq!(children("add number (integer x, y) => x + y"), 1);
    match head("main():") {
        Token::Function { name, signature } => {
            assert_eq!(name, "main");
            assert_eq!(signature, pairs(&[("main", "any")]));
        }
        other => panic!("{:?}", other),
    }
    assert_eq!(children("main():"), 0);
    // A call is no function statement.
    assert!(matches!(head("f(x)"), Token::Call));
    // Parameters are names; anything else leaves an expression, here one that is cut off.
    assert!(matches!(head("f(x + 1):"), Token::EOL));
}

#[test]
fn statement_assign() {
    match head("x: 1; y integer: 2") {
        Token::Assign(binds) => assert_eq!(binds, pairs(&[("x", "any"), ("y", "integer")])),
        other => panic!("{:?}", other),
    }
    assert_eq!(children("x: 1; y integer: 2"), 2);
    assert_eq!(children("x: 1;"), 1);
}

#[test]
fn statement_blocks() {
    assert!(matches!(head("if x = 1:"), Token::If));
    assert_eq!(children("if x = 1:"), 1);
    assert!(matches!(head("while x < 3:"), Token::While));
    match head("for i in xs:") {
        Token::For(index) => assert_eq!(index, "i"),
        other => panic!("{:?}", other),
    }
    assert_eq!(children("for i in xs:"), 1);
    assert!(matches!(head("else:"), Token::Else));
    assert!(matches!(head("continue"), Token::Continue));
    assert!(matches!(head("break"), Token::Break));
}

#[test]
fn statement_return_link_use() {
    assert!(matches!(head("return"), Token::Return));
    assert_eq!(children("return"), 0);
    assert_eq!(children("return x + 1"), 1);
    match head("link a, b ,c") {
        Token::Link(names) => assert_eq!(names, vec!["a", "b", "c"]),
        other => panic!("{:?}", other),
    }
    match head("use a, b from c") {
        Token::Use { names, source } => {
            assert_eq!(names, vec!["a", "b"]);
            assert_eq!(source, Some("c".to_string()));
        }
        other => panic!("{:?}", other),
    }
    match head("use a") {
        Token::Use { names, source } => {
            assert_eq!(names, vec!["a"]);
            assert_eq!(source, None);
        }
        other => panic!("{:?}", other),
    }
    // Names that nothing parts are no list.
    assert!(matches!(head("link a b"), Token::Name(_)));
}

#[test]
fn tree_links_by_indentation() {
    let lines = vec!["if a:", "\tif b:", "\t\tx: 1", "\ty: 2", "   ", "else z: 3"];
    let tree = Node::tree(lines.iter().map(|x| x.to_string()).collect()).unwrap();
    assert!(matches!(tree.token, Token::Module));
    assert_eq!(tree.nodes.len(), 2);
    let outer = &tree.nodes[0];
    assert!(matches!(outer.token, Token::If));
    assert_eq!(outer.scope, 1);
    // The condition, the inner block, and the binding of `y`.
    assert_eq!(outer.nodes.len(), 3);
    let inner = &outer.nodes[1];
    assert!(matches!(inner.token, Token::If));
    assert_eq!(inner.scope, 2);
    assert_eq!(inner.nodes.len(), 2);
    assert_eq!(inner.nodes[1].scope, 3);
    assert!(matches!(outer.nodes[2].token, Token::Assign(_)));
    let other = &tree.nodes[1];
    assert!(matches!(other.token, Token::Assign(_)));
    assert!(other.branch);
    assert!(!outer.branch);
}

#[test]
fn tree_needs_readable_numbers() {
    assert!(Node::tree(vec!["x: 1".to_string(), "y: 2.5".to_string()]).is_none());
    let empty = Node::tree(Vec::new()).unwrap();
    assert!(matches!(empty.token, Token::Module));
    assert!(empty.nodes.is_empty());
}
