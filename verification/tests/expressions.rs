use sophia::nodes::Node;
use sophia::tokens::Token;

fn shape(node: &Node) -> String {
    let head = match &node.token {
        Token::Number(x) => x.to_string(),
        Token::String(x) => format!("'{}'", x),
        Token::Boolean(x) => format!("{}", x),
        Token::Null => format!("null"),
        Token::Name(x) => x.clone(),
        Token::Env(_) => format!("@"),
        Token::Receive(x) => x.clone(),
        Token::Prefix(x) => format!("pre{}", x),
        Token::Infix(x) => x.clone(),
        Token::InfixR(x) => x.clone(),
        Token::Bind => format!("<-"),
        Token::LeftConditional => format!("if"),
        Token::RightConditional => format!("else"),
        Token::Concatenator => format!(","),
        Token::Pair => format!(":"),
        Token::Call => format!("call"),
        Token::Index => format!("index"),
        Token::Parenthesis(_) => format!("()"),
        Token::Sequence(_) => format!("[]"),
        Token::Meta(_) => format!("{{}}"),
        Token::Type { name, supertype, prototype } => format!("type {} {} {}", name, supertype, prototype),
        Token::Function { name, signature } => {
            let mut text = format!("fn {}", name);
            for (key, value) in signature {
                text = format!("{} {}:{}", text, key, value);
            }
            text
        }
        Token::EOL => format!("EOL"),
        _ => format!("?"),
    };
    if node.nodes.is_empty() {
        head
    } else {
        let mut text = format!("({}", head);
        for child in &node.nodes {
            text = format!("{} {}", text, shape(child));
        }
        format!("{})", text)
    }
}

fn parsed(text: &str) -> String {
    shape(&Node::expression(text).unwrap())
}

#[test]
fn expression_of_a_sum() {
    assert_eq!(parsed("2 + 3"), "(+ 2 3)");
}

#[test]
fn expression_binds_by_power() {
    assert_eq!(parsed("1 + 2 * 3"), "(+ 1 (* 2 3))");
    assert_eq!(parsed("1 * 2 + 3"), "(+ (* 1 2) 3)");
    assert_eq!(parsed("a and b or c"), "(or (and a b) c)");
    assert_eq!(parsed("1 < 2 = true"), "(= (< 1 2) true)");
}

#[test]
fn expression_right_associative() {
    assert_eq!(parsed("2 ^ 3 ^ 4"), "(^ 2 (^ 3 4))");
    assert_eq!(parsed("1 - 2 - 3"), "(- (- 1 2) 3)");
}

#[test]
fn expression_prefix_and_groups() {
    assert_eq!(parsed("not a"), "(prenot a)");
    assert_eq!(parsed("(1 + 2) * 3"), "(* (() (+ 1 2)) 3)");
    assert_eq!(parsed("[1, 2, 3]"), "([] 1 2 3)");
    assert_eq!(parsed("[]"), "[]");
    assert_eq!(parsed("[1]"), "([] 1)");
}

#[test]
fn expression_calls_and_indices() {
    assert_eq!(parsed("f(x)"), "(call f x)");
    assert_eq!(parsed("f()"), "(call f)");
    assert_eq!(parsed("f(x, y)"), "(call f x y)");
    assert_eq!(parsed("a[1]"), "(index a 1)");
    assert_eq!(parsed("f(x) + 1"), "(+ (call f x) 1)");
}

#[test]
fn expression_conditional() {
    assert_eq!(parsed("x if c else y"), "(if c (else x y))");
}

#[test]
fn expression_forms() {
    assert_eq!(parsed("(x => x + 1)"), "(fn @ @:any x:any (+ x 1))");
    assert_eq!(parsed("(integer x, y => x => number)"), "(fn @ @:number x:integer y:any x)");
    assert_eq!(parsed("(extends number => x > 0)"), "(type @ number false (> x 0))");
    assert_eq!(parsed("(extends number with 1 => x > 0)"), "(type @ number true 1 (> x 0))");
}

#[test]
fn expression_literals() {
    assert_eq!(parsed("'a' in 'cat'"), "(in 'a' 'cat')");
    assert_eq!(parsed("1/2"), "1/2");
    assert_eq!(parsed("null"), "null");
    assert_eq!(parsed(""), "EOL");
    assert_eq!(parsed("1 +"), "EOL");
}

#[test]
fn expression_with_unreadable_number() {
    assert!(Node::expression("1.5").is_none());
    assert!(Node::expression("x + 1/").is_none());
}

#[test]
fn expression_beyond_ascii() {
    // Letters outside ASCII make a name.
    assert_eq!(parsed("\u{3b1} + \u{3b2}"), "(+ \u{3b1} \u{3b2})");
    // A digit outside ASCII begins a number, which cannot be read.
    assert!(Node::expression("\u{663}").is_none());
    // Other signs outside ASCII are operators; one that has no binding power ends the expression.
    assert_eq!(parsed("\u{ac} b"), "(pre\u{ac} b)");
    assert_eq!(parsed("a \u{2260} b"), "a");
}

#[test]
fn expression_quirks_of_the_scanner() {
    // A sign before a digit belongs to the number.
    assert_eq!(parsed("a -1"), "a");
    // `>` before a word is a receive.
    assert_eq!(parsed(">x"), ">x");
    // A string that does not close on its line is no string.
    assert_eq!(parsed("'a"), "a");
}
