//! The text passes held against the same passes written as regular expressions.

use regex::{Captures, Regex};
use sophia::lexer::{scan, Kind};
use sophia::patterns;

const EMPTY: &str = r#"^((?:\s*\n?)|(?:\s*//.*\n?))*$"#;
const UNQUOTED: &str = r#"(?<closed>(?:'.*?')|(?:".*?"))|(?<open>(?:'[^']*?$)|(?:"[^"]*?$))"#;
const COMMENT: &str = r#"(\s*//.*?(?:\n|$))"#;
const TRAILING: &str =
    r#"(?<start>\n\s*[,;'"\)\]\}])|(?<end>[,;'"\(\[\{]\n\s*)|(?<empty>\s*\n)|(?<sentinel>\s*$)"#;
const TABSPACE: &str = r#"    "#;
const STRING: &str = r#"(?<string>('.*?')|(".*?"))"#;
const NAME: &str = r#"(?<name>\w+)"#;
const L_PARENS: &str = r#"(?<l_parens>[\(\[\{])"#;
const R_PARENS: &str = r#"(?<r_parens>[\)\]\}])"#;

struct Passes {
    empty: Regex,
    unquoted: Regex,
    brackets: Regex,
    comment: Regex,
    tabspace: Regex,
    names: Regex,
    trailing: Regex,
}

fn passes() -> Passes {
    Passes {
        empty: Regex::new(EMPTY).unwrap(),
        unquoted: Regex::new(UNQUOTED).unwrap(),
        brackets: Regex::new(&[STRING, L_PARENS, R_PARENS].join("|")).unwrap(),
        comment: Regex::new(COMMENT).unwrap(),
        tabspace: Regex::new(TABSPACE).unwrap(),
        names: Regex::new(&[STRING, NAME].join("|")).unwrap(),
        trailing: Regex::new(TRAILING).unwrap(),
    }
}

fn is_unquoted(passes: &Passes, source: &str) -> bool {
    passes.unquoted.captures_iter(source).fold(false, |acc, cap| acc || cap.name("open").is_some())
}

fn is_unmatched(passes: &Passes, source: &str) -> bool {
    let mut open: Vec<String> = Vec::new();
    for cap in passes.brackets.captures_iter(source) {
        if cap.name("string").is_some() {
            continue;
        } else if let Some(x) = cap.name("l_parens") {
            open.push(x.as_str().to_string());
        } else if let Some(x) = cap.name("r_parens") {
            match open.pop() {
                Some(y) => {
                    let fits = match y.as_str() {
                        "(" => x.as_str() == ")",
                        "[" => x.as_str() == "]",
                        "{" => x.as_str() == "}",
                        _ => false,
                    };
                    if !fits {
                        return true;
                    }
                }
                None => return true,
            }
        }
    }
    !open.is_empty()
}

fn normalise(passes: &Passes, source: &str) -> String {
    let source: String = passes.comment.replace_all(source, "\n").into();
    let source: String = passes.tabspace.replace_all(&source, "\t").into();
    passes
        .names
        .replace_all(&source, |cap: &Captures| -> String {
            if let Some(x) = cap.name("string") {
                x.as_str().to_string()
            } else if let Some(x) = cap.name("name") {
                match x.as_str() {
                    "bool" => "boolean".to_string(),
                    "int" => "integer".to_string(),
                    "num" => "number".to_string(),
                    "str" => "string".to_string(),
                    other => other.to_string(),
                }
            } else {
                String::new()
            }
        })
        .into()
}

fn split(passes: &Passes, source: &str) -> Vec<String> {
    passes
        .trailing
        .replace_all(source, |cap: &Captures| -> String {
            if let Some(x) = cap.name("start") {
                x.as_str().chars().last().unwrap().to_string()
            } else if let Some(x) = cap.name("end") {
                x.as_str().chars().nth(0).unwrap().to_string()
            } else {
                cap.get(0).unwrap().as_str().to_string()
            }
        })
        .to_string()
        .split("\n")
        .filter(|line| !line.is_empty())
        .map(|line| line.to_string())
        .collect()
}

fn texts(alphabet: &[&str], length: usize) -> Vec<String> {
    let mut all = vec![String::new()];
    let mut last = vec![String::new()];
    for _ in 0..length {
        let mut next = Vec::new();
        for text in &last {
            for symbol in alphabet {
                next.push(format!("{}{}", text, symbol));
            }
        }
        all.extend(next.iter().cloned());
        last = next;
    }
    all
}

#[test]
fn validation_agrees_on_short_texts() {
    let passes = passes();
    let alphabet = [" ", "\n", "\t", "/", "'", "\"", "(", ")", "[", "}", "a", ","];
    for text in texts(&alphabet, 4) {
        assert_eq!(patterns::is_empty(&text), passes.empty.is_match(&text), "is_empty {:?}", text);
        assert_eq!(patterns::is_unquoted(&text), is_unquoted(&passes, &text), "is_unquoted {:?}", text);
        assert_eq!(patterns::is_unmatched(&text), is_unmatched(&passes, &text), "is_unmatched {:?}", text);
    }
    let alphabet = [" ", "\n", "/", "'", "(", ")", "a", "\u{2003}", "\u{200b}"];
    for text in texts(&alphabet, 3) {
        assert_eq!(patterns::is_empty(&text), passes.empty.is_match(&text), "is_empty {:?}", text);
        assert_eq!(patterns::is_unquoted(&text), is_unquoted(&passes, &text), "is_unquoted {:?}", text);
        assert_eq!(patterns::is_unmatched(&text), is_unmatched(&passes, &text), "is_unmatched {:?}", text);
    }
}

#[test]
fn normalise_agrees_on_short_texts() {
    let passes = passes();
    let alphabet = [" ", "\n", "/", "'", "\"", "int", "x", "_", "1", "+", "    "];
    for text in texts(&alphabet, 4) {
        assert_eq!(patterns::normalise(&text), normalise(&passes, &text), "normalise {:?}", text);
    }
    let alphabet = [" ", "\n", "/", "'", "int", "\u{e9}", "\u{2003}", "\u{663}"];
    for text in texts(&alphabet, 3) {
        assert_eq!(patterns::normalise(&text), normalise(&passes, &text), "normalise {:?}", text);
    }
}

#[test]
fn split_agrees_on_short_texts() {
    let passes = passes();
    let alphabet = [" ", "\n", "\t", ",", ";", "'", "(", ")", "[", "}", "x"];
    for text in texts(&alphabet, 4) {
        assert_eq!(patterns::split(&text), split(&passes, &text), "split {:?}", text);
    }
    let alphabet = [" ", "\n", ",", "(", ")", "x", "\u{2003}"];
    for text in texts(&alphabet, 3) {
        assert_eq!(patterns::split(&text), split(&passes, &text), "split {:?}", text);
    }
}

const TOKENS: [&str; 8] = [
    r#"(?<number>[+-]?\d+([\./]\d*)?)"#,
    r#"(?<string>('.*?')|(".*?"))"#,
    r#"(?<name>\w+)"#,
    r#"(?<env>@)"#,
    r#"(?<receive>>\w+)"#,
    r#"(?<l_parens>[\(\[\{])"#,
    r#"(?<r_parens>[\)\]\}])"#,
    r#"(?<operator>[^\s\d\w\(\[\{\'\"\@]+)"#,
];

/// The tokens of a text as the pattern finds them.
fn tokens(pattern: &Regex, text: &str) -> Vec<(Kind, String)> {
    let mut out = Vec::new();
    for cap in pattern.captures_iter(text) {
        if let Some(x) = cap.name("number") {
            out.push((Kind::Number, x.as_str().to_string()));
        } else if let Some(x) = cap.name("string") {
            out.push((Kind::Text, x.as_str().to_string()));
        } else if let Some(x) = cap.name("name") {
            out.push((Kind::Name, x.as_str().to_string()));
        } else if let Some(x) = cap.name("env") {
            out.push((Kind::Env, x.as_str().to_string()));
        } else if let Some(x) = cap.name("receive") {
            out.push((Kind::Receive, x.as_str().to_string()));
        } else if let Some(x) = cap.name("l_parens") {
            out.push((Kind::Open, x.as_str().to_string()));
        } else if let Some(x) = cap.name("r_parens") {
            out.push((Kind::Close, x.as_str().to_string()));
        } else if let Some(x) = cap.name("operator") {
            out.push((Kind::Operator, x.as_str().to_string()));
        }
    }
    out
}

fn scanned(text: &str) -> Vec<(Kind, String)> {
    let chars: Vec<char> = text.chars().collect();
    scan(&chars).iter().map(|raw| (raw.kind, chars[raw.from..raw.to].iter().collect())).collect()
}

#[test]
fn scanner_agrees_on_short_texts() {
    let pattern = Regex::new(&TOKENS.join("|")).unwrap();
    // No closing bracket follows an operator here: the scanner parts the two.
    let alphabet = [" ", "1", "+", "-", ".", "/", "a", "_", "'", "\"", "(", "[", "@", ">", ",", "\n"];
    for text in texts(&alphabet, 4) {
        assert_eq!(scanned(&text), tokens(&pattern, &text), "scan {:?}", text);
    }
    let alphabet = [" ", "1", "a", "(", ")", "]", "}", "'"];
    for text in texts(&alphabet, 4) {
        assert_eq!(scanned(&text), tokens(&pattern, &text), "scan {:?}", text);
    }
}

#[test]
fn scanner_parts_operators_from_closing_brackets() {
    assert_eq!(
        scanned("(a+)"),
        vec![
            (Kind::Open, "(".to_string()),
            (Kind::Name, "a".to_string()),
            (Kind::Operator, "+".to_string()),
            (Kind::Close, ")".to_string()),
        ]
    );
    assert_eq!(
        scanned("x:]"),
        vec![(Kind::Name, "x".to_string()), (Kind::Operator, ":".to_string()), (Kind::Close, "]".to_string())]
    );
}
