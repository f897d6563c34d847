//! Tokens: the heads of statements, the atoms and operators of expressions.

use vstd::prelude::*;
use crate::number::{Number, NumberView};
use crate::string::{copy_texts, same_text};

verus! {

/// An ordered map from names to names: parameters to types, or bound names
/// to types.
pub open spec fn pairs_view(pairs: Vec<(String, String)>) -> Seq<(Seq<char>, Seq<char>)> {
    Seq::new(pairs.len() as nat, |i: int| (pairs[i].0@, pairs[i].1@))
}

/// A fresh copy of an ordered map.
pub fn copy_pairs(pairs: &Vec<(String, String)>) -> (out: Vec<(String, String)>)
    ensures
        pairs_view(out) == pairs_view(*pairs),
{
    let mut out: Vec<(String, String)> = Vec::new();
    let mut at: usize = 0;
    while at < pairs.len()
        invariant
            at <= pairs.len(),
            out.len() == at,
            forall|i: int| 0 <= i < at ==> out[i].0@ == pairs[i].0@ && out[i].1@ == pairs[i].1@,
        decreases pairs.len() - at,
    {
        out.push((pairs[at].0.clone(), pairs[at].1.clone()));
        at += 1;
    }
    assert(pairs_view(out) =~= pairs_view(*pairs));
    out
}

/// A token.
#[derive(Debug)]
pub enum Token {
    // Statements.
    Module,
    Type { name: String, supertype: String, prototype: bool },
    Function { name: String, signature: Vec<(String, String)> },
    Assign(Vec<(String, String)>),
    If,
    While,
    For(String),
    Return,
    Link(Vec<String>),
    Use { names: Vec<String>, source: Option<String> },
    Else,
    Continue,
    Break,
    // Expression literals.
    Number(Number),
    String(String),
    Boolean(bool),
    Null,
    Env(String),
    Name(String),
    Receive(String),
    Parenthesis(String),
    Sequence(String),
    Meta(String),
    // Expression groups.
    Prefix(String),
    Infix(String),
    Bind,
    LeftConditional,
    RightConditional,
    InfixR(String),
    Concatenator,
    Pair,
    Call,
    Index,
    RightBracket,
    // End of line.
    EOL,
}

/// The mathematical content of a [`Token`].
pub ghost enum TokenView {
    Module,
    Type { name: Seq<char>, supertype: Seq<char>, prototype: bool },
    Function { name: Seq<char>, signature: Seq<(Seq<char>, Seq<char>)> },
    Assign(Seq<(Seq<char>, Seq<char>)>),
    If,
    While,
    For(Seq<char>),
    Return,
    Link(Seq<Seq<char>>),
    Use { names: Seq<Seq<char>>, source: Option<Seq<char>> },
    Else,
    Continue,
    Break,
    Number(NumberView),
    String(Seq<char>),
    Boolean(bool),
    Null,
    Env(Seq<char>),
    Name(Seq<char>),
    Receive(Seq<char>),
    Parenthesis(Seq<char>),
    Sequence(Seq<char>),
    Meta(Seq<char>),
    Prefix(Seq<char>),
    Infix(Seq<char>),
    Bind,
    LeftConditional,
    RightConditional,
    InfixR(Seq<char>),
    Concatenator,
    Pair,
    Call,
    Index,
    RightBracket,
    EOL,
}

impl View for Token {
    type V = TokenView;

    open spec fn view(&self) -> TokenView {
        match self {
            Token::Module => TokenView::Module,
            Token::Type { name, supertype, prototype } => TokenView::Type {
                name: name@,
                supertype: supertype@,
                prototype: *prototype,
            },
            Token::Function { name, signature } => TokenView::Function {
                name: name@,
                signature: pairs_view(*signature),
            },
            Token::Assign(binds) => TokenView::Assign(pairs_view(*binds)),
            Token::If => TokenView::If,
            Token::While => TokenView::While,
            Token::For(index) => TokenView::For(index@),
            Token::Return => TokenView::Return,
            Token::Link(links) => TokenView::Link(links.deep_view()),
            Token::Use { names, source } => TokenView::Use {
                names: names.deep_view(),
                source: source.deep_view(),
            },
            Token::Else => TokenView::Else,
            Token::Continue => TokenView::Continue,
            Token::Break => TokenView::Break,
            Token::Number(x) => TokenView::Number(x@),
            Token::String(x) => TokenView::String(x@),
            Token::Boolean(x) => TokenView::Boolean(*x),
            Token::Null => TokenView::Null,
            Token::Env(x) => TokenView::Env(x@),
            Token::Name(x) => TokenView::Name(x@),
            Token::Receive(x) => TokenView::Receive(x@),
            Token::Parenthesis(x) => TokenView::Parenthesis(x@),
            Token::Sequence(x) => TokenView::Sequence(x@),
            Token::Meta(x) => TokenView::Meta(x@),
            Token::Prefix(x) => TokenView::Prefix(x@),
            Token::Infix(x) => TokenView::Infix(x@),
            Token::Bind => TokenView::Bind,
            Token::LeftConditional => TokenView::LeftConditional,
            Token::RightConditional => TokenView::RightConditional,
            Token::InfixR(x) => TokenView::InfixR(x@),
            Token::Concatenator => TokenView::Concatenator,
            Token::Pair => TokenView::Pair,
            Token::Call => TokenView::Call,
            Token::Index => TokenView::Index,
            Token::RightBracket => TokenView::RightBracket,
            Token::EOL => TokenView::EOL,
        }
    }
}

impl Clone for Token {
    fn clone(&self) -> (out: Self)
        ensures
            out@ == self@,
    {
        match self {
            Token::Module => Token::Module,
            Token::Type { name, supertype, prototype } => Token::Type {
                name: name.clone(),
                supertype: supertype.clone(),
                prototype: *prototype,
            },
            Token::Function { name, signature } => Token::Function {
                name: name.clone(),
                signature: copy_pairs(signature),
            },
            Token::Assign(binds) => Token::Assign(copy_pairs(binds)),
            Token::If => Token::If,
            Token::While => Token::While,
            Token::For(index) => Token::For(index.clone()),
            Token::Return => Token::Return,
            Token::Link(links) => Token::Link(copy_texts(links)),
            Token::Use { names, source } => Token::Use {
                names: copy_texts(names),
                source: match source {
                    Some(x) => Some(x.clone()),
                    None => None,
                },
            },
            Token::Else => Token::Else,
            Token::Continue => Token::Continue,
            Token::Break => Token::Break,
            Token::Number(x) => Token::Number(x.clone()),
            Token::String(x) => Token::String(x.clone()),
            Token::Boolean(x) => Token::Boolean(*x),
            Token::Null => Token::Null,
            Token::Env(x) => Token::Env(x.clone()),
            Token::Name(x) => Token::Name(x.clone()),
            Token::Receive(x) => Token::Receive(x.clone()),
            Token::Parenthesis(x) => Token::Parenthesis(x.clone()),
            Token::Sequence(x) => Token::Sequence(x.clone()),
            Token::Meta(x) => Token::Meta(x.clone()),
            Token::Prefix(x) => Token::Prefix(x.clone()),
            Token::Infix(x) => Token::Infix(x.clone()),
            Token::Bind => Token::Bind,
            Token::LeftConditional => Token::LeftConditional,
            Token::RightConditional => Token::RightConditional,
            Token::InfixR(x) => Token::InfixR(x.clone()),
            Token::Concatenator => Token::Concatenator,
            Token::Pair => Token::Pair,
            Token::Call => Token::Call,
            Token::Index => Token::Index,
            Token::RightBracket => Token::RightBracket,
            Token::EOL => Token::EOL,
        }
    }
}

/// The left-binding power of an operator symbol; zero for any other text.
pub open spec fn symbol_power(symbol: Seq<char>) -> nat {
    if symbol == ","@ {
        2
    } else if symbol == ":"@ {
        3
    } else if symbol == "->"@ {
        4
    } else if symbol == "if"@ {
        5
    } else if symbol == "else"@ {
        6
    } else if symbol == "or"@ {
        7
    } else if symbol == "and"@ {
        8
    } else if symbol == "xor"@ {
        9
    } else if symbol == "="@ || symbol == "!="@ || symbol == "in"@ {
        10
    } else if symbol == "<"@ || symbol == ">"@ || symbol == "<="@ || symbol == ">="@ {
        11
    } else if symbol == "&"@ || symbol == "|"@ {
        12
    } else if symbol == "+"@ || symbol == "-"@ {
        13
    } else if symbol == "*"@ || symbol == "/"@ || symbol == "%"@ {
        14
    } else if symbol == "^"@ {
        15
    } else if symbol == "?"@ {
        16
    } else if symbol == "<-"@ {
        17
    } else if symbol == "."@ {
        20
    } else {
        0
    }
}

impl TokenView {
    /// The left-binding power of a token: 20 binds tightest, and a token
    /// that is no operator has none.
    pub open spec fn lbp(self) -> nat {
        match self {
            TokenView::Prefix(_) => 18,
            TokenView::Infix(x) => symbol_power(x),
            TokenView::InfixR(x) => symbol_power(x),
            TokenView::Bind => 17,
            TokenView::LeftConditional => 5,
            TokenView::RightConditional => 6,
            TokenView::Concatenator => 2,
            TokenView::Pair => 3,
            TokenView::Call => 19,
            TokenView::Index => 19,
            TokenView::RightBracket => 1,
            _ => 0,
        }
    }
}

/// The left-binding power of an operator symbol.
pub fn power_of(symbol: &str) -> (out: usize)
    ensures
        out == symbol_power(symbol@),
        out <= 20,
{
    if same_text(symbol, ",") {
        2
    } else if same_text(symbol, ":") {
        3
    } else if same_text(symbol, "->") {
        4
    } else if same_text(symbol, "if") {
        5
    } else if same_text(symbol, "else") {
        6
    } else if same_text(symbol, "or") {
        7
    } else if same_text(symbol, "and") {
        8
    } else if same_text(symbol, "xor") {
        9
    } else if same_text(symbol, "=") || same_text(symbol, "!=") || same_text(symbol, "in") {
        10
    } else if same_text(symbol, "<") || same_text(symbol, ">") || same_text(symbol, "<=")
        || same_text(symbol, ">=") {
        11
    } else if same_text(symbol, "&") || same_text(symbol, "|") {
        12
    } else if same_text(symbol, "+") || same_text(symbol, "-") {
        13
    } else if same_text(symbol, "*") || same_text(symbol, "/") || same_text(symbol, "%") {
        14
    } else if same_text(symbol, "^") {
        15
    } else if same_text(symbol, "?") {
        16
    } else if same_text(symbol, "<-") {
        17
    } else if same_text(symbol, ".") {
        20
    } else {
        0
    }
}

impl Token {
    /// The left-binding power of the token.
    pub fn lbp(&self) -> (out: usize)
        ensures
            out == self@.lbp(),
            out <= 20,
    {
        match self {
            Token::Prefix(_) => 18,
            Token::Infix(x) => power_of(x.as_str()),
            Token::InfixR(x) => power_of(x.as_str()),
            Token::Bind => 17,
            Token::LeftConditional => 5,
            Token::RightConditional => 6,
            Token::Concatenator => 2,
            Token::Pair => 3,
            Token::Call => 19,
            Token::Index => 19,
            Token::RightBracket => 1,
            _ => 0,
        }
    }
}

impl DeepView for Token {
    type V = TokenView;

    open spec fn deep_view(&self) -> TokenView {
        self@
    }
}

} // verus!
