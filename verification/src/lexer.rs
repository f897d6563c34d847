//! The scanner, which cuts an expression into raw tokens, and the lexer,
//! which reads them in context, one token ahead.

use vstd::prelude::*;
use crate::chars::{
    closer, digit, is_closer, is_digit, is_opener, is_quote, is_space, is_word, opener, quote, space,
    word,
};
use crate::number::{parsed_number, Number};
use crate::patterns::{closing, find_closing, find_word_end, lemma_word_end, spells, word_end};
use crate::string::{join, joined, slice_string};
use crate::tokens::{Token, TokenView};

verus! {

/// The kinds of raw token.
#[derive(Debug, Clone, Copy, PartialEq, Eq, Structural)]
pub enum Kind {
    /// `[+-]?\d+([./]\d*)?`
    Number,
    /// A string in single or double quotation marks, closed on its line.
    Text,
    /// A run of word characters.
    Name,
    /// `@`
    Env,
    /// `>` and a name.
    Receive,
    /// An opening bracket.
    Open,
    /// A closing bracket.
    Close,
    /// A run of characters that are none of the above.
    Operator,
}

/// A raw token: a kind and the place of its characters in the text.
#[derive(Debug, Clone, Copy, PartialEq, Eq, Structural)]
pub struct Raw {
    pub kind: Kind,
    pub from: usize,
    pub to: usize,
}

/// The end of the run of digits that begins at `at`.
pub open spec fn digits_end(text: Seq<char>, at: int) -> int
    decreases text.len() - at,
{
    if 0 <= at < text.len() && digit(text[at]) {
        digits_end(text, at + 1)
    } else {
        at
    }
}

/// A character of an operator: no white space, no digit, no word character,
/// no bracket, no quotation mark, no `@`.
pub open spec fn operator(symbol: char) -> bool {
    !space(symbol) && !digit(symbol) && !word(symbol) && !opener(symbol) && !closer(symbol)
        && !quote(symbol) && symbol != '@'
}

/// The end of the run of operator characters that begins at `at`.
pub open spec fn operator_end(text: Seq<char>, at: int) -> int
    decreases text.len() - at,
{
    if 0 <= at < text.len() && operator(text[at]) {
        operator_end(text, at + 1)
    } else {
        at
    }
}

/// Where the digits of a number at `at` begin: after an optional sign.
pub open spec fn number_start(text: Seq<char>, at: int) -> int {
    if 0 <= at < text.len() && (text[at] == '+' || text[at] == '-') {
        at + 1
    } else {
        at
    }
}

/// The end of the number whose digits begin at `digits`: the digits, then
/// optionally a point or a stroke and more digits.
pub open spec fn number_end(text: Seq<char>, digits: int) -> int {
    let whole = digits_end(text, digits);
    if 0 <= whole < text.len() && (text[whole] == '.' || text[whole] == '/') {
        digits_end(text, whole + 1)
    } else {
        whole
    }
}

/// The raw token that begins at `at`, if one does. The kinds are tried in
/// the order: number, string, name, `@`, receive, brackets, operator.
pub open spec fn raw_at(text: Seq<char>, at: int) -> Option<Raw>
    recommends
        0 <= at < text.len(),
{
    let symbol = text[at];
    let digits = number_start(text, at);
    if 0 <= digits < text.len() && digit(text[digits]) {
        Some(Raw { kind: Kind::Number, from: at as usize, to: number_end(text, digits) as usize })
    } else if quote(symbol) && closing(text, at + 1, symbol) is Some {
        Some(
            Raw {
                kind: Kind::Text,
                from: at as usize,
                to: (closing(text, at + 1, symbol)->0 + 1) as usize,
            },
        )
    } else if word(symbol) {
        Some(Raw { kind: Kind::Name, from: at as usize, to: word_end(text, at) as usize })
    } else if symbol == '@' {
        Some(Raw { kind: Kind::Env, from: at as usize, to: (at + 1) as usize })
    } else if symbol == '>' && at + 1 < text.len() && word(text[at + 1]) {
        Some(Raw { kind: Kind::Receive, from: at as usize, to: word_end(text, at + 1) as usize })
    } else if opener(symbol) {
        Some(Raw { kind: Kind::Open, from: at as usize, to: (at + 1) as usize })
    } else if closer(symbol) {
        Some(Raw { kind: Kind::Close, from: at as usize, to: (at + 1) as usize })
    } else if operator(symbol) {
        Some(Raw { kind: Kind::Operator, from: at as usize, to: operator_end(text, at) as usize })
    } else {
        None
    }
}

/// The raw tokens of the text from `at` on. A character that begins no
/// token is passed over.
pub open spec fn scanned_from(text: Seq<char>, at: int) -> Seq<Raw>
    decreases text.len() - at,
{
    if !(0 <= at < text.len()) {
        Seq::empty()
    } else {
        match raw_at(text, at) {
            Some(raw) => if at < raw.to <= text.len() {
                seq![raw] + scanned_from(text, raw.to as int)
            } else {
                Seq::empty()
            },
            None => scanned_from(text, at + 1),
        }
    }
}

/// Whether a raw token lies within the text and is not empty; a string
/// holds its two quotation marks at least.
pub open spec fn fits(text: Seq<char>, raw: Raw) -> bool {
    raw.from < raw.to <= text.len() && (raw.kind == Kind::Text ==> raw.from + 2 <= raw.to)
}

/// Each raw token lies within the text.
pub open spec fn spanned(text: Seq<char>, raws: Seq<Raw>) -> bool {
    forall|i: int| 0 <= i < raws.len() ==> fits(text, #[trigger] raws[i])
}

/// The characters of a raw token.
pub open spec fn raw_text(text: Seq<char>, raw: Raw) -> Seq<char> {
    text.subrange(raw.from as int, raw.to as int)
}

/// Each number among the raw tokens can be read.
pub open spec fn numbered(text: Seq<char>, raws: Seq<Raw>) -> bool {
    forall|i: int|
        0 <= i < raws.len() && (#[trigger] raws[i]).kind == Kind::Number ==> parsed_number(
            raw_text(text, raws[i]),
        ) is Some
}

/// A run of digits ends within the text, after its first digit.
pub proof fn lemma_digits_end(text: Seq<char>, at: int)
    requires
        0 <= at <= text.len(),
    ensures
        at <= digits_end(text, at) <= text.len(),
        at < text.len() && digit(text[at]) ==> at < digits_end(text, at),
    decreases text.len() - at,
{
    if at < text.len() && digit(text[at]) {
        lemma_digits_end(text, at + 1);
    }
}

/// A run of operator characters ends within the text, after its first character.
pub proof fn lemma_operator_end(text: Seq<char>, at: int)
    requires
        0 <= at <= text.len(),
    ensures
        at <= operator_end(text, at) <= text.len(),
        at < text.len() && operator(text[at]) ==> at < operator_end(text, at),
    decreases text.len() - at,
{
    if at < text.len() && operator(text[at]) {
        lemma_operator_end(text, at + 1);
    }
}

/// The end of the run of digits that begins at `at`.
fn find_digits_end(text: &Vec<char>, at: usize) -> (end: usize)
    requires
        at <= text.len(),
    ensures
        end == digits_end(text@, at as int),
        at <= end <= text.len(),
{
    let mut end = at;
    while end < text.len() && is_digit(text[end])
        invariant
            at <= end <= text.len(),
            digits_end(text@, at as int) == digits_end(text@, end as int),
        decreases text.len() - end,
    {
        end += 1;
    }
    end
}

/// Whether a character belongs to an operator.
fn is_operator(symbol: char) -> (out: bool)
    ensures
        out == operator(symbol),
{
    !is_space(symbol) && !is_digit(symbol) && !is_word(symbol) && !is_opener(symbol) && !is_closer(
        symbol,
    ) && !is_quote(symbol) && symbol != '@'
}

/// The end of the run of operator characters that begins at `at`.
fn find_operator_end(text: &Vec<char>, at: usize) -> (end: usize)
    requires
        at <= text.len(),
    ensures
        end == operator_end(text@, at as int),
        at <= end <= text.len(),
{
    let mut end = at;
    while end < text.len() && is_operator(text[end])
        invariant
            at <= end <= text.len(),
            operator_end(text@, at as int) == operator_end(text@, end as int),
        decreases text.len() - end,
    {
        end += 1;
    }
    end
}

/// The raw token that begins at `at`, if one does.
pub fn find_raw(text: &Vec<char>, at: usize) -> (out: Option<Raw>)
    requires
        at < text.len(),
    ensures
        out == raw_at(text@, at as int),
        out matches Some(raw) ==> raw.from == at && at < raw.to <= text.len() && fits(text@, raw),
{
    let symbol = text[at];
    let digits = if symbol == '+' || symbol == '-' {
        at + 1
    } else {
        at
    };
    proof {
        lemma_word_end(text@, at as int);
        lemma_word_end(text@, at + 1);
        lemma_operator_end(text@, at as int);
        if digits < text.len() {
            lemma_digits_end(text@, digits as int);
        }
    }
    if digits < text.len() && is_digit(text[digits]) {
        let whole = find_digits_end(text, digits);
        let end = if whole < text.len() && (text[whole] == '.' || text[whole] == '/') {
            find_digits_end(text, whole + 1)
        } else {
            whole
        };
        return Some(Raw { kind: Kind::Number, from: at, to: end });
    }
    if is_quote(symbol) {
        if let Some(end) = find_closing(text, at + 1, symbol) {
            return Some(Raw { kind: Kind::Text, from: at, to: end + 1 });
        }
    }
    if is_word(symbol) {
        proof {
            lemma_word_end(text@, at as int);
        }
        Some(Raw { kind: Kind::Name, from: at, to: find_word_end(text, at) })
    } else if symbol == '@' {
        Some(Raw { kind: Kind::Env, from: at, to: at + 1 })
    } else if symbol == '>' && at + 1 < text.len() && is_word(text[at + 1]) {
        Some(Raw { kind: Kind::Receive, from: at, to: find_word_end(text, at + 1) })
    } else if is_opener(symbol) {
        Some(Raw { kind: Kind::Open, from: at, to: at + 1 })
    } else if is_closer(symbol) {
        Some(Raw { kind: Kind::Close, from: at, to: at + 1 })
    } else if is_operator(symbol) {
        Some(Raw { kind: Kind::Operator, from: at, to: find_operator_end(text, at) })
    } else {
        None
    }
}

/// Cuts a text into raw tokens.
pub fn scan(text: &Vec<char>) -> (out: Vec<Raw>)
    ensures
        out@ == scanned_from(text@, 0),
        spanned(text@, out@),
{
    let mut out: Vec<Raw> = Vec::new();
    let mut at: usize = 0;
    while at < text.len()
        invariant
            at <= text.len(),
            scanned_from(text@, 0) == out@ + scanned_from(text@, at as int),
            spanned(text@, out@),
        decreases text.len() - at,
    {
        let ghost before = out@;
        match find_raw(text, at) {
            Some(raw) => {
                out.push(raw);
                assert(out@ + scanned_from(text@, raw.to as int) =~= before + (seq![raw]
                    + scanned_from(text@, raw.to as int)));
                at = raw.to;
            },
            None => {
                at += 1;
            },
        }
    }
    assert(out@ + Seq::<Raw>::empty() =~= out@);
    out
}

/// Whether each number among the raw tokens can be read.
pub fn check_numbers(text: &Vec<char>, raws: &Vec<Raw>) -> (out: bool)
    requires
        spanned(text@, raws@),
    ensures
        out == numbered(text@, raws@),
{
    let mut at: usize = 0;
    while at < raws.len()
        invariant
            at <= raws.len(),
            spanned(text@, raws@),
            forall|i: int|
                0 <= i < at && (#[trigger] raws[i]).kind == Kind::Number ==> parsed_number(
                    raw_text(text@, raws[i]),
                ) is Some,
        decreases raws.len() - at,
    {
        let raw = raws[at];
        assert(fits(text@, raw));
        if raw.kind == Kind::Number {
            let literal = slice_string(text, raw.from, raw.to);
            if Number::parse(literal.as_str()).is_none() {
                return false;
            }
        }
        at += 1;
    }
    true
}

/// The place of the bracket that closes a group, or `end` where none does.
/// The search begins at `at`, `depth` brackets deep.
pub open spec fn group_stop(raws: Seq<Raw>, at: int, end: int, depth: nat) -> int
    decreases end - at,
{
    if !(0 <= at < end <= raws.len()) {
        at
    } else if raws[at].kind == Kind::Open {
        group_stop(raws, at + 1, end, depth + 1)
    } else if raws[at].kind == Kind::Close {
        if depth <= 1 {
            at
        } else {
            group_stop(raws, at + 1, end, (depth - 1) as nat)
        }
    } else {
        group_stop(raws, at + 1, end, depth)
    }
}

/// The texts of the raw tokens `raws[from..to]`.
pub open spec fn raw_texts(text: Seq<char>, raws: Seq<Raw>, from: int, to: int) -> Seq<Seq<char>> {
    Seq::new((to - from) as nat, |i: int| raw_text(text, raws[from + i]))
}

/// The raw tokens `raws[from..to]` written with one blank between neighbours.
pub open spec fn span_text(text: Seq<char>, raws: Seq<Raw>, from: int, to: int) -> Seq<char> {
    joined(raw_texts(text, raws, from, to), " "@)
}

/// Whether what follows the token stands where an operand may begin: after
/// an operator, or at the start.
pub open spec fn prefixed(last: TokenView) -> bool {
    last is Prefix || last is Infix || last is Bind || last is LeftConditional
        || last is RightConditional || last is InfixR || last is Concatenator || last is Pair
        || last is Call || last is Index || last is EOL
}

/// The token that a name stands for.
pub open spec fn name_token(name: Seq<char>) -> TokenView {
    if name == "and"@ || name == "or"@ || name == "xor"@ || name == "in"@ {
        TokenView::Infix(name)
    } else if name == "not"@ || name == "new"@ {
        TokenView::Prefix(name)
    } else if name == "true"@ {
        TokenView::Boolean(true)
    } else if name == "false"@ {
        TokenView::Boolean(false)
    } else if name == "null"@ {
        TokenView::Null
    } else if name == "if"@ {
        TokenView::LeftConditional
    } else if name == "else"@ {
        TokenView::RightConditional
    } else {
        TokenView::Name(name)
    }
}

/// The token that an operator stands for, where an operand may begin and
/// where it may not.
pub open spec fn operator_token(symbol: Seq<char>, prefix: bool) -> TokenView {
    if prefix {
        TokenView::Prefix(symbol)
    } else if symbol == ","@ {
        TokenView::Concatenator
    } else if symbol == ":"@ {
        TokenView::Pair
    } else if symbol == "^"@ || symbol == "->"@ || symbol == "=>"@ || symbol == "."@ {
        TokenView::InfixR(symbol)
    } else if symbol == "<-"@ {
        TokenView::Bind
    } else {
        TokenView::Infix(symbol)
    }
}

/// What a lexer holds besides the text and its raw tokens.
pub ghost struct LexerView {
    /// The lexer reads `raws[begin..end]`.
    pub begin: int,
    pub end: int,
    /// The next raw token to read.
    pub at: int,
    pub token: TokenView,
    pub peek: TokenView,
    /// The raw tokens inside the brackets of `token`, where it is a group.
    pub token_group: (int, int),
    pub peek_group: (int, int),
}

impl LexerView {
    /// How many raw tokens the lexer reads in all.
    pub open spec fn size(self) -> int {
        self.end - self.begin
    }

    /// How much is left to read: the raw tokens ahead, and the token in `peek`.
    pub open spec fn measure(self) -> int {
        self.end - self.at + if self.peek is EOL {
            0int
        } else {
            1int
        }
    }

    /// Whether a pair of places is a group within the lexer's raw tokens,
    /// smaller than all of them.
    pub open spec fn holds_group(self, group: (int, int)) -> bool {
        self.begin < group.0 <= group.1 <= self.end
    }

    /// The lexer on `raws[begin..end]` that has read nothing yet.
    pub open spec fn start(begin: int, end: int) -> LexerView {
        LexerView {
            begin,
            end,
            at: begin,
            token: TokenView::EOL,
            peek: TokenView::EOL,
            token_group: (begin, begin),
            peek_group: (begin, begin),
        }
    }
}

/// The token that the raw token at `at` stands for, the place of the next
/// raw token to read, and the raw tokens inside the group where the token is
/// one. An opening bracket where an operand may begin takes all up to its
/// closing bracket with it.
pub open spec fn token_at(text: Seq<char>, raws: Seq<Raw>, at: int, end: int, prefix: bool) -> (
    TokenView,
    int,
    (int, int),
) {
    let raw = raws[at];
    let letters = raw_text(text, raw);
    match raw.kind {
        Kind::Number => (TokenView::Number(parsed_number(letters)->0), at + 1, (at, at)),
        Kind::Text => (
            TokenView::String(text.subrange(raw.from + 1, raw.to - 1)),
            at + 1,
            (at, at),
        ),
        Kind::Name => (name_token(letters), at + 1, (at, at)),
        Kind::Env => (TokenView::Env(Seq::empty()), at + 1, (at, at)),
        Kind::Receive => (TokenView::Receive(letters), at + 1, (at, at)),
        Kind::Open => if prefix {
            let stop = group_stop(raws, at + 1, end, 1);
            let inner = span_text(text, raws, at + 1, stop);
            let next = if stop < end {
                stop + 1
            } else {
                end
            };
            (
                if text[raw.from as int] == '(' {
                    TokenView::Parenthesis(inner)
                } else if text[raw.from as int] == '[' {
                    TokenView::Sequence(inner)
                } else {
                    TokenView::Meta(inner)
                },
                next,
                (at + 1, stop),
            )
        } else {
            (
                if text[raw.from as int] == '(' {
                    TokenView::Call
                } else if text[raw.from as int] == '[' {
                    TokenView::Index
                } else {
                    TokenView::EOL
                },
                at + 1,
                (at, at),
            )
        },
        Kind::Close => (TokenView::RightBracket, at + 1, (at, at)),
        Kind::Operator => (operator_token(letters, prefix), at + 1, (at, at)),
    }
}

/// The lexer one token on: what was ahead is the token, and the next raw
/// token, read in the light of it, is ahead.
pub open spec fn next_spec(text: Seq<char>, raws: Seq<Raw>, lexer: LexerView) -> LexerView {
    if lexer.at < lexer.end {
        let (token, next, group) = token_at(text, raws, lexer.at, lexer.end, prefixed(lexer.peek));
        LexerView {
            at: next,
            token: lexer.peek,
            peek: token,
            token_group: lexer.peek_group,
            peek_group: group,
            ..lexer
        }
    } else {
        LexerView {
            token: lexer.peek,
            peek: TokenView::EOL,
            token_group: lexer.peek_group,
            peek_group: (lexer.at, lexer.at),
            ..lexer
        }
    }
}

/// A group ends within the raw tokens, at or after the start of the search.
pub proof fn lemma_group_stop(raws: Seq<Raw>, at: int, end: int, depth: nat)
    requires
        0 <= at <= end <= raws.len(),
    ensures
        at <= group_stop(raws, at, end, depth) <= end,
    decreases end - at,
{
    if at < end {
        if raws[at].kind == Kind::Open {
            lemma_group_stop(raws, at + 1, end, depth + 1);
        } else if raws[at].kind == Kind::Close {
            if depth > 1 {
                lemma_group_stop(raws, at + 1, end, (depth - 1) as nat);
            }
        } else {
            lemma_group_stop(raws, at + 1, end, depth);
        }
    }
}

/// A lexer: the raw tokens of a text, read in context with one token ahead.
pub struct Lexer<'a> {
    pub text: &'a Vec<char>,
    pub raws: &'a Vec<Raw>,
    pub begin: usize,
    pub end: usize,
    pub at: usize,
    pub token: Token,
    pub peek: Token,
    pub token_group: (usize, usize),
    pub peek_group: (usize, usize),
}

impl<'a> View for Lexer<'a> {
    type V = LexerView;

    open spec fn view(&self) -> LexerView {
        LexerView {
            begin: self.begin as int,
            end: self.end as int,
            at: self.at as int,
            token: self.token@,
            peek: self.peek@,
            token_group: (self.token_group.0 as int, self.token_group.1 as int),
            peek_group: (self.peek_group.0 as int, self.peek_group.1 as int),
        }
    }
}

/// Whether a token holds a group of raw tokens.
pub open spec fn grouping(token: TokenView) -> bool {
    token is Parenthesis || token is Sequence || token is Meta
}

impl<'a> Lexer<'a> {
    /// The raw tokens lie within the text, their numbers can be read, the
    /// lexer's places are in order, and a group token has its group.
    pub open spec fn wf(&self) -> bool {
        &&& spanned(self.text@, self.raws@)
        &&& numbered(self.text@, self.raws@)
        &&& self.begin <= self.at <= self.end <= self.raws.len()
        &&& grouping(self.token@) ==> self@.holds_group(self@.token_group)
        &&& grouping(self.peek@) ==> self@.holds_group(self@.peek_group)
    }

    /// A lexer on the raw tokens `raws[begin..end]` of a text.
    pub fn new(text: &'a Vec<char>, raws: &'a Vec<Raw>, begin: usize, end: usize) -> (out: Lexer<'a>)
        requires
            spanned(text@, raws@),
            numbered(text@, raws@),
            begin <= end <= raws.len(),
        ensures
            out.wf(),
            out@ == LexerView::start(begin as int, end as int),
            out.text == text,
            out.raws == raws,
    {
        Lexer {
            text,
            raws,
            begin,
            end,
            at: begin,
            token: Token::EOL,
            peek: Token::EOL,
            token_group: (begin, begin),
            peek_group: (begin, begin),
        }
    }

    /// Whether the next token stands where an operand may begin.
    pub fn prefix(&self) -> (out: bool)
        ensures
            out == prefixed(self.peek@),
    {
        match self.peek {
            Token::Prefix(_) => true,
            Token::Infix(_) => true,
            Token::Bind => true,
            Token::LeftConditional => true,
            Token::RightConditional => true,
            Token::InfixR(_) => true,
            Token::Concatenator => true,
            Token::Pair => true,
            Token::Call => true,
            Token::Index => true,
            Token::EOL => true,
            _ => false,
        }
    }

    /// The raw tokens `raws[from..to]` written with one blank between neighbours.
    pub fn span_string(&self, from: usize, to: usize) -> (out: String)
        requires
            spanned(self.text@, self.raws@),
            from <= to <= self.raws.len(),
        ensures
            out@ == span_text(self.text@, self.raws@, from as int, to as int),
    {
        let mut parts: Vec<String> = Vec::new();
        let mut at = from;
        while at < to
            invariant
                from <= at <= to <= self.raws.len(),
                spanned(self.text@, self.raws@),
                parts.len() == at - from,
                forall|i: int|
                    0 <= i < at - from ==> parts[i]@ == raw_text(self.text@, self.raws[from + i]),
            decreases to - at,
        {
            let raw = self.raws[at];
            assert(fits(self.text@, raw));
            parts.push(slice_string(self.text, raw.from, raw.to));
            at += 1;
        }
        assert(parts.deep_view() =~= raw_texts(self.text@, self.raws@, from as int, to as int));
        join(&parts, " ")
    }

    /// Collects the contents of a pair of brackets: the place of the closing
    /// bracket, or the end where none closes.
    pub fn collect(&self, from: usize) -> (stop: usize)
        requires
            0 < from <= self.end <= self.raws.len(),
        ensures
            stop == group_stop(self.raws@, from as int, self.end as int, 1),
            from <= stop <= self.end,
    {
        let mut depth: usize = 1;
        let mut at = from;
        proof {
            lemma_group_stop(self.raws@, from as int, self.end as int, 1);
        }
        while at < self.end
            invariant
                0 < from <= at <= self.end <= self.raws.len(),
                depth >= 1,
                depth <= 1 + (at - from),
                group_stop(self.raws@, from as int, self.end as int, 1) == group_stop(
                    self.raws@,
                    at as int,
                    self.end as int,
                    depth as nat,
                ),
            decreases self.end - at,
        {
            let kind = self.raws[at].kind;
            if kind == Kind::Open {
                depth += 1;
            } else if kind == Kind::Close {
                if depth <= 1 {
                    return at;
                }
                depth -= 1;
            }
            at += 1;
        }
        at
    }

    /// The token that a name stands for.
    fn read_name(&self, raw: Raw) -> (out: Token)
        requires
            raw.from <= raw.to <= self.text.len(),
        ensures
            out@ == name_token(raw_text(self.text@, raw)),
    {
        let text = self.text;
        let (from, to) = (raw.from, raw.to);
        if spells(text, from, to, "and") || spells(text, from, to, "or") || spells(
            text,
            from,
            to,
            "xor",
        ) || spells(text, from, to, "in") {
            Token::Infix(slice_string(text, from, to))
        } else if spells(text, from, to, "not") || spells(text, from, to, "new") {
            Token::Prefix(slice_string(text, from, to))
        } else if spells(text, from, to, "true") {
            Token::Boolean(true)
        } else if spells(text, from, to, "false") {
            Token::Boolean(false)
        } else if spells(text, from, to, "null") {
            Token::Null
        } else if spells(text, from, to, "if") {
            Token::LeftConditional
        } else if spells(text, from, to, "else") {
            Token::RightConditional
        } else {
            Token::Name(slice_string(text, from, to))
        }
    }

    /// The token that an operator stands for.
    fn read_operator(&self, raw: Raw, prefix: bool) -> (out: Token)
        requires
            raw.from <= raw.to <= self.text.len(),
        ensures
            out@ == operator_token(raw_text(self.text@, raw), prefix),
    {
        let text = self.text;
        let (from, to) = (raw.from, raw.to);
        if prefix {
            Token::Prefix(slice_string(text, from, to))
        } else if spells(text, from, to, ",") {
            Token::Concatenator
        } else if spells(text, from, to, ":") {
            Token::Pair
        } else if spells(text, from, to, "^") || spells(text, from, to, "->") || spells(
            text,
            from,
            to,
            "=>",
        ) || spells(text, from, to, ".") {
            Token::InfixR(slice_string(text, from, to))
        } else if spells(text, from, to, "<-") {
            Token::Bind
        } else {
            Token::Infix(slice_string(text, from, to))
        }
    }

    /// Moves one token on, ignoring white space.
    pub fn next(&mut self)
        requires
            old(self).wf(),
        ensures
            final(self).wf(),
            final(self)@ == next_spec(old(self).text@, old(self).raws@, old(self)@),
            final(self).text == old(self).text,
            final(self).raws == old(self).raws,
            final(self).begin == old(self).begin,
            final(self).end == old(self).end,
            final(self)@.measure() <= old(self)@.measure(),
            !(old(self).peek@ is EOL) ==> final(self)@.measure() < old(self)@.measure(),
    {
        let prefix = self.prefix();
        let mut token = Token::EOL;
        let mut group = (self.at, self.at);
        let mut next = self.at;
        if self.at < self.end {
            let raw = self.raws[self.at];
            assert(fits(self.text@, raw));
            next = self.at + 1;
            match raw.kind {
                Kind::Number => {
                    let literal = slice_string(self.text, raw.from, raw.to);
                    match Number::parse(literal.as_str()) {
                        Some(number) => {
                            token = Token::Number(number);
                        },
                        None => {},
                    }
                },
                Kind::Text => {
                    token = Token::String(slice_string(self.text, raw.from + 1, raw.to - 1));
                },
                Kind::Name => {
                    token = self.read_name(raw);
                },
                Kind::Env => {
                    token = Token::Env(String::new());
                },
                Kind::Receive => {
                    token = Token::Receive(slice_string(self.text, raw.from, raw.to));
                },
                Kind::Open => {
                    let symbol = self.text[raw.from];
                    if prefix {
                        let stop = self.collect(self.at + 1);
                        let inner = self.span_string(self.at + 1, stop);
                        group = (self.at + 1, stop);
                        next = if stop < self.end {
                            stop + 1
                        } else {
                            self.end
                        };
                        token = if symbol == '(' {
                            Token::Parenthesis(inner)
                        } else if symbol == '[' {
                            Token::Sequence(inner)
                        } else {
                            Token::Meta(inner)
                        };
                    } else {
                        token = if symbol == '(' {
                            Token::Call
                        } else if symbol == '[' {
                            Token::Index
                        } else {
                            Token::EOL
                        };
                    }
                },
                Kind::Close => {
                    token = Token::RightBracket;
                },
                Kind::Operator => {
                    token = self.read_operator(raw, prefix);
                },
            }
        }
        self.token = self.peek.clone();
        self.token_group = self.peek_group;
        self.peek = token;
        self.peek_group = group;
        self.at = next;
    }
}

} // verus!
