//! The character classes of the source language.
//!
//! Below 128 each class is spelled out here. Above, a character belongs to a
//! class when the `regex` crate's Unicode tables say so.

use vstd::prelude::*;
use regex::Regex;

verus! {

/// Whether the regular expression `pattern` has a match in `text`.
pub uninterp spec fn regex_match(pattern: Seq<char>, text: Seq<char>) -> bool;

/// The pattern for one character of white space.
pub open spec fn space_pattern() -> Seq<char> {
    "^\\s$"@
}

/// The pattern for one decimal digit.
pub open spec fn digit_pattern() -> Seq<char> {
    "^\\d$"@
}

/// The pattern for one character of a word.
pub open spec fn word_pattern() -> Seq<char> {
    "^\\w$"@
}

/// `Regex::new` and `Regex::is_match`, on one of the three class patterns
/// and a text of one character: whether the character is in the class.
#[verifier::external_body]
fn class_match(pattern: &str, symbol: char) -> (out: bool)
    requires
        pattern@ == space_pattern() || pattern@ == digit_pattern() || pattern@ == word_pattern(),
    ensures
        out == regex_match(pattern@, seq![symbol]),
{
    Regex::new(pattern).unwrap().is_match(symbol.encode_utf8(&mut [0u8; 4]))
}

/// Whether a character is below 128.
pub open spec fn plain(symbol: char) -> bool {
    (symbol as u32) < 128
}

/// White space: blank, tab, line feed, vertical tab, form feed, carriage
/// return, and Unicode's other white space.
pub open spec fn space(symbol: char) -> bool {
    if plain(symbol) {
        symbol == ' ' || symbol == '\t' || symbol == '\n' || symbol == '\r' || symbol == '\u{b}'
            || symbol == '\u{c}'
    } else {
        regex_match(space_pattern(), seq![symbol])
    }
}

/// A decimal digit.
pub open spec fn digit(symbol: char) -> bool {
    if plain(symbol) {
        '0' <= symbol <= '9'
    } else {
        regex_match(digit_pattern(), seq![symbol])
    }
}

/// A character of a word: a letter, a digit or the underscore.
pub open spec fn word(symbol: char) -> bool {
    if plain(symbol) {
        ('0' <= symbol <= '9') || ('a' <= symbol <= 'z') || ('A' <= symbol <= 'Z') || symbol
            == '_'
    } else {
        regex_match(word_pattern(), seq![symbol])
    }
}

/// A quotation mark, single or double.
pub open spec fn quote(symbol: char) -> bool {
    symbol == '\'' || symbol == '"'
}

/// An opening bracket.
pub open spec fn opener(symbol: char) -> bool {
    symbol == '(' || symbol == '[' || symbol == '{'
}

/// A closing bracket.
pub open spec fn closer(symbol: char) -> bool {
    symbol == ')' || symbol == ']' || symbol == '}'
}

/// Whether the closing bracket `close` matches the opening bracket `open`.
pub open spec fn paired(open: char, close: char) -> bool {
    (open == '(' && close == ')') || (open == '[' && close == ']') || (open == '{' && close
        == '}')
}

/// Whether a character is white space.
pub fn is_space(symbol: char) -> (out: bool)
    ensures
        out == space(symbol),
{
    if (symbol as u32) < 128 {
        symbol == ' ' || symbol == '\t' || symbol == '\n' || symbol == '\r' || symbol == '\u{b}'
            || symbol == '\u{c}'
    } else {
        class_match("^\\s$", symbol)
    }
}

/// Whether a character is a decimal digit.
pub fn is_digit(symbol: char) -> (out: bool)
    ensures
        out == digit(symbol),
{
    if (symbol as u32) < 128 {
        '0' <= symbol && symbol <= '9'
    } else {
        class_match("^\\d$", symbol)
    }
}

/// Whether a character belongs to a word.
pub fn is_word(symbol: char) -> (out: bool)
    ensures
        out == word(symbol),
{
    if (symbol as u32) < 128 {
        ('0' <= symbol && symbol <= '9') || ('a' <= symbol && symbol <= 'z') || ('A' <= symbol
            && symbol <= 'Z') || symbol == '_'
    } else {
        class_match("^\\w$", symbol)
    }
}

/// Whether a character is a quotation mark.
pub fn is_quote(symbol: char) -> (out: bool)
    ensures
        out == quote(symbol),
{
    symbol == '\'' || symbol == '"'
}

/// Whether a character is an opening bracket.
pub fn is_opener(symbol: char) -> (out: bool)
    ensures
        out == opener(symbol),
{
    symbol == '(' || symbol == '[' || symbol == '{'
}

/// Whether a character is a closing bracket.
pub fn is_closer(symbol: char) -> (out: bool)
    ensures
        out == closer(symbol),
{
    symbol == ')' || symbol == ']' || symbol == '}'
}

} // verus!
