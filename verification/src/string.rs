//! Character-level helpers shared by the text passes.

use vstd::prelude::*;

verus! {

/// How often `symbol` occurs in `text`.
pub open spec fn occurrences(text: Seq<char>, symbol: char) -> nat
    decreases text.len(),
{
    if text.len() == 0 {
        0
    } else {
        occurrences(text.drop_last(), symbol) + if text.last() == symbol {
            1nat
        } else {
            0nat
        }
    }
}

/// The characters of a string slice, in order.
pub fn chars_of(text: &str) -> (out: Vec<char>)
    ensures
        out@ == text@,
{
    broadcast use vstd::string::group_string_axioms;
    let mut out: Vec<char> = Vec::new();
    for c in it: text.chars()
        invariant
            it.seq() == text@,
            out@ == it.seq().subrange(0, it.index() as int),
    {
        out.push(c);
        assert(out@ =~= it.seq().subrange(0, it.index() + 1));
    }
    assert(out@ =~= text@);
    out
}

/// Counts the occurrences of a character in a string.
pub fn count(pattern: &str, symbol: char) -> (total: usize)
    ensures
        total == occurrences(pattern@, symbol),
{
    let chars = chars_of(pattern);
    let mut total: usize = 0;
    let mut at: usize = 0;
    while at < chars.len()
        invariant
            at <= chars.len(),
            total == occurrences(chars@.subrange(0, at as int), symbol),
            total <= at,
        decreases chars.len() - at,
    {
        assert(chars@.subrange(0, at + 1).drop_last() =~= chars@.subrange(0, at as int));
        if chars[at] == symbol {
            total += 1;
        }
        at += 1;
    }
    assert(chars@.subrange(0, at as int) =~= chars@);
    total
}

/// The parts written one after another with `gap` between neighbours.
pub open spec fn joined(parts: Seq<Seq<char>>, gap: Seq<char>) -> Seq<char>
    decreases parts.len(),
{
    if parts.len() == 0 {
        Seq::empty()
    } else if parts.len() == 1 {
        parts[0]
    } else {
        joined(parts.drop_last(), gap) + gap + parts.last()
    }
}

/// `String::push`: the text grows by exactly the one character given.
#[verifier::external_body]
pub(crate) fn push_char(text: &mut String, symbol: char)
    ensures
        final(text)@ == old(text)@.push(symbol),
{
    text.push(symbol);
}

/// The string that holds the given characters.
pub fn string_of(chars: &Vec<char>) -> (out: String)
    ensures
        out@ == chars@,
{
    let mut out = String::new();
    let mut at: usize = 0;
    while at < chars.len()
        invariant
            at <= chars.len(),
            out@ == chars@.subrange(0, at as int),
        decreases chars.len() - at,
    {
        push_char(&mut out, chars[at]);
        at += 1;
        assert(out@ =~= chars@.subrange(0, at as int));
    }
    assert(chars@.subrange(0, at as int) =~= chars@);
    out
}

/// The string that holds `chars[from..to]`.
pub fn slice_string(chars: &Vec<char>, from: usize, to: usize) -> (out: String)
    requires
        from <= to <= chars.len(),
    ensures
        out@ == chars@.subrange(from as int, to as int),
{
    let mut out = String::new();
    let mut at: usize = from;
    while at < to
        invariant
            from <= at <= to <= chars.len(),
            out@ == chars@.subrange(from as int, at as int),
        decreases to - at,
    {
        push_char(&mut out, chars[at]);
        at += 1;
        assert(out@ =~= chars@.subrange(from as int, at as int));
    }
    out
}

/// Whether two slices hold the same characters.
pub fn same_text(left: &str, right: &str) -> (same: bool)
    ensures
        same == (left@ == right@),
{
    let a = chars_of(left);
    let b = chars_of(right);
    same_chars(&a, &b)
}

/// Whether two character vectors are equal.
pub fn same_chars(left: &Vec<char>, right: &Vec<char>) -> (same: bool)
    ensures
        same == (left@ == right@),
{
    if left.len() != right.len() {
        return false;
    }
    let mut at: usize = 0;
    while at < left.len()
        invariant
            at <= left.len(),
            left.len() == right.len(),
            left@.subrange(0, at as int) == right@.subrange(0, at as int),
        decreases left.len() - at,
    {
        if left[at] != right[at] {
            return false;
        }
        at += 1;
        assert(left@.subrange(0, at as int) =~= left@.subrange(0, at - 1).push(left@[at - 1]));
        assert(right@.subrange(0, at as int) =~= right@.subrange(0, at - 1).push(right@[at - 1]));
    }
    assert(left@.subrange(0, at as int) =~= left@);
    assert(right@.subrange(0, at as int) =~= right@);
    true
}

/// A fresh copy of each string, in order.
pub fn copy_texts(texts: &Vec<String>) -> (out: Vec<String>)
    ensures
        out.deep_view() == texts.deep_view(),
        out@ == texts@,
{
    let out = texts.clone();
    assert(out@ =~= texts@);
    out
}

/// Writes the parts one after another with `gap` between neighbours.
pub fn join(parts: &Vec<String>, gap: &str) -> (out: String)
    ensures
        out@ == joined(parts.deep_view(), gap@),
{
    let mut out = String::new();
    let mut at: usize = 0;
    while at < parts.len()
        invariant
            at <= parts.len(),
            out@ == joined(parts.deep_view().subrange(0, at as int), gap@),
        decreases parts.len() - at,
    {
        let ghost before = parts.deep_view().subrange(0, at as int);
        let ghost after = parts.deep_view().subrange(0, at + 1);
        assert(after.drop_last() =~= before);
        assert(after.last() == parts[at as int]@);
        if at > 0 {
            out.append(gap);
        }
        out.append(parts[at].as_str());
        assert(out@ =~= joined(after, gap@));
        at += 1;
    }
    assert(parts.deep_view().subrange(0, at as int) =~= parts.deep_view());
    out
}

/// Whether two lists hold the same texts in the same order.
pub fn same_texts(left: &Vec<String>, right: &Vec<String>) -> (same: bool)
    ensures
        same == (left.deep_view() == right.deep_view()),
{
    if left.len() != right.len() {
        assert(left.deep_view().len() != right.deep_view().len());
        return false;
    }
    let mut at: usize = 0;
    while at < left.len()
        invariant
            at <= left.len(),
            left.len() == right.len(),
            forall|i: int| 0 <= i < at ==> left[i]@ == right[i]@,
        decreases left.len() - at,
    {
        if left[at] != right[at] {
            assert(left.deep_view()[at as int] != right.deep_view()[at as int]);
            return false;
        }
        at += 1;
    }
    assert(left.deep_view() =~= right.deep_view());
    true
}

/// The character of a decimal digit.
pub open spec fn digit_of(value: nat) -> char
    recommends
        value < 10,
{
    if value == 0 {
        '0'
    } else if value == 1 {
        '1'
    } else if value == 2 {
        '2'
    } else if value == 3 {
        '3'
    } else if value == 4 {
        '4'
    } else if value == 5 {
        '5'
    } else if value == 6 {
        '6'
    } else if value == 7 {
        '7'
    } else if value == 8 {
        '8'
    } else {
        '9'
    }
}

/// A natural number written in decimal.
pub open spec fn decimal(value: nat) -> Seq<char>
    decreases value,
{
    if value < 10 {
        seq![digit_of(value)]
    } else {
        decimal(value / 10).push(digit_of(value % 10))
    }
}

/// An integer written in decimal, with `-` before a negative one.
pub open spec fn signed_decimal(value: int) -> Seq<char> {
    if value < 0 {
        seq!['-'] + decimal((-value) as nat)
    } else {
        decimal(value as nat)
    }
}

/// The value of a decimal digit, if the character is one.
pub open spec fn digit_value(symbol: char) -> Option<nat> {
    if '0' <= symbol <= '9' {
        Some((symbol as u32 - '0' as u32) as nat)
    } else {
        None
    }
}

/// The natural number that a text of decimal digits stands for. A text
/// that is empty, or holds any other character, stands for none.
pub open spec fn number_of(text: Seq<char>) -> Option<nat>
    decreases text.len(),
{
    if text.len() == 0 {
        None
    } else if text.len() == 1 {
        digit_value(text[0])
    } else {
        match (number_of(text.drop_last()), digit_value(text.last())) {
            (Some(high), Some(low)) => Some(high * 10 + low),
            _ => None,
        }
    }
}

/// The character of a decimal digit.
fn digit_char(value: usize) -> (out: char)
    requires
        value < 10,
    ensures
        out == digit_of(value as nat),
{
    if value == 0 {
        '0'
    } else if value == 1 {
        '1'
    } else if value == 2 {
        '2'
    } else if value == 3 {
        '3'
    } else if value == 4 {
        '4'
    } else if value == 5 {
        '5'
    } else if value == 6 {
        '6'
    } else if value == 7 {
        '7'
    } else if value == 8 {
        '8'
    } else {
        '9'
    }
}

/// Writes a number in decimal.
pub fn to_decimal(value: usize) -> (out: String)
    ensures
        out@ == decimal(value as nat),
{
    let mut digits: Vec<char> = Vec::new();
    let mut rest = value;
    // The digits come out lowest first.
    while rest >= 10
        invariant
            decimal(value as nat) == decimal(rest as nat) + digits@.reverse(),
        decreases rest,
    {
        let ghost before = digits@;
        digits.push(digit_char(rest % 10));
        assert(digits@.reverse() =~= seq![digit_of((rest % 10) as nat)] + before.reverse());
        assert(decimal(rest as nat) + before.reverse() =~= decimal((rest / 10) as nat)
            + digits@.reverse());
        rest = rest / 10;
    }
    let ghost before = digits@;
    digits.push(digit_char(rest));
    assert(digits@.reverse() =~= decimal(rest as nat) + before.reverse());
    let mut out = String::new();
    let mut at = digits.len();
    while at > 0
        invariant
            at <= digits.len(),
            out@ == digits@.reverse().subrange(0, digits.len() - at),
        decreases at,
    {
        at -= 1;
        push_char(&mut out, digits[at]);
        assert(out@ =~= digits@.reverse().subrange(0, digits.len() - at));
    }
    assert(digits@.reverse().subrange(0, digits.len() as int) =~= digits@.reverse());
    out
}

/// Writes a number below zero in decimal: `-` and the distance from zero.
pub fn to_negative_decimal(distance: usize) -> (out: String)
    requires
        distance > 0,
    ensures
        out@ == signed_decimal(-(distance as int)),
{
    let mut out = String::new();
    push_char(&mut out, '-');
    let digits = to_decimal(distance);
    out.append(digits.as_str());
    assert(out@ =~= seq!['-'] + decimal(distance as nat));
    out
}

/// Reads a text of decimal digits as a number, where it is one that fits.
pub fn parse_decimal(text: &str) -> (out: Option<usize>)
    ensures
        match out {
            Some(value) => number_of(text@) == Some(value as nat),
            None => number_of(text@) matches Some(value) ==> value > usize::MAX,
        },
{
    let chars = chars_of(text);
    if chars.len() == 0 {
        return None;
    }
    let mut value: usize = 0;
    let mut at: usize = 0;
    while at < chars.len()
        invariant
            at <= chars.len(),
            chars@ == text@,
            at > 0 ==> number_of(chars@.subrange(0, at as int)) == Some(value as nat),
            at == 0 ==> value == 0,
        decreases chars.len() - at,
    {
        let symbol = chars[at];
        let ghost part = chars@.subrange(0, at + 1);
        assert(part.drop_last() =~= chars@.subrange(0, at as int));
        assert(part.last() == symbol);
        if !('0' <= symbol && symbol <= '9') {
            proof {
                lemma_number_of_prefix(chars@, at + 1);
            }
            return None;
        }
        let low = (symbol as u32 - '0' as u32) as usize;
        if value > (usize::MAX - low) / 10 {
            proof {
                lemma_number_of_grows(chars@, at + 1);
            }
            return None;
        }
        value = value * 10 + low;
        at += 1;
    }
    assert(chars@.subrange(0, at as int) =~= chars@);
    Some(value)
}

/// A text stands for a number only if each of its beginnings does.
proof fn lemma_number_of_prefix(text: Seq<char>, upto: int)
    requires
        0 < upto <= text.len(),
        number_of(text.subrange(0, upto)) is None,
    ensures
        number_of(text) is None,
    decreases text.len() - upto,
{
    if upto < text.len() {
        assert(text.subrange(0, upto + 1).drop_last() =~= text.subrange(0, upto));
        lemma_number_of_prefix(text, upto + 1);
    } else {
        assert(text.subrange(0, upto) =~= text);
    }
}

/// The number that a text stands for is no less than that of each of its beginnings.
proof fn lemma_number_of_grows(text: Seq<char>, upto: int)
    requires
        0 < upto <= text.len(),
    ensures
        number_of(text) matches Some(value) ==> number_of(text.subrange(0, upto)) matches Some(part)
            && part <= value,
    decreases text.len() - upto,
{
    if upto < text.len() {
        assert(text.subrange(0, upto + 1).drop_last() =~= text.subrange(0, upto));
        lemma_number_of_grows(text, upto + 1);
    } else {
        assert(text.subrange(0, upto) =~= text);
    }
}

} // verus!
